//! What the store asks of a relational backend, and what the backend answers.

use vstd::prelude::*;
use crate::project::{Column, DataType, Project, RawColumn, RawProject};
use crate::statement::{
    add_column_sql, create_table, create_table_sql, insert_project, insert_row_sql,
    reserved_column, select_columns, select_project, select_projects, select_rows, select_rows_sql,
    timestamp_column, Param, ParamView, Statement,
};
use crate::text::{contains_text, has_infix, owned, texts};

verus! {

/// One cell of a row of a project's table: the physical column, and the value
/// unless the cell is empty.
#[derive(Debug, PartialEq, Eq)]
pub struct RawCell {
    pub name: String,
    pub value: Option<String>,
}

/// One row of a project's table: its timestamp, and its other cells.
#[derive(Debug, PartialEq, Eq)]
pub struct RawRow {
    pub timestamp: i64,
    pub cells: Vec<RawCell>,
}

/// Why the backend refused a request.
#[derive(Debug, Clone, Copy, PartialEq, Eq, Structural)]
pub enum FailureKind {
    /// A uniqueness rule was violated, or the table or column exists already.
    Conflict,
    /// The table that the request names does not exist.
    Missing,
    /// Anything else.
    Other,
}

/// A refusal of the backend, with its message word for word.
#[derive(Debug, PartialEq, Eq)]
pub struct Failure {
    pub kind: FailureKind,
    pub message: String,
}

/// The kind of a refusal, read off the backend's own report: a violated
/// uniqueness rule or a name that exists already is a conflict, a table that is
/// not there is missing.
pub open spec fn failure_kind(unique_violation: bool, message: Seq<char>) -> FailureKind {
    if unique_violation || has_infix(message, "already exists"@) || has_infix(
        message,
        "duplicate column name"@,
    ) {
        FailureKind::Conflict
    } else if has_infix(message, "no such table"@) {
        FailureKind::Missing
    } else {
        FailureKind::Other
    }
}

impl Failure {
    /// Classifies what a backend reported.
    pub fn from_backend(unique_violation: bool, message: &str) -> (f: Failure)
        ensures
            f.kind == failure_kind(unique_violation, message@),
            f.message@ == message@,
    {
        let kind = if unique_violation || contains_text(message, "already exists") || contains_text(
            message,
            "duplicate column name",
        ) {
            FailureKind::Conflict
        } else if contains_text(message, "no such table") {
            FailureKind::Missing
        } else {
            FailureKind::Other
        };
        Failure { kind, message: owned(message) }
    }
}

/// A request to the backend. Each is carried out as one unit: all of it, or none.
#[derive(Debug, PartialEq, Eq)]
pub enum Action {
    /// Read every project of the registry.
    ListProjects,
    /// Look a project up by its logical name.
    FindProject { name: String },
    /// Create the table of a project and record the project.
    CreateProject { name: String, encoded: String, created_at: i64 },
    /// Read the registered columns of a project.
    ListColumns { project_id: i64 },
    /// Add a column to a project's table and record the column.
    CreateColumn {
        project_id: i64,
        table: String,
        name: String,
        encoded: String,
        column_type: DataType,
        created_at: i64,
    },
    /// Insert one row into a project's table.
    InsertRow { table: String, columns: Vec<String>, timestamp: i64, values: Vec<String> },
    /// Read every row of a project's table.
    ReadRows { table: String },
}

/// The answer of the backend to a request.
#[derive(Debug, PartialEq, Eq)]
pub enum Response {
    /// The request was carried out and has nothing to hand back.
    Done,
    /// The rows of the `projects` relation that were asked for.
    Projects(Vec<RawProject>),
    /// The project that was looked up or created, if there is one.
    Project(Option<RawProject>),
    /// The rows of the `columns` relation that were asked for.
    Columns(Vec<RawColumn>),
    /// The column that was created.
    Column(RawColumn),
    /// The rows of a project's table.
    Rows(Vec<RawRow>),
    /// The request was refused; nothing of it was applied.
    Failed(Failure),
}

/// The values of an inserted row as bound parameters: the timestamp, then each text.
pub open spec fn row_params(timestamp: i64, values: Seq<Seq<char>>) -> Seq<ParamView> {
    seq![ParamView::Integer(timestamp)] + Seq::new(
        values.len(),
        |i: int| ParamView::Text(values[i]),
    )
}

impl Action {
    /// The statements that carry this request out against an SQL backend, to be
    /// run in order inside one transaction.
    pub fn statements(&self) -> (v: Vec<Statement>)
        ensures
            match *self {
                Action::ListProjects => v@.len() == 1 && v@[0].reads(
                    "SELECT * FROM projects"@,
                    Seq::empty(),
                ),
                Action::FindProject { name } => v@.len() == 1 && v@[0].reads(
                    "SELECT * FROM projects WHERE name = ?"@,
                    seq![ParamView::Text(name@)],
                ),
                Action::CreateProject { name, encoded, created_at } => v@.len() == 2 && v@[0].reads(
                    create_table_sql(encoded@),
                    Seq::empty(),
                ) && v@[1].reads(
                    "INSERT INTO projects (name, encoded_name, created_at) VALUES (?, ?, ?) RETURNING *"@,
                    seq![
                        ParamView::Text(name@),
                        ParamView::Text(encoded@),
                        ParamView::Integer(created_at),
                    ],
                ),
                Action::ListColumns { project_id } => v@.len() == 1 && v@[0].reads(
                    "SELECT * FROM columns WHERE project_id = ?"@,
                    seq![ParamView::Integer(project_id)],
                ),
                Action::CreateColumn {
                    project_id,
                    table,
                    name,
                    encoded,
                    column_type,
                    created_at,
                } => v@.len() == 2 && v@[0].reads(
                    add_column_sql(table@, encoded@, column_type),
                    Seq::empty(),
                ) && v@[1].reads(
                    "INSERT INTO columns (project_id, name, encoded_name, column_type, created_at) VALUES (?, ?, ?, ?, ?) RETURNING *"@,
                    seq![
                        ParamView::Integer(project_id),
                        ParamView::Text(name@),
                        ParamView::Text(encoded@),
                        ParamView::Text(column_type.token()),
                        ParamView::Integer(created_at),
                    ],
                ),
                Action::InsertRow { table, columns, timestamp, values } => v@.len() == 1
                    && v@[0].reads(
                    insert_row_sql(table@, seq![reserved_column()] + texts(columns@)),
                    row_params(timestamp, texts(values@)),
                ),
                Action::ReadRows { table } => v@.len() == 1 && v@[0].reads(
                    select_rows_sql(table@),
                    Seq::empty(),
                ),
            },
    {
        let mut v = Vec::new();
        match self {
            Action::ListProjects => {
                v.push(select_projects());
            },
            Action::FindProject { name } => {
                v.push(select_project(name.as_str()));
            },
            Action::CreateProject { name, encoded, created_at } => {
                v.push(create_table(encoded.as_str()));
                v.push(insert_project(name.as_str(), encoded.as_str(), *created_at));
            },
            Action::ListColumns { project_id } => {
                v.push(select_columns(*project_id));
            },
            Action::CreateColumn { project_id, table, name, encoded, column_type, created_at } => {
                let owner = Project {
                    id: *project_id,
                    name: String::new(),
                    encoded: table.clone(),
                    created_at: 0,
                };
                v.push(owner.add_column(encoded.as_str(), *column_type));
                v.push(owner.insert_column(name.as_str(), encoded.as_str(), *column_type, *created_at));
            },
            Action::InsertRow { table, columns, timestamp, values } => {
                v.push(insert_row(table.as_str(), columns, *timestamp, values));
            },
            Action::ReadRows { table } => {
                v.push(select_rows(table.as_str()));
            },
        }
        v
    }
}

/// The statement that inserts one row: the timestamp and the given values, bound
/// in the order of the named columns.
pub fn insert_row(table: &str, columns: &Vec<String>, timestamp: i64, values: &Vec<String>) -> (s:
    Statement)
    ensures
        s.reads(
            insert_row_sql(table@, seq![reserved_column()] + texts(columns@)),
            row_params(timestamp, texts(values@)),
        ),
{
    let mut names: Vec<String> = Vec::new();
    names.push(owned(timestamp_column()));
    let mut i: usize = 0;
    while i < columns.len()
        invariant
            i <= columns.len(),
            texts(names@) == seq![reserved_column()] + texts(columns@).take(i as int),
        decreases columns.len() - i,
    {
        let ghost before = names@;
        names.push(columns[i].clone());
        proof {
            let goal = seq![reserved_column()] + texts(columns@).take(i + 1);
            assert(texts(before).len() == i + 1);
            assert forall|k: int| 0 <= k < goal.len() implies texts(names@)[k] == goal[k] by {
                if k <= i {
                    assert(texts(before)[k] == before[k]@);
                }
            }
            assert(texts(names@) =~= goal);
        }
        i += 1;
    }
    proof {
        assert(texts(columns@).take(columns.len() as int) =~= texts(columns@));
    }
    let owner = Project { id: 0, name: String::new(), encoded: owned(table), created_at: 0 };
    let sql = owner.generate_query(&names);
    let mut params: Vec<Param> = Vec::new();
    params.push(Param::Integer(timestamp));
    let mut j: usize = 0;
    while j < values.len()
        invariant
            j <= values.len(),
            params@.len() == j + 1,
            params@[0] == Param::Integer(timestamp),
            forall|k: int|
                1 <= k <= j ==> (#[trigger] params@[k]).view() == ParamView::Text(values@[k - 1]@),
        decreases values.len() - j,
    {
        params.push(Param::Text(values[j].clone()));
        j += 1;
    }
    let s = Statement { sql, params };
    assert(s.bound() =~= row_params(timestamp, texts(values@)));
    s
}

} // verus!
