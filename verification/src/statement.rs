//! The SQL that the store sends: identifiers are written into the text, values
//! are always bound as parameters.

use vstd::prelude::*;
use crate::project::{DataType, Project};
use crate::text::{join, joined, owned, texts};

verus! {

/// The name of the column that every project table has from the start.
pub open spec fn reserved_column() -> Seq<char> {
    "__timestamp__"@
}

/// The name of the reserved timestamp column.
pub fn timestamp_column() -> (r: &'static str)
    ensures
        r@ == reserved_column(),
{
    "__timestamp__"
}

/// A value bound to a placeholder of a statement.
#[derive(Debug, PartialEq, Eq)]
pub enum Param {
    Integer(i64),
    Text(String),
}

impl Param {
    /// The bound value as plain data: the integer, or the characters of the text.
    pub open spec fn view(&self) -> ParamView {
        match self {
            Param::Integer(n) => ParamView::Integer(*n),
            Param::Text(s) => ParamView::Text(s@),
        }
    }
}

/// What a parameter holds, as plain data.
pub ghost enum ParamView {
    Integer(i64),
    Text(Seq<char>),
}

/// One statement: its text, and the values for its placeholders in order.
#[derive(Debug, PartialEq, Eq)]
pub struct Statement {
    pub sql: String,
    pub params: Vec<Param>,
}

impl Statement {
    /// The values bound by this statement, in order, as plain data.
    pub open spec fn bound(&self) -> Seq<ParamView> {
        Seq::new(self.params@.len(), |i: int| self.params@[i].view())
    }

    /// This statement has the text `sql` and binds exactly `params`.
    pub open spec fn reads(&self, sql: Seq<char>, params: Seq<ParamView>) -> bool {
        self.sql@ == sql && self.bound() == params
    }
}

/// The text that creates the table of a new project.
pub open spec fn create_table_sql(table: Seq<char>) -> Seq<char> {
    "CREATE TABLE "@ + table + " ("@ + reserved_column() + " INTEGER NOT NULL)"@
}

/// The text that adds a column to a project's table.
pub open spec fn add_column_sql(table: Seq<char>, column: Seq<char>, column_type: DataType) -> Seq<
    char,
> {
    "ALTER TABLE "@ + table + " ADD COLUMN "@ + column + " "@ + column_type.token()
}

/// `n` placeholders, separated by commas.
pub open spec fn placeholders(n: nat) -> Seq<char>
    decreases n,
{
    if n == 0 {
        Seq::empty()
    } else if n == 1 {
        "?"@
    } else {
        placeholders((n - 1) as nat) + ","@ + "?"@
    }
}

/// The text that inserts one row into a project's table.
pub open spec fn insert_row_sql(table: Seq<char>, columns: Seq<Seq<char>>) -> Seq<char> {
    "INSERT INTO "@ + table + " ("@ + joined(columns, ","@) + ") VALUES ("@ + placeholders(
        columns.len(),
    ) + ")"@
}

/// The text that reads every row of a project's table.
pub open spec fn select_rows_sql(table: Seq<char>) -> Seq<char> {
    "SELECT * FROM "@ + table
}

/// The statement that creates a project's table, with the reserved column only.
pub fn create_table(table: &str) -> (s: Statement)
    ensures
        s.reads(create_table_sql(table@), Seq::empty()),
{
    let mut sql = owned("CREATE TABLE ");
    sql.append(table);
    sql.append(" (");
    sql.append(timestamp_column());
    sql.append(" INTEGER NOT NULL)");
    let s = Statement { sql, params: Vec::new() };
    assert(s.bound() =~= Seq::empty());
    s
}

/// The statement that records a new project in the registry and hands its row back.
pub fn insert_project(name: &str, encoded: &str, created_at: i64) -> (s: Statement)
    ensures
        s.reads(
            "INSERT INTO projects (name, encoded_name, created_at) VALUES (?, ?, ?) RETURNING *"@,
            seq![ParamView::Text(name@), ParamView::Text(encoded@), ParamView::Integer(created_at)],
        ),
{
    let mut params = Vec::new();
    params.push(Param::Text(owned(name)));
    params.push(Param::Text(owned(encoded)));
    params.push(Param::Integer(created_at));
    let s = Statement {
        sql: owned(
            "INSERT INTO projects (name, encoded_name, created_at) VALUES (?, ?, ?) RETURNING *",
        ),
        params,
    };
    assert(s.bound() =~= seq![
        ParamView::Text(name@),
        ParamView::Text(encoded@),
        ParamView::Integer(created_at),
    ]);
    s
}

/// The statement that reads every project of the registry.
pub fn select_projects() -> (s: Statement)
    ensures
        s.reads("SELECT * FROM projects"@, Seq::empty()),
{
    let s = Statement { sql: owned("SELECT * FROM projects"), params: Vec::new() };
    assert(s.bound() =~= Seq::empty());
    s
}

/// The statement that looks a project up by the name its user gave it.
pub fn select_project(name: &str) -> (s: Statement)
    ensures
        s.reads("SELECT * FROM projects WHERE name = ?"@, seq![ParamView::Text(name@)]),
{
    let mut params = Vec::new();
    params.push(Param::Text(owned(name)));
    let s = Statement { sql: owned("SELECT * FROM projects WHERE name = ?"), params };
    assert(s.bound() =~= seq![ParamView::Text(name@)]);
    s
}

/// The statement that reads the registered columns of one project.
pub fn select_columns(project_id: i64) -> (s: Statement)
    ensures
        s.reads(
            "SELECT * FROM columns WHERE project_id = ?"@,
            seq![ParamView::Integer(project_id)],
        ),
{
    let mut params = Vec::new();
    params.push(Param::Integer(project_id));
    let s = Statement { sql: owned("SELECT * FROM columns WHERE project_id = ?"), params };
    assert(s.bound() =~= seq![ParamView::Integer(project_id)]);
    s
}

/// The statement that reads every row of a project's table.
pub fn select_rows(table: &str) -> (s: Statement)
    ensures
        s.reads(select_rows_sql(table@), Seq::empty()),
{
    let mut sql = owned("SELECT * FROM ");
    sql.append(table);
    let s = Statement { sql, params: Vec::new() };
    assert(s.bound() =~= Seq::empty());
    s
}

/// The statements that set the registry up: one relation for projects, one for
/// columns, the latter unique on a project's logical names and on its physical ones.
pub fn migrations() -> (v: Vec<Statement>)
    ensures
        v@.len() == 2,
        v@[0].reads(
            "CREATE TABLE IF NOT EXISTS projects (id INTEGER PRIMARY KEY, name TEXT NOT NULL UNIQUE, encoded_name TEXT NOT NULL, created_at BIGINT NOT NULL)"@,
            Seq::empty(),
        ),
        v@[1].reads(
            "CREATE TABLE IF NOT EXISTS columns (project_id INTEGER NOT NULL REFERENCES projects (id), name TEXT NOT NULL, encoded_name TEXT NOT NULL, column_type TEXT NOT NULL, created_at BIGINT NOT NULL, UNIQUE (project_id, name), UNIQUE (project_id, encoded_name))"@,
            Seq::empty(),
        ),
{
    let first = Statement {
        sql: owned(
            "CREATE TABLE IF NOT EXISTS projects (id INTEGER PRIMARY KEY, name TEXT NOT NULL UNIQUE, encoded_name TEXT NOT NULL, created_at BIGINT NOT NULL)",
        ),
        params: Vec::new(),
    };
    let second = Statement {
        sql: owned(
            "CREATE TABLE IF NOT EXISTS columns (project_id INTEGER NOT NULL REFERENCES projects (id), name TEXT NOT NULL, encoded_name TEXT NOT NULL, column_type TEXT NOT NULL, created_at BIGINT NOT NULL, UNIQUE (project_id, name), UNIQUE (project_id, encoded_name))",
        ),
        params: Vec::new(),
    };
    assert(first.bound() =~= Seq::empty());
    assert(second.bound() =~= Seq::empty());
    let mut v = Vec::new();
    v.push(first);
    v.push(second);
    v
}

/// `n` placeholders, separated by commas.
pub fn placeholder_list(n: usize) -> (r: String)
    ensures
        r@ == placeholders(n as nat),
{
    let mut out = String::new();
    let mut i: usize = 0;
    while i < n
        invariant
            i <= n,
            out@ == placeholders(i as nat),
        decreases n - i,
    {
        proof {
            if i == 0 {
                assert(out@ + "?"@ =~= "?"@);
            }
        }
        if i > 0 {
            out.append(",");
        }
        out.append("?");
        i += 1;
    }
    out
}

impl Project {
    /// The statement that alters this project's table to add a column of the given
    /// physical name and type.
    pub fn add_column(&self, encoded_name: &str, column_type: DataType) -> (s: Statement)
        ensures
            s.reads(add_column_sql(self.encoded@, encoded_name@, column_type), Seq::empty()),
    {
        let mut sql = owned("ALTER TABLE ");
        sql.append(self.encoded.as_str());
        sql.append(" ADD COLUMN ");
        sql.append(encoded_name);
        sql.append(" ");
        sql.append(column_type.to_sql());
        let s = Statement { sql, params: Vec::new() };
        assert(s.bound() =~= Seq::empty());
        s
    }

    /// The statement that records a column of this project in the registry and
    /// hands its row back.
    pub fn insert_column(
        &self,
        name: &str,
        encoded_name: &str,
        column_type: DataType,
        created_at: i64,
    ) -> (s: Statement)
        ensures
            s.reads(
                "INSERT INTO columns (project_id, name, encoded_name, column_type, created_at) VALUES (?, ?, ?, ?, ?) RETURNING *"@,
                seq![
                    ParamView::Integer(self.id),
                    ParamView::Text(name@),
                    ParamView::Text(encoded_name@),
                    ParamView::Text(column_type.token()),
                    ParamView::Integer(created_at),
                ],
            ),
    {
        let mut params = Vec::new();
        params.push(Param::Integer(self.id));
        params.push(Param::Text(owned(name)));
        params.push(Param::Text(owned(encoded_name)));
        params.push(Param::Text(owned(column_type.to_sql())));
        params.push(Param::Integer(created_at));
        let s = Statement {
            sql: owned(
                "INSERT INTO columns (project_id, name, encoded_name, column_type, created_at) VALUES (?, ?, ?, ?, ?) RETURNING *",
            ),
            params,
        };
        assert(s.bound() =~= seq![
            ParamView::Integer(self.id),
            ParamView::Text(name@),
            ParamView::Text(encoded_name@),
            ParamView::Text(column_type.token()),
            ParamView::Integer(created_at),
        ]);
        s
    }

    /// The text of the statement that inserts one row into this project's table:
    /// the given columns by name, and one placeholder for each.
    pub fn generate_query(&self, encoded_names: &Vec<String>) -> (sql: String)
        ensures
            sql@ == insert_row_sql(self.encoded@, texts(encoded_names@)),
    {
        let mut sql = owned("INSERT INTO ");
        sql.append(self.encoded.as_str());
        sql.append(" (");
        let names = join(encoded_names, ",");
        sql.append(names.as_str());
        sql.append(") VALUES (");
        let marks = placeholder_list(encoded_names.len());
        sql.append(marks.as_str());
        sql.append(")");
        sql
    }
}

} // verus!
