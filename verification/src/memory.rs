//! A backend that keeps its relations in memory: the registry of projects and
//! columns with its uniqueness rules, and the rows of the project tables.

use vstd::prelude::*;
use crate::backend::{Action, Failure, FailureKind, RawCell, RawRow, Response};
use crate::clock::{timestamp_in_range, valid_timestamp};
use crate::encoder::{identifier, is_identifier};
use crate::project::{
    column_rows, project_rows, Column, ColumnRow, DataType, ProjectRow, RawColumn, RawProject,
};
use crate::statement::{reserved_column, timestamp_column};
use crate::text::{owned, same_text, texts};

verus! {

/// The most projects that a registry holds: ids are positive 64-bit integers.
pub const PROJECT_LIMIT: u64 = 0x7fff_ffff_ffff_fffe;

/// A row of a project's table, with the table it belongs to.
#[derive(Debug, PartialEq, Eq)]
pub struct StoredRow {
    pub table: String,
    pub timestamp: i64,
    pub columns: Vec<String>,
    pub values: Vec<String>,
}

/// What a stored row holds, as plain data.
pub ghost struct DataRow {
    pub table: Seq<char>,
    pub timestamp: i64,
    pub columns: Seq<Seq<char>>,
    pub values: Seq<Seq<char>>,
}

impl View for StoredRow {
    type V = DataRow;

    open spec fn view(&self) -> DataRow {
        DataRow {
            table: self.table@,
            timestamp: self.timestamp,
            columns: texts(self.columns@),
            values: texts(self.values@),
        }
    }
}

/// The rows of `rows`, each as plain data.
pub open spec fn data_rows(rows: Seq<StoredRow>) -> Seq<DataRow> {
    Seq::new(rows.len(), |i: int| rows[i]@)
}

/// Some project of `ps` has the logical name `name`.
pub open spec fn project_named(ps: Seq<ProjectRow>, name: Seq<char>) -> bool {
    exists|i: int| 0 <= i < ps.len() && (#[trigger] ps[i]).name == name
}

/// Some project of `ps` owns the table `encoded`.
pub open spec fn table_named(ps: Seq<ProjectRow>, encoded: Seq<char>) -> bool {
    exists|i: int| 0 <= i < ps.len() && (#[trigger] ps[i]).encoded == encoded
}

/// `encoded` is the name of one of the registry's own two tables.
pub open spec fn registry_table(encoded: Seq<char>) -> bool {
    encoded == "projects"@ || encoded == "columns"@
}

/// The project `project_id` exists in `ps` and owns the table `table`.
pub open spec fn project_owns(ps: Seq<ProjectRow>, project_id: i64, table: Seq<char>) -> bool {
    exists|i: int| 0 <= i < ps.len() && (#[trigger] ps[i]).id == project_id && ps[i].encoded == table
}

/// The project `project_id` has a column of the logical name `name` in `cs`.
pub open spec fn column_named(cs: Seq<ColumnRow>, project_id: i64, name: Seq<char>) -> bool {
    exists|k: int|
        0 <= k < cs.len() && (#[trigger] cs[k]).project_id == project_id && cs[k].name == name
}

/// The project `project_id` has a column of the physical name `encoded` in `cs`.
pub open spec fn column_encoded(cs: Seq<ColumnRow>, project_id: i64, encoded: Seq<char>) -> bool {
    exists|k: int|
        0 <= k < cs.len() && (#[trigger] cs[k]).project_id == project_id && cs[k].encoded
            == encoded
}

/// The columns of the project `project_id` among `cs`, in the order of `cs`.
pub open spec fn columns_of(cs: Seq<ColumnRow>, project_id: i64) -> Seq<ColumnRow>
    decreases cs.len(),
{
    if cs.len() == 0 {
        Seq::empty()
    } else if cs.last().project_id == project_id {
        columns_of(cs.drop_last(), project_id).push(cs.last())
    } else {
        columns_of(cs.drop_last(), project_id)
    }
}

/// One stored row as the backend hands it out: a cell for each of its columns.
pub open spec fn row_shown(raw: RawRow, stored: DataRow) -> bool {
    &&& raw.timestamp == stored.timestamp
    &&& raw.cells@.len() == stored.columns.len()
    &&& forall|i: int|
        0 <= i < raw.cells@.len() ==> (#[trigger] raw.cells@[i]).name@ == stored.columns[i]
            && raw.cells@[i].value is Some && raw.cells@[i].value->0@ == stored.values[i]
}

/// The rows of the table `table` among `rows`, in the order of `rows`.
pub open spec fn rows_of(rows: Seq<DataRow>, table: Seq<char>) -> Seq<DataRow>
    decreases rows.len(),
{
    if rows.len() == 0 {
        Seq::empty()
    } else if rows.last().table == table {
        rows_of(rows.drop_last(), table).push(rows.last())
    } else {
        rows_of(rows.drop_last(), table)
    }
}

/// The rules that the registry keeps: ids count up from one, logical names and
/// table names of projects are unique, every column belongs to a project, and
/// within a project neither a logical nor a physical column name occurs twice.
/// Every row decodes, and every physical name is an identifier.
pub open spec fn registry_wf(ps: Seq<ProjectRow>, cs: Seq<ColumnRow>) -> bool {
    &&& ps.len() <= PROJECT_LIMIT
    &&& forall|i: int|
        0 <= i < ps.len() ==> {
            &&& (#[trigger] ps[i]).id == i + 1
            &&& timestamp_in_range(ps[i].created_at)
            &&& identifier(ps[i].encoded)
            &&& !registry_table(ps[i].encoded)
        }
    &&& forall|i: int, j: int|
        0 <= i < j < ps.len() ==> (#[trigger] ps[i]).name != (#[trigger] ps[j]).name
            && ps[i].encoded != ps[j].encoded
    &&& forall|k: int|
        0 <= k < cs.len() ==> {
            &&& 1 <= (#[trigger] cs[k]).project_id <= ps.len()
            &&& Column::decodable(cs[k])
            &&& identifier(cs[k].encoded)
            &&& cs[k].encoded != reserved_column()
        }
    &&& forall|k: int, l: int|
        0 <= k < l < cs.len() && (#[trigger] cs[k]).project_id == (#[trigger] cs[l]).project_id
            ==> cs[k].name != cs[l].name && cs[k].encoded != cs[l].encoded
}

/// Every stored row has one value for each of its columns.
pub open spec fn rows_wf(rows: Seq<DataRow>) -> bool {
    forall|i: int|
        0 <= i < rows.len() ==> (#[trigger] rows[i]).columns.len() == rows[i].values.len()
}

/// What a backend holds, as plain data.
pub ghost struct Relations {
    pub projects: Seq<ProjectRow>,
    pub columns: Seq<ColumnRow>,
    pub rows: Seq<DataRow>,
}

/// The relations of a backend, held in memory.
pub struct MemoryBackend {
    projects: Vec<RawProject>,
    columns: Vec<RawColumn>,
    rows: Vec<StoredRow>,
}

/// The outcome of asking for a new project: refused for a name that is no
/// identifier or a time that is no date; a conflict for a logical name or a table
/// that exists; refused by a full registry; else the new row, with the next id.
pub open spec fn project_created(
    pre: Relations,
    post: Relations,
    name: Seq<char>,
    encoded: Seq<char>,
    created_at: i64,
    r: Result<RawProject, Failure>,
) -> bool {
    if !identifier(encoded) || !timestamp_in_range(created_at) {
        post == pre && r is Err && r->Err_0.kind == FailureKind::Other
    } else if project_named(pre.projects, name) || table_named(pre.projects, encoded)
        || registry_table(encoded) {
        post == pre && r is Err && r->Err_0.kind == FailureKind::Conflict
    } else if pre.projects.len() >= PROJECT_LIMIT {
        post == pre && r is Err && r->Err_0.kind == FailureKind::Other
    } else {
        &&& r matches Ok(raw)
        &&& raw@ == (ProjectRow { name, encoded, created_at, id: (pre.projects.len() + 1) as i64 })
        &&& post == (Relations { projects: pre.projects.push(raw@), ..pre })
    }
}

/// The outcome of asking for a new column: refused for a name that is no
/// identifier or a time that is no date; missing when the project does not own
/// the table; a conflict for the reserved name and for a logical or physical name
/// that the project has already; else the new row.
pub open spec fn column_created(
    pre: Relations,
    post: Relations,
    project_id: i64,
    table: Seq<char>,
    name: Seq<char>,
    encoded: Seq<char>,
    column_type: DataType,
    created_at: i64,
    r: Result<RawColumn, Failure>,
) -> bool {
    if !identifier(encoded) || !timestamp_in_range(created_at) {
        post == pre && r is Err && r->Err_0.kind == FailureKind::Other
    } else if !project_owns(pre.projects, project_id, table) {
        post == pre && r is Err && r->Err_0.kind == FailureKind::Missing
    } else if encoded == reserved_column() || column_named(pre.columns, project_id, name)
        || column_encoded(pre.columns, project_id, encoded) {
        post == pre && r is Err && r->Err_0.kind == FailureKind::Conflict
    } else {
        &&& r matches Ok(raw)
        &&& raw@ == (ColumnRow {
            name,
            encoded,
            project_id,
            column_type: column_type.token(),
            created_at,
        })
        &&& post == (Relations { columns: pre.columns.push(raw@), ..pre })
    }
}

/// Every name of `columns` is a physical column of the project `project_id`.
pub open spec fn columns_exist(cs: Seq<ColumnRow>, project_id: i64, columns: Seq<Seq<char>>) -> bool {
    forall|i: int| 0 <= i < columns.len() ==> column_encoded(cs, project_id, #[trigger] columns[i])
}

/// The outcome of inserting a row: missing when no project owns the table;
/// refused when a column is not one of the table's or the values do not match
/// the columns in number; else the row is stored last.
pub open spec fn row_inserted(
    pre: Relations,
    post: Relations,
    table: Seq<char>,
    columns: Seq<Seq<char>>,
    timestamp: i64,
    values: Seq<Seq<char>>,
    r: Result<(), Failure>,
) -> bool {
    if !table_named(pre.projects, table) {
        post == pre && r is Err && r->Err_0.kind == FailureKind::Missing
    } else if columns.len() != values.len() || !columns_exist(
        pre.columns,
        owner_of(pre.projects, table),
        columns,
    ) {
        post == pre && r is Err && r->Err_0.kind == FailureKind::Other
    } else {
        &&& r is Ok
        &&& post == (Relations {
            rows: pre.rows.push(DataRow { table, timestamp, columns, values }),
            ..pre
        })
    }
}

/// The id of the project that owns the table `table`.
pub open spec fn owner_of(ps: Seq<ProjectRow>, table: Seq<char>) -> i64 {
    let i = choose|i: int| 0 <= i < ps.len() && (#[trigger] ps[i]).encoded == table;
    ps[i].id
}

/// The rows `shown` are the rows `stored`, one for one and in order.
pub open spec fn rows_shown(shown: Seq<RawRow>, stored: Seq<DataRow>) -> bool {
    &&& shown.len() == stored.len()
    &&& forall|i: int| 0 <= i < shown.len() ==> row_shown(#[trigger] shown[i], stored[i])
}

/// What the backend does with a request, and what it answers.
pub open spec fn answered(
    pre: Relations,
    post: Relations,
    action: Action,
    response: Response,
) -> bool {
    match action {
        Action::ListProjects => {
            &&& post == pre
            &&& response matches Response::Projects(v)
            &&& project_rows(v@) == pre.projects
        },
        Action::FindProject { name } => {
            &&& post == pre
            &&& response matches Response::Project(found)
            &&& found is Some <==> project_named(pre.projects, name@)
            &&& found matches Some(p) ==> pre.projects.contains(p@) && p.name@ == name@
        },
        Action::CreateProject { name, encoded, created_at } => {
            &&& response is Project || response is Failed
            &&& response matches Response::Project(found) ==> found is Some && project_created(
                pre,
                post,
                name@,
                encoded@,
                created_at,
                Ok(found->0),
            )
            &&& response matches Response::Failed(f) ==> project_created(
                pre,
                post,
                name@,
                encoded@,
                created_at,
                Err(f),
            )
        },
        Action::ListColumns { project_id } => {
            &&& post == pre
            &&& response matches Response::Columns(v)
            &&& column_rows(v@) == columns_of(pre.columns, project_id)
        },
        Action::CreateColumn { project_id, table, name, encoded, column_type, created_at } => {
            &&& response is Column || response is Failed
            &&& response matches Response::Column(raw) ==> column_created(
                pre,
                post,
                project_id,
                table@,
                name@,
                encoded@,
                column_type,
                created_at,
                Ok(raw),
            )
            &&& response matches Response::Failed(f) ==> column_created(
                pre,
                post,
                project_id,
                table@,
                name@,
                encoded@,
                column_type,
                created_at,
                Err(f),
            )
        },
        Action::InsertRow { table, columns, timestamp, values } => {
            &&& response is Done || response is Failed
            &&& response is Done ==> row_inserted(
                pre,
                post,
                table@,
                texts(columns@),
                timestamp,
                texts(values@),
                Ok(()),
            )
            &&& response matches Response::Failed(f) ==> row_inserted(
                pre,
                post,
                table@,
                texts(columns@),
                timestamp,
                texts(values@),
                Err(f),
            )
        },
        Action::ReadRows { table } => {
            &&& post == pre
            &&& response is Rows <==> table_named(pre.projects, table@)
            &&& response matches Response::Rows(v) ==> rows_shown(v@, rows_of(pre.rows, table@))
            &&& !(response is Rows) ==> response is Failed && response->Failed_0.kind
                == FailureKind::Missing
        },
    }
}

/// A copy of each string of `v`.
pub fn copy_texts(v: &Vec<String>) -> (r: Vec<String>)
    ensures
        r@ == v@,
{
    let mut r: Vec<String> = Vec::new();
    let mut i: usize = 0;
    while i < v.len()
        invariant
            i <= v.len(),
            r@ == v@.take(i as int),
        decreases v.len() - i,
    {
        r.push(v[i].clone());
        proof {
            assert(r@ =~= v@.take(i + 1));
        }
        i += 1;
    }
    proof {
        assert(v@.take(v.len() as int) =~= v@);
    }
    r
}

/// One stored row as the backend hands it out.
fn show_row(stored: &StoredRow) -> (raw: RawRow)
    requires
        stored.columns@.len() == stored.values@.len(),
    ensures
        row_shown(raw, stored@),
{
    let mut cells: Vec<RawCell> = Vec::new();
    let mut i: usize = 0;
    while i < stored.columns.len()
        invariant
            i <= stored.columns.len(),
            stored.columns@.len() == stored.values@.len(),
            cells@.len() == i,
            forall|k: int|
                0 <= k < i ==> (#[trigger] cells@[k]).name@ == stored.columns@[k]@
                    && cells@[k].value is Some && cells@[k].value->0@ == stored.values@[k]@,
        decreases stored.columns.len() - i,
    {
        cells.push(
            RawCell { name: stored.columns[i].clone(), value: Some(stored.values[i].clone()) },
        );
        i += 1;
    }
    RawRow { timestamp: stored.timestamp, cells }
}

impl View for MemoryBackend {
    type V = Relations;

    /// The three relations, each oldest row first.
    closed spec fn view(&self) -> Relations {
        Relations {
            projects: project_rows(self.projects@),
            columns: column_rows(self.columns@),
            rows: data_rows(self.rows@),
        }
    }
}

impl MemoryBackend {
    /// The registry keeps its rules, and every stored row is complete.
    pub open spec fn wf(&self) -> bool {
        &&& registry_wf(self@.projects, self@.columns)
        &&& rows_wf(self@.rows)
    }

    /// A backend with the registry set up and nothing in it.
    pub fn new() -> (b: MemoryBackend)
        ensures
            b.wf(),
            b@ == (Relations { projects: Seq::empty(), columns: Seq::empty(), rows: Seq::empty() }),
    {
        let b = MemoryBackend { projects: Vec::new(), columns: Vec::new(), rows: Vec::new() };
        proof {
            assert(b@.projects =~= Seq::empty());
            assert(b@.columns =~= Seq::empty());
            assert(b@.rows =~= Seq::empty());
        }
        b
    }

    /// Every project of the registry, oldest first.
    pub fn list_projects(&self) -> (v: Vec<RawProject>)
        ensures
            project_rows(v@) == self@.projects,
    {
        let mut v: Vec<RawProject> = Vec::new();
        let mut i: usize = 0;
        while i < self.projects.len()
            invariant
                i <= self.projects.len(),
                v@ == self.projects@.take(i as int),
            decreases self.projects.len() - i,
        {
            v.push(self.projects[i].clone());
            proof {
                assert(v@ =~= self.projects@.take(i + 1));
            }
            i += 1;
        }
        proof {
            assert(self.projects@.take(self.projects.len() as int) =~= self.projects@);
            assert(project_rows(v@) =~= project_rows(self.projects@));
        }
        v
    }

    /// The position of the project with the logical name `name`, if there is one.
    fn project_position(&self, name: &str) -> (r: Option<usize>)
        ensures
            r is Some <==> project_named(self@.projects, name@),
            r matches Some(i) ==> i < self.projects@.len() && self.projects@[i as int].name@
                == name@,
    {
        let mut i: usize = 0;
        while i < self.projects.len()
            invariant
                i <= self.projects.len(),
                forall|j: int| 0 <= j < i ==> (#[trigger] self.projects@[j]).name@ != name@,
            decreases self.projects.len() - i,
        {
            if same_text(self.projects[i].name.as_str(), name) {
                assert(self@.projects[i as int] == self.projects@[i as int]@);
                return Some(i);
            }
            i += 1;
        }
        None
    }

    /// The position of the project that owns the table `table`, if there is one.
    fn table_position(&self, table: &str) -> (r: Option<usize>)
        ensures
            r is Some <==> table_named(self@.projects, table@),
            r matches Some(i) ==> i < self.projects@.len() && self.projects@[i as int].encoded@
                == table@,
    {
        let mut i: usize = 0;
        while i < self.projects.len()
            invariant
                i <= self.projects.len(),
                forall|j: int| 0 <= j < i ==> (#[trigger] self.projects@[j]).encoded@ != table@,
            decreases self.projects.len() - i,
        {
            if same_text(self.projects[i].encoded.as_str(), table) {
                assert(self@.projects[i as int] == self.projects@[i as int]@);
                return Some(i);
            }
            i += 1;
        }
        None
    }

    /// The project with the logical name `name`, if the registry has one.
    pub fn find_project_by_name(&self, name: &str) -> (r: Option<RawProject>)
        ensures
            r is Some <==> project_named(self@.projects, name@),
            r matches Some(p) ==> self@.projects.contains(p@) && p.name@ == name@,
    {
        match self.project_position(name) {
            Some(i) => {
                assert(self@.projects[i as int] == self.projects@[i as int]@);
                Some(self.projects[i].clone())
            },
            None => None,
        }
    }

    /// Creates the table of a project and records the project, or refuses.
    pub fn insert_project(&mut self, name: &str, encoded: &str, created_at: i64) -> (r: Result<
        RawProject,
        Failure,
    >)
        requires
            old(self).wf(),
        ensures
            final(self).wf(),
            project_created(old(self)@, final(self)@, name@, encoded@, created_at, r),
    {
        if !is_identifier(encoded) {
            return Err(Failure { kind: FailureKind::Other, message: owned("syntax error") });
        }
        if !valid_timestamp(created_at) {
            return Err(Failure { kind: FailureKind::Other, message: owned("invalid timestamp") });
        }
        if self.project_position(name).is_some() {
            return Err(
                Failure { kind: FailureKind::Conflict, message: owned("project already exists") },
            );
        }
        if self.table_position(encoded).is_some() || same_text(encoded, "projects") || same_text(
            encoded,
            "columns",
        ) {
            return Err(
                Failure { kind: FailureKind::Conflict, message: owned("table already exists") },
            );
        }
        if self.projects.len() as u64 >= PROJECT_LIMIT {
            return Err(Failure { kind: FailureKind::Other, message: owned("registry is full") });
        }
        let id = (self.projects.len() as u64 + 1) as i64;
        let raw = RawProject { name: owned(name), encoded: owned(encoded), created_at, id };
        let handed = raw.clone();
        self.projects.push(raw);
        proof {
            assert(self@.projects =~= old(self)@.projects.push(handed@));
            assert(self@.columns =~= old(self)@.columns);
            assert(self@.rows =~= old(self)@.rows);
        }
        Ok(handed)
    }

    /// The registered columns of the project `project_id`, oldest first.
    pub fn list_columns(&self, project_id: i64) -> (v: Vec<RawColumn>)
        ensures
            column_rows(v@) == columns_of(self@.columns, project_id),
    {
        let mut v: Vec<RawColumn> = Vec::new();
        let mut i: usize = 0;
        while i < self.columns.len()
            invariant
                i <= self.columns.len(),
                column_rows(v@) == columns_of(column_rows(self.columns@).take(i as int), project_id),
            decreases self.columns.len() - i,
        {
            proof {
                assert(column_rows(self.columns@).take(i + 1).drop_last() =~= column_rows(
                    self.columns@,
                ).take(i as int));
            }
            let ghost before = v@;
            if self.columns[i].project_id == project_id {
                v.push(self.columns[i].clone());
                proof {
                    assert(column_rows(v@) =~= column_rows(before).push(self.columns@[i as int]@));
                }
            }
            i += 1;
        }
        proof {
            assert(column_rows(self.columns@).take(self.columns.len() as int) =~= column_rows(
                self.columns@,
            ));
        }
        v
    }

    /// Decides whether the project has a column of this logical or physical name.
    fn column_taken(&self, project_id: i64, name: &str, encoded: &str) -> (taken: bool)
        ensures
            taken == (column_named(self@.columns, project_id, name@) || column_encoded(
                self@.columns,
                project_id,
                encoded@,
            )),
    {
        let mut i: usize = 0;
        while i < self.columns.len()
            invariant
                i <= self.columns.len(),
                forall|k: int|
                    0 <= k < i && (#[trigger] self.columns@[k]).project_id == project_id
                        ==> self.columns@[k].name@ != name@ && self.columns@[k].encoded@
                        != encoded@,
            decreases self.columns.len() - i,
        {
            if self.columns[i].project_id == project_id && (same_text(
                self.columns[i].name.as_str(),
                name,
            ) || same_text(self.columns[i].encoded.as_str(), encoded)) {
                assert(self@.columns[i as int] == self.columns@[i as int]@);
                return true;
            }
            i += 1;
        }
        false
    }

    /// Decides whether the project has a column of this physical name.
    fn has_physical_column(&self, project_id: i64, encoded: &str) -> (found: bool)
        ensures
            found == column_encoded(self@.columns, project_id, encoded@),
    {
        let mut i: usize = 0;
        while i < self.columns.len()
            invariant
                i <= self.columns.len(),
                forall|k: int|
                    0 <= k < i && (#[trigger] self.columns@[k]).project_id == project_id
                        ==> self.columns@[k].encoded@ != encoded@,
            decreases self.columns.len() - i,
        {
            if self.columns[i].project_id == project_id && same_text(
                self.columns[i].encoded.as_str(),
                encoded,
            ) {
                assert(self@.columns[i as int] == self.columns@[i as int]@);
                return true;
            }
            i += 1;
        }
        false
    }

    /// Adds a column to a project's table and records the column, or refuses.
    pub fn insert_column(
        &mut self,
        project_id: i64,
        table: &str,
        name: &str,
        encoded: &str,
        column_type: DataType,
        created_at: i64,
    ) -> (r: Result<RawColumn, Failure>)
        requires
            old(self).wf(),
        ensures
            final(self).wf(),
            column_created(
                old(self)@,
                final(self)@,
                project_id,
                table@,
                name@,
                encoded@,
                column_type,
                created_at,
                r,
            ),
    {
        if !is_identifier(encoded) {
            return Err(Failure { kind: FailureKind::Other, message: owned("syntax error") });
        }
        if !valid_timestamp(created_at) {
            return Err(Failure { kind: FailureKind::Other, message: owned("invalid timestamp") });
        }
        let owned_table = match self.table_position(table) {
            Some(i) => {
                assert(self@.projects[i as int] == self.projects@[i as int]@);
                self.projects[i].id == project_id
            },
            None => false,
        };
        if !owned_table {
            return Err(Failure { kind: FailureKind::Missing, message: owned("no such table") });
        }
        if same_text(encoded, timestamp_column()) || self.column_taken(project_id, name, encoded) {
            return Err(
                Failure { kind: FailureKind::Conflict, message: owned("duplicate column name") },
            );
        }
        let raw = RawColumn {
            name: owned(name),
            encoded: owned(encoded),
            project_id,
            column_type: owned(column_type.to_sql()),
            created_at,
        };
        let handed = raw.clone();
        proof {
            DataType::lemma_token_round_trip();
        }
        self.columns.push(raw);
        proof {
            assert(self@.columns =~= old(self)@.columns.push(handed@));
            assert(self@.projects =~= old(self)@.projects);
            assert(self@.rows =~= old(self)@.rows);
        }
        Ok(handed)
    }

    /// Inserts one row into a project's table, or refuses.
    pub fn insert_row(
        &mut self,
        table: &str,
        columns: &Vec<String>,
        timestamp: i64,
        values: &Vec<String>,
    ) -> (r: Result<(), Failure>)
        requires
            old(self).wf(),
        ensures
            final(self).wf(),
            row_inserted(
                old(self)@,
                final(self)@,
                table@,
                texts(columns@),
                timestamp,
                texts(values@),
                r,
            ),
    {
        let project_id = match self.table_position(table) {
            Some(i) => {
                assert(self@.projects[i as int] == self.projects@[i as int]@);
                self.projects[i].id
            },
            None => {
                return Err(Failure { kind: FailureKind::Missing, message: owned("no such table") });
            },
        };
        assert(project_id == owner_of(self@.projects, table@));
        if columns.len() != values.len() {
            return Err(
                Failure { kind: FailureKind::Other, message: owned("values do not match columns") },
            );
        }
        let mut i: usize = 0;
        while i < columns.len()
            invariant
                i <= columns.len(),
                *self == *old(self),
                self.wf(),
                columns.len() == values.len(),
                table_named(self@.projects, table@),
                project_id == owner_of(self@.projects, table@),
                forall|k: int|
                    0 <= k < i ==> column_encoded(
                        self@.columns,
                        project_id,
                        #[trigger] texts(columns@)[k],
                    ),
            decreases columns.len() - i,
        {
            if !self.has_physical_column(project_id, columns[i].as_str()) {
                assert(texts(columns@)[i as int] == columns@[i as int]@);
                return Err(Failure { kind: FailureKind::Other, message: owned("no such column") });
            }
            assert(texts(columns@)[i as int] == columns@[i as int]@);
            i += 1;
        }
        let stored = StoredRow {
            table: owned(table),
            timestamp,
            columns: copy_texts(columns),
            values: copy_texts(values),
        };
        self.rows.push(stored);
        proof {
            assert(self@.rows =~= old(self)@.rows.push(
                DataRow { table: table@, timestamp, columns: texts(columns@), values: texts(values@) },
            ));
        }
        Ok(())
    }

    /// Every row of a project's table, oldest first, or a refusal when no project
    /// owns the table.
    pub fn read_rows(&self, table: &str) -> (r: Result<Vec<RawRow>, Failure>)
        requires
            self.wf(),
        ensures
            r is Ok <==> table_named(self@.projects, table@),
            r matches Ok(v) ==> rows_shown(v@, rows_of(self@.rows, table@)),
            r matches Err(f) ==> f.kind == FailureKind::Missing,
    {
        if self.table_position(table).is_none() {
            return Err(Failure { kind: FailureKind::Missing, message: owned("no such table") });
        }
        let mut v: Vec<RawRow> = Vec::new();
        let mut i: usize = 0;
        while i < self.rows.len()
            invariant
                i <= self.rows.len(),
                self.wf(),
                rows_shown(v@, rows_of(data_rows(self.rows@).take(i as int), table@)),
            decreases self.rows.len() - i,
        {
            proof {
                assert(data_rows(self.rows@).take(i + 1).drop_last() =~= data_rows(self.rows@).take(
                    i as int,
                ));
            }
            assert(self@.rows[i as int] == self.rows@[i as int]@);
            if same_text(self.rows[i].table.as_str(), table) {
                v.push(show_row(&self.rows[i]));
            }
            i += 1;
        }
        proof {
            assert(data_rows(self.rows@).take(self.rows.len() as int) =~= data_rows(self.rows@));
        }
        Ok(v)
    }

    /// Carries a request out and answers it. A request that is refused leaves
    /// the backend as it was.
    pub fn execute(&mut self, action: &Action) -> (response: Response)
        requires
            old(self).wf(),
        ensures
            final(self).wf(),
            answered(old(self)@, final(self)@, *action, response),
    {
        match action {
            Action::ListProjects => Response::Projects(self.list_projects()),
            Action::FindProject { name } => Response::Project(
                self.find_project_by_name(name.as_str()),
            ),
            Action::CreateProject { name, encoded, created_at } => {
                match self.insert_project(name.as_str(), encoded.as_str(), *created_at) {
                    Ok(raw) => Response::Project(Some(raw)),
                    Err(f) => Response::Failed(f),
                }
            },
            Action::ListColumns { project_id } => Response::Columns(self.list_columns(*project_id)),
            Action::CreateColumn { project_id, table, name, encoded, column_type, created_at } => {
                match self.insert_column(
                    *project_id,
                    table.as_str(),
                    name.as_str(),
                    encoded.as_str(),
                    *column_type,
                    *created_at,
                ) {
                    Ok(raw) => Response::Column(raw),
                    Err(f) => Response::Failed(f),
                }
            },
            Action::InsertRow { table, columns, timestamp, values } => {
                match self.insert_row(table.as_str(), columns, *timestamp, values) {
                    Ok(()) => Response::Done,
                    Err(f) => Response::Failed(f),
                }
            },
            Action::ReadRows { table } => {
                match self.read_rows(table.as_str()) {
                    Ok(rows) => Response::Rows(rows),
                    Err(f) => Response::Failed(f),
                }
            },
        }
    }
}

/// Every column of a project is a column of the registry that belongs to it, and
/// the other way round; the order is kept.
pub proof fn lemma_columns_of(cs: Seq<ColumnRow>, project_id: i64)
    ensures
        forall|i: int|
            0 <= i < columns_of(cs, project_id).len() ==> (#[trigger] columns_of(
                cs,
                project_id,
            )[i]).project_id == project_id && cs.contains(columns_of(cs, project_id)[i]),
        forall|k: int|
            0 <= k < cs.len() && (#[trigger] cs[k]).project_id == project_id ==> columns_of(
                cs,
                project_id,
            ).contains(cs[k]),
    decreases cs.len(),
{
    if cs.len() > 0 {
        let front = cs.drop_last();
        lemma_columns_of(front, project_id);
        let mine = columns_of(cs, project_id);
        assert forall|i: int| 0 <= i < mine.len() implies (#[trigger] mine[i]).project_id
            == project_id && cs.contains(mine[i]) by {
            if i < columns_of(front, project_id).len() {
                let row = columns_of(front, project_id)[i];
                assert(front.contains(row));
                let k = choose|k: int| 0 <= k < front.len() && front[k] == row;
                assert(cs[k] == row);
            } else {
                assert(cs[cs.len() - 1] == mine[i]);
            }
        }
        assert forall|k: int|
            0 <= k < cs.len() && (#[trigger] cs[k]).project_id == project_id implies mine.contains(
            cs[k],
        ) by {
            if k < front.len() {
                assert(front[k] == cs[k]);
                assert(columns_of(front, project_id).contains(cs[k]));
                let i = choose|i: int|
                    0 <= i < columns_of(front, project_id).len() && columns_of(
                        front,
                        project_id,
                    )[i] == cs[k];
                assert(mine[i] == cs[k]);
            } else {
                assert(mine[mine.len() - 1] == cs[k]);
            }
        }
    }
}

} // verus!
