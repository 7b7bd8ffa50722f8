//! Projects and columns as values: the rows of the registry, raw and decoded.

use vstd::prelude::*;
use crate::clock::{timestamp_in_range, valid_timestamp};
use crate::error::{Error, ErrorKind};
use crate::text::same_text;

verus! {

/// The storage type of a column.
#[derive(Debug, Clone, Copy, PartialEq, Eq, Structural, PartialOrd, Ord)]
pub enum DataType {
    Text,
    Integer,
    BigInteger,
    Float,
    Raw,
}

impl DataType {
    /// The backend's name for this storage type.
    pub open spec fn token(self) -> Seq<char> {
        match self {
            DataType::Text => "TEXT"@,
            DataType::Raw => "BLOB"@,
            DataType::Integer => "INTEGER"@,
            DataType::BigInteger => "BIGINT"@,
            DataType::Float => "FLOAT"@,
        }
    }

    /// The storage type that the backend calls `s`, if there is one.
    pub open spec fn parse(s: Seq<char>) -> Option<DataType> {
        if s == "TEXT"@ {
            Some(DataType::Text)
        } else if s == "BLOB"@ {
            Some(DataType::Raw)
        } else if s == "INTEGER"@ {
            Some(DataType::Integer)
        } else if s == "BIGINT"@ {
            Some(DataType::BigInteger)
        } else if s == "FLOAT"@ {
            Some(DataType::Float)
        } else {
            None
        }
    }

    /// The five type names are pairwise different, so naming a type and reading
    /// the name back gives the same type, and a name that reads as a type is that
    /// type's name.
    pub proof fn lemma_token_round_trip()
        ensures
            forall|t: DataType| #[trigger] DataType::parse(t.token()) == Some(t),
            forall|s: Seq<char>|
                (#[trigger] DataType::parse(s)) is Some ==> DataType::parse(s).unwrap().token() == s,
    {
        reveal_strlit("TEXT");
        reveal_strlit("BLOB");
        reveal_strlit("INTEGER");
        reveal_strlit("BIGINT");
        reveal_strlit("FLOAT");
        assert("TEXT"@.len() == 4 && "BLOB"@.len() == 4 && "INTEGER"@.len() == 7 && "BIGINT"@.len()
            == 6 && "FLOAT"@.len() == 5);
        assert("TEXT"@[0] == 'T' && "BLOB"@[0] == 'B');
    }

    /// Converts the data type to its SQL type name.
    pub fn to_sql(&self) -> (r: &'static str)
        ensures
            r@ == self.token(),
    {
        match self {
            DataType::Text => "TEXT",
            DataType::Raw => "BLOB",
            DataType::Integer => "INTEGER",
            DataType::BigInteger => "BIGINT",
            DataType::Float => "FLOAT",
        }
    }

    /// Reads an SQL type name; a string that names no storage type gives `None`.
    pub fn from_sql(s: &str) -> (r: Option<DataType>)
        ensures
            r == DataType::parse(s@),
            r matches Some(t) ==> t.token() == s@,
    {
        proof {
            DataType::lemma_token_round_trip();
        }
        if same_text(s, "TEXT") {
            Some(DataType::Text)
        } else if same_text(s, "BLOB") {
            Some(DataType::Raw)
        } else if same_text(s, "INTEGER") {
            Some(DataType::Integer)
        } else if same_text(s, "BIGINT") {
            Some(DataType::BigInteger)
        } else if same_text(s, "FLOAT") {
            Some(DataType::Float)
        } else {
            None
        }
    }
}

/// What a row of the `projects` relation holds, as plain data.
pub ghost struct ProjectRow {
    pub name: Seq<char>,
    pub encoded: Seq<char>,
    pub created_at: i64,
    pub id: i64,
}

/// What a row of the `columns` relation holds, as plain data.
pub ghost struct ColumnRow {
    pub name: Seq<char>,
    pub encoded: Seq<char>,
    pub project_id: i64,
    pub column_type: Seq<char>,
    pub created_at: i64,
}

/// What a column holds, as plain data.
pub ghost struct ColumnView {
    pub name: Seq<char>,
    pub encoded: Seq<char>,
    pub project_id: i64,
    pub column_type: DataType,
    pub created_at: i64,
}

/// The column that a registry row describes, for a row whose type name reads.
pub open spec fn decode_row(row: ColumnRow) -> ColumnView {
    ColumnView {
        name: row.name,
        encoded: row.encoded,
        project_id: row.project_id,
        column_type: DataType::parse(row.column_type).unwrap(),
        created_at: row.created_at,
    }
}

/// The columns that the registry rows `rows` describe, in order.
pub open spec fn decode_rows(rows: Seq<ColumnRow>) -> Seq<ColumnView> {
    Seq::new(rows.len(), |i: int| decode_row(rows[i]))
}

/// The columns of `cs`, each as plain data.
pub open spec fn column_views(cs: Seq<Column>) -> Seq<ColumnView> {
    Seq::new(cs.len(), |i: int| cs[i]@)
}

/// The rows of `ps`, each as plain data.
pub open spec fn project_rows(ps: Seq<RawProject>) -> Seq<ProjectRow> {
    Seq::new(ps.len(), |i: int| ps[i]@)
}

/// The rows of `cs`, each as plain data.
pub open spec fn column_rows(cs: Seq<RawColumn>) -> Seq<ColumnRow> {
    Seq::new(cs.len(), |i: int| cs[i]@)
}

/// A row of the `projects` relation, as the backend hands it out.
#[derive(Debug, PartialEq, Eq)]
pub struct RawProject {
    pub name: String,
    pub encoded: String,
    pub created_at: i64,
    pub id: i64,
}

impl View for RawProject {
    type V = ProjectRow;

    open spec fn view(&self) -> ProjectRow {
        ProjectRow {
            name: self.name@,
            encoded: self.encoded@,
            created_at: self.created_at,
            id: self.id,
        }
    }
}

impl Clone for RawProject {
    fn clone(&self) -> (r: RawProject)
        ensures
            r == *self,
    {
        RawProject {
            name: self.name.clone(),
            encoded: self.encoded.clone(),
            created_at: self.created_at,
            id: self.id,
        }
    }
}

/// A row of the `columns` relation, as the backend hands it out.
#[derive(Debug, PartialEq, Eq)]
pub struct RawColumn {
    pub name: String,
    pub encoded: String,
    pub project_id: i64,
    pub column_type: String,
    pub created_at: i64,
}

impl View for RawColumn {
    type V = ColumnRow;

    open spec fn view(&self) -> ColumnRow {
        ColumnRow {
            name: self.name@,
            encoded: self.encoded@,
            project_id: self.project_id,
            column_type: self.column_type@,
            created_at: self.created_at,
        }
    }
}

impl Clone for RawColumn {
    fn clone(&self) -> (r: RawColumn)
        ensures
            r == *self,
    {
        RawColumn {
            name: self.name.clone(),
            encoded: self.encoded.clone(),
            project_id: self.project_id,
            column_type: self.column_type.clone(),
            created_at: self.created_at,
        }
    }
}

/// A named dataset, backed by one physical table.
#[derive(Debug, PartialEq, Eq)]
pub struct Project {
    /// Project id in the registry.
    pub id: i64,
    /// Project name, as the user wrote it.
    pub name: String,
    /// Name of the project's table.
    pub encoded: String,
    /// Time the project was created, in seconds since the epoch.
    pub created_at: i64,
}

impl Clone for Project {
    fn clone(&self) -> (r: Project)
        ensures
            r == *self,
    {
        Project {
            id: self.id,
            name: self.name.clone(),
            encoded: self.encoded.clone(),
            created_at: self.created_at,
        }
    }
}

/// A registered field of a project, backed by one column of the project's table.
#[derive(Debug, PartialEq, Eq)]
pub struct Column {
    pub name: String,
    pub encoded: String,
    pub project_id: i64,
    pub column_type: DataType,
    pub created_at: i64,
}

impl View for Column {
    type V = ColumnView;

    open spec fn view(&self) -> ColumnView {
        ColumnView {
            name: self.name@,
            encoded: self.encoded@,
            project_id: self.project_id,
            column_type: self.column_type,
            created_at: self.created_at,
        }
    }
}

impl Clone for Column {
    fn clone(&self) -> (r: Column)
        ensures
            r == *self,
    {
        Column {
            name: self.name.clone(),
            encoded: self.encoded.clone(),
            project_id: self.project_id,
            column_type: self.column_type,
            created_at: self.created_at,
        }
    }
}

impl Project {
    /// `self` carries exactly what the registry row `row` holds.
    pub open spec fn decodes(&self, row: ProjectRow) -> bool {
        &&& self.id == row.id
        &&& self.name@ == row.name
        &&& self.encoded@ == row.encoded
        &&& self.created_at == row.created_at
    }

    /// Converts a registry row to a project. The row is refused when its
    /// creation time is no representable date.
    pub fn from_raw(raw: RawProject) -> (r: Option<Project>)
        ensures
            r is Some <==> timestamp_in_range(raw.created_at),
            r matches Some(p) ==> p.decodes(raw@),
    {
        if valid_timestamp(raw.created_at) {
            Some(Project { id: raw.id, name: raw.name, encoded: raw.encoded, created_at: raw.created_at })
        } else {
            None
        }
    }
}

impl Column {
    /// `self` carries exactly what the registry row `row` holds.
    pub open spec fn decodes(&self, row: ColumnRow) -> bool {
        DataType::parse(row.column_type) is Some && self@ == decode_row(row)
    }

    /// The registry row `row` decodes to some column.
    pub open spec fn decodable(row: ColumnRow) -> bool {
        timestamp_in_range(row.created_at) && DataType::parse(row.column_type) is Some
    }

    /// Converts a registry row to a column. A creation time that is no
    /// representable date, or a type name that names no storage type, makes the
    /// row corrupt; the time is looked at first.
    pub fn from_raw(raw: RawColumn) -> (r: Result<Column, Error>)
        ensures
            r is Ok <==> Column::decodable(raw@),
            r matches Ok(c) ==> c.decodes(raw@),
            r matches Err(e) ==> e.is(ErrorKind::CorruptMetadata, raw.name@) && e.detail@ == (
            if !timestamp_in_range(raw.created_at) {
                "invalid timestamp"@
            } else {
                "invalid data type"@
            }),
    {
        if !valid_timestamp(raw.created_at) {
            return Err(Error::new(ErrorKind::CorruptMetadata, raw.name.as_str(), "invalid timestamp"));
        }
        match DataType::from_sql(raw.column_type.as_str()) {
            Some(column_type) => Ok(
                Column {
                    name: raw.name,
                    encoded: raw.encoded,
                    project_id: raw.project_id,
                    column_type,
                    created_at: raw.created_at,
                },
            ),
            None => Err(Error::new(ErrorKind::CorruptMetadata, raw.name.as_str(), "invalid data type")),
        }
    }
}

} // verus!
