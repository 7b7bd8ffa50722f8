//! The decisions of the store around each request: what to ask of the backend,
//! and what an answer means.

use vstd::prelude::*;
use crate::backend::{Action, Failure, FailureKind, Response};
use crate::clock::{timestamp_in_range, valid_timestamp};
use crate::encoder::{sanitized, sql_encode};
use crate::error::{Error, ErrorKind};
use crate::project::{
    column_rows, project_rows, Column, ColumnRow, DataType, Project, ProjectRow, RawColumn,
    RawProject,
};
use crate::statement::{reserved_column, timestamp_column};
use crate::text::{owned, same_text};

verus! {

/// The kind of error that a refusal of the backend becomes.
pub open spec fn failure_error(kind: FailureKind) -> ErrorKind {
    match kind {
        FailureKind::Conflict => ErrorKind::SchemaConflict,
        FailureKind::Missing => ErrorKind::NotFound,
        FailureKind::Other => ErrorKind::ConnectionFailure,
    }
}

/// `e` reports the refusal `f` of a request about `identifier`, with the
/// backend's message word for word.
pub open spec fn reports(e: Error, f: Failure, identifier: Seq<char>) -> bool {
    e.is(failure_error(f.kind), identifier) && e.detail@ == f.message@
}

/// The error that reports a refusal of the backend.
pub fn refused(f: &Failure, identifier: &str) -> (e: Error)
    ensures
        reports(e, *f, identifier@),
{
    let kind = match f.kind {
        FailureKind::Conflict => ErrorKind::SchemaConflict,
        FailureKind::Missing => ErrorKind::NotFound,
        FailureKind::Other => ErrorKind::ConnectionFailure,
    };
    Error::new(kind, identifier, f.message.as_str())
}

/// The error for an answer that does not fit the request.
pub fn unexpected(identifier: &str) -> (e: Error)
    ensures
        e.is(ErrorKind::ConnectionFailure, identifier@),
        e.detail@ == "unexpected answer"@,
{
    Error::new(ErrorKind::ConnectionFailure, identifier, "unexpected answer")
}

/// What the answer to the setting up of the registry means: a refusal is a
/// failed migration, with the backend's message word for word.
pub fn migrated(url: &str, response: Response) -> (r: Result<(), Error>)
    ensures
        match response {
            Response::Done => r is Ok,
            Response::Failed(f) => r matches Err(e) && e.is(ErrorKind::MigrationFailure, url@)
                && e.detail@ == f.message@,
            _ => r matches Err(e) && e.is(ErrorKind::ConnectionFailure, url@),
        },
{
    match response {
        Response::Done => Ok(()),
        Response::Failed(f) => Err(Error::new(ErrorKind::MigrationFailure, url, f.message.as_str())),
        _ => Err(unexpected(url)),
    }
}

/// What a failed attempt to connect means: a connection failure, with the
/// backend's message word for word.
pub fn connection_refused(url: &str, f: &Failure) -> (e: Error)
    ensures
        e.is(ErrorKind::ConnectionFailure, url@),
        e.detail@ == f.message@,
{
    Error::new(ErrorKind::ConnectionFailure, url, f.message.as_str())
}

/// The physical name for a logical one: its allowed characters. A name that has
/// none is refused.
pub fn physical_name(name: &str) -> (r: Result<String, Error>)
    ensures
        r is Ok <==> sanitized(name@).len() > 0,
        r matches Ok(encoded) ==> encoded@ == sanitized(name@),
        r matches Err(e) ==> e.is(ErrorKind::EmptyIdentifier, name@),
{
    let encoded = match sql_encode(name) {
        Ok(clean) => clean,
        Err(lossy) => lossy,
    };
    if encoded.as_str().unicode_len() == 0 {
        Err(Error::new(ErrorKind::EmptyIdentifier, name, "no character of the name can be kept"))
    } else {
        Ok(encoded)
    }
}

impl Action {
    /// This request creates the project `name` with the table `encoded`.
    pub open spec fn creates_project(&self, name: Seq<char>, encoded: Seq<char>, created_at: i64) -> bool {
        &&& *self matches Action::CreateProject { name: n, encoded: e, created_at: t }
        &&& n@ == name
        &&& e@ == encoded
        &&& t == created_at
    }

    /// This request creates the column that the row `row` describes, in the table `table`.
    pub open spec fn creates_column(&self, table: Seq<char>, row: ColumnRow) -> bool {
        &&& *self matches Action::CreateColumn {
            project_id,
            table: t,
            name,
            encoded,
            column_type,
            created_at,
        }
        &&& t@ == table
        &&& row == (ColumnRow {
            name: name@,
            encoded: encoded@,
            project_id,
            column_type: column_type.token(),
            created_at,
        })
    }
}

/// What has to be asked of the backend to create the project `name` at the time
/// `now`: nothing, for a name without an allowed character or a time that is no
/// date; else the creation of its table and registry row as one unit.
pub fn create_project_request(name: &str, now: i64) -> (r: Result<Action, Error>)
    ensures
        r is Ok <==> sanitized(name@).len() > 0 && timestamp_in_range(now),
        r matches Ok(action) ==> action.creates_project(name@, sanitized(name@), now),
        r matches Err(e) ==> e.is(
            if sanitized(name@).len() == 0 {
                ErrorKind::EmptyIdentifier
            } else {
                ErrorKind::CorruptMetadata
            },
            name@,
        ),
{
    let encoded = match physical_name(name) {
        Ok(encoded) => encoded,
        Err(e) => {
            return Err(e);
        },
    };
    if !valid_timestamp(now) {
        return Err(Error::new(ErrorKind::CorruptMetadata, name, "invalid timestamp"));
    }
    Ok(Action::CreateProject { name: owned(name), encoded, created_at: now })
}

/// What the answer to the creation of the project `name` means: the project,
/// if its row decodes; a conflict or another failure as the backend reported it.
pub fn created_project(name: &str, response: Response) -> (r: Result<Project, Error>)
    ensures
        match response {
            Response::Project(Some(raw)) => if timestamp_in_range(raw.created_at) {
                r matches Ok(p) && p.decodes(raw@)
            } else {
                r matches Err(e) && e.is(ErrorKind::CorruptMetadata, name@)
            },
            Response::Failed(f) => r matches Err(e) && reports(e, f, name@),
            _ => r matches Err(e) && e.is(ErrorKind::ConnectionFailure, name@),
        },
{
    match response {
        Response::Project(Some(raw)) => match Project::from_raw(raw) {
            Some(p) => Ok(p),
            None => Err(Error::new(ErrorKind::CorruptMetadata, name, "invalid timestamp")),
        },
        Response::Failed(f) => Err(refused(&f, name)),
        _ => Err(unexpected(name)),
    }
}

/// What the answer to a lookup of the project `name` means: the project, or
/// none when the registry has none of that name.
pub fn found_project(name: &str, response: Response) -> (r: Result<Option<Project>, Error>)
    ensures
        match response {
            Response::Project(Some(raw)) => if timestamp_in_range(raw.created_at) {
                r matches Ok(Some(p)) && p.decodes(raw@)
            } else {
                r matches Err(e) && e.is(ErrorKind::CorruptMetadata, name@)
            },
            Response::Project(None) => r matches Ok(None),
            Response::Failed(f) => if f.kind == FailureKind::Missing {
                r matches Ok(None)
            } else {
                r matches Err(e) && reports(e, f, name@)
            },
            _ => r matches Err(e) && e.is(ErrorKind::ConnectionFailure, name@),
        },
{
    match response {
        Response::Project(Some(raw)) => match Project::from_raw(raw) {
            Some(p) => Ok(Some(p)),
            None => Err(Error::new(ErrorKind::CorruptMetadata, name, "invalid timestamp")),
        },
        Response::Project(None) => Ok(None),
        Response::Failed(f) => match f.kind {
            FailureKind::Missing => Ok(None),
            _ => Err(refused(&f, name)),
        },
        _ => Err(unexpected(name)),
    }
}

/// The rows of `raws` before the position `n` all decode.
pub open spec fn projects_decodable(raws: Seq<ProjectRow>, n: int) -> bool {
    forall|i: int| 0 <= i < n ==> timestamp_in_range((#[trigger] raws[i]).created_at)
}

/// The projects `ps` are the rows `raws`, one for one and in order.
pub open spec fn projects_decoded(ps: Seq<Project>, raws: Seq<ProjectRow>) -> bool {
    &&& ps.len() == raws.len()
    &&& forall|i: int| 0 <= i < ps.len() ==> (#[trigger] ps[i]).decodes(raws[i])
}

/// `e` reports the first row of `raws` that does not decode as corrupt, by its name.
pub open spec fn corrupt_project(raws: Seq<RawProject>, e: Error) -> bool {
    exists|i: int|
        0 <= i < raws.len() && projects_decodable(project_rows(raws), i) && !timestamp_in_range(
            (#[trigger] raws[i]).created_at,
        ) && e.is(ErrorKind::CorruptMetadata, raws[i].name@)
}

/// Decodes the rows of the `projects` relation, in order. The first row that does
/// not decode is reported as corrupt, by its name.
pub fn decode_projects(raws: &Vec<RawProject>) -> (r: Result<Vec<Project>, Error>)
    ensures
        r is Ok <==> projects_decodable(project_rows(raws@), raws@.len() as int),
        r matches Ok(ps) ==> projects_decoded(ps@, project_rows(raws@)),
        r matches Err(e) ==> corrupt_project(raws@, e),
{
    let mut ps: Vec<Project> = Vec::new();
    let mut i: usize = 0;
    while i < raws.len()
        invariant
            i <= raws.len(),
            projects_decodable(project_rows(raws@), i as int),
            projects_decoded(ps@, project_rows(raws@).take(i as int)),
        decreases raws.len() - i,
    {
        assert(project_rows(raws@)[i as int] == raws@[i as int]@);
        match Project::from_raw(raws[i].clone()) {
            Some(p) => {
                ps.push(p);
            },
            None => {
                return Err(
                    Error::new(ErrorKind::CorruptMetadata, raws[i].name.as_str(), "invalid timestamp"),
                );
            },
        }
        i += 1;
    }
    proof {
        assert(project_rows(raws@).take(raws@.len() as int) =~= project_rows(raws@));
    }
    Ok(ps)
}

/// What the answer to a listing of the projects means.
pub fn listed_projects(response: Response) -> (r: Result<Vec<Project>, Error>)
    ensures
        match response {
            Response::Projects(raws) => {
                &&& r is Ok <==> projects_decodable(project_rows(raws@), raws@.len() as int)
                &&& r matches Ok(ps) ==> projects_decoded(ps@, project_rows(raws@))
                &&& r matches Err(e) ==> corrupt_project(raws@, e)
            },
            Response::Failed(f) => r matches Err(e) && reports(e, f, "projects"@),
            _ => r matches Err(e) && e.is(ErrorKind::ConnectionFailure, "projects"@),
        },
{
    match response {
        Response::Projects(raws) => decode_projects(&raws),
        Response::Failed(f) => Err(refused(&f, "projects")),
        _ => Err(unexpected("projects")),
    }
}

/// The rows of `raws` before the position `n` all decode.
pub open spec fn columns_decodable(raws: Seq<ColumnRow>, n: int) -> bool {
    forall|i: int| 0 <= i < n ==> Column::decodable(#[trigger] raws[i])
}

/// The columns `cs` are the rows `raws`, one for one and in order.
pub open spec fn columns_decoded(cs: Seq<Column>, raws: Seq<ColumnRow>) -> bool {
    &&& cs.len() == raws.len()
    &&& forall|i: int| 0 <= i < cs.len() ==> (#[trigger] cs[i]).decodes(raws[i])
}

/// `e` reports the first row of `raws` that does not decode as corrupt, by its name.
pub open spec fn corrupt_column(raws: Seq<RawColumn>, e: Error) -> bool {
    exists|i: int|
        0 <= i < raws.len() && columns_decodable(column_rows(raws), i) && !Column::decodable(
            (#[trigger] raws[i])@,
        ) && e.is(ErrorKind::CorruptMetadata, raws[i].name@)
}

/// Decodes the rows of the `columns` relation, in order. The first row that does
/// not decode is reported as corrupt, by its name.
pub fn decode_columns(raws: &Vec<RawColumn>) -> (r: Result<Vec<Column>, Error>)
    ensures
        r is Ok <==> columns_decodable(column_rows(raws@), raws@.len() as int),
        r matches Ok(cs) ==> columns_decoded(cs@, column_rows(raws@)),
        r matches Err(e) ==> corrupt_column(raws@, e),
{
    let mut cs: Vec<Column> = Vec::new();
    let mut i: usize = 0;
    while i < raws.len()
        invariant
            i <= raws.len(),
            columns_decodable(column_rows(raws@), i as int),
            columns_decoded(cs@, column_rows(raws@).take(i as int)),
        decreases raws.len() - i,
    {
        assert(column_rows(raws@)[i as int] == raws@[i as int]@);
        match Column::from_raw(raws[i].clone()) {
            Ok(c) => {
                cs.push(c);
            },
            Err(e) => {
                return Err(e);
            },
        }
        i += 1;
    }
    proof {
        assert(column_rows(raws@).take(raws@.len() as int) =~= column_rows(raws@));
    }
    Ok(cs)
}

/// What the answer to a listing of a project's columns means.
pub fn listed_columns(project: &Project, response: Response) -> (r: Result<Vec<Column>, Error>)
    ensures
        match response {
            Response::Columns(raws) => {
                &&& r is Ok <==> columns_decodable(column_rows(raws@), raws@.len() as int)
                &&& r matches Ok(cs) ==> columns_decoded(cs@, column_rows(raws@))
                &&& r matches Err(e) ==> corrupt_column(raws@, e)
            },
            Response::Failed(f) => r matches Err(e) && reports(e, f, project.name@),
            _ => r matches Err(e) && e.is(ErrorKind::ConnectionFailure, project.name@),
        },
{
    match response {
        Response::Columns(raws) => decode_columns(&raws),
        Response::Failed(f) => Err(refused(&f, project.name.as_str())),
        _ => Err(unexpected(project.name.as_str())),
    }
}

/// Why the column `name` cannot be asked for, if it cannot: its name keeps no
/// character, it encodes to the reserved column, or the time is no date.
pub open spec fn column_refusal(name: Seq<char>, now: i64) -> Option<ErrorKind> {
    if sanitized(name).len() == 0 {
        Some(ErrorKind::EmptyIdentifier)
    } else if sanitized(name) == reserved_column() {
        Some(ErrorKind::ReservedName)
    } else if !timestamp_in_range(now) {
        Some(ErrorKind::CorruptMetadata)
    } else {
        None
    }
}

/// The registry row of a column that is created for the project `project_id`
/// under the logical name `name` at the time `now`.
pub open spec fn new_column_row(project_id: i64, name: Seq<char>, column_type: DataType, now: i64) -> ColumnRow {
    ColumnRow {
        name,
        encoded: sanitized(name),
        project_id,
        column_type: column_type.token(),
        created_at: now,
    }
}

/// What has to be asked of the backend to create the column `name` of a project:
/// nothing, where the name is refused; else the change of the table and the
/// registry row as one unit.
pub fn create_column_request(project: &Project, name: &str, column_type: DataType, now: i64) -> (r:
    Result<Action, Error>)
    ensures
        r is Ok <==> column_refusal(name@, now) is None,
        r matches Ok(action) ==> action.creates_column(
            project.encoded@,
            new_column_row(project.id, name@, column_type, now),
        ),
        r matches Err(e) ==> e.is(column_refusal(name@, now)->0, name@),
{
    let encoded = match physical_name(name) {
        Ok(encoded) => encoded,
        Err(e) => {
            return Err(e);
        },
    };
    if same_text(encoded.as_str(), timestamp_column()) {
        return Err(Error::new(ErrorKind::ReservedName, name, "the name of the timestamp column"));
    }
    if !valid_timestamp(now) {
        return Err(Error::new(ErrorKind::CorruptMetadata, name, "invalid timestamp"));
    }
    Ok(
        Action::CreateColumn {
            project_id: project.id,
            table: project.encoded.clone(),
            name: owned(name),
            encoded,
            column_type,
            created_at: now,
        },
    )
}

/// What the answer to the creation of the column `name` means: the column, if
/// its row decodes; a conflict or another failure as the backend reported it.
pub fn created_column(name: &str, response: Response) -> (r: Result<Column, Error>)
    ensures
        match response {
            Response::Column(raw) => if Column::decodable(raw@) {
                r matches Ok(c) && c.decodes(raw@)
            } else {
                r matches Err(e) && e.is(ErrorKind::CorruptMetadata, raw.name@)
            },
            Response::Failed(f) => r matches Err(e) && reports(e, f, name@),
            _ => r matches Err(e) && e.is(ErrorKind::ConnectionFailure, name@),
        },
{
    match response {
        Response::Column(raw) => Column::from_raw(raw),
        Response::Failed(f) => Err(refused(&f, name)),
        _ => Err(unexpected(name)),
    }
}

} // verus!
