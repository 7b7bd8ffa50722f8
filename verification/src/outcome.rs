//! What the operations of the store come to, stated over the relations before
//! and after.

use vstd::prelude::*;
use crate::clock::timestamp_in_range;
use crate::datapoint::{all_storable, encoded_names, row_fields, Row};
use crate::encoder::sanitized;
use crate::engine::{column_refusal, new_column_row};
use crate::error::{fails, Error, ErrorKind};
use crate::fields::{keys_of, values_of};
use crate::memory::{
    column_encoded, column_named, columns_exist, owner_of, project_named, project_owns,
    registry_table, table_named, DataRow, Relations, PROJECT_LIMIT,
};
use crate::project::{decode_row, Column, ColumnRow, ColumnView, DataType, Project, ProjectRow};
use crate::resolution::resolution;
use crate::value::storable;

verus! {

/// The outcome of creating the project `name` at the time `now`: a name without
/// an allowed character, a time that is no date, a name or table that exists and
/// a full registry are refused, in this order, and change nothing; else the
/// project is recorded last, with the next id.
pub open spec fn project_outcome(
    pre: Relations,
    post: Relations,
    name: Seq<char>,
    now: i64,
    r: Result<Project, Error>,
) -> bool {
    if sanitized(name).len() == 0 {
        post == pre && fails(r, ErrorKind::EmptyIdentifier, name)
    } else if !timestamp_in_range(now) {
        post == pre && fails(r, ErrorKind::CorruptMetadata, name)
    } else if project_named(pre.projects, name) || table_named(pre.projects, sanitized(name))
        || registry_table(sanitized(name)) {
        post == pre && fails(r, ErrorKind::SchemaConflict, name)
    } else if pre.projects.len() >= PROJECT_LIMIT {
        post == pre && fails(r, ErrorKind::ConnectionFailure, name)
    } else {
        let row = ProjectRow {
            name,
            encoded: sanitized(name),
            created_at: now,
            id: (pre.projects.len() + 1) as i64,
        };
        &&& r matches Ok(p)
        &&& p.decodes(row)
        &&& post == (Relations { projects: pre.projects.push(row), ..pre })
    }
}

/// The outcome of creating the column `name` of a project at the time `now`: a
/// refused name, a project that the registry does not have and a logical or
/// physical name that the project has already change nothing; else the column is
/// recorded last.
pub open spec fn column_outcome(
    pre: Relations,
    post: Relations,
    project: Project,
    name: Seq<char>,
    column_type: DataType,
    now: i64,
    r: Result<Column, Error>,
) -> bool {
    if column_refusal(name, now) is Some {
        post == pre && fails(r, column_refusal(name, now)->0, name)
    } else if !project_owns(pre.projects, project.id, project.encoded@) {
        post == pre && fails(r, ErrorKind::NotFound, name)
    } else if column_named(pre.columns, project.id, name) || column_encoded(
        pre.columns,
        project.id,
        sanitized(name),
    ) {
        post == pre && fails(r, ErrorKind::SchemaConflict, name)
    } else {
        let row = new_column_row(project.id, name, column_type, now);
        &&& r matches Ok(c)
        &&& c@ == decode_row(row)
        &&& post == (Relations { columns: pre.columns.push(row), ..pre })
    }
}

/// The column that the registry `cs` has for the project `project_id` under the
/// logical name `name`.
pub open spec fn column_of(cs: Seq<ColumnRow>, project_id: i64, name: Seq<char>) -> ColumnRow {
    cs[choose|k: int|
        0 <= k < cs.len() && (#[trigger] cs[k]).project_id == project_id && cs[k].name == name]
}

/// The columns that the registry `cs` has for the project `project_id` under
/// the logical names `keys`, in the order of the keys.
pub open spec fn columns_for(cs: Seq<ColumnRow>, project_id: i64, keys: Seq<Seq<char>>) -> Seq<
    ColumnView,
> {
    Seq::new(keys.len(), |j: int| decode_row(column_of(cs, project_id, keys[j])))
}

/// The cells of a stored row: each column with its value.
pub open spec fn stored_cells(row: DataRow) -> Seq<(Seq<char>, Option<Seq<char>>)> {
    Seq::new(row.columns.len(), |i: int| (row.columns[i], Some(row.values[i])))
}

/// The outcome of writing the datapoint `fields` for a project at the time
/// `now`: its names are resolved in order, which may add columns; where that
/// fails, or a value does not fit the type of its column, no row is written;
/// nor is one where the store has no table of the project's, or the table is
/// another project's and lacks one of the columns; else one row is written, with
/// `now` as its timestamp and each value in the column of its name.
pub open spec fn datapoint_outcome(
    pre: Relations,
    post: Relations,
    project: Project,
    fields: Seq<(Seq<char>, Seq<char>)>,
    now: i64,
    r: Result<(), Error>,
) -> bool {
    let keys = keys_of(fields);
    let values = values_of(fields);
    let whole = resolution(pre.columns, pre.projects, project, keys, DataType::Text, now);
    let after = Relations { columns: whole.columns, ..pre };
    let columns = columns_for(whole.columns, project.id, keys);
    if whole.failure is Some {
        post == after && r is Err && whole.failure == Some((r->Err_0.kind, r->Err_0.identifier@))
    } else if !all_storable(columns, values, keys.len() as int) {
        &&& post == after
        &&& r is Err
        &&& r->Err_0.kind == ErrorKind::TypeMismatch
        &&& exists|i: int|
            0 <= i < keys.len() && all_storable(columns, values, i) && !storable(
                (#[trigger] columns[i]).column_type,
                values[i],
            ) && r->Err_0.identifier@ == keys[i]
    } else if !table_named(pre.projects, project.encoded@) {
        post == after && fails(r, ErrorKind::NotFound, project.name@)
    } else if !columns_exist(
        whole.columns,
        owner_of(pre.projects, project.encoded@),
        encoded_names(columns),
    ) {
        post == after && fails(r, ErrorKind::ConnectionFailure, project.name@)
    } else {
        &&& r is Ok
        &&& post == (Relations {
            rows: pre.rows.push(
                DataRow {
                    table: project.encoded@,
                    timestamp: now,
                    columns: encoded_names(columns),
                    values,
                },
            ),
            ..after
        })
    }
}

/// The rows `rows` are the stored rows `stored`, read by `columns`: one for one,
/// each with its timestamp and with the values of its cells by logical name.
pub open spec fn rows_read(rows: Seq<Row>, columns: Seq<ColumnView>, stored: Seq<DataRow>) -> bool {
    &&& rows.len() == stored.len()
    &&& forall|i: int|
        0 <= i < rows.len() ==> (#[trigger] rows[i]).timestamp == stored[i].timestamp
            && rows[i].fields.wf() && rows[i].fields@ == row_fields(columns, stored_cells(stored[i]))
}

/// The outcome of opening the project `name` at the time `now`: the project of
/// that name where the store has one, and else what creating it comes to.
pub open spec fn open_outcome(
    pre: Relations,
    post: Relations,
    name: Seq<char>,
    now: i64,
    r: Result<Project, Error>,
) -> bool {
    if project_named(pre.projects, name) {
        &&& post == pre
        &&& r matches Ok(p)
        &&& p.name@ == name
        &&& exists|i: int| 0 <= i < pre.projects.len() && p.decodes(#[trigger] pre.projects[i])
    } else {
        project_outcome(pre, post, name, now, r)
    }
}

/// The creation of a text column for the project `owner`, which the store has
/// under the name `project`, with the outcome `created`.
pub open spec fn named_column_step(
    pre: Relations,
    post: Relations,
    project: Seq<char>,
    name: Seq<char>,
    now: i64,
    owner: Project,
    created: Result<Column, Error>,
    r: Result<(), Error>,
) -> bool {
    &&& owner.name@ == project
    &&& project_owns(pre.projects, owner.id, owner.encoded@)
    &&& column_outcome(pre, post, owner, name, DataType::Text, now, created)
    &&& match created {
        Ok(_) => r is Ok,
        Err(e) => r == Err::<(), Error>(e),
    }
}

/// The outcome of creating the text column `name` for the project of the
/// logical name `project` at the time `now`: not found where the store has no
/// such project, and else what creating the column for that project comes to.
pub open spec fn named_column_outcome(
    pre: Relations,
    post: Relations,
    project: Seq<char>,
    name: Seq<char>,
    now: i64,
    r: Result<(), Error>,
) -> bool {
    if !project_named(pre.projects, project) {
        post == pre && fails(r, ErrorKind::NotFound, project)
    } else {
        exists|owner: Project, created: Result<Column, Error>| #[trigger]
            named_column_step(pre, post, project, name, now, owner, created, r)
    }
}

/// One ingestion in two steps: the project is opened, which leads from `pre` to
/// `mid`; where that fails, the failure is the outcome and nothing else happens;
/// else the datapoint is written for the project, which leads from `mid` to `post`.
pub open spec fn ingest_step(
    pre: Relations,
    mid: Relations,
    post: Relations,
    name: Seq<char>,
    fields: Seq<(Seq<char>, Seq<char>)>,
    now: i64,
    opened: Result<Project, Error>,
    r: Result<(), Error>,
) -> bool {
    &&& open_outcome(pre, mid, name, now, opened)
    &&& match opened {
        Ok(project) => datapoint_outcome(mid, post, project, fields, now, r),
        Err(e) => post == mid && r == Err::<(), Error>(e),
    }
}

/// The outcome of ingesting the datapoint `fields` for the project `name` at the
/// time `now`: the project is opened, and the datapoint written for it.
pub open spec fn ingest_outcome(
    pre: Relations,
    post: Relations,
    name: Seq<char>,
    fields: Seq<(Seq<char>, Seq<char>)>,
    now: i64,
    r: Result<(), Error>,
) -> bool {
    exists|mid: Relations, opened: Result<Project, Error>| #[trigger]
        ingest_step(pre, mid, post, name, fields, now, opened, r)
}

} // verus!
