//! Laws of the store, stated over the outcomes that its operations promise.

use vstd::prelude::*;
use crate::clock::timestamp_in_range;
use crate::outcome::{
    column_of, column_outcome, columns_for, datapoint_outcome, project_outcome, stored_cells,
};
use crate::datapoint::{all_storable, encoded_names, row_fields};
use crate::fields::{distinct_keys, keys_of, values_of};
use crate::memory::{column_encoded, columns_of, owner_of, project_owns, rows_of};
use crate::project::{decode_row, decode_rows};
use crate::reading::{cells_of, lemma_resolution_names, lemma_written_row_reads_back};
use crate::encoder::{all_allowed, identifier, lemma_sanitized_shape, sanitized};
use crate::engine::new_column_row;
use crate::error::{fails, Error, ErrorKind};
use crate::memory::{column_named, registry_wf, Relations};
use crate::project::{Column, ColumnRow, ColumnView, DataType, Project, ProjectRow};
use crate::resolution::{
    answers_keys, key_step, lemma_answers_are_columns, resolution, Resolution,
};

verus! {

/// Encoding is idempotent, and what it yields holds allowed characters only.
pub proof fn law_encode_idempotent(s: Seq<char>)
    ensures
        sanitized(sanitized(s)) == sanitized(s),
        all_allowed(sanitized(s)),
{
    lemma_sanitized_shape(s);
    lemma_sanitized_shape(sanitized(s));
}

/// What is written into the text of a statement as the name of a new table or
/// column is an identifier: the allowed characters of a name that has some.
pub proof fn law_physical_names_are_identifiers(name: Seq<char>)
    requires
        sanitized(name).len() > 0,
    ensures
        identifier(sanitized(name)),
{
    lemma_sanitized_shape(name);
}

/// A project that was created cannot be created again: the second creation of
/// the same name is a schema conflict, and leaves the store exactly as the first
/// creation left it.
pub proof fn law_create_twice(
    before: Relations,
    between: Relations,
    after: Relations,
    name: Seq<char>,
    first_time: i64,
    second_time: i64,
    first: Result<Project, Error>,
    second: Result<Project, Error>,
)
    requires
        project_outcome(before, between, name, first_time, first),
        first is Ok,
        timestamp_in_range(second_time),
        project_outcome(between, after, name, second_time, second),
    ensures
        fails(second, ErrorKind::SchemaConflict, name),
        after == between,
{
    let row = between.projects[before.projects.len() as int];
    assert(row.name == name);
}

/// Keys that are equal resolve to the same column.
pub proof fn law_same_key_same_column(
    ps: Seq<ProjectRow>,
    cs: Seq<ColumnRow>,
    project_id: i64,
    keys: Seq<Seq<char>>,
    columns: Seq<ColumnView>,
    i: int,
    j: int,
)
    requires
        registry_wf(ps, cs),
        answers_keys(cs, project_id, keys, columns),
        0 <= i < keys.len(),
        0 <= j < keys.len(),
        keys[i] == keys[j],
    ensures
        columns[i] == columns[j],
{
    lemma_answers_are_columns(ps, cs, project_id, keys, columns);
}

/// Resolving one list of keys after another comes to the same as resolving the
/// two lists as one.
pub proof fn law_resolution_sequential(
    cs: Seq<ColumnRow>,
    ps: Seq<ProjectRow>,
    project: Project,
    first: Seq<Seq<char>>,
    second: Seq<Seq<char>>,
    column_type: DataType,
    now: i64,
)
    ensures
        resolution(cs, ps, project, first + second, column_type, now) == ({
            let half = resolution(cs, ps, project, first, column_type, now);
            if half.failure is Some {
                half
            } else {
                resolution(half.columns, ps, project, second, column_type, now)
            }
        }),
    decreases second.len(),
{
    if second.len() == 0 {
        assert(first + second =~= first);
    } else {
        law_resolution_sequential(cs, ps, project, first, second.drop_last(), column_type, now);
        assert((first + second).drop_last() =~= first + second.drop_last());
        assert((first + second).last() == second.last());
    }
}

/// The rows that column resolution adds for new keys: one for each key, in order.
pub open spec fn new_rows(project_id: i64, keys: Seq<Seq<char>>, column_type: DataType, now: i64) -> Seq<
    ColumnRow,
> {
    Seq::new(keys.len(), |j: int| new_column_row(project_id, keys[j], column_type, now))
}

/// No two of `keys` are equal.
pub open spec fn distinct(keys: Seq<Seq<char>>) -> bool {
    forall|i: int, j: int| 0 <= i < j < keys.len() ==> keys[i] != keys[j]
}

/// Keys that are pairwise different and new to the project add exactly one
/// column each, where none of them fails: no column is lost, none comes twice.
pub proof fn law_new_keys_add_one_each(
    cs: Seq<ColumnRow>,
    ps: Seq<ProjectRow>,
    project: Project,
    keys: Seq<Seq<char>>,
    column_type: DataType,
    now: i64,
)
    requires
        distinct(keys),
        forall|j: int| 0 <= j < keys.len() ==> !column_named(cs, project.id, #[trigger] keys[j]),
        resolution(cs, ps, project, keys, column_type, now).failure is None,
    ensures
        resolution(cs, ps, project, keys, column_type, now).columns == cs + new_rows(
            project.id,
            keys,
            column_type,
            now,
        ),
        resolution(cs, ps, project, keys, column_type, now).columns.len() == cs.len() + keys.len(),
    decreases keys.len(),
{
    if keys.len() == 0 {
        assert(cs + new_rows(project.id, keys, column_type, now) =~= cs);
    } else {
        let front = keys.drop_last();
        let key = keys.last();
        assert forall|j: int| 0 <= j < front.len() implies !column_named(
            cs,
            project.id,
            #[trigger] front[j],
        ) by {
            assert(front[j] == keys[j]);
        }
        assert(distinct(front)) by {
            assert forall|i: int, j: int| 0 <= i < j < front.len() implies front[i] != front[j] by {
                assert(front[i] == keys[i] && front[j] == keys[j]);
            }
        }
        law_new_keys_add_one_each(cs, ps, project, front, column_type, now);
        let mid = resolution(cs, ps, project, front, column_type, now).columns;
        let added = new_rows(project.id, front, column_type, now);
        assert(!column_named(mid, project.id, key)) by {
            if column_named(mid, project.id, key) {
                let k = choose|k: int|
                    0 <= k < mid.len() && (#[trigger] mid[k]).project_id == project.id && mid[k].name
                        == key;
                if k < cs.len() {
                    assert(cs[k] == mid[k]);
                    assert(keys[keys.len() - 1] == key);
                } else {
                    assert(mid[k] == added[k - cs.len()]);
                    assert(front[k - cs.len()] == keys[k - cs.len()]);
                }
            }
        }
        assert(mid.push(new_column_row(project.id, key, column_type, now)) =~= cs + new_rows(
            project.id,
            keys,
            column_type,
            now,
        ));
    }
}

/// A key that names a column of the project already adds none.
pub proof fn law_known_key_adds_none(
    cs: Seq<ColumnRow>,
    ps: Seq<ProjectRow>,
    project: Project,
    key: Seq<char>,
    column_type: DataType,
    now: i64,
)
    requires
        column_named(cs, project.id, key),
    ensures
        resolution(cs, ps, project, seq![key], column_type, now) == (Resolution {
            columns: cs,
            failure: None,
        }),
{
    let none = Seq::<Seq<char>>::empty();
    assert(seq![key].drop_last() =~= none);
    assert(seq![key].last() == key);
    assert(resolution(cs, ps, project, none, column_type, now) == (Resolution {
        columns: cs,
        failure: None,
    }));
}

/// A datapoint that was written reads back: the table of the project has one
/// more row, the last; its timestamp is the time of the writing; and read by the
/// columns of the project it holds the fields of the datapoint, each name once
/// with its value, and nothing else.
pub proof fn law_round_trip(
    pre: Relations,
    post: Relations,
    project: Project,
    fields: Seq<(Seq<char>, Seq<char>)>,
    now: i64,
    r: Result<(), Error>,
)
    requires
        registry_wf(post.projects, post.columns),
        distinct_keys(fields),
        datapoint_outcome(pre, post, project, fields, now, r),
        r is Ok,
    ensures
        rows_of(post.rows, project.encoded@) == rows_of(pre.rows, project.encoded@).push(
            post.rows.last(),
        ),
        post.rows.last().timestamp == now,
        distinct_keys(
            row_fields(
                decode_rows(columns_of(post.columns, project.id)),
                stored_cells(post.rows.last()),
            ),
        ),
        forall|e: (Seq<char>, Seq<char>)| #[trigger]
            row_fields(
                decode_rows(columns_of(post.columns, project.id)),
                stored_cells(post.rows.last()),
            ).contains(e) <==> fields.contains(e),
{
    let keys = keys_of(fields);
    let values = values_of(fields);
    lemma_resolution_names(pre.columns, pre.projects, project, keys, DataType::Text, now);
    assert forall|i: int| 0 <= i < fields.len() implies column_named(
        post.columns,
        project.id,
        (#[trigger] fields[i]).0,
    ) by {
        assert(keys[i] == fields[i].0);
    }
    lemma_written_row_reads_back(post.projects, post.columns, project.id, fields);
    let names = encoded_names(columns_for(post.columns, project.id, keys));
    assert(stored_cells(post.rows.last()) =~= cells_of(names, values));
    assert(post.rows.drop_last() =~= pre.rows);
}

/// For a project that the store has, a datapoint whose names resolve and whose
/// values fit their columns is written: the table is there, and it has every
/// column that the names resolved to.
pub proof fn law_registered_project_is_written(
    pre: Relations,
    post: Relations,
    project: Project,
    fields: Seq<(Seq<char>, Seq<char>)>,
    now: i64,
    r: Result<(), Error>,
)
    requires
        registry_wf(pre.projects, pre.columns),
        project_owns(pre.projects, project.id, project.encoded@),
        datapoint_outcome(pre, post, project, fields, now, r),
        resolution(pre.columns, pre.projects, project, keys_of(fields), DataType::Text, now).failure
            is None,
        all_storable(
            columns_for(
                resolution(
                    pre.columns,
                    pre.projects,
                    project,
                    keys_of(fields),
                    DataType::Text,
                    now,
                ).columns,
                project.id,
                keys_of(fields),
            ),
            values_of(fields),
            fields.len() as int,
        ),
    ensures
        r is Ok,
        post.rows == pre.rows.push(post.rows.last()),
{
    let keys = keys_of(fields);
    let whole = resolution(pre.columns, pre.projects, project, keys, DataType::Text, now);
    let columns = columns_for(whole.columns, project.id, keys);
    let names = encoded_names(columns);
    lemma_resolution_names(pre.columns, pre.projects, project, keys, DataType::Text, now);
    let i = choose|i: int|
        0 <= i < pre.projects.len() && (#[trigger] pre.projects[i]).id == project.id
            && pre.projects[i].encoded == project.encoded@;
    let c = choose|c: int|
        0 <= c < pre.projects.len() && (#[trigger] pre.projects[c]).encoded == project.encoded@;
    assert(pre.projects[c].encoded == project.encoded@);
    if c < i {
        assert(pre.projects[c].encoded != pre.projects[i].encoded);
    }
    if i < c {
        assert(pre.projects[i].encoded != pre.projects[c].encoded);
    }
    assert(owner_of(pre.projects, project.encoded@) == project.id);
    assert forall|j: int| 0 <= j < names.len() implies column_encoded(
        whole.columns,
        project.id,
        #[trigger] names[j],
    ) by {
        assert(column_named(whole.columns, project.id, keys[j]));
        assert(columns[j] == decode_row(column_of(whole.columns, project.id, keys[j])));
    }
}

/// A name without an allowed character never becomes a column: its creation
/// fails as an empty identifier and leaves the store as it was, and a resolution
/// that reaches it as a new key stops there, with the registry as it was.
pub proof fn law_empty_identifier(
    pre: Relations,
    post: Relations,
    project: Project,
    name: Seq<char>,
    column_type: DataType,
    now: i64,
    r: Result<Column, Error>,
)
    requires
        sanitized(name).len() == 0,
        column_outcome(pre, post, project, name, column_type, now, r),
    ensures
        fails(r, ErrorKind::EmptyIdentifier, name),
        post == pre,
        !column_named(pre.columns, project.id, name) ==> key_step(
            pre.columns,
            pre.projects,
            project,
            name,
            column_type,
            now,
        ) == (Resolution {
            columns: pre.columns,
            failure: Some((ErrorKind::EmptyIdentifier, name)),
        }),
{
}

} // verus!
