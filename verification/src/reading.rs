//! What reading a row back gives: the values that were written, under the
//! logical names they were written for.

use vstd::prelude::*;
use crate::datapoint::{cell_value, encoded_names, row_fields};
use crate::fields::{distinct_keys, has_key, keys_of, values_of};
use crate::memory::{column_named, columns_of, lemma_columns_of, registry_wf};
use crate::outcome::{column_of, columns_for};
use crate::project::{decode_row, decode_rows, ColumnRow, ColumnView, DataType, Project, ProjectRow};
use crate::resolution::resolution;

verus! {

/// No two of `names` are equal.
pub open spec fn pairwise_distinct(names: Seq<Seq<char>>) -> bool {
    forall|i: int, j: int|
        0 <= i < j < names.len() ==> (#[trigger] names[i]) != (#[trigger] names[j])
}

/// No two columns of `columns` share a logical name or a physical one.
pub open spec fn columns_distinct(columns: Seq<ColumnView>) -> bool {
    forall|a: int, b: int|
        0 <= a < b < columns.len() ==> (#[trigger] columns[a]).name != (#[trigger] columns[b]).name
            && columns[a].encoded != columns[b].encoded
}

/// The entry `e` is what the column at `a` reads from the cell at `i`.
pub open spec fn read_from(
    columns: Seq<ColumnView>,
    names: Seq<Seq<char>>,
    values: Seq<Seq<char>>,
    a: int,
    i: int,
    e: (Seq<char>, Seq<char>),
) -> bool {
    &&& 0 <= a < columns.len()
    &&& 0 <= i < names.len()
    &&& columns[a].encoded == names[i]
    &&& e == (columns[a].name, values[i])
}

/// The cells of a row that holds `values` in the physical columns `names`.
pub open spec fn cells_of(names: Seq<Seq<char>>, values: Seq<Seq<char>>) -> Seq<
    (Seq<char>, Option<Seq<char>>),
> {
    Seq::new(names.len(), |i: int| (names[i], Some(values[i])))
}

/// The columns that resolution leaves behind hold what was there before, and a
/// column for each key.
pub proof fn lemma_resolution_names(
    cs: Seq<ColumnRow>,
    ps: Seq<ProjectRow>,
    project: Project,
    keys: Seq<Seq<char>>,
    column_type: DataType,
    now: i64,
)
    requires
        resolution(cs, ps, project, keys, column_type, now).failure is None,
    ensures
        cs.len() <= resolution(cs, ps, project, keys, column_type, now).columns.len(),
        forall|k: int|
            0 <= k < cs.len() ==> #[trigger] resolution(
                cs,
                ps,
                project,
                keys,
                column_type,
                now,
            ).columns[k] == cs[k],
        forall|j: int|
            0 <= j < keys.len() ==> column_named(
                resolution(cs, ps, project, keys, column_type, now).columns,
                project.id,
                #[trigger] keys[j],
            ),
    decreases keys.len(),
{
    if keys.len() > 0 {
        let front = keys.drop_last();
        let before = resolution(cs, ps, project, front, column_type, now);
        let whole = resolution(cs, ps, project, keys, column_type, now);
        lemma_resolution_names(cs, ps, project, front, column_type, now);
        assert forall|j: int| 0 <= j < keys.len() implies column_named(
            whole.columns,
            project.id,
            #[trigger] keys[j],
        ) by {
            if j < front.len() {
                assert(front[j] == keys[j]);
                let k = choose|k: int|
                    0 <= k < before.columns.len() && (#[trigger] before.columns[k]).project_id
                        == project.id && before.columns[k].name == keys[j];
                assert(whole.columns[k] == before.columns[k]);
            } else {
                if !column_named(before.columns, project.id, keys.last()) {
                    assert(whole.columns[before.columns.len() as int].name == keys[j]);
                }
            }
        }
    }
}

/// Within one project of a registry that keeps its rules, no two columns share a
/// logical name or a physical one.
pub proof fn lemma_project_columns_distinct(ps: Seq<ProjectRow>, cs: Seq<ColumnRow>, project_id: i64)
    requires
        registry_wf(ps, cs),
    ensures
        columns_distinct(decode_rows(columns_of(cs, project_id))),
    decreases cs.len(),
{
    let mine = columns_of(cs, project_id);
    let views = decode_rows(mine);
    if cs.len() > 0 {
        let front = cs.drop_last();
        assert(registry_wf(ps, front)) by {
            assert forall|k: int| 0 <= k < front.len() implies front[k] == cs[k] by {}
        }
        lemma_project_columns_distinct(ps, front, project_id);
        lemma_columns_of(front, project_id);
        let before = columns_of(front, project_id);
        assert forall|a: int, b: int| 0 <= a < b < views.len() implies (#[trigger] views[a]).name != (
        #[trigger] views[b]).name && views[a].encoded != views[b].encoded by {
            if b < before.len() {
                assert(decode_rows(before)[a] == views[a]);
                assert(decode_rows(before)[b] == views[b]);
            } else {
                assert(front.contains(before[a]));
                let k = choose|k: int| 0 <= k < front.len() && front[k] == before[a];
                assert(cs[k] == mine[a]);
                assert(cs[cs.len() - 1] == mine[b]);
            }
        }
    }
}

/// In a row whose cells have different names, the value of a name is the value
/// of its one cell.
pub proof fn lemma_cell_value(names: Seq<Seq<char>>, values: Seq<Seq<char>>, name: Seq<char>, from: int)
    requires
        names.len() == values.len(),
        pairwise_distinct(names),
        0 <= from <= names.len(),
    ensures
        match cell_value(cells_of(names, values), name, from) {
            Some(v) => exists|i: int| from <= i < names.len() && #[trigger] names[i] == name && v == values[i],
            None => forall|i: int| from <= i < names.len() ==> #[trigger] names[i] != name,
        },
    decreases names.len() - from,
{
    if from < names.len() {
        lemma_cell_value(names, values, name, from + 1);
    }
}

/// What the first `k` columns read from a row: one entry for each of them that
/// has a cell, under its logical name, and no name twice.
pub proof fn lemma_row_fields(
    columns: Seq<ColumnView>,
    names: Seq<Seq<char>>,
    values: Seq<Seq<char>>,
    k: int,
)
    requires
        0 <= k <= columns.len(),
        names.len() == values.len(),
        pairwise_distinct(names),
        columns_distinct(columns),
    ensures
        distinct_keys(row_fields(columns.take(k), cells_of(names, values))),
        forall|e: (Seq<char>, Seq<char>)| #[trigger]
            row_fields(columns.take(k), cells_of(names, values)).contains(e) <==> exists|
                a: int,
                i: int,
            |
                a < k && #[trigger] read_from(columns, names, values, a, i, e),
    decreases k,
{
    let cells = cells_of(names, values);
    let now = row_fields(columns.take(k), cells);
    if k == 0 {
        assert(columns.take(0) =~= Seq::<ColumnView>::empty());
    } else {
        lemma_row_fields(columns, names, values, k - 1);
        assert(columns.take(k).drop_last() =~= columns.take(k - 1));
        assert(columns.take(k).last() == columns[k - 1]);
        let before = row_fields(columns.take(k - 1), cells);
        let c = columns[k - 1];
        lemma_cell_value(names, values, c.encoded, 0);
        if has_key(before, c.name) {
            let p = choose|p: int| 0 <= p < before.len() && (#[trigger] before[p]).0 == c.name;
            assert(before.contains(before[p]));
            let (a, i) = choose|a: int, i: int|
                a < k - 1 && #[trigger] read_from(columns, names, values, a, i, before[p]);
            assert(columns[a].name != columns[k - 1].name);
        }
        match cell_value(cells, c.encoded, 0) {
            Some(v) => {
                let i = choose|i: int| 0 <= i < names.len() && #[trigger] names[i] == c.encoded && v == values[i];
                assert(now == before.push((c.name, v)));
                assert forall|x: int, y: int| 0 <= x < y < now.len() implies (#[trigger] now[x]).0 != (
                #[trigger] now[y]).0 by {
                    if y < before.len() {
                        assert(now[x] == before[x] && now[y] == before[y]);
                    } else {
                        assert(now[x] == before[x]);
                    }
                }
                assert forall|e: (Seq<char>, Seq<char>)| #[trigger] now.contains(e) <==> exists|
                    a: int,
                    j: int,
                |
                    a < k && #[trigger] read_from(columns, names, values, a, j, e) by {
                    if now.contains(e) {
                        let x = choose|x: int| 0 <= x < now.len() && now[x] == e;
                        if x < before.len() {
                            assert(before[x] == e);
                            assert(before.contains(e));
                            let (a, j) = choose|a: int, j: int|
                                a < k - 1 && #[trigger] read_from(columns, names, values, a, j, e);
                            assert(a < k && read_from(columns, names, values, a, j, e));
                        } else {
                            assert(read_from(columns, names, values, k - 1, i, e));
                        }
                    }
                    if exists|a: int, j: int|
                        a < k && #[trigger] read_from(columns, names, values, a, j, e) {
                        let (a, j) = choose|a: int, j: int|
                            a < k && #[trigger] read_from(columns, names, values, a, j, e);
                        if a < k - 1 {
                            assert(before.contains(e));
                            let x = choose|x: int| 0 <= x < before.len() && before[x] == e;
                            assert(now[x] == e);
                        } else {
                            if j < i {
                                assert(names[j] != names[i]);
                            }
                            if i < j {
                                assert(names[i] != names[j]);
                            }
                            assert(now[before.len() as int] == e);
                        }
                    }
                }
            },
            None => {
                assert(now == before);
                assert forall|e: (Seq<char>, Seq<char>)| #[trigger] now.contains(e) <==> exists|
                    a: int,
                    j: int,
                |
                    a < k && #[trigger] read_from(columns, names, values, a, j, e) by {
                    if now.contains(e) {
                        let (a, j) = choose|a: int, j: int|
                            a < k - 1 && #[trigger] read_from(columns, names, values, a, j, e);
                        assert(a < k && read_from(columns, names, values, a, j, e));
                    }
                    if exists|a: int, j: int|
                        a < k && #[trigger] read_from(columns, names, values, a, j, e) {
                        let (a, j) = choose|a: int, j: int|
                            a < k && #[trigger] read_from(columns, names, values, a, j, e);
                        if a == k - 1 {
                            assert(names[j] == c.encoded);
                        }
                        assert(a < k - 1);
                    }
                }
            },
        }
    }
}

/// A row that was written for the fields `fields`, into the columns that the
/// registry has under their names, reads back as those fields: every written
/// entry is read, nothing else is, and no name is read twice.
pub proof fn lemma_written_row_reads_back(
    ps: Seq<ProjectRow>,
    cs: Seq<ColumnRow>,
    project_id: i64,
    fields: Seq<(Seq<char>, Seq<char>)>,
)
    requires
        registry_wf(ps, cs),
        distinct_keys(fields),
        forall|i: int|
            0 <= i < fields.len() ==> column_named(cs, project_id, (#[trigger] fields[i]).0),
    ensures
        ({
            let names = encoded_names(columns_for(cs, project_id, keys_of(fields)));
            let read = row_fields(
                decode_rows(columns_of(cs, project_id)),
                cells_of(names, values_of(fields)),
            );
            &&& distinct_keys(read)
            &&& forall|e: (Seq<char>, Seq<char>)| #[trigger] read.contains(e) <==> fields.contains(e)
        }),
{
    let keys = keys_of(fields);
    let values = values_of(fields);
    let written = columns_for(cs, project_id, keys);
    let names = encoded_names(written);
    let mine = columns_of(cs, project_id);
    let columns = decode_rows(mine);
    let read = row_fields(columns, cells_of(names, values));
    lemma_columns_of(cs, project_id);
    lemma_project_columns_distinct(ps, cs, project_id);
    // Where each written column stands in the registry and among the project's columns.
    let at = |i: int|
        choose|k: int|
            0 <= k < cs.len() && (#[trigger] cs[k]).project_id == project_id && cs[k].name == keys[i];
    assert forall|i: int| 0 <= i < fields.len() implies 0 <= at(i) < cs.len() && cs[at(i)].project_id
        == project_id && cs[at(i)].name == fields[i].0 && #[trigger] names[i] == cs[at(i)].encoded by {
        assert(column_named(cs, project_id, fields[i].0));
        assert(keys[i] == fields[i].0);
        assert(written[i] == decode_row(column_of(cs, project_id, keys[i])));
    }
    assert(pairwise_distinct(names)) by {
        assert forall|i: int, j: int| 0 <= i < j < names.len() implies (#[trigger] names[i]) != (
        #[trigger] names[j]) by {
            assert(fields[i].0 != fields[j].0);
            let k = at(i);
            let l = at(j);
            assert(cs[k].name != cs[l].name);
            if k < l {
                assert(cs[k].encoded != cs[l].encoded);
            } else {
                assert(cs[l].encoded != cs[k].encoded);
            }
        }
    }
    lemma_row_fields(columns, names, values, columns.len() as int);
    assert(columns.take(columns.len() as int) =~= columns);
    assert forall|e: (Seq<char>, Seq<char>)| #[trigger] read.contains(e) <==> fields.contains(e) by {
        if read.contains(e) {
            let (a, i) = choose|a: int, i: int|
                a < columns.len() && #[trigger] read_from(columns, names, values, a, i, e);
            assert(cs.contains(mine[a]));
            let k = choose|k: int| 0 <= k < cs.len() && cs[k] == mine[a];
            let l = at(i);
            assert(cs[k].encoded == cs[l].encoded);
            if k < l {
                assert(cs[k].encoded != cs[l].encoded);
            }
            if l < k {
                assert(cs[l].encoded != cs[k].encoded);
            }
            assert(e == fields[i]);
        }
        if fields.contains(e) {
            let i = choose|i: int| 0 <= i < fields.len() && fields[i] == e;
            let l = at(i);
            assert(mine.contains(cs[l]));
            let a = choose|a: int| 0 <= a < mine.len() && mine[a] == cs[l];
            assert(columns[a] == decode_row(mine[a]));
            assert(read_from(columns, names, values, a, i, e));
        }
    }
}

} // verus!
