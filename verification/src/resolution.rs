//! What column resolution amounts to: the keys are taken one after the other,
//! and each either names a column, gets one, or stops the resolution.

use vstd::prelude::*;
use crate::backend::{Action, Response};
use crate::clock::timestamp_in_range;
use crate::encoder::{identifier, lemma_sanitized_shape, sanitized};
use crate::engine::{column_refusal, new_column_row};
use crate::outcome::{column_of, columns_for};
use crate::error::{Error, ErrorKind};
use crate::memory::{
    answered, column_encoded, column_named, columns_of, lemma_columns_of, project_owns,
    registry_wf, Relations,
};
use crate::project::{
    column_views, decode_row, decode_rows, Column, ColumnRow, ColumnView, DataType, Project,
    ProjectRow,
};
use crate::resolver::{
    advanced, creation_refusal, knows, knows_encoded, picked, picked_range, first_named, resumed,
    unknown_from, Phase, Resolver, Step,
};
use crate::statement::reserved_column;
use crate::text::texts;

verus! {

/// The columns of a registry after some keys, and the failure that stopped the
/// resolution, with the key it is about, if one did.
pub ghost struct Resolution {
    pub columns: Seq<ColumnRow>,
    pub failure: Option<(ErrorKind, Seq<char>)>,
}

/// Why a key that names no column of the project gets none, if it gets none:
/// its name is refused, the time is no date, its physical name is taken, or the
/// registry does not have the project, in this order.
pub open spec fn key_failure(
    cs: Seq<ColumnRow>,
    ps: Seq<ProjectRow>,
    project: Project,
    key: Seq<char>,
    now: i64,
) -> Option<ErrorKind> {
    if sanitized(key).len() == 0 {
        Some(ErrorKind::EmptyIdentifier)
    } else if sanitized(key) == reserved_column() {
        Some(ErrorKind::ReservedName)
    } else if !timestamp_in_range(now) {
        Some(ErrorKind::CorruptMetadata)
    } else if column_encoded(cs, project.id, sanitized(key)) {
        Some(ErrorKind::SchemaConflict)
    } else if !project_owns(ps, project.id, project.encoded@) {
        Some(ErrorKind::NotFound)
    } else {
        None
    }
}

/// The registry after one key: unchanged where the key names a column of the
/// project, or fails; else with the new column last.
pub open spec fn key_step(
    cs: Seq<ColumnRow>,
    ps: Seq<ProjectRow>,
    project: Project,
    key: Seq<char>,
    column_type: DataType,
    now: i64,
) -> Resolution {
    if column_named(cs, project.id, key) {
        Resolution { columns: cs, failure: None }
    } else {
        match key_failure(cs, ps, project, key, now) {
            Some(kind) => Resolution { columns: cs, failure: Some((kind, key)) },
            None => Resolution {
                columns: cs.push(new_column_row(project.id, key, column_type, now)),
                failure: None,
            },
        }
    }
}

/// The registry after the keys `keys`, taken in order, up to the first failure.
pub open spec fn resolution(
    cs: Seq<ColumnRow>,
    ps: Seq<ProjectRow>,
    project: Project,
    keys: Seq<Seq<char>>,
    column_type: DataType,
    now: i64,
) -> Resolution
    decreases keys.len(),
{
    if keys.len() == 0 {
        Resolution { columns: cs, failure: None }
    } else {
        let before = resolution(cs, ps, project, keys.drop_last(), column_type, now);
        if before.failure is Some {
            before
        } else {
            key_step(before.columns, ps, project, keys.last(), column_type, now)
        }
    }
}

/// `column` is the column of the project `project_id` that the registry `cs`
/// has under the logical name `name`.
pub open spec fn resolves_to(cs: Seq<ColumnRow>, project_id: i64, name: Seq<char>, column: ColumnView) -> bool {
    exists|k: int|
        0 <= k < cs.len() && (#[trigger] cs[k]).project_id == project_id && cs[k].name == name
            && column == decode_row(cs[k])
}

/// `columns` holds, for each key in order, the project's column of that name.
pub open spec fn answers_keys(
    cs: Seq<ColumnRow>,
    project_id: i64,
    keys: Seq<Seq<char>>,
    columns: Seq<ColumnView>,
) -> bool {
    &&& columns.len() == keys.len()
    &&& forall|j: int|
        0 <= j < keys.len() ==> resolves_to(cs, project_id, keys[j], #[trigger] columns[j])
}

/// The outcome of resolving `keys` for `project`: the registry is the one that
/// the keys, taken in order, lead to; the result is one column for each key, each
/// the project's column of that name, or the first failure with its key.
pub open spec fn resolve_outcome(
    pre: Relations,
    post: Relations,
    project: Project,
    keys: Seq<Seq<char>>,
    column_type: DataType,
    now: i64,
    r: Result<Vec<Column>, Error>,
) -> bool {
    let whole = resolution(pre.columns, pre.projects, project, keys, column_type, now);
    &&& post == (Relations { columns: whole.columns, ..pre })
    &&& match r {
        Ok(v) => whole.failure is None && answers_keys(
            whole.columns,
            project.id,
            keys,
            column_views(v@),
        ),
        Err(e) => whole.failure == Some((e.kind, e.identifier@)),
    }
}

/// What holds while a resolution is under way, between the registry `pre` it
/// began with and the registry `now` it has reached: the keys passed so far led
/// from the one to the other, each has its column, and what is asked next is the
/// first listing or the creation of a column that the project can take.
pub open spec fn resolving(
    pre: Relations,
    at: Relations,
    project: Project,
    keys: Seq<Seq<char>>,
    column_type: DataType,
    now: i64,
    resolver: Resolver,
    action: Action,
) -> bool {
    let m = resolver.resolved@.len() as int;
    &&& resolver.project == project
    &&& texts(resolver.keys@) == keys
    &&& resolver.column_type == column_type
    &&& resolver.now == now
    &&& at.projects == pre.projects
    &&& at.rows == pre.rows
    &&& match resolver.phase {
        Phase::Listing => at == pre && m == 0 && action == (Action::ListColumns {
            project_id: project.id,
        }),
        Phase::Creating => {
            &&& m < keys.len()
            &&& resolution(pre.columns, pre.projects, project, keys.take(m), column_type, now) == (
            Resolution { columns: at.columns, failure: None })
            &&& answers_keys(at.columns, project.id, keys.take(m), column_views(resolver.resolved@))
            &&& column_views(resolver.known@) == decode_rows(columns_of(at.columns, project.id))
            &&& !column_named(at.columns, project.id, keys[m])
            &&& !column_encoded(at.columns, project.id, sanitized(keys[m]))
            &&& column_refusal(keys[m], now) is None
            &&& action.creates_column(
                project.encoded@,
                new_column_row(project.id, keys[m], column_type, now),
            )
        },
        Phase::Relisting => false,
    }
}

/// Up to the first key that names no known column, every key names one.
pub proof fn lemma_unknown_from(known: Seq<ColumnView>, keys: Seq<Seq<char>>, from: int)
    requires
        0 <= from <= keys.len(),
    ensures
        from <= unknown_from(known, keys, from) <= keys.len(),
        forall|j: int| from <= j < unknown_from(known, keys, from) ==> knows(known, #[trigger] keys[j]),
        unknown_from(known, keys, from) < keys.len() ==> !knows(
            known,
            keys[unknown_from(known, keys, from)],
        ),
    decreases keys.len() - from,
{
    if from < keys.len() && knows(known, keys[from]) {
        lemma_unknown_from(known, keys, from + 1);
    }
}

/// The columns that a listing of a project shows have a logical or physical
/// name exactly when the registry has a column of the project under it.
pub proof fn lemma_known_link(cs: Seq<ColumnRow>, project_id: i64, name: Seq<char>)
    ensures
        knows(decode_rows(columns_of(cs, project_id)), name) <==> column_named(cs, project_id, name),
        knows_encoded(decode_rows(columns_of(cs, project_id)), name) <==> column_encoded(
            cs,
            project_id,
            name,
        ),
{
    let mine = columns_of(cs, project_id);
    let known = decode_rows(mine);
    lemma_columns_of(cs, project_id);
    if knows(known, name) {
        let i = choose|i: int| 0 <= i < known.len() && (#[trigger] known[i]).name == name;
        assert(cs.contains(mine[i]));
        let k = choose|k: int| 0 <= k < cs.len() && cs[k] == mine[i];
        assert(cs[k].project_id == project_id && cs[k].name == name);
    }
    if column_named(cs, project_id, name) {
        let k = choose|k: int|
            0 <= k < cs.len() && (#[trigger] cs[k]).project_id == project_id && cs[k].name == name;
        assert(mine.contains(cs[k]));
        let i = choose|i: int| 0 <= i < mine.len() && mine[i] == cs[k];
        assert(known[i].name == name);
    }
    if knows_encoded(known, name) {
        let i = choose|i: int| 0 <= i < known.len() && (#[trigger] known[i]).encoded == name;
        assert(cs.contains(mine[i]));
        let k = choose|k: int| 0 <= k < cs.len() && cs[k] == mine[i];
        assert(cs[k].project_id == project_id && cs[k].encoded == name);
    }
    if column_encoded(cs, project_id, name) {
        let k = choose|k: int|
            0 <= k < cs.len() && (#[trigger] cs[k]).project_id == project_id && cs[k].encoded
                == name;
        assert(mine.contains(cs[k]));
        let i = choose|i: int| 0 <= i < mine.len() && mine[i] == cs[k];
        assert(known[i].encoded == name);
    }
}

/// The first listed column of a name is the project's column of that name.
pub proof fn lemma_picked(cs: Seq<ColumnRow>, project_id: i64, name: Seq<char>)
    requires
        knows(decode_rows(columns_of(cs, project_id)), name),
    ensures
        resolves_to(cs, project_id, name, picked(decode_rows(columns_of(cs, project_id)), name)),
{
    let mine = columns_of(cs, project_id);
    let known = decode_rows(mine);
    lemma_columns_of(cs, project_id);
    lemma_first_named(known, name, known.len() as int);
    let i = choose|i: int| first_named(known, name, i);
    assert(cs.contains(mine[i]));
    let k = choose|k: int| 0 <= k < cs.len() && cs[k] == mine[i];
    assert(cs[k].project_id == project_id && cs[k].name == name && known[i] == decode_row(cs[k]));
}

/// Where a column of the name `name` lies before the position `n`, one of them is the first.
pub proof fn lemma_first_named(known: Seq<ColumnView>, name: Seq<char>, n: int)
    requires
        0 <= n <= known.len(),
        exists|i: int| 0 <= i < n && (#[trigger] known[i]).name == name,
    ensures
        exists|i: int| first_named(known, name, i),
    decreases n,
{
    if exists|i: int| 0 <= i < n - 1 && (#[trigger] known[i]).name == name {
        lemma_first_named(known, name, n - 1);
    } else {
        assert(known[n - 1].name == name);
        assert(first_named(known, name, n - 1));
    }
}

/// Keys that name columns of the project leave the registry as it is.
pub proof fn lemma_resolution_known(
    start: Seq<ColumnRow>,
    ps: Seq<ProjectRow>,
    project: Project,
    keys: Seq<Seq<char>>,
    column_type: DataType,
    now: i64,
    a: int,
    b: int,
    cs: Seq<ColumnRow>,
)
    requires
        0 <= a <= b <= keys.len(),
        resolution(start, ps, project, keys.take(a), column_type, now) == (Resolution {
            columns: cs,
            failure: None,
        }),
        forall|j: int| a <= j < b ==> column_named(cs, project.id, #[trigger] keys[j]),
    ensures
        resolution(start, ps, project, keys.take(b), column_type, now) == (Resolution {
            columns: cs,
            failure: None,
        }),
    decreases b - a,
{
    if a < b {
        lemma_resolution_known(start, ps, project, keys, column_type, now, a, b - 1, cs);
        assert(keys.take(b).drop_last() =~= keys.take(b - 1));
        assert(keys.take(b).last() == keys[b - 1]);
    }
}

/// Once a key has failed, the keys after it change nothing.
pub proof fn lemma_resolution_failed(
    start: Seq<ColumnRow>,
    ps: Seq<ProjectRow>,
    project: Project,
    keys: Seq<Seq<char>>,
    column_type: DataType,
    now: i64,
    m: int,
    n: int,
)
    requires
        0 <= m <= n <= keys.len(),
        resolution(start, ps, project, keys.take(m), column_type, now).failure is Some,
    ensures
        resolution(start, ps, project, keys.take(n), column_type, now) == resolution(
            start,
            ps,
            project,
            keys.take(m),
            column_type,
            now,
        ),
    decreases n - m,
{
    if m < n {
        lemma_resolution_failed(start, ps, project, keys, column_type, now, m, n - 1);
        assert(keys.take(n).drop_last() =~= keys.take(n - 1));
    }
}

/// One more key, taken after the keys before it.
pub proof fn lemma_resolution_next(
    start: Seq<ColumnRow>,
    ps: Seq<ProjectRow>,
    project: Project,
    keys: Seq<Seq<char>>,
    column_type: DataType,
    now: i64,
    m: int,
)
    requires
        0 <= m < keys.len(),
        resolution(start, ps, project, keys.take(m), column_type, now).failure is None,
    ensures
        resolution(start, ps, project, keys.take(m + 1), column_type, now) == key_step(
            resolution(start, ps, project, keys.take(m), column_type, now).columns,
            ps,
            project,
            keys[m],
            column_type,
            now,
        ),
{
    assert(keys.take(m + 1).drop_last() =~= keys.take(m));
    assert(keys.take(m + 1).last() == keys[m]);
}

/// What walking on through the keys amounts to, from a registry that the known
/// columns were listed from: the keys that name a column leave it as it is; the
/// resolution is then over, fails at the first key that gets no column, or asks
/// for a column that the project can take.
pub proof fn lemma_advanced(
    pre: Relations,
    at: Relations,
    walker: Resolver,
    known: Seq<ColumnView>,
    resolved: Seq<ColumnView>,
    step: Step,
)
    requires
        advanced(walker, known, resolved, step),
        known == decode_rows(columns_of(at.columns, walker.project.id)),
        at.projects == pre.projects,
        at.rows == pre.rows,
        resolved.len() <= walker.keys@.len(),
        resolution(
            pre.columns,
            pre.projects,
            walker.project,
            texts(walker.keys@).take(resolved.len() as int),
            walker.column_type,
            walker.now,
        ) == (Resolution { columns: at.columns, failure: None }),
        answers_keys(
            at.columns,
            walker.project.id,
            texts(walker.keys@).take(resolved.len() as int),
            resolved,
        ),
    ensures
        match step {
            Step::Ask(next, action) => resolving(
                pre,
                at,
                walker.project,
                texts(walker.keys@),
                walker.column_type,
                walker.now,
                next,
                action,
            ),
            Step::Done(r) => resolve_outcome(
                pre,
                at,
                walker.project,
                texts(walker.keys@),
                walker.column_type,
                walker.now,
                r,
            ) && (r matches Err(e) ==> e.kind != ErrorKind::NotFound),
        },
{
    let keys = texts(walker.keys@);
    let project = walker.project;
    let n = resolved.len() as int;
    let m = unknown_from(known, keys, n);
    let reached = resolved + picked_range(known, keys, n, m);
    lemma_unknown_from(known, keys, n);
    assert forall|j: int| n <= j < m implies column_named(at.columns, project.id, #[trigger] keys[j])
        && resolves_to(at.columns, project.id, keys[j], reached[j]) by {
        lemma_known_link(at.columns, project.id, keys[j]);
        lemma_picked(at.columns, project.id, keys[j]);
        assert(reached[j] == picked_range(known, keys, n, m)[j - n]);
    }
    lemma_resolution_known(
        pre.columns,
        pre.projects,
        project,
        keys,
        walker.column_type,
        walker.now,
        n,
        m,
        at.columns,
    );
    assert forall|j: int| 0 <= j < m implies resolves_to(
        at.columns,
        project.id,
        keys.take(m)[j],
        #[trigger] reached[j],
    ) by {
        if j < n {
            assert(reached[j] == resolved[j]);
            assert(keys.take(n)[j] == keys[j]);
        }
    }
    assert(answers_keys(at.columns, project.id, keys.take(m), reached));
    if m == keys.len() {
        assert(keys.take(m) =~= keys);
    } else {
        lemma_known_link(at.columns, project.id, keys[m]);
        lemma_known_link(at.columns, project.id, sanitized(keys[m]));
        lemma_resolution_next(
            pre.columns,
            pre.projects,
            project,
            keys,
            walker.column_type,
            walker.now,
            m,
        );
        if creation_refusal(known, keys[m], walker.now) is Some {
            lemma_resolution_failed(
                pre.columns,
                pre.projects,
                project,
                keys,
                walker.column_type,
                walker.now,
                m + 1,
                keys.len() as int,
            );
            assert(keys.take(keys.len() as int) =~= keys);
        }
    }
}

/// One round of a resolution against the backend in memory: the request is
/// answered, the resolver resumed, and the resolution is either over with the
/// outcome that the keys lead to, or under way as before.
pub proof fn lemma_round(
    pre: Relations,
    mid: Relations,
    post: Relations,
    project: Project,
    keys: Seq<Seq<char>>,
    column_type: DataType,
    now: i64,
    resolver: Resolver,
    action: Action,
    response: Response,
    step: Step,
)
    requires
        registry_wf(mid.projects, mid.columns),
        resolver.wf(),
        resolving(pre, mid, project, keys, column_type, now, resolver, action),
        answered(mid, post, action, response),
        resumed(resolver, response, step),
    ensures
        match step {
            Step::Ask(next, asked) => resolving(pre, post, project, keys, column_type, now, next, asked),
            Step::Done(r) => resolve_outcome(pre, post, project, keys, column_type, now, r),
        },
{
    let m = resolver.resolved@.len() as int;
    match resolver.phase {
        Phase::Listing => {
            let raws = response->Columns_0;
            let rows = columns_of(mid.columns, project.id);
            lemma_columns_of(mid.columns, project.id);
            assert forall|i: int| 0 <= i < rows.len() implies Column::decodable(#[trigger] rows[i]) by {
                assert(mid.columns.contains(rows[i]));
            }
            assert(keys.take(0) =~= Seq::<Seq<char>>::empty());
            assert(column_views(resolver.resolved@) =~= Seq::<ColumnView>::empty());
            lemma_advanced(pre, post, resolver, decode_rows(rows), column_views(resolver.resolved@), step);
        },
        Phase::Creating => {
            let key = keys[m];
            let row = new_column_row(project.id, key, column_type, now);
            lemma_sanitized_shape(key);
            DataType::lemma_token_round_trip();
            lemma_resolution_next(pre.columns, pre.projects, project, keys, column_type, now, m);
            if !project_owns(mid.projects, project.id, project.encoded@) {
                lemma_resolution_failed(
                    pre.columns,
                    pre.projects,
                    project,
                    keys,
                    column_type,
                    now,
                    m + 1,
                    keys.len() as int,
                );
                assert(keys.take(keys.len() as int) =~= keys);
                assert(resolver.keys@[m]@ == key);
            } else {
                let raw = response->Column_0;
                assert(raw@ == row);
                assert(post.columns == mid.columns.push(row));
                assert(post.columns.drop_last() =~= mid.columns);
                assert(columns_of(post.columns, project.id) == columns_of(
                    mid.columns,
                    project.id,
                ).push(row));
                let known = column_views(resolver.known@).push(decode_row(row));
                assert(known =~= decode_rows(columns_of(post.columns, project.id)));
                let resolved = column_views(resolver.resolved@).push(decode_row(row));
                assert(resolver.keys@[m]@ == key);
                assert forall|j: int| 0 <= j < m + 1 implies resolves_to(
                    post.columns,
                    project.id,
                    keys.take(m + 1)[j],
                    #[trigger] resolved[j],
                ) by {
                    if j < m {
                        assert(resolved[j] == column_views(resolver.resolved@)[j]);
                        assert(keys.take(m)[j] == keys[j]);
                        assert(resolves_to(mid.columns, project.id, keys[j], resolved[j]));
                        let k = choose|k: int|
                            0 <= k < mid.columns.len() && (#[trigger] mid.columns[k]).project_id
                                == project.id && mid.columns[k].name == keys[j] && resolved[j]
                                == decode_row(mid.columns[k]);
                        assert(post.columns[k] == mid.columns[k]);
                    } else {
                        assert(post.columns[mid.columns.len() as int] == row);
                    }
                }
                lemma_advanced(pre, post, resolver, known, resolved, step);
            }
        },
        Phase::Relisting => {},
    }
}

/// Under the rules of the registry, the columns that answer a list of keys are
/// the columns that the registry has under those names.
pub proof fn lemma_answers_are_columns(
    ps: Seq<ProjectRow>,
    cs: Seq<ColumnRow>,
    project_id: i64,
    keys: Seq<Seq<char>>,
    columns: Seq<ColumnView>,
)
    requires
        registry_wf(ps, cs),
        answers_keys(cs, project_id, keys, columns),
    ensures
        columns == columns_for(cs, project_id, keys),
        forall|j: int|
            0 <= j < keys.len() ==> column_encoded(cs, project_id, (#[trigger] columns[j]).encoded),
{
    assert forall|j: int| 0 <= j < keys.len() implies #[trigger] columns[j] == decode_row(
        column_of(cs, project_id, keys[j]),
    ) && column_encoded(cs, project_id, columns[j].encoded) by {
        assert(resolves_to(cs, project_id, keys[j], columns[j]));
        let k = choose|k: int|
            0 <= k < cs.len() && (#[trigger] cs[k]).project_id == project_id && cs[k].name
                == keys[j] && columns[j] == decode_row(cs[k]);
        let c = choose|c: int|
            0 <= c < cs.len() && (#[trigger] cs[c]).project_id == project_id && cs[c].name
                == keys[j];
        assert(cs[c].project_id == project_id && cs[c].name == keys[j]);
        if c < k {
            assert(cs[c].name != cs[k].name);
        }
        if k < c {
            assert(cs[k].name != cs[c].name);
        }
    }
    assert(columns =~= columns_for(cs, project_id, keys));
}

} // verus!
