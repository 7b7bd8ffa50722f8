//! The column resolver: for a list of field names it yields one column each, in
//! the order asked, creating the columns that the project does not have yet.
//!
//! The resolver never talks to the backend itself. It says what to ask, is
//! resumed with the answer, and says what to ask next or what came out.

use vstd::prelude::*;
use crate::backend::{Action, FailureKind, Response};
use crate::clock::timestamp_in_range;
use crate::encoder::sanitized;
use crate::engine::{
    columns_decodable, corrupt_column, create_column_request, decode_columns, new_column_row,
    refused, reports, unexpected,
};
use crate::error::{Error, ErrorKind};
use crate::project::{
    column_rows, column_views, decode_row, decode_rows, Column, ColumnView, DataType, Project,
};
use crate::statement::reserved_column;
use crate::text::{same_text, texts};

verus! {

/// Some column of `known` has the logical name `name`.
pub open spec fn knows(known: Seq<ColumnView>, name: Seq<char>) -> bool {
    exists|i: int| 0 <= i < known.len() && (#[trigger] known[i]).name == name
}

/// Some column of `known` has the physical name `encoded`.
pub open spec fn knows_encoded(known: Seq<ColumnView>, encoded: Seq<char>) -> bool {
    exists|i: int| 0 <= i < known.len() && (#[trigger] known[i]).encoded == encoded
}

/// `i` is the position of the first column of `known` with the logical name `name`.
pub open spec fn first_named(known: Seq<ColumnView>, name: Seq<char>, i: int) -> bool {
    &&& 0 <= i < known.len()
    &&& known[i].name == name
    &&& forall|j: int| 0 <= j < i ==> (#[trigger] known[j]).name != name
}

/// The first column of `known` with the logical name `name`.
pub open spec fn picked(known: Seq<ColumnView>, name: Seq<char>) -> ColumnView {
    known[choose|i: int| first_named(known, name, i)]
}

/// The position of the first key from `from` on that names no column of `known`,
/// or the number of keys if each of them names one.
pub open spec fn unknown_from(known: Seq<ColumnView>, keys: Seq<Seq<char>>, from: int) -> int
    decreases keys.len() - from,
{
    if from >= keys.len() {
        keys.len() as int
    } else if !knows(known, keys[from]) {
        from
    } else {
        unknown_from(known, keys, from + 1)
    }
}

/// The first key that names no column lies between `from` and the end of the keys.
pub proof fn lemma_unknown_from_bounds(known: Seq<ColumnView>, keys: Seq<Seq<char>>, from: int)
    requires
        0 <= from <= keys.len(),
    ensures
        from <= unknown_from(known, keys, from) <= keys.len(),
        from < keys.len() && knows(known, keys[from]) ==> from < unknown_from(known, keys, from),
    decreases keys.len() - from,
{
    if from < keys.len() && knows(known, keys[from]) {
        lemma_unknown_from_bounds(known, keys, from + 1);
    }
}

/// The columns of `known` that the keys from `from` up to `to` name, in the order
/// of the keys.
pub open spec fn picked_range(
    known: Seq<ColumnView>,
    keys: Seq<Seq<char>>,
    from: int,
    to: int,
) -> Seq<ColumnView> {
    Seq::new((to - from) as nat, |j: int| picked(known, keys[from + j]))
}

/// Why the column `name` is not created, if it is not: its name or the time is
/// refused, or its physical name is taken by a column of another logical name.
pub open spec fn creation_refusal(known: Seq<ColumnView>, name: Seq<char>, now: i64) -> Option<
    ErrorKind,
> {
    if sanitized(name).len() == 0 {
        Some(ErrorKind::EmptyIdentifier)
    } else if sanitized(name) == reserved_column() {
        Some(ErrorKind::ReservedName)
    } else if !timestamp_in_range(now) {
        Some(ErrorKind::CorruptMetadata)
    } else if knows_encoded(known, sanitized(name)) {
        Some(ErrorKind::SchemaConflict)
    } else {
        None
    }
}

/// What the resolver is waiting for.
#[derive(Debug, Clone, Copy, PartialEq, Eq, Structural)]
pub enum Phase {
    /// The first listing of the project's columns.
    Listing,
    /// The creation of the column for the next key.
    Creating,
    /// A second listing, after the creation met a conflict.
    Relisting,
}

/// The state of one resolution.
#[derive(Debug)]
pub struct Resolver {
    /// The project whose columns are resolved.
    pub project: Project,
    /// The field names, in the order asked.
    pub keys: Vec<String>,
    /// The type that a column gets when it has to be created.
    pub column_type: DataType,
    /// The creation time of the columns that are created.
    pub now: i64,
    /// The columns of the project, as far as the resolver has learnt of them.
    pub known: Vec<Column>,
    /// The columns for the keys handled so far, one for each, in order.
    pub resolved: Vec<Column>,
    /// What the resolver is waiting for.
    pub phase: Phase,
}

/// What the resolver wants next.
#[derive(Debug)]
pub enum Step {
    /// Ask the backend this, and resume the resolver with the answer.
    Ask(Resolver, Action),
    /// The resolution is over: one column for each key, or the first failure.
    Done(Result<Vec<Column>, Error>),
}

/// The outcome of walking on through the keys with the columns `known`, from a
/// state that has `resolved` already: keys that name a known column take it;
/// the first key that names none is created, unless it is refused; at the end
/// of the keys the resolution is over.
pub open spec fn advanced(
    pre: Resolver,
    known: Seq<ColumnView>,
    resolved: Seq<ColumnView>,
    step: Step,
) -> bool {
    let keys = texts(pre.keys@);
    let m = unknown_from(known, keys, resolved.len() as int);
    let reached = resolved + picked_range(known, keys, resolved.len() as int, m);
    if m == keys.len() {
        step matches Step::Done(Ok(v)) && column_views(v@) == reached
    } else {
        match creation_refusal(known, keys[m], pre.now) {
            Some(kind) => step matches Step::Done(Err(e)) && e.is(kind, keys[m]),
            None => {
                &&& step matches Step::Ask(next, action)
                &&& next.same_task(pre)
                &&& next.phase == Phase::Creating
                &&& column_views(next.known@) == known
                &&& column_views(next.resolved@) == reached
                &&& action.creates_column(
                    pre.project.encoded@,
                    new_column_row(pre.project.id, keys[m], pre.column_type, pre.now),
                )
            },
        }
    }
}

/// What the resolver does with an answer.
pub open spec fn resumed(pre: Resolver, response: Response, step: Step) -> bool {
    let keys = texts(pre.keys@);
    let n = pre.resolved@.len() as int;
    match response {
        Response::Columns(raws) => if pre.phase == Phase::Creating {
            step matches Step::Done(Err(e)) && e.is(ErrorKind::ConnectionFailure, pre.project.name@)
        } else if !columns_decodable(column_rows(raws@), raws@.len() as int) {
            step matches Step::Done(Err(e)) && corrupt_column(raws@, e)
        } else if pre.phase == Phase::Relisting && !knows(
            decode_rows(column_rows(raws@)),
            keys[n],
        ) {
            step matches Step::Done(Err(e)) && e.is(ErrorKind::SchemaConflict, keys[n])
        } else {
            advanced(pre, decode_rows(column_rows(raws@)), column_views(pre.resolved@), step)
        },
        Response::Column(raw) => if pre.phase != Phase::Creating {
            step matches Step::Done(Err(e)) && e.is(ErrorKind::ConnectionFailure, pre.project.name@)
        } else if !Column::decodable(raw@) || raw.name@ != keys[n] {
            step matches Step::Done(Err(e)) && e.is(ErrorKind::CorruptMetadata, keys[n])
        } else {
            advanced(
                pre,
                column_views(pre.known@).push(decode_row(raw@)),
                column_views(pre.resolved@).push(decode_row(raw@)),
                step,
            )
        },
        Response::Failed(f) => if pre.phase == Phase::Creating && f.kind == FailureKind::Conflict {
            &&& step matches Step::Ask(next, action)
            &&& next.same_task(pre)
            &&& next.phase == Phase::Relisting
            &&& next.known@ == pre.known@
            &&& next.resolved@ == pre.resolved@
            &&& action == (Action::ListColumns { project_id: pre.project.id })
        } else {
            step matches Step::Done(Err(e)) && reports(e, f, pre.pending())
        },
        _ => step matches Step::Done(Err(e)) && e.is(
            ErrorKind::ConnectionFailure,
            pre.project.name@,
        ),
    }
}

/// The position of the first column of `known` with the logical name `name`.
pub fn find_known(known: &Vec<Column>, name: &str) -> (r: Option<usize>)
    ensures
        r is Some <==> knows(column_views(known@), name@),
        r matches Some(i) ==> first_named(column_views(known@), name@, i as int) && known@[i as int]@
            == picked(column_views(known@), name@),
{
    let mut i: usize = 0;
    while i < known.len()
        invariant
            i <= known.len(),
            forall|j: int| 0 <= j < i ==> (#[trigger] column_views(known@)[j]).name != name@,
        decreases known.len() - i,
    {
        assert(column_views(known@)[i as int] == known@[i as int]@);
        if same_text(known[i].name.as_str(), name) {
            proof {
                let views = column_views(known@);
                let c = choose|c: int| first_named(views, name@, c);
                assert(first_named(views, name@, i as int));
                assert(first_named(views, name@, c));
                assert(c == i);
            }
            return Some(i);
        }
        i += 1;
    }
    None
}

/// Decides whether some column of `known` has the physical name `encoded`.
pub fn has_encoded(known: &Vec<Column>, encoded: &str) -> (found: bool)
    ensures
        found == knows_encoded(column_views(known@), encoded@),
{
    let mut i: usize = 0;
    while i < known.len()
        invariant
            i <= known.len(),
            forall|j: int| 0 <= j < i ==> (#[trigger] column_views(known@)[j]).encoded != encoded@,
        decreases known.len() - i,
    {
        assert(column_views(known@)[i as int] == known@[i as int]@);
        if same_text(known[i].encoded.as_str(), encoded) {
            return true;
        }
        i += 1;
    }
    false
}

impl Resolver {
    /// `self` works on the same project, keys, type and time as `other`.
    pub open spec fn same_task(&self, other: Resolver) -> bool {
        &&& self.project == other.project
        &&& self.keys@ == other.keys@
        &&& self.column_type == other.column_type
        &&& self.now == other.now
    }

    /// The resolver has one column for each key it has passed, of that key's name,
    /// and while it waits for a creation or a second listing a key is pending.
    pub open spec fn wf(&self) -> bool {
        &&& self.resolved@.len() <= self.keys@.len()
        &&& self.phase != Phase::Listing ==> self.resolved@.len() < self.keys@.len()
        &&& self.phase == Phase::Listing ==> self.resolved@.len() == 0
        &&& forall|j: int|
            0 <= j < self.resolved@.len() ==> (#[trigger] self.resolved@[j]).name@ == self.keys@[j]@
    }

    /// Decides whether the resolver is in a state that it can be resumed from.
    pub fn is_well_formed(&self) -> (ok: bool)
        ensures
            ok == self.wf(),
    {
        let n = self.resolved.len();
        if n > self.keys.len() {
            return false;
        }
        match self.phase {
            Phase::Listing => {
                if n != 0 {
                    return false;
                }
            },
            _ => {
                if n >= self.keys.len() {
                    return false;
                }
            },
        }
        let mut j: usize = 0;
        while j < n
            invariant
                j <= n,
                n == self.resolved@.len(),
                n <= self.keys@.len(),
                forall|k: int|
                    0 <= k < j ==> (#[trigger] self.resolved@[k]).name@ == self.keys@[k]@,
            decreases n - j,
        {
            if !same_text(self.resolved[j].name.as_str(), self.keys[j].as_str()) {
                return false;
            }
            j += 1;
        }
        true
    }

    /// The name that a failure is reported under: the key that is being
    /// created, or the project while its columns are listed.
    pub open spec fn pending(&self) -> Seq<char> {
        if self.phase == Phase::Listing {
            self.project.name@
        } else {
            self.keys@[self.resolved@.len() as int]@
        }
    }

    /// A bound on the requests that the resolver may still make.
    pub open spec fn fuel(&self) -> nat {
        let left = (self.keys@.len() - self.resolved@.len()) as nat;
        match self.phase {
            Phase::Listing => 3 * left + 3,
            Phase::Creating => 3 * left + 2,
            Phase::Relisting => 3 * left + 1,
        }
    }

    /// Begins to resolve `keys` for `project`: the first thing to ask is the
    /// list of the project's columns.
    pub fn start(project: &Project, keys: Vec<String>, column_type: DataType, now: i64) -> (r: (
        Resolver,
        Action,
    ))
        ensures
            r.0.wf(),
            r.0.project == *project,
            r.0.keys@ == keys@,
            r.0.column_type == column_type,
            r.0.now == now,
            r.0.phase == Phase::Listing,
            r.0.known@.len() == 0,
            r.0.resolved@.len() == 0,
            r.1 == (Action::ListColumns { project_id: project.id }),
    {
        let resolver = Resolver {
            project: project.clone(),
            keys,
            column_type,
            now,
            known: Vec::new(),
            resolved: Vec::new(),
            phase: Phase::Listing,
        };
        (resolver, Action::ListColumns { project_id: project.id })
    }

    /// Walks on through the keys with the columns that are known.
    fn advance(self) -> (step: Step)
        requires
            self.resolved@.len() <= self.keys@.len(),
            forall|j: int|
                0 <= j < self.resolved@.len() ==> (#[trigger] self.resolved@[j]).name@
                    == self.keys@[j]@,
        ensures
            advanced(self, column_views(self.known@), column_views(self.resolved@), step),
            step matches Step::Ask(next, _) ==> next.wf() && next.resolved@.len() == unknown_from(
                column_views(self.known@),
                texts(self.keys@),
                self.resolved@.len() as int,
            ),
            step matches Step::Done(Ok(v)) ==> v@.len() == self.keys@.len() && forall|j: int|
                0 <= j < v@.len() ==> (#[trigger] v@[j]).name@ == self.keys@[j]@,
    {
        let ghost start = column_views(self.resolved@);
        let ghost known = column_views(self.known@);
        let ghost keys = texts(self.keys@);
        let Resolver { project, keys: names, column_type, now, known: columns, resolved, phase: _ } =
            self;
        let mut resolved = resolved;
        let mut n: usize = resolved.len();
        while n < names.len()
            invariant
                n == resolved@.len(),
                n <= names@.len(),
                names@ == self.keys@,
                columns@ == self.known@,
                project == self.project,
                column_type == self.column_type,
                now == self.now,
                keys == texts(names@),
                known == column_views(columns@),
                start == column_views(self.resolved@),
                start.len() <= n,
                unknown_from(known, keys, start.len() as int) == unknown_from(known, keys, n as int),
                column_views(resolved@) == start + picked_range(
                    known,
                    keys,
                    start.len() as int,
                    n as int,
                ),
                forall|j: int|
                    0 <= j < resolved@.len() ==> (#[trigger] resolved@[j]).name@ == names@[j]@,
            decreases names.len() - n,
        {
            assert(keys[n as int] == names@[n as int]@);
            match find_known(&columns, names[n].as_str()) {
                Some(i) => {
                    let ghost before = column_views(resolved@);
                    resolved.push(columns[i].clone());
                    proof {
                        assert(column_views(resolved@) =~= before.push(picked(known, keys[n as int])));
                        assert(before.push(picked(known, keys[n as int])) =~= start + picked_range(
                            known,
                            keys,
                            start.len() as int,
                            n + 1,
                        ));
                        assert(known[i as int] == columns@[i as int]@);
                    }
                    n += 1;
                },
                None => {
                    assert(unknown_from(known, keys, n as int) == n);
                    let request = create_column_request(
                        &project,
                        names[n].as_str(),
                        column_type,
                        now,
                    );
                    match request {
                        Err(e) => {
                            return Step::Done(Err(e));
                        },
                        Ok(action) => {
                            let taken = match &action {
                                Action::CreateColumn { encoded, .. } => has_encoded(
                                    &columns,
                                    encoded.as_str(),
                                ),
                                _ => false,
                            };
                            if taken {
                                return Step::Done(
                                    Err(
                                        Error::new(
                                            ErrorKind::SchemaConflict,
                                            names[n].as_str(),
                                            "the physical name is taken",
                                        ),
                                    ),
                                );
                            }
                            let next = Resolver {
                                project,
                                keys: names,
                                column_type,
                                now,
                                known: columns,
                                resolved,
                                phase: Phase::Creating,
                            };
                            return Step::Ask(next, action);
                        },
                    }
                },
            }
        }
        assert(unknown_from(known, keys, n as int) == n);
        Step::Done(Ok(resolved))
    }

    /// Takes the answer to what was asked last, and says what to ask next or
    /// what came out. A conflict on a creation is followed by one more listing:
    /// the key then names a column, or the conflict is reported.
    pub fn resume(self, response: Response) -> (step: Step)
        requires
            self.wf(),
        ensures
            resumed(self, response, step),
            step matches Step::Ask(next, _) ==> next.wf() && next.fuel() < self.fuel(),
            step matches Step::Done(Ok(v)) ==> v@.len() == self.keys@.len() && forall|j: int|
                0 <= j < v@.len() ==> (#[trigger] v@[j]).name@ == self.keys@[j]@,
    {
        let ghost keys = texts(self.keys@);
        let ghost n = self.resolved@.len() as int;
        match response {
            Response::Columns(raws) => {
                if self.phase == Phase::Creating {
                    return Step::Done(Err(unexpected(self.project.name.as_str())));
                }
                let known = match decode_columns(&raws) {
                    Ok(known) => known,
                    Err(e) => {
                        return Step::Done(Err(e));
                    },
                };
                proof {
                    assert(column_views(known@) =~= decode_rows(column_rows(raws@)));
                }
                if self.phase == Phase::Relisting {
                    let at = self.resolved.len();
                    assert(keys[n] == self.keys@[n]@);
                    proof {
                        lemma_unknown_from_bounds(column_views(known@), keys, n);
                    }
                    if find_known(&known, self.keys[at].as_str()).is_none() {
                        return Step::Done(
                            Err(
                                Error::new(
                                    ErrorKind::SchemaConflict,
                                    self.keys[at].as_str(),
                                    "the column exists under another name",
                                ),
                            ),
                        );
                    }
                }
                let Resolver { project, keys: names, column_type, now, known: _, resolved, phase } =
                    self;
                let next = Resolver { project, keys: names, column_type, now, known, resolved, phase };
                proof {
                    lemma_unknown_from_bounds(column_views(known@), keys, n);
                }
                next.advance()
            },
            Response::Column(raw) => {
                if self.phase != Phase::Creating {
                    return Step::Done(Err(unexpected(self.project.name.as_str())));
                }
                let at = self.resolved.len();
                assert(keys[n] == self.keys@[n]@);
                if !same_text(raw.name.as_str(), self.keys[at].as_str()) {
                    return Step::Done(
                        Err(
                            Error::new(
                                ErrorKind::CorruptMetadata,
                                self.keys[at].as_str(),
                                "the answer names another column",
                            ),
                        ),
                    );
                }
                let column = match Column::from_raw(raw) {
                    Ok(column) => column,
                    Err(e) => {
                        return Step::Done(
                            Err(
                                Error::new(
                                    ErrorKind::CorruptMetadata,
                                    self.keys[at].as_str(),
                                    e.detail.as_str(),
                                ),
                            ),
                        );
                    },
                };
                let Resolver { project, keys: names, column_type, now, known, resolved, phase } = self;
                let mut known = known;
                let mut resolved = resolved;
                known.push(column.clone());
                resolved.push(column);
                proof {
                    assert(column_views(known@) =~= column_views(self.known@).push(decode_row(raw@)));
                    assert(column_views(resolved@) =~= column_views(self.resolved@).push(
                        decode_row(raw@),
                    ));
                }
                let next = Resolver { project, keys: names, column_type, now, known, resolved, phase };
                proof {
                    lemma_unknown_from_bounds(column_views(known@), keys, n + 1);
                }
                next.advance()
            },
            Response::Failed(f) => {
                if self.phase == Phase::Creating && f.kind == FailureKind::Conflict {
                    let Resolver { project, keys: names, column_type, now, known, resolved, phase: _ } =
                        self;
                    let action = Action::ListColumns { project_id: project.id };
                    let next = Resolver {
                        project,
                        keys: names,
                        column_type,
                        now,
                        known,
                        resolved,
                        phase: Phase::Relisting,
                    };
                    return Step::Ask(next, action);
                }
                if self.phase == Phase::Listing {
                    Step::Done(Err(refused(&f, self.project.name.as_str())))
                } else {
                    let at = self.resolved.len();
                    Step::Done(Err(refused(&f, self.keys[at].as_str())))
                }
            },
            _ => Step::Done(Err(unexpected(self.project.name.as_str()))),
        }
    }
}

} // verus!
