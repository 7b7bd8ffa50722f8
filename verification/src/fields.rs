//! The fields of one datapoint: values by name, in the order in which the names
//! were first given.

use vstd::prelude::*;
use crate::text::{owned, same_text, texts};

verus! {

/// One field: its name and its value.
#[derive(Debug, PartialEq, Eq)]
pub struct Entry {
    pub key: String,
    pub value: String,
}

/// Some entry of `entries` has the name `key`.
pub open spec fn has_key(entries: Seq<(Seq<char>, Seq<char>)>, key: Seq<char>) -> bool {
    exists|i: int| 0 <= i < entries.len() && (#[trigger] entries[i]).0 == key
}

/// The position of an entry of the name `key`.
pub open spec fn position_of(entries: Seq<(Seq<char>, Seq<char>)>, key: Seq<char>) -> int {
    choose|i: int| 0 <= i < entries.len() && (#[trigger] entries[i]).0 == key
}

/// No two entries of `entries` have the same name.
pub open spec fn distinct_keys(entries: Seq<(Seq<char>, Seq<char>)>) -> bool {
    forall|i: int, j: int|
        0 <= i < j < entries.len() ==> (#[trigger] entries[i]).0 != (#[trigger] entries[j]).0
}

/// `entries` with `value` under `key`: in the place of the old value, or at the
/// end when the name is new.
pub open spec fn put(entries: Seq<(Seq<char>, Seq<char>)>, key: Seq<char>, value: Seq<char>) -> Seq<
    (Seq<char>, Seq<char>),
> {
    if has_key(entries, key) {
        entries.update(position_of(entries, key), (key, value))
    } else {
        entries.push((key, value))
    }
}

/// The names of `entries`, in order.
pub open spec fn keys_of(entries: Seq<(Seq<char>, Seq<char>)>) -> Seq<Seq<char>> {
    Seq::new(entries.len(), |i: int| entries[i].0)
}

/// The values of `entries`, in order.
pub open spec fn values_of(entries: Seq<(Seq<char>, Seq<char>)>) -> Seq<Seq<char>> {
    Seq::new(entries.len(), |i: int| entries[i].1)
}

/// A mapping from field names to values that remembers the order in which the
/// names came.
#[derive(Debug, PartialEq, Eq)]
pub struct Fields {
    entries: Vec<Entry>,
}

impl View for Fields {
    type V = Seq<(Seq<char>, Seq<char>)>;

    /// The entries as pairs of name and value, in order.
    closed spec fn view(&self) -> Seq<(Seq<char>, Seq<char>)> {
        Seq::new(self.entries@.len(), |i: int| (self.entries@[i].key@, self.entries@[i].value@))
    }
}

impl Fields {
    /// No name occurs twice.
    pub open spec fn wf(&self) -> bool {
        distinct_keys(self@)
    }

    /// A mapping without entries.
    pub fn new() -> (f: Fields)
        ensures
            f.wf(),
            f@ == Seq::<(Seq<char>, Seq<char>)>::empty(),
    {
        let f = Fields { entries: Vec::new() };
        assert(f@ =~= Seq::empty());
        f
    }

    /// The number of entries.
    pub fn len(&self) -> (n: usize)
        ensures
            n == self@.len(),
    {
        self.entries.len()
    }

    /// The position of the entry of the name `key`, if there is one.
    fn find(&self, key: &str) -> (r: Option<usize>)
        ensures
            r is Some <==> has_key(self@, key@),
            r matches Some(i) ==> i < self@.len() && self@[i as int].0 == key@,
    {
        let mut i: usize = 0;
        while i < self.entries.len()
            invariant
                i <= self.entries.len(),
                forall|j: int| 0 <= j < i ==> (#[trigger] self@[j]).0 != key@,
            decreases self.entries.len() - i,
        {
            if same_text(self.entries[i].key.as_str(), key) {
                assert(self@[i as int].0 == key@);
                return Some(i);
            }
            i += 1;
        }
        None
    }

    /// Sets the value of the field `key`. A name that the mapping has keeps its
    /// place and gets the new value; a new name comes last.
    pub fn insert(&mut self, key: &str, value: &str)
        requires
            old(self).wf(),
        ensures
            final(self).wf(),
            final(self)@ == put(old(self)@, key@, value@),
    {
        match self.find(key) {
            Some(i) => {
                proof {
                    let p = position_of(self@, key@);
                    assert(self@[p].0 == key@);
                    assert(p == i);
                }
                self.entries.set(i, Entry { key: owned(key), value: owned(value) });
                assert(self@ =~= old(self)@.update(i as int, (key@, value@)));
                assert forall|a: int, b: int| 0 <= a < b < self@.len() implies (#[trigger] self@[a]).0
                    != (#[trigger] self@[b]).0 by {
                    assert(self@[a].0 == old(self)@[a].0);
                    assert(self@[b].0 == old(self)@[b].0);
                }
            },
            None => {
                self.entries.push(Entry { key: owned(key), value: owned(value) });
                assert(self@ =~= old(self)@.push((key@, value@)));
                assert forall|a: int, b: int| 0 <= a < b < self@.len() implies (#[trigger] self@[a]).0
                    != (#[trigger] self@[b]).0 by {
                    if b < old(self)@.len() {
                        assert(self@[a].0 == old(self)@[a].0);
                        assert(self@[b].0 == old(self)@[b].0);
                    } else {
                        assert(self@[a] == old(self)@[a]);
                    }
                }
            },
        }
    }

    /// The value of the field `key`, if the mapping has that name.
    pub fn get(&self, key: &str) -> (r: Option<String>)
        ensures
            r is Some <==> has_key(self@, key@),
            r matches Some(v) ==> exists|i: int|
                0 <= i < self@.len() && #[trigger] self@[i] == (key@, v@),
    {
        match self.find(key) {
            Some(i) => {
                assert(self@[i as int] == (key@, self.entries@[i as int].value@));
                Some(self.entries[i].value.clone())
            },
            None => None,
        }
    }

    /// The names, in order.
    pub fn keys(&self) -> (v: Vec<String>)
        ensures
            texts(v@) == keys_of(self@),
    {
        let mut v: Vec<String> = Vec::new();
        let mut i: usize = 0;
        while i < self.entries.len()
            invariant
                i <= self.entries.len(),
                v@.len() == i,
                forall|j: int| 0 <= j < i ==> (#[trigger] v@[j])@ == self.entries@[j].key@,
            decreases self.entries.len() - i,
        {
            v.push(self.entries[i].key.clone());
            i += 1;
        }
        assert(texts(v@) =~= keys_of(self@));
        v
    }

    /// The values, in the order of their names.
    pub fn values(&self) -> (v: Vec<String>)
        ensures
            texts(v@) == values_of(self@),
    {
        let mut v: Vec<String> = Vec::new();
        let mut i: usize = 0;
        while i < self.entries.len()
            invariant
                i <= self.entries.len(),
                v@.len() == i,
                forall|j: int| 0 <= j < i ==> (#[trigger] v@[j])@ == self.entries@[j].value@,
            decreases self.entries.len() - i,
        {
            v.push(self.entries[i].value.clone());
            i += 1;
        }
        assert(texts(v@) =~= values_of(self@));
        v
    }
}

} // verus!
