//! The headers of a request: each name with the values it was given, in the
//! order in which they arrived.

use vstd::prelude::*;
use crate::text::{str_eq, views};

verus! {

/// One header name with its values. There is always at least one value.
#[derive(Debug)]
struct HeaderEntry {
    name: String,
    values: Vec<String>,
}

/// A mapping from header name to the sequence of its values. Names are
/// compared letter for letter.
#[derive(Debug)]
pub struct Headers {
    entries: Vec<HeaderEntry>,
}

/// The values recorded under `name` in `m`; none where `name` is no key.
pub open spec fn values_in(m: Map<Seq<char>, Seq<Seq<char>>>, name: Seq<char>) -> Seq<Seq<char>> {
    if m.contains_key(name) {
        m[name]
    } else {
        Seq::empty()
    }
}

/// `m` with `value` added after the values that `name` already has.
pub open spec fn with_value(
    m: Map<Seq<char>, Seq<Seq<char>>>,
    name: Seq<char>,
    value: Seq<char>,
) -> Map<Seq<char>, Seq<Seq<char>>> {
    m.insert(name, values_in(m, name).push(value))
}

impl Headers {
    /// No name occurs twice, and every name has a value.
    pub closed spec fn wf(&self) -> bool {
        &&& forall|i: int, j: int|
            0 <= i < j < self.entries.len() ==> self.entries[i].name@ != self.entries[j].name@
        &&& forall|i: int| 0 <= i < self.entries.len() ==> self.entries[i].values.len() > 0
    }

    /// Whether the entry at `i` is the one for `name`.
    spec fn holds_at(&self, name: Seq<char>, i: int) -> bool {
        0 <= i < self.entries.len() && self.entries[i].name@ == name
    }

    /// The place of the entry for `name`.
    spec fn place_of(&self, name: Seq<char>) -> int {
        choose|i: int| self.holds_at(name, i)
    }

    /// The mapping that these headers stand for.
    pub closed spec fn view(&self) -> Map<Seq<char>, Seq<Seq<char>>> {
        Map::new(
            |k: Seq<char>| exists|i: int| self.holds_at(k, i),
            |k: Seq<char>| views(self.entries[self.place_of(k)].values@),
        )
    }

    /// Every name of well-formed headers has at least one value.
    pub proof fn lemma_values_nonempty(&self, name: Seq<char>)
        requires
            self.wf(),
            self@.contains_key(name),
        ensures
            self@[name].len() > 0,
    {
        let i = self.place_of(name);
        assert(self.holds_at(name, i));
    }

    /// Headers with no entry.
    pub fn new() -> (h: Headers)
        ensures
            h.wf(),
            h@ == Map::<Seq<char>, Seq<Seq<char>>>::empty(),
    {
        let h = Headers { entries: Vec::new() };
        assert(h@ =~= Map::<Seq<char>, Seq<Seq<char>>>::empty());
        h
    }

    /// The place of the entry for `name`, or the number of entries where
    /// there is none.
    fn find(&self, name: &str) -> (i: usize)
        requires
            self.wf(),
        ensures
            i <= self.entries.len(),
            i < self.entries.len() ==> self.holds_at(name@, i as int) && self@.contains_key(name@)
                && self.place_of(name@) == i,
            i == self.entries.len() ==> !self@.contains_key(name@),
    {
        let mut i: usize = 0;
        while i < self.entries.len()
            invariant
                self.wf(),
                i <= self.entries.len(),
                forall|k: int| 0 <= k < i ==> !self.holds_at(name@, k),
            decreases self.entries.len() - i,
        {
            if str_eq(self.entries[i].name.as_str(), name) {
                assert(self.holds_at(name@, i as int));
                assert(self.holds_at(name@, self.place_of(name@)));
                return i;
            }
            i += 1;
        }
        i
    }

    /// The values of `name`, in the order in which they were added.
    pub fn get(&self, name: &str) -> (r: Option<&Vec<String>>)
        requires
            self.wf(),
        ensures
            match r {
                Some(values) => self@.contains_key(name@) && views(values@) == self@[name@]
                    && values.len() > 0,
                None => !self@.contains_key(name@),
            },
    {
        let i = self.find(name);
        if i < self.entries.len() {
            Some(&self.entries[i].values)
        } else {
            None
        }
    }

    /// Whether `name` has a value.
    pub fn contains(&self, name: &str) -> (b: bool)
        requires
            self.wf(),
        ensures
            b == self@.contains_key(name@),
    {
        self.find(name) < self.entries.len()
    }

    /// Adds `value` after the values that `name` already has; a new name
    /// starts with this one value.
    pub fn append(&mut self, name: String, value: String)
        requires
            old(self).wf(),
        ensures
            final(self).wf(),
            final(self)@ == with_value(old(self)@, name@, value@),
    {
        let i = self.find(name.as_str());
        let ghost before = *self;
        if i < self.entries.len() {
            let ghost had = views(self.entries[i as int].values@);
            self.entries[i].values.push(value);
            assert(views(self.entries[i as int].values@) =~= had.push(value@));
            assert forall|k: Seq<char>, j: int| before.holds_at(k, j) == self.holds_at(k, j) by {}
            assert(self.entries.len() == before.entries.len());
            assert forall|j: int| 0 <= j < self.entries.len() implies self.entries[j].name
                == before.entries[j].name && self.entries[j].values.len() > 0 by {}
            assert(self.wf());
        } else {
            self.entries.push(HeaderEntry { name, values: vec![value] });
            assert(views(self.entries[i as int].values@) =~= Seq::<Seq<char>>::empty().push(
                value@,
            ));
            assert(self.holds_at(name@, i as int));
            assert forall|j: int| 0 <= j < i implies self.entries[j] == before.entries[j]
                && self.entries[j].name@ != name@ by {
                assert(!before.holds_at(name@, j));
            }
            assert(self.wf());
        }
        assert forall|k: Seq<char>| #[trigger] self@.contains_key(k) implies self.holds_at(
            k,
            self.place_of(k),
        ) by {}
        assert forall|k: Seq<char>| #[trigger] before@.contains_key(k) implies before.holds_at(
            k,
            before.place_of(k),
        ) by {}
        assert forall|k: Seq<char>| #[trigger]
            before@.contains_key(k) implies self@.contains_key(k) by {
            assert(self.holds_at(k, before.place_of(k)));
        }
        assert forall|k: Seq<char>| #[trigger] self@.contains_key(k) && k != name@ implies
            before@.contains_key(k) && before.place_of(k) == self.place_of(k) by {
            assert(before.holds_at(k, self.place_of(k)));
            assert(before.holds_at(k, before.place_of(k)));
        }
        assert(self.holds_at(name@, self.place_of(name@)));
        assert(self.place_of(name@) == i);
        assert(self@ =~= with_value(before@, name@, value@));
    }
}

} // verus!
