//! The environment: variable names bound to the terms last assigned to them.
use vstd::prelude::*;

use crate::term::Term;

verus! {

/// A mapping from variable names to terms. Keys are unique; a binding is
/// overwritten by a later assignment to the same name and never removed.
/// A bound term holds copies of the terms of the names its right-hand side
/// read, so each `x=x*x` doubles the size of the term bound to `x`.
pub struct Environment {
    entries: Vec<(String, Term)>,
}

impl Environment {
    /// Whether `i` is the position of the entry for `k`.
    pub closed spec fn key_at(&self, i: int, k: Seq<char>) -> bool {
        0 <= i < self.entries@.len() && self.entries@[i].0@ == k
    }

    /// The names bound, each to the term last assigned to it.
    pub closed spec fn view(&self) -> Map<Seq<char>, Term> {
        Map::new(
            |k: Seq<char>| exists|i: int| self.key_at(i, k),
            |k: Seq<char>| self.entries@[choose|i: int| self.key_at(i, k)].1,
        )
    }

    /// No name has two entries.
    pub closed spec fn wf(&self) -> bool {
        forall|i: int, j: int|
            0 <= i < j < self.entries@.len() ==> self.entries@[i].0@ != self.entries@[j].0@
    }

    /// An environment with no bindings.
    pub fn new() -> (r: Environment)
        ensures
            r.wf(),
            r@ == Map::<Seq<char>, Term>::empty(),
    {
        let r = Environment { entries: Vec::new() };
        assert(r@ =~= Map::<Seq<char>, Term>::empty());
        r
    }

    /// The position of the entry for `name`, if there is one.
    fn position(&self, name: &String) -> (r: Option<usize>)
        requires
            self.wf(),
        ensures
            match r {
                Some(i) => self.key_at(i as int, name@),
                None => !self@.contains_key(name@),
            },
    {
        let mut i: usize = 0;
        while i < self.entries.len()
            invariant
                i <= self.entries@.len(),
                forall|j: int| 0 <= j < i ==> self.entries@[j].0@ != name@,
            decreases self.entries@.len() - i,
        {
            if self.entries[i].0 == *name {
                return Some(i);
            }
            i = i + 1;
        }
        None
    }

    /// The term bound to `name`, if any.
    pub fn lookup(&self, name: &String) -> (r: Option<Term>)
        requires
            self.wf(),
        ensures
            r == (if self@.contains_key(name@) { Some(self@[name@]) } else { None::<Term> }),
    {
        match self.position(name) {
            Some(i) => {
                proof {
                    let k = name@;
                    assert(self.key_at(i as int, k));
                    let c = choose|c: int| self.key_at(c, k);
                    assert(c == i as int);
                }
                Some(self.entries[i].1.duplicate())
            },
            None => None,
        }
    }

    /// Binds `name` to `value`, overwriting any earlier binding of `name`.
    pub fn bind(&mut self, name: String, value: Term)
        requires
            old(self).wf(),
        ensures
            final(self).wf(),
            final(self)@ == old(self)@.insert(name@, value),
    {
        let ghost k = name@;
        let ghost v = value;
        let ghost before = *self;
        match self.position(&name) {
            Some(i) => {
                self.entries.set(i, (name, value));
                assert forall|a: int, b: int|
                    0 <= a < b < self.entries@.len() implies self.entries@[a].0@
                        != self.entries@[b].0@ by {
                    if a != i && b != i {
                        assert(before.entries@[a] == self.entries@[a]);
                        assert(before.entries@[b] == self.entries@[b]);
                    }
                }
                assert forall|k2: Seq<char>|
                    #[trigger] self@.contains_key(k2) == before@.insert(k, v).contains_key(k2)
                    && (self@.contains_key(k2) ==> self@[k2] == before@.insert(k, v)[k2]) by {
                    if exists|j: int| self.key_at(j, k2) {
                        let j = choose|j: int| self.key_at(j, k2);
                        assert(before.key_at(j, k2) || j == i);
                        if k2 != k {
                            assert(before.key_at(j, k2));
                            let c = choose|c: int| before.key_at(c, k2);
                            assert(c == j);
                        }
                    } else {
                        assert(!self.key_at(i as int, k2));
                        if exists|j: int| before.key_at(j, k2) {
                            let j = choose|j: int| before.key_at(j, k2);
                            assert(self.key_at(j, k2));
                        }
                    }
                }
            },
            None => {
                self.entries.push((name, value));
                assert forall|a: int, b: int|
                    0 <= a < b < self.entries@.len() implies self.entries@[a].0@
                        != self.entries@[b].0@ by {
                    assert(before.entries@[a] == self.entries@[a]);
                    if b < before.entries@.len() {
                        assert(before.entries@[b] == self.entries@[b]);
                    } else {
                        assert(before.key_at(a, self.entries@[a].0@));
                    }
                }
                assert forall|k2: Seq<char>|
                    #[trigger] self@.contains_key(k2) == before@.insert(k, v).contains_key(k2)
                    && (self@.contains_key(k2) ==> self@[k2] == before@.insert(k, v)[k2]) by {
                    let n = before.entries@.len() as int;
                    assert(self.key_at(n, k));
                    if exists|j: int| self.key_at(j, k2) {
                        let j = choose|j: int| self.key_at(j, k2);
                        if k2 != k {
                            assert(j != n);
                            assert(self.entries@[j] == before.entries@[j]);
                            assert(before.key_at(j, k2));
                            let c = choose|c: int| before.key_at(c, k2);
                            assert(c == j);
                        } else {
                            assert(j == n);
                        }
                    } else {
                        if exists|j: int| before.key_at(j, k2) {
                            let j = choose|j: int| before.key_at(j, k2);
                            assert(self.key_at(j, k2));
                        }
                    }
                }
            },
        }
        assert(self@ =~= before@.insert(k, v));
    }
}

impl Default for Environment {
    /// An environment with no bindings.
    fn default() -> (r: Environment)
        ensures
            r.wf(),
            r@ == Map::<Seq<char>, Term>::empty(),
    {
        Environment::new()
    }
}

} // verus!
