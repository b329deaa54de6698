//! The primitive library: an ordered collection of primitive definitions
//! with unique names, and the selection-cycling rule of the editor.
//!
//! The original data source is a directory of definition files loaded once at
//! startup; entries keep their insertion order, and inserting a definition
//! whose name is already present replaces that entry in place.

use vstd::prelude::*;

use crate::types::PrimitiveDefinition;
use crate::types::name_ok;

verus! {

/// The ordered name-to-definition collection the editor works from.
pub struct PrimitiveLibrary {
    defs: Vec<PrimitiveDefinition>,
}

impl PrimitiveLibrary {
    /// The definitions, in iteration order.
    pub closed spec fn defs_seq(self) -> Seq<PrimitiveDefinition> {
        self.defs@
    }

    /// The library's names, in iteration order.
    pub open spec fn names(self) -> Seq<Seq<char>> {
        self.defs_seq().map_values(|d: PrimitiveDefinition| d.name@)
    }

    /// Well-formed: names are pairwise distinct and survive the file format.
    pub open spec fn wf(self) -> bool {
        &&& forall|i: int, j: int|
            0 <= i < j < self.names().len() ==> self.names()[i] != self.names()[j]
        &&& forall|i: int| 0 <= i < self.names().len() ==> name_ok(#[trigger] self.names()[i])
    }

    /// The library holds a definition of this name.
    pub open spec fn contains_name(self, n: Seq<char>) -> bool {
        exists|i: int| 0 <= i < self.names().len() && self.names()[i] == n
    }

    /// The position of this name in iteration order.
    pub open spec fn index_of_name(self, n: Seq<char>) -> int {
        choose|i: int| 0 <= i < self.names().len() && self.names()[i] == n
    }

    /// In a well-formed library, `index_of_name` is the one position that
    /// holds the name.
    pub proof fn lemma_index_of_name(self, n: Seq<char>)
        requires
            self.wf(),
            self.contains_name(n),
        ensures
            0 <= self.index_of_name(n) < self.names().len(),
            self.names()[self.index_of_name(n)] == n,
            forall|j: int|
                0 <= j < self.names().len() && self.names()[j] == n ==> j == self.index_of_name(n),
    {
        let i = self.index_of_name(n);
        assert(0 <= i < self.names().len() && self.names()[i] == n);
        assert forall|j: int|
            0 <= j < self.names().len() && self.names()[j] == n implies j == i by {
            if j < i {
                assert(self.names()[j] != self.names()[i]);
            } else if i < j {
                assert(self.names()[i] != self.names()[j]);
            }
        }
    }

    /// An empty library.
    pub fn new() -> (lib: PrimitiveLibrary)
        ensures
            lib.names().len() == 0,
            lib.wf(),
    {
        PrimitiveLibrary { defs: Vec::new() }
    }

    /// The number of definitions held.
    pub fn len(&self) -> (n: usize)
        ensures
            n == self.names().len(),
    {
        self.defs.len()
    }

    /// The definition at a position in iteration order.
    pub fn get_at(&self, i: usize) -> (d: &PrimitiveDefinition)
        requires
            i < self.names().len(),
        ensures
            *d == self.defs_seq()[i as int],
    {
        &self.defs[i]
    }

    /// Looks a definition up by name.
    pub fn get(&self, name: &String) -> (r: Option<&PrimitiveDefinition>)
        requires
            self.wf(),
        ensures
            match r {
                Some(d) => {
                    &&& self.contains_name(name@)
                    &&& 0 <= self.index_of_name(name@) < self.defs_seq().len()
                    &&& *d == self.defs_seq()[self.index_of_name(name@)]
                    &&& d.name@ == name@
                },
                None => !self.contains_name(name@),
            },
    {
        let n = self.defs.len();
        let mut i: usize = 0;
        while i < n
            invariant
                self.wf(),
                n == self.names().len(),
                0 <= i <= n,
                forall|j: int| 0 <= j < i ==> self.names()[j] != name@,
            decreases n - i,
        {
            if self.defs[i].name == *name {
                proof {
                    assert(self.names()[i as int] == name@);
                    self.lemma_index_of_name(name@);
                }
                return Some(&self.defs[i]);
            }
            i = i + 1;
        }
        None
    }

    /// Inserts a definition: replaces the entry of the same name in place,
    /// or appends a new entry at the end of the iteration order.
    pub fn insert(&mut self, def: PrimitiveDefinition)
        requires
            old(self).wf(),
            name_ok(def.name@),
        ensures
            final(self).wf(),
            final(self).contains_name(def.name@),
            if old(self).contains_name(def.name@) {
                final(self).defs_seq() == old(self).defs_seq().update(
                    old(self).index_of_name(def.name@),
                    def,
                )
            } else {
                final(self).defs_seq() == old(self).defs_seq().push(def)
            },
    {
        let n = self.defs.len();
        let mut i: usize = 0;
        while i < n
            invariant
                old(self).wf(),
                *self == *old(self),
                n == self.names().len(),
                0 <= i <= n,
                forall|j: int| 0 <= j < i ==> self.names()[j] != def.name@,
            decreases n - i,
        {
            if self.defs[i].name == def.name {
                proof {
                    assert(self.names()[i as int] == def.name@);
                    old(self).lemma_index_of_name(def.name@);
                }
                self.defs[i] = def;
                proof {
                    assert(self.names() =~= old(self).names());
                }
                return;
            }
            i = i + 1;
        }
        self.defs.push(def);
        proof {
            assert(self.names() =~= old(self).names().push(def.name@));
            assert(self.names()[self.names().len() - 1] == def.name@);
            assert(self.contains_name(def.name@));
            assert forall|a: int, b: int|
                0 <= a < b < self.names().len() implies self.names()[a] != self.names()[b] by {
                if b < self.names().len() - 1 {
                    assert(old(self).names()[a] != old(self).names()[b]);
                } else {
                    assert(self.names()[b] == def.name@);
                    assert(self.names()[a] == old(self).names()[a]);
                }
            }
        }
    }

    /// The name the selection key advances to from `n`: the next name in
    /// iteration order, wrapping to the first after the last.  A name that is
    /// not in the library is left unchanged.
    pub open spec fn spec_cycled(self, n: Seq<char>) -> Seq<char> {
        if !self.contains_name(n) {
            n
        } else {
            let i = self.index_of_name(n);
            if i + 1 < self.names().len() {
                self.names()[i + 1]
            } else {
                self.names()[0]
            }
        }
    }

    /// `k` applications of the selection-cycling rule.
    pub open spec fn spec_cycled_k(self, n: Seq<char>, k: nat) -> Seq<char>
        decreases k,
    {
        if k == 0 {
            n
        } else {
            self.spec_cycled(self.spec_cycled_k(n, (k - 1) as nat))
        }
    }

    /// Advances a selected name to the next one in iteration order, wrapping
    /// to the first; a name that is absent from the library is returned
    /// unchanged.
    pub fn next_name_after(&self, current: &String) -> (r: String)
        requires
            self.wf(),
        ensures
            r@ == self.spec_cycled(current@),
    {
        let n = self.defs.len();
        let mut i: usize = 0;
        while i < n
            invariant
                self.wf(),
                n == self.names().len(),
                0 <= i <= n,
                forall|j: int| 0 <= j < i ==> self.names()[j] != current@,
            decreases n - i,
        {
            if self.defs[i].name == *current {
                proof {
                    assert(self.names()[i as int] == current@);
                    self.lemma_index_of_name(current@);
                    assert(self.index_of_name(current@) == i as int);
                }
                if i + 1 < n {
                    return self.defs[i + 1].name.clone();
                } else {
                    return self.defs[0].name.clone();
                }
            }
            i = i + 1;
        }
        current.clone()
    }

    /// Cycling through the selection as many times as the library has
    /// entries returns the selection to where it started.
    pub proof fn lemma_cycle_selection_period(self, n: Seq<char>)
        requires
            self.wf(),
            self.contains_name(n),
        ensures
            self.spec_cycled_k(n, self.names().len()) == n,
    {
        let len = self.names().len() as int;
        self.lemma_index_of_name(n);
        let i0 = self.index_of_name(n);
        self.lemma_cycle_index_advances(n, len as nat);
        let m = self.spec_cycled_k(n, len as nat);
        assert(self.index_of_name(m) == if i0 + len < len { i0 + len } else { i0 + len - len });
        assert(self.index_of_name(m) == i0);
        self.lemma_index_of_name(m);
        assert(m == self.names()[i0]);
        assert(self.names()[i0] == n);
    }

    /// After `k` cycling steps from a present name, the selected name sits
    /// `k` places further along the iteration order, wrapping once at most.
    proof fn lemma_cycle_index_advances(self, n: Seq<char>, k: nat)
        requires
            self.wf(),
            self.contains_name(n),
            k <= self.names().len(),
        ensures
            self.contains_name(self.spec_cycled_k(n, k)),
            self.index_of_name(self.spec_cycled_k(n, k)) == {
                let i0 = self.index_of_name(n);
                let len = self.names().len() as int;
                if i0 + k < len {
                    i0 + k
                } else {
                    i0 + k - len
                }
            },
        decreases k,
    {
        let len = self.names().len() as int;
        self.lemma_index_of_name(n);
        let i0 = self.index_of_name(n);
        if k == 0 {
        } else {
            self.lemma_cycle_index_advances(n, (k - 1) as nat);
            let m = self.spec_cycled_k(n, (k - 1) as nat);
            self.lemma_index_of_name(m);
            let p = self.index_of_name(m);
            let q: int = if p + 1 < len {
                p + 1
            } else {
                0
            };
            assert(self.spec_cycled_k(n, k) == self.spec_cycled(m));
            assert(self.spec_cycled(m) == self.names()[q]);
            assert(self.contains_name(self.names()[q]));
            self.lemma_index_of_name(self.names()[q]);
        }
    }
}

} // verus!
