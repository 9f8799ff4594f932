//! A fixed-capacity map from every [`Dim`] to a `u64` value.
//!
//! Storage is two arrays of length `MAX_DIMS` indexed by [`Dim::index`]:
//! the values, and presence flags. A value is reported only once it has
//! been inserted. The abstract model is a finite `Map<Dim, u64>`.

use vstd::prelude::*;
use crate::dim::{Dim, MAX_DIMS, lemma_index_bijective};

verus! {

/// A fixed-capacity map from [`Dim`] to `u64`, with no heap allocation.
#[derive(Debug)]
pub struct FixedMap {
    slots: [u64; MAX_DIMS],
    present: [bool; MAX_DIMS],
}

impl View for FixedMap {
    type V = Map<Dim, u64>;

    closed spec fn view(&self) -> Map<Dim, u64> {
        Map::new(
            |d: Dim| self.present@[d.spec_index() as int],
            |d: Dim| self.slots@[d.spec_index() as int],
        )
    }
}

impl FixedMap {
    /// Create an empty map.
    pub fn new() -> (r: FixedMap)
        ensures
            r@ == Map::<Dim, u64>::empty(),
    {
        let r = FixedMap { slots: [0u64; MAX_DIMS], present: [false; MAX_DIMS] };
        proof {
            broadcast use vstd::array::group_array_axioms;
            lemma_index_bijective();
            assert(r@ =~= Map::<Dim, u64>::empty());
        }
        r
    }

    /// The value stored for `dim`, or `None` if absent.
    pub fn get(&self, dim: Dim) -> (r: Option<u64>)
        ensures
            r == self@.get(dim),
    {
        proof {
            lemma_index_bijective();
        }
        let idx = dim.index();
        if self.present[idx] {
            Some(self.slots[idx])
        } else {
            None
        }
    }

    /// Store `value` for `dim`, returning the previous value if one existed.
    pub fn insert(&mut self, dim: Dim, value: u64) -> (r: Option<u64>)
        ensures
            r == old(self)@.get(dim),
            final(self)@ == old(self)@.insert(dim, value),
    {
        proof {
            lemma_index_bijective();
        }
        let idx = dim.index();
        let prev = if self.present[idx] {
            Some(self.slots[idx])
        } else {
            None
        };
        self.slots[idx] = value;
        self.present[idx] = true;
        proof {
            assert(self@ =~= old(self)@.insert(dim, value));
        }
        prev
    }

    /// The value for `dim`, or `default` if absent.
    pub fn get_or(&self, dim: Dim, default: u64) -> (r: u64)
        ensures
            r == (if self@.contains_key(dim) {
                self@[dim]
            } else {
                default
            }),
    {
        match self.get(dim) {
            Some(v) => v,
            None => default,
        }
    }

    /// `true` if a value has been stored for `dim`.
    pub fn contains(&self, dim: Dim) -> (r: bool)
        ensures
            r == self@.contains_key(dim),
    {
        proof {
            lemma_index_bijective();
        }
        self.present[dim.index()]
    }

    /// `true` if no value has been stored for any dimension.
    pub fn is_empty(&self) -> (r: bool)
        ensures
            r == (forall|d: Dim| !#[trigger] self@.contains_key(d)),
    {
        proof {
            lemma_index_bijective();
        }
        let mut i: usize = 0;
        while i < MAX_DIMS
            invariant
                i <= MAX_DIMS,
                forall|j: int| 0 <= j < i ==> !self.present@[j],
            decreases MAX_DIMS - i,
        {
            if self.present[i] {
                proof {
                    let d = Dim::from_index(i as int);
                    assert(self@.contains_key(d));
                }
                return false;
            }
            i = i + 1;
        }
        proof {
            assert forall|d: Dim| !#[trigger] self@.contains_key(d) by {
                assert(!self.present@[d.spec_index() as int]);
            }
        }
        true
    }
}

} // verus!
