//! Budget dimensions.
//!
//! The dimension set is closed: five conventionally named dimensions and
//! three caller-defined `Custom` slots. Each dimension maps to a dense
//! index in `0..MAX_DIMS`.

use vstd::prelude::*;

verus! {

/// The number of distinct dimensions; equal to the number of [`Dim`] variants.
pub const MAX_DIMS: usize = 8;

/// A budget dimension.
#[derive(Copy, Clone, PartialEq, Eq, Structural, Debug, Hash)]
pub enum Dim {
    /// LLM tokens, database rows, message units.
    Tokens,
    /// Wall-clock milliseconds elapsed, supplied by the caller.
    Millis,
    /// Bytes transferred, read, or written.
    Bytes,
    /// Discrete operation count.
    Calls,
    /// Peak bytes of memory in use.
    Memory,
    /// Caller-defined dimension, slot 0.
    Custom0,
    /// Caller-defined dimension, slot 1.
    Custom1,
    /// Caller-defined dimension, slot 2.
    Custom2,
}

impl Dim {
    /// All dimensions, in index order.
    pub const ALL: [Dim; MAX_DIMS] = [
        Dim::Tokens,
        Dim::Millis,
        Dim::Bytes,
        Dim::Calls,
        Dim::Memory,
        Dim::Custom0,
        Dim::Custom1,
        Dim::Custom2,
    ];

    /// The dense index of a dimension, in `0..MAX_DIMS`.
    pub open spec fn spec_index(self) -> nat {
        match self {
            Dim::Tokens => 0,
            Dim::Millis => 1,
            Dim::Bytes => 2,
            Dim::Calls => 3,
            Dim::Memory => 4,
            Dim::Custom0 => 5,
            Dim::Custom1 => 6,
            Dim::Custom2 => 7,
        }
    }

    /// The dimension whose index is `i`; meaningful for `i < MAX_DIMS`.
    pub open spec fn from_index(i: int) -> Dim {
        if i == 0 {
            Dim::Tokens
        } else if i == 1 {
            Dim::Millis
        } else if i == 2 {
            Dim::Bytes
        } else if i == 3 {
            Dim::Calls
        } else if i == 4 {
            Dim::Memory
        } else if i == 5 {
            Dim::Custom0
        } else if i == 6 {
            Dim::Custom1
        } else {
            Dim::Custom2
        }
    }

    /// The short human-readable name of a dimension.
    pub open spec fn spec_name(self) -> Seq<char> {
        match self {
            Dim::Tokens => "tokens"@,
            Dim::Millis => "millis"@,
            Dim::Bytes => "bytes"@,
            Dim::Calls => "calls"@,
            Dim::Memory => "memory"@,
            Dim::Custom0 => "custom0"@,
            Dim::Custom1 => "custom1"@,
            Dim::Custom2 => "custom2"@,
        }
    }

    /// The stable index of this dimension, suitable for indexing a
    /// `[_; MAX_DIMS]` array.
    pub fn index(self) -> (r: usize)
        ensures
            r == self.spec_index(),
            r < MAX_DIMS,
    {
        match self {
            Dim::Tokens => 0,
            Dim::Millis => 1,
            Dim::Bytes => 2,
            Dim::Calls => 3,
            Dim::Memory => 4,
            Dim::Custom0 => 5,
            Dim::Custom1 => 6,
            Dim::Custom2 => 7,
        }
    }

    /// A short, static, human-readable name, for diagnostics.
    pub fn name(self) -> (r: &'static str)
        ensures
            r@ == self.spec_name(),
    {
        match self {
            Dim::Tokens => "tokens",
            Dim::Millis => "millis",
            Dim::Bytes => "bytes",
            Dim::Calls => "calls",
            Dim::Memory => "memory",
            Dim::Custom0 => "custom0",
            Dim::Custom1 => "custom1",
            Dim::Custom2 => "custom2",
        }
    }
}

/// Indices are unique and dense: every dimension has an index below
/// `MAX_DIMS`, distinct dimensions have distinct indices, and every index
/// below `MAX_DIMS` belongs to exactly one dimension.
pub proof fn lemma_index_bijective()
    ensures
        forall|d: Dim| #[trigger] d.spec_index() < MAX_DIMS,
        forall|d: Dim| #[trigger] Dim::from_index(d.spec_index() as int) == d,
        forall|a: Dim, b: Dim| a.spec_index() == b.spec_index() ==> a == b,
        forall|i: int| 0 <= i < MAX_DIMS ==> #[trigger] Dim::from_index(i).spec_index() == i,
{
    assert forall|a: Dim, b: Dim| a.spec_index() == b.spec_index() implies a == b by {
        assert(Dim::from_index(a.spec_index() as int) == a);
        assert(Dim::from_index(b.spec_index() as int) == b);
    }
}

/// [`Dim::ALL`] lists every dimension once, in index order.
pub proof fn lemma_all_in_index_order()
    ensures
        Dim::ALL@.len() == MAX_DIMS,
        forall|i: int| 0 <= i < MAX_DIMS ==> #[trigger] Dim::ALL@[i] == Dim::from_index(i),
        forall|d: Dim| #[trigger] Dim::ALL@[d.spec_index() as int] == d,
{
    broadcast use vstd::array::group_array_axioms;
    lemma_index_bijective();
    assert(Dim::ALL@[0] == Dim::Tokens);
    assert(Dim::ALL@[7] == Dim::Custom2);
}

/// Names are unique: distinct dimensions have distinct names.
pub proof fn lemma_names_unique(a: Dim, b: Dim)
    requires
        a != b,
    ensures
        a.spec_name() != b.spec_name(),
{
    reveal_strlit("tokens");
    reveal_strlit("millis");
    reveal_strlit("bytes");
    reveal_strlit("calls");
    reveal_strlit("memory");
    reveal_strlit("custom0");
    reveal_strlit("custom1");
    reveal_strlit("custom2");
    if a.spec_name() == b.spec_name() {
        let na = a.spec_name();
        let nb = b.spec_name();
        assert(na.len() == nb.len());
        assert(na[0] == nb[0]);
        assert(na.len() > 1 ==> na[1] == nb[1]);
        assert(na.len() > 6 ==> na[6] == nb[6]);
    }
}

} // verus!
