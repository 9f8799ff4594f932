//! The outcome of a charge.
//!
//! Three outcomes are possible. Verdicts are ranked by severity so that
//! several of them can be reduced to the most severe one.

use vstd::prelude::*;
use crate::dim::Dim;

verus! {

/// The outcome of a single charge.
#[derive(Copy, Clone, PartialEq, Eq, Structural, Debug)]
pub enum Verdict {
    /// The charge was accepted and no threshold was crossed.
    Continue,
    /// The charge was accepted, but the dimension's running total is above
    /// its warn threshold.
    Warn(Dim),
    /// The charge pushed the dimension's running total past its limit.
    Exhausted(Dim),
}

impl Verdict {
    /// Severity rank: `Continue` < `Warn` < `Exhausted`.
    pub open spec fn severity(self) -> nat {
        match self {
            Verdict::Continue => 0,
            Verdict::Warn(_) => 1,
            Verdict::Exhausted(_) => 2,
        }
    }

    /// The more severe of two verdicts; the left one on a tie.
    pub open spec fn spec_worst(self, other: Verdict) -> Verdict {
        if other.severity() > self.severity() {
            other
        } else {
            self
        }
    }

    /// The dimension named by a verdict, if any.
    pub open spec fn dimension_spec(self) -> Option<Dim> {
        match self {
            Verdict::Continue => None,
            Verdict::Warn(d) => Some(d),
            Verdict::Exhausted(d) => Some(d),
        }
    }

    /// `true` unless the verdict is `Exhausted`.
    pub fn is_continuing(self) -> (r: bool)
        ensures
            r == !(self is Exhausted),
    {
        !matches!(self, Verdict::Exhausted(_))
    }

    /// `true` if the verdict is `Exhausted`.
    pub fn is_exhausted(self) -> (r: bool)
        ensures
            r == (self is Exhausted),
    {
        matches!(self, Verdict::Exhausted(_))
    }

    /// The dimension that a verdict names, if it names one.
    pub fn dimension(self) -> (r: Option<Dim>)
        ensures
            r == self.dimension_spec(),
    {
        match self {
            Verdict::Continue => None,
            Verdict::Warn(d) => Some(d),
            Verdict::Exhausted(d) => Some(d),
        }
    }

    /// Reduce two verdicts to the more severe one (`Exhausted` over `Warn`
    /// over `Continue`), keeping `self` when both are equally severe.
    pub fn worst(self, other: Verdict) -> (r: Verdict)
        ensures
            r == self.spec_worst(other),
    {
        let a: u8 = match self {
            Verdict::Continue => 0,
            Verdict::Warn(_) => 1,
            Verdict::Exhausted(_) => 2,
        };
        let b: u8 = match other {
            Verdict::Continue => 0,
            Verdict::Warn(_) => 1,
            Verdict::Exhausted(_) => 2,
        };
        if b > a {
            other
        } else {
            self
        }
    }
}

/// The reduction picks one of its two arguments, and its severity is the
/// larger of the two severities.
pub proof fn lemma_worst_is_max(a: Verdict, b: Verdict)
    ensures
        a.spec_worst(b) == a || a.spec_worst(b) == b,
        a.spec_worst(b).severity() == if a.severity() >= b.severity() {
            a.severity()
        } else {
            b.severity()
        },
        a.spec_worst(b).severity() >= a.severity(),
        a.spec_worst(b).severity() >= b.severity(),
{
}

/// `Continue` is a neutral starting value for the reduction, on either side.
pub proof fn lemma_worst_continue_identity(v: Verdict)
    ensures
        Verdict::Continue.spec_worst(v) == v,
        v.spec_worst(Verdict::Continue) == v,
        v.spec_worst(v) == v,
{
}

/// Reducing a sequence of verdicts does not depend on how the reductions
/// are grouped.
pub proof fn lemma_worst_associative(a: Verdict, b: Verdict, c: Verdict)
    ensures
        a.spec_worst(b).spec_worst(c) == a.spec_worst(b.spec_worst(c)),
{
}

/// A reduced verdict is exhausted exactly when one of its inputs was, and
/// continuing exactly when both inputs were.
pub proof fn lemma_worst_exhausted_iff(a: Verdict, b: Verdict)
    ensures
        (a.spec_worst(b) is Exhausted) <==> (a is Exhausted || b is Exhausted),
        (a.spec_worst(b) is Continue) <==> (a is Continue && b is Continue),
{
}

} // verus!
