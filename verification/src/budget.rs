//! The budget itself.
//!
//! A [`Budget`] is declared through a [`BudgetBuilder`] and mutated by
//! repeated [`charge`](Budget::charge) calls, each of which returns a
//! [`Verdict`]. Internally a budget holds three fixed maps: declared
//! limits, warn thresholds, and running spent totals. Presence in the
//! limits map is what makes a dimension declared.
//!
//! Every operation is specified over [`BudgetView`] and [`BuilderView`],
//! the abstract states of a budget and of a builder.

use vstd::prelude::*;
use crate::dim::{Dim, MAX_DIMS, lemma_index_bijective};
use crate::error::{BuilderError, ChargeError};
use crate::fixed_map::FixedMap;
use crate::verdict::Verdict;

verus! {

/// `a + b`, saturating at `u64::MAX`.
pub open spec fn saturating_sum(a: u64, b: u64) -> u64 {
    if a + b > u64::MAX {
        u64::MAX
    } else {
        (a + b) as u64
    }
}

/// `a - b`, saturating at zero.
pub open spec fn saturating_difference(a: u64, b: u64) -> u64 {
    if a < b {
        0
    } else {
        (a - b) as u64
    }
}

/// The verdict for a dimension whose running total is `spent`, given its
/// limit and optional warn threshold. Limits are inclusive, warn
/// thresholds strict, and exhaustion wins over warning.
pub open spec fn verdict_for(dim: Dim, spent: u64, limit: u64, warn: Option<u64>) -> Verdict {
    if spent > limit {
        Verdict::Exhausted(dim)
    } else {
        match warn {
            Some(w) => if spent > w {
                Verdict::Warn(dim)
            } else {
                Verdict::Continue
            },
            None => Verdict::Continue,
        }
    }
}

/// Running totals with nothing charged on any dimension.
pub open spec fn zero_spent() -> Map<Dim, u64> {
    Map::new(|d: Dim| true, |d: Dim| 0u64)
}

/// The abstract state of a [`Budget`].
#[verifier::ext_equal]
pub struct BudgetView {
    /// Declared limits; a dimension is declared iff it has a limit.
    pub limits: Map<Dim, u64>,
    /// Configured warn thresholds.
    pub warns: Map<Dim, u64>,
    /// The running total of every dimension (zero when never charged).
    pub spent: Map<Dim, u64>,
}

impl BudgetView {
    /// The invariant of every budget that a builder produces: at least one
    /// dimension is declared, every limit is positive, every warn threshold
    /// belongs to a declared dimension and lies strictly below its limit,
    /// and every dimension has a running total.
    pub open spec fn wf(self) -> bool {
        &&& exists|d: Dim| #[trigger] self.limits.contains_key(d)
        &&& forall|d: Dim| #[trigger] self.limits.contains_key(d) ==> self.limits[d] > 0
        &&& forall|d: Dim| #[trigger]
            self.warns.contains_key(d) ==> self.limits.contains_key(d) && self.warns[d]
                < self.limits[d]
        &&& forall|d: Dim| #[trigger] self.spent.contains_key(d)
    }

    /// The verdict that the current state reports for a declared dimension.
    pub open spec fn current_verdict(self, dim: Dim) -> Verdict {
        verdict_for(dim, self.spent[dim], self.limits[dim], self.warns.get(dim))
    }

    /// The state after charging `amount` against `dim`, and the result.
    pub open spec fn charge_outcome(self, dim: Dim, amount: u64) -> (BudgetView, Result<
        Verdict,
        ChargeError,
    >) {
        if !self.limits.contains_key(dim) {
            (self, Err(ChargeError::UnknownDimension(dim)))
        } else {
            let next = BudgetView {
                limits: self.limits,
                warns: self.warns,
                spent: self.spent.insert(dim, saturating_sum(self.spent[dim], amount)),
            };
            (next, Ok(next.current_verdict(dim)))
        }
    }

    /// The state after a reset: every running total back to zero.
    pub open spec fn reset_outcome(self) -> BudgetView {
        BudgetView { limits: self.limits, warns: self.warns, spent: zero_spent() }
    }

    /// What `spent` reports for `dim`.
    pub open spec fn spent_of(self, dim: Dim) -> Option<u64> {
        if self.limits.contains_key(dim) {
            Some(self.spent[dim])
        } else {
            None
        }
    }

    /// What `remaining` reports for `dim`.
    pub open spec fn remaining_of(self, dim: Dim) -> Option<u64> {
        if self.limits.contains_key(dim) {
            Some(saturating_difference(self.limits[dim], self.spent[dim]))
        } else {
            None
        }
    }
}

/// The abstract state of a [`BudgetBuilder`].
#[verifier::ext_equal]
pub struct BuilderView {
    /// Declared limits.
    pub limits: Map<Dim, u64>,
    /// Declared warn thresholds.
    pub warns: Map<Dim, u64>,
    /// The first dimension that was declared twice, if any.
    pub duplicate: Option<Dim>,
}

impl BuilderView {
    /// The state of a fresh builder.
    pub open spec fn empty() -> BuilderView {
        BuilderView { limits: Map::empty(), warns: Map::empty(), duplicate: None }
    }

    /// The builder's invariant: warn thresholds only for declared dimensions.
    pub open spec fn wf(self) -> bool {
        forall|d: Dim| #[trigger] self.warns.contains_key(d) ==> self.limits.contains_key(d)
    }

    /// The duplicate record after declaring `dim` once more.
    pub open spec fn duplicate_after(self, dim: Dim) -> Option<Dim> {
        if self.limits.contains_key(dim) && self.duplicate is None {
            Some(dim)
        } else {
            self.duplicate
        }
    }

    /// The state after declaring `dim` with `limit` and no warn threshold.
    pub open spec fn with_limit(self, dim: Dim, limit: u64) -> BuilderView {
        BuilderView {
            limits: self.limits.insert(dim, limit),
            warns: self.warns,
            duplicate: self.duplicate_after(dim),
        }
    }

    /// The state after declaring `dim` with `limit` and warn threshold `warn`.
    pub open spec fn with_limit_and_warn(self, dim: Dim, limit: u64, warn: u64) -> BuilderView {
        BuilderView {
            limits: self.limits.insert(dim, limit),
            warns: self.warns.insert(dim, warn),
            duplicate: self.duplicate_after(dim),
        }
    }

    /// The problem with the declaration of `dim`, if any: a zero limit
    /// first, then a warn threshold not below the limit.
    pub open spec fn problem_at(self, dim: Dim) -> Option<BuilderError> {
        if !self.limits.contains_key(dim) {
            None
        } else if self.limits[dim] == 0 {
            Some(BuilderError::ZeroLimit(dim))
        } else if self.warns.contains_key(dim) && self.warns[dim] >= self.limits[dim] {
            Some(BuilderError::WarnNotBelowLimit(dim))
        } else {
            None
        }
    }

    /// The first problem among the dimensions of index `i` and above, in
    /// index order.
    pub open spec fn first_problem_from(self, i: nat) -> Option<BuilderError>
        decreases MAX_DIMS - i,
    {
        if i >= MAX_DIMS {
            None
        } else {
            match self.problem_at(Dim::from_index(i as int)) {
                Some(e) => Some(e),
                None => self.first_problem_from(i + 1),
            }
        }
    }

    /// The error that `build` reports, if any: a duplicate declaration
    /// first, then an empty declaration, then the first per-dimension
    /// problem in index order.
    pub open spec fn build_error(self) -> Option<BuilderError> {
        match self.duplicate {
            Some(d) => Some(BuilderError::DuplicateDimension(d)),
            None => if forall|d: Dim| !#[trigger] self.limits.contains_key(d) {
                Some(BuilderError::NoDimensions)
            } else {
                self.first_problem_from(0)
            },
        }
    }

    /// The budget that `build` produces when it succeeds.
    pub open spec fn built(self) -> BudgetView {
        BudgetView { limits: self.limits, warns: self.warns, spent: zero_spent() }
    }
}

/// A declared budget with running spent counters.
#[derive(Debug)]
pub struct Budget {
    limits: FixedMap,
    warn_thresholds: FixedMap,
    spent: FixedMap,
}

/// Builder for a [`Budget`]: accumulates declarations and validates them in
/// [`build`](BudgetBuilder::build).
#[derive(Debug)]
pub struct BudgetBuilder {
    limits: FixedMap,
    warn_thresholds: FixedMap,
    duplicate: Option<Dim>,
}

impl View for Budget {
    type V = BudgetView;

    closed spec fn view(&self) -> BudgetView {
        BudgetView {
            limits: self.limits@,
            warns: self.warn_thresholds@,
            spent: Map::new(
                |d: Dim| true,
                |d: Dim|
                    if self.spent@.contains_key(d) {
                        self.spent@[d]
                    } else {
                        0u64
                    },
            ),
        }
    }
}

impl View for BudgetBuilder {
    type V = BuilderView;

    closed spec fn view(&self) -> BuilderView {
        BuilderView {
            limits: self.limits@,
            warns: self.warn_thresholds@,
            duplicate: self.duplicate,
        }
    }
}

impl BudgetBuilder {
    fn new() -> (r: BudgetBuilder)
        ensures
            r@ == BuilderView::empty(),
            r@.wf(),
    {
        BudgetBuilder {
            limits: FixedMap::new(),
            warn_thresholds: FixedMap::new(),
            duplicate: None,
        }
    }

    /// Declare `dim` with `limit` and no warn threshold. Declaring a
    /// dimension twice is reported by [`build`](Self::build).
    pub fn limit(self, dim: Dim, limit: u64) -> (r: BudgetBuilder)
        ensures
            r@ == self@.with_limit(dim, limit),
            self@.wf() ==> r@.wf(),
    {
        let mut b = self;
        if b.limits.contains(dim) && b.duplicate.is_none() {
            b.duplicate = Some(dim);
        }
        let _ = b.limits.insert(dim, limit);
        b
    }

    /// Declare `dim` with `limit` and warn threshold `warn`. Declaring a
    /// dimension twice is reported by [`build`](Self::build).
    pub fn limit_with_warn(self, dim: Dim, limit: u64, warn: u64) -> (r: BudgetBuilder)
        ensures
            r@ == self@.with_limit_and_warn(dim, limit, warn),
            self@.wf() ==> r@.wf(),
    {
        let mut b = self;
        if b.limits.contains(dim) && b.duplicate.is_none() {
            b.duplicate = Some(dim);
        }
        let _ = b.limits.insert(dim, limit);
        let _ = b.warn_thresholds.insert(dim, warn);
        b
    }

    /// Finalize the declaration into a [`Budget`], or report the first
    /// structural problem: a duplicate declaration, then an empty
    /// declaration, then per-dimension problems in [`Dim::ALL`] order (a
    /// zero limit before a warn threshold not below the limit).
    pub fn build(self) -> (r: Result<Budget, BuilderError>)
        ensures
            match r {
                Ok(b) => self@.build_error() is None && b@ == self@.built(),
                Err(e) => self@.build_error() == Some(e),
            },
            self@.wf() ==> (r matches Ok(b) ==> b@.wf()),
    {
        if let Some(dim) = self.duplicate {
            return Err(BuilderError::DuplicateDimension(dim));
        }
        if self.limits.is_empty() {
            return Err(BuilderError::NoDimensions);
        }
        let mut i: usize = 0;
        while i < MAX_DIMS
            invariant
                i <= MAX_DIMS,
                self@.build_error() == self@.first_problem_from(i as nat),
            decreases MAX_DIMS - i,
        {
            let dim = Dim::ALL[i];
            assert(dim == Dim::from_index(i as int));
            if let Some(limit) = self.limits.get(dim) {
                if limit == 0 {
                    return Err(BuilderError::ZeroLimit(dim));
                }
                if let Some(warn) = self.warn_thresholds.get(dim) {
                    if warn >= limit {
                        return Err(BuilderError::WarnNotBelowLimit(dim));
                    }
                }
            }
            i = i + 1;
        }
        let b = Budget {
            limits: self.limits,
            warn_thresholds: self.warn_thresholds,
            spent: FixedMap::new(),
        };
        proof {
            assert(b@ =~= self@.built());
            if self@.wf() {
                lemma_problem_search(self@, 0);
                lemma_index_bijective();
                assert forall|d: Dim| #[trigger] self@.limits.contains_key(d) implies self@.limits[d]
                    > 0 by {
                    assert(self@.problem_at(Dim::from_index(d.spec_index() as int)) is None);
                }
                assert forall|d: Dim| #[trigger] self@.warns.contains_key(d) implies self@.limits.contains_key(d)
                    && self@.warns[d] < self@.limits[d] by {
                    assert(self@.problem_at(Dim::from_index(d.spec_index() as int)) is None);
                }
            }
        }
        Ok(b)
    }
}

impl Budget {
    /// Begin declaring a [`Budget`].
    pub fn builder() -> (r: BudgetBuilder)
        ensures
            r@ == BuilderView::empty(),
            r@.wf(),
    {
        BudgetBuilder::new()
    }

    /// Charge `amount` against `dim` and return the resulting verdict.
    ///
    /// The running total saturates at `u64::MAX` and is updated even when
    /// the charge exhausts the budget. Limits are inclusive: reaching the
    /// limit exactly is not exhaustion. Exhaustion wins over warning. A
    /// zero charge reports the current state without changing it.
    ///
    /// Returns [`ChargeError::UnknownDimension`], and changes nothing, when
    /// `dim` was not declared.
    pub fn charge(&mut self, dim: Dim, amount: u64) -> (r: Result<Verdict, ChargeError>)
        ensures
            final(self)@ == old(self)@.charge_outcome(dim, amount).0,
            r == old(self)@.charge_outcome(dim, amount).1,
            old(self)@.wf() ==> final(self)@.wf(),
    {
        let limit = match self.limits.get(dim) {
            Some(l) => l,
            None => return Err(ChargeError::UnknownDimension(dim)),
        };
        let current = self.spent.get_or(dim, 0);
        let new_spent = current.saturating_add(amount);
        let _ = self.spent.insert(dim, new_spent);
        proof {
            assert(self@ =~= old(self)@.charge_outcome(dim, amount).0);
        }
        if new_spent > limit {
            return Ok(Verdict::Exhausted(dim));
        }
        if let Some(warn) = self.warn_thresholds.get(dim) {
            if new_spent > warn {
                return Ok(Verdict::Warn(dim));
            }
        }
        Ok(Verdict::Continue)
    }

    /// The remaining headroom for `dim`, `limit - spent` saturating at zero;
    /// `None` if `dim` was not declared.
    pub fn remaining(&self, dim: Dim) -> (r: Option<u64>)
        ensures
            r == self@.remaining_of(dim),
    {
        let limit = match self.limits.get(dim) {
            Some(l) => l,
            None => return None,
        };
        let spent = self.spent.get_or(dim, 0);
        Some(limit.saturating_sub(spent))
    }

    /// The amount already charged against `dim`: `Some(0)` if declared but
    /// never charged, `None` if not declared.
    pub fn spent(&self, dim: Dim) -> (r: Option<u64>)
        ensures
            r == self@.spent_of(dim),
    {
        if self.limits.contains(dim) {
            Some(self.spent.get_or(dim, 0))
        } else {
            None
        }
    }

    /// Zero every running total, keeping the declared limits and warn
    /// thresholds.
    pub fn reset(&mut self)
        ensures
            final(self)@ == old(self)@.reset_outcome(),
            old(self)@.wf() ==> final(self)@.wf(),
    {
        self.spent = FixedMap::new();
        proof {
            assert(self@ =~= old(self)@.reset_outcome());
            if old(self)@.wf() {
                let d0 = choose|d: Dim| #[trigger] old(self)@.limits.contains_key(d);
                assert(self@.limits.contains_key(d0));
            }
        }
    }
}

/// Searching from index `i` finds no problem exactly when no dimension of
/// index `i` or above has one.
pub proof fn lemma_problem_search(v: BuilderView, i: nat)
    ensures
        (v.first_problem_from(i) is None) <==> (forall|j: int|
            i <= j < MAX_DIMS ==> #[trigger] v.problem_at(Dim::from_index(j)) is None),
    decreases MAX_DIMS - i,
{
    if i < MAX_DIMS {
        lemma_problem_search(v, i + 1);
        if v.problem_at(Dim::from_index(i as int)) is Some {
            assert(!(forall|j: int|
                i <= j < MAX_DIMS ==> #[trigger] v.problem_at(Dim::from_index(j)) is None));
        }
    }
}

} // verus!
