//! Properties of the budget model that span operations: how charges
//! accumulate, what a reset restores, and when a declaration builds.

use vstd::prelude::*;
use crate::budget::{
    BudgetView, BuilderView, lemma_problem_search, saturating_difference, saturating_sum, verdict_for,
};
use crate::dim::{Dim, MAX_DIMS, lemma_index_bijective};
use crate::error::{BuilderError, ChargeError};
use crate::verdict::Verdict;

verus! {

/// Limits are inclusive and exhaustion wins over warning: a running total
/// is reported exhausted exactly when it exceeds the limit, and warned
/// exactly when it exceeds the warn threshold without exceeding the limit.
pub proof fn lemma_verdict_thresholds(dim: Dim, spent: u64, limit: u64, warn: Option<u64>)
    ensures
        (verdict_for(dim, spent, limit, warn) is Exhausted) <==> spent > limit,
        (verdict_for(dim, spent, limit, warn) is Warn) <==> (spent <= limit && warn is Some
            && spent > warn->0),
        verdict_for(dim, spent, limit, warn).dimension_spec() == (if verdict_for(
            dim,
            spent,
            limit,
            warn,
        ) is Continue {
            None::<Dim>
        } else {
            Some(dim)
        }),
{
}

/// A charge never lowers any running total, changes only the charged
/// dimension, and leaves the declaration untouched.
pub proof fn lemma_charge_is_local_and_monotone(v: BudgetView, dim: Dim, amount: u64)
    requires
        v.wf(),
    ensures
        ({
            let next = v.charge_outcome(dim, amount).0;
            &&& next.limits == v.limits
            &&& next.warns == v.warns
            &&& next.wf()
            &&& forall|d: Dim| #[trigger] next.spent[d] >= v.spent[d]
            &&& forall|d: Dim| d != dim ==> #[trigger] next.spent[d] == v.spent[d]
        }),
{
    let next = v.charge_outcome(dim, amount).0;
    if v.limits.contains_key(dim) {
        let d0 = choose|d: Dim| #[trigger] v.limits.contains_key(d);
        assert(next.limits.contains_key(d0));
    }
}

/// Charging an undeclared dimension is an error and changes nothing.
pub proof fn lemma_unknown_dimension_changes_nothing(v: BudgetView, dim: Dim, amount: u64)
    requires
        !v.limits.contains_key(dim),
    ensures
        v.charge_outcome(dim, amount) == (v, Err::<Verdict, ChargeError>(
            ChargeError::UnknownDimension(dim),
        )),
        v.spent_of(dim) is None,
        v.remaining_of(dim) is None,
{
}

/// Two successive charges on one dimension accumulate as one saturating
/// sum, and the second verdict is the verdict of that sum.
pub proof fn lemma_charges_accumulate(v: BudgetView, dim: Dim, a: u64, b: u64)
    requires
        v.wf(),
        v.limits.contains_key(dim),
    ensures
        ({
            let first = v.charge_outcome(dim, a).0;
            let second = first.charge_outcome(dim, b);
            let total = saturating_sum(saturating_sum(v.spent[dim], a), b);
            &&& second.0.spent[dim] == total
            &&& second.0.spent_of(dim) == Some(total)
            &&& second.1 == Ok::<Verdict, ChargeError>(
                verdict_for(dim, total, v.limits[dim], v.warns.get(dim)),
            )
        }),
{
}

/// A zero charge is a poll: it reports the current verdict and leaves the
/// state as it was.
pub proof fn lemma_zero_charge_is_poll(v: BudgetView, dim: Dim)
    requires
        v.wf(),
        v.limits.contains_key(dim),
    ensures
        v.charge_outcome(dim, 0).0 == v,
        v.charge_outcome(dim, 0).1 == Ok::<Verdict, ChargeError>(v.current_verdict(dim)),
{
    assert(v.charge_outcome(dim, 0).0 =~= v);
}

/// Once a dimension is exhausted, every further charge against it reports
/// exhaustion until a reset; and once it is above its warn threshold,
/// every further charge reports a warning or exhaustion.
pub proof fn lemma_states_persist(v: BudgetView, dim: Dim, amount: u64)
    requires
        v.wf(),
        v.limits.contains_key(dim),
    ensures
        v.current_verdict(dim) is Exhausted ==> v.charge_outcome(dim, amount).1 == Ok::<
            Verdict,
            ChargeError,
        >(Verdict::Exhausted(dim)),
        v.current_verdict(dim) is Warn ==> v.charge_outcome(dim, amount).1 != Ok::<
            Verdict,
            ChargeError,
        >(Verdict::Continue),
{
}

/// A reset erases every charge: resetting after a charge is the same as
/// resetting before it, and a reset budget reports zero spent, the full
/// limit as remaining, and `Continue` on a poll of any declared dimension.
pub proof fn lemma_reset_restores_initial_state(v: BudgetView, dim: Dim, amount: u64)
    requires
        v.wf(),
    ensures
        v.charge_outcome(dim, amount).0.reset_outcome() == v.reset_outcome(),
        v.reset_outcome().reset_outcome() == v.reset_outcome(),
        v.reset_outcome().wf(),
        v.limits.contains_key(dim) ==> {
            let r = v.reset_outcome();
            &&& r.spent_of(dim) == Some(0u64)
            &&& r.remaining_of(dim) == Some(v.limits[dim])
            &&& r.charge_outcome(dim, 0).1 == Ok::<Verdict, ChargeError>(Verdict::Continue)
        },
{
    assert(v.charge_outcome(dim, amount).0.reset_outcome() =~= v.reset_outcome());
    assert(v.reset_outcome().reset_outcome() =~= v.reset_outcome());
    let d0 = choose|d: Dim| #[trigger] v.limits.contains_key(d);
    assert(v.reset_outcome().limits.contains_key(d0));
}

/// A budget that builds starts from the same state a reset returns to.
pub proof fn lemma_build_equals_reset(b: BuilderView, v: BudgetView)
    requires
        v.limits == b.limits,
        v.warns == b.warns,
    ensures
        b.built() == v.reset_outcome(),
{
}

/// On a fresh declared dimension, charging exactly the limit is accepted
/// and one more unit exhausts it (for a limit below `u64::MAX`, where the
/// running total can still exceed it); charging exactly the warn threshold
/// continues and one more unit warns.
pub proof fn lemma_limit_inclusive_warn_strict(v: BudgetView, dim: Dim)
    requires
        v.wf(),
        v.limits.contains_key(dim),
        v.spent[dim] == 0,
        v.limits[dim] < u64::MAX,
    ensures
        !(v.charge_outcome(dim, v.limits[dim]).1 matches Ok(Verdict::Exhausted(_))),
        v.charge_outcome(dim, v.limits[dim]).0.spent_of(dim) == Some(v.limits[dim]),
        v.charge_outcome(dim, v.limits[dim]).0.charge_outcome(dim, 1).1 == Ok::<
            Verdict,
            ChargeError,
        >(Verdict::Exhausted(dim)),
        !v.warns.contains_key(dim) ==> v.charge_outcome(dim, v.limits[dim]).1 == Ok::<
            Verdict,
            ChargeError,
        >(Verdict::Continue),
        v.warns.contains_key(dim) ==> {
            let w = v.warns[dim];
            let at_warn = v.charge_outcome(dim, w);
            let past_warn = at_warn.0.charge_outcome(dim, 1);
            &&& at_warn.1 == Ok::<Verdict, ChargeError>(Verdict::Continue)
            &&& past_warn.1 == Ok::<Verdict, ChargeError>(Verdict::Warn(dim))
            &&& past_warn.0.spent_of(dim) == Some((w + 1) as u64)
            &&& past_warn.0.remaining_of(dim) == Some(
                saturating_difference(v.limits[dim], (w + 1) as u64),
            )
        },
{
}

/// A declaration builds exactly when no dimension was declared twice, at
/// least one dimension was declared, every limit is positive, and every
/// warn threshold lies strictly below its limit.
pub proof fn lemma_build_succeeds_iff_valid(b: BuilderView)
    requires
        b.wf(),
    ensures
        (b.build_error() is None) <==> {
            &&& b.duplicate is None
            &&& exists|d: Dim| #[trigger] b.limits.contains_key(d)
            &&& forall|d: Dim| #[trigger]
                b.limits.contains_key(d) ==> b.limits[d] > 0 && (b.warns.contains_key(d)
                    ==> b.warns[d] < b.limits[d])
        },
        (b.build_error() is None) ==> b.built().wf(),
{
    lemma_index_bijective();
    if b.duplicate is None && exists|d: Dim| #[trigger] b.limits.contains_key(d) {
        if b.first_problem_from(0) is None {
            lemma_problem_search(b, 0);
            assert forall|d: Dim| #[trigger] b.limits.contains_key(d) implies b.limits[d] > 0 && (
            b.warns.contains_key(d) ==> b.warns[d] < b.limits[d]) by {
                assert(b.problem_at(Dim::from_index(d.spec_index() as int)) is None);
            }
            let d0 = choose|d: Dim| #[trigger] b.limits.contains_key(d);
            assert(b.built().limits.contains_key(d0));
        } else {
            lemma_problem_search(b, 0);
            let j = choose|j: int|
                0 <= j < MAX_DIMS && #[trigger] b.problem_at(Dim::from_index(j)) is Some;
            let d = Dim::from_index(j);
            assert(b.limits.contains_key(d));
        }
    }
}

/// Declaring a dimension that is already declared always makes the build
/// fail with a duplicate error, naming the first dimension that was
/// declared twice.
pub proof fn lemma_duplicate_always_rejected(b: BuilderView, dim: Dim, limit: u64, warn: u64)
    requires
        b.limits.contains_key(dim),
    ensures
        b.with_limit(dim, limit).build_error() == Some(BuilderError::DuplicateDimension(
            match b.duplicate {
                Some(first) => first,
                None => dim,
            },
        )),
        b.with_limit_and_warn(dim, limit, warn).build_error() == Some(
            BuilderError::DuplicateDimension(
                match b.duplicate {
                    Some(first) => first,
                    None => dim,
                },
            ),
        ),
{
}

/// Declaring two different dimensions gives the same builder state in
/// either order, as long as neither was declared before.
pub proof fn lemma_declaration_order_irrelevant(
    b: BuilderView,
    d1: Dim,
    l1: u64,
    d2: Dim,
    l2: u64,
    w2: u64,
)
    requires
        d1 != d2,
        !b.limits.contains_key(d1),
        !b.limits.contains_key(d2),
    ensures
        b.with_limit(d1, l1).with_limit(d2, l2) == b.with_limit(d2, l2).with_limit(d1, l1),
        b.with_limit(d1, l1).with_limit_and_warn(d2, l2, w2) == b.with_limit_and_warn(
            d2,
            l2,
            w2,
        ).with_limit(d1, l1),
{
    assert(b.with_limit(d1, l1).with_limit(d2, l2) =~= b.with_limit(d2, l2).with_limit(d1, l1));
    assert(b.with_limit(d1, l1).with_limit_and_warn(d2, l2, w2) =~= b.with_limit_and_warn(
        d2,
        l2,
        w2,
    ).with_limit(d1, l1));
}

/// A declaration records exactly the limit (and warn threshold) it was
/// given for its dimension, and leaves every other dimension as it was.
pub proof fn lemma_declarations_record_values(b: BuilderView, dim: Dim, limit: u64, warn: u64)
    ensures
        ({
            let l = b.with_limit(dim, limit);
            &&& l.limits.contains_key(dim)
            &&& l.limits[dim] == limit
            &&& l.warns == b.warns
            &&& forall|d: Dim| d != dim ==> (#[trigger] l.limits.contains_key(d)
                == b.limits.contains_key(d) && l.limits[d] == b.limits[d])
        }),
        ({
            let lw = b.with_limit_and_warn(dim, limit, warn);
            &&& lw.limits.contains_key(dim)
            &&& lw.limits[dim] == limit
            &&& lw.warns.contains_key(dim)
            &&& lw.warns[dim] == warn
            &&& forall|d: Dim| d != dim ==> (#[trigger] lw.limits.contains_key(d)
                == b.limits.contains_key(d) && lw.limits[d] == b.limits[d])
            &&& forall|d: Dim| d != dim ==> (#[trigger] lw.warns.contains_key(d)
                == b.warns.contains_key(d) && lw.warns[d] == b.warns[d])
        }),
{
}

/// A built budget keeps exactly the declared limits and warn thresholds
/// with nothing spent, and a reset keeps them too while zeroing every
/// running total.
pub proof fn lemma_build_and_reset_keep_declaration(b: BuilderView, v: BudgetView)
    ensures
        b.built().limits == b.limits,
        b.built().warns == b.warns,
        forall|d: Dim| #[trigger] b.built().spent.contains_key(d) && b.built().spent[d] == 0,
        v.reset_outcome().limits == v.limits,
        v.reset_outcome().warns == v.warns,
        forall|d: Dim| #[trigger] v.reset_outcome().spent.contains_key(d)
            && v.reset_outcome().spent[d] == 0,
{
}

/// The remaining headroom is what is left of the limit after the running
/// total, and zero once the total has reached or passed the limit; a charge
/// of `a` lowers it by `a` down to zero.
pub proof fn lemma_remaining_is_headroom(v: BudgetView, d: Dim, a: u64)
    requires
        v.wf(),
        v.limits.contains_key(d),
    ensures
        v.remaining_of(d) is Some,
        v.spent[d] <= v.limits[d] ==> v.remaining_of(d)->0 + v.spent[d] == v.limits[d],
        v.spent[d] > v.limits[d] ==> v.remaining_of(d)->0 == 0,
        v.charge_outcome(d, a).0.remaining_of(d) == Some(
            if v.spent[d] + a >= v.limits[d] {
                0u64
            } else {
                (v.limits[d] - v.spent[d] - a) as u64
            },
        ),
{
}

/// A budget declared with one dimension and a positive limit builds, and a
/// first charge of `a` on it is exhausted exactly when `a` exceeds the
/// limit; it reports `a` as spent and what is left of the limit as
/// remaining. With a warn threshold below the limit, the charge warns
/// exactly when `a` exceeds the threshold without exceeding the limit.
pub proof fn lemma_fresh_budget_verdicts(dim: Dim, limit: u64, warn: u64, a: u64)
    ensures
        ({
            let b = BuilderView::empty().with_limit(dim, limit);
            &&& limit == 0 ==> b.build_error() == Some(BuilderError::ZeroLimit(dim))
            &&& limit > 0 ==> {
                &&& b.build_error() is None
                &&& b.built().charge_outcome(dim, a).1 == Ok::<Verdict, ChargeError>(
                    if a > limit {
                        Verdict::Exhausted(dim)
                    } else {
                        Verdict::Continue
                    },
                )
                &&& b.built().charge_outcome(dim, a).0.spent_of(dim) == Some(a)
                &&& b.built().charge_outcome(dim, a).0.remaining_of(dim) == Some(
                    if a >= limit {
                        0u64
                    } else {
                        (limit - a) as u64
                    },
                )
            }
        }),
        ({
            let b = BuilderView::empty().with_limit_and_warn(dim, limit, warn);
            &&& limit == 0 ==> b.build_error() == Some(BuilderError::ZeroLimit(dim))
            &&& 0 < limit <= warn ==> b.build_error() == Some(
                BuilderError::WarnNotBelowLimit(dim),
            )
            &&& warn < limit ==> {
                &&& b.build_error() is None
                &&& b.built().charge_outcome(dim, a).1 == Ok::<Verdict, ChargeError>(
                    if a > limit {
                        Verdict::Exhausted(dim)
                    } else if a > warn {
                        Verdict::Warn(dim)
                    } else {
                        Verdict::Continue
                    },
                )
                &&& b.built().charge_outcome(dim, a).0.spent_of(dim) == Some(a)
            }
        }),
{
    lemma_index_bijective();
    let b1 = BuilderView::empty().with_limit(dim, limit);
    let b2 = BuilderView::empty().with_limit_and_warn(dim, limit, warn);
    assert(b1.limits.contains_key(dim));
    assert(b2.limits.contains_key(dim));
    assert forall|j: int| 0 <= j < MAX_DIMS && Dim::from_index(j) != dim implies #[trigger]
        b1.problem_at(Dim::from_index(j)) is None && b2.problem_at(Dim::from_index(j)) is None by {
    }
    let j = dim.spec_index() as int;
    assert(Dim::from_index(j) == dim);
    if b1.problem_at(dim) is Some {
        lemma_first_problem_reported(b1, j);
    } else {
        lemma_problem_search(b1, 0);
    }
    if b2.problem_at(dim) is Some {
        lemma_first_problem_reported(b2, j);
    } else {
        lemma_problem_search(b2, 0);
    }
    assert(b1.built().spent[dim] == 0);
    assert(b2.built().spent[dim] == 0);
}

/// The problem with a dimension's declaration is a zero limit when its
/// limit is zero, a warn threshold not below the limit when its positive
/// limit has a warn threshold at or above it, and none otherwise (also
/// none for an undeclared dimension).
pub proof fn lemma_problem_meaning(b: BuilderView, d: Dim)
    ensures
        (b.problem_at(d) == Some(BuilderError::ZeroLimit(d))) <==> (b.limits.contains_key(d)
            && b.limits[d] == 0),
        (b.problem_at(d) == Some(BuilderError::WarnNotBelowLimit(d))) <==> (b.limits.contains_key(
            d,
        ) && b.limits[d] > 0 && b.warns.contains_key(d) && b.warns[d] >= b.limits[d]),
        b.problem_at(d) is None || b.problem_at(d) == Some(BuilderError::ZeroLimit(d))
            || b.problem_at(d) == Some(BuilderError::WarnNotBelowLimit(d)),
{
}

/// Without a duplicate and with at least one declaration, `build` reports
/// the problem of the lowest-index dimension that has one: no later
/// dimension's problem, of whatever kind, is reported before it.
pub proof fn lemma_first_problem_reported(b: BuilderView, j: int)
    requires
        b.duplicate is None,
        exists|d: Dim| #[trigger] b.limits.contains_key(d),
        0 <= j < MAX_DIMS,
        b.problem_at(Dim::from_index(j)) is Some,
        forall|k: int| 0 <= k < j ==> #[trigger] b.problem_at(Dim::from_index(k)) is None,
    ensures
        b.build_error() == b.problem_at(Dim::from_index(j)),
{
    lemma_first_problem_from_index(b, 0, j);
}

/// Searching from any index `i` up to `j` finds the problem at `j` when
/// none of the dimensions before `j` has one.
proof fn lemma_first_problem_from_index(b: BuilderView, i: nat, j: int)
    requires
        i <= j < MAX_DIMS,
        b.problem_at(Dim::from_index(j)) is Some,
        forall|k: int| 0 <= k < j ==> #[trigger] b.problem_at(Dim::from_index(k)) is None,
    ensures
        b.first_problem_from(i) == b.problem_at(Dim::from_index(j)),
    decreases j - i,
{
    if i < j {
        assert(b.problem_at(Dim::from_index(i as int)) is None);
        lemma_first_problem_from_index(b, i + 1, j);
    }
}

} // verus!
