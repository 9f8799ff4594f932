use budgetkernel::{Dim, Verdict};

#[test]
fn continue_is_continuing_and_not_exhausted() {
    let v = Verdict::Continue;
    assert!(v.is_continuing());
    assert!(!v.is_exhausted());
    assert_eq!(v.dimension(), None);
}

#[test]
fn warn_is_continuing_and_not_exhausted() {
    let v = Verdict::Warn(Dim::Tokens);
    assert!(v.is_continuing());
    assert!(!v.is_exhausted());
    assert_eq!(v.dimension(), Some(Dim::Tokens));
}

#[test]
fn exhausted_is_not_continuing() {
    let v = Verdict::Exhausted(Dim::Millis);
    assert!(!v.is_continuing());
    assert!(v.is_exhausted());
    assert_eq!(v.dimension(), Some(Dim::Millis));
}

#[test]
fn worst_prefers_more_severe() {
    let c = Verdict::Continue;
    let w = Verdict::Warn(Dim::Tokens);
    let e = Verdict::Exhausted(Dim::Calls);
    assert_eq!(c.worst(w), w);
    assert_eq!(w.worst(c), w);
    assert_eq!(w.worst(e), e);
    assert_eq!(e.worst(w), e);
    assert_eq!(c.worst(e), e);
    assert_eq!(c.worst(c), c);
}

#[test]
fn worst_is_left_biased_on_ties() {
    let w1 = Verdict::Warn(Dim::Tokens);
    let w2 = Verdict::Warn(Dim::Bytes);
    assert_eq!(w1.worst(w2), w1);
    assert_eq!(w2.worst(w1), w2);
    let e1 = Verdict::Exhausted(Dim::Millis);
    let e2 = Verdict::Exhausted(Dim::Memory);
    assert_eq!(e1.worst(e2), e1);
}

#[test]
fn worst_reduction_is_associative() {
    let a = Verdict::Warn(Dim::Tokens);
    let b = Verdict::Exhausted(Dim::Bytes);
    let c = Verdict::Exhausted(Dim::Calls);
    assert_eq!(a.worst(b).worst(c), a.worst(b.worst(c)));
    assert_eq!(a.worst(b).worst(c), b);
}
