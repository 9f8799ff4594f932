use budgetkernel::{Dim, MAX_DIMS};

#[test]
fn index_matches_discriminant() {
    for dim in Dim::ALL {
        assert!(dim.index() < MAX_DIMS);
    }
}

#[test]
fn indices_are_unique_and_dense() {
    let mut seen = [false; MAX_DIMS];
    for dim in Dim::ALL {
        assert!(!seen[dim.index()], "duplicate index for {dim:?}");
        seen[dim.index()] = true;
    }
    assert!(seen.iter().all(|&b| b), "indices are not dense 0..MAX_DIMS");
}

#[test]
fn all_length_matches_max_dims() {
    assert_eq!(Dim::ALL.len(), MAX_DIMS);
}

#[test]
fn names_are_unique() {
    let names: [&str; MAX_DIMS] = [
        Dim::Tokens.name(),
        Dim::Millis.name(),
        Dim::Bytes.name(),
        Dim::Calls.name(),
        Dim::Memory.name(),
        Dim::Custom0.name(),
        Dim::Custom1.name(),
        Dim::Custom2.name(),
    ];
    for i in 0..MAX_DIMS {
        for j in (i + 1)..MAX_DIMS {
            assert_ne!(names[i], names[j]);
        }
    }
}

#[test]
fn all_lists_dimensions_in_index_order() {
    for (i, dim) in Dim::ALL.iter().enumerate() {
        assert_eq!(dim.index(), i);
    }
    assert_eq!(Dim::Tokens.index(), 0);
    assert_eq!(Dim::Custom2.index(), 7);
}

#[test]
fn names_match_documented_strings() {
    assert_eq!(Dim::Tokens.name(), "tokens");
    assert_eq!(Dim::Millis.name(), "millis");
    assert_eq!(Dim::Bytes.name(), "bytes");
    assert_eq!(Dim::Calls.name(), "calls");
    assert_eq!(Dim::Memory.name(), "memory");
    assert_eq!(Dim::Custom0.name(), "custom0");
    assert_eq!(Dim::Custom1.name(), "custom1");
    assert_eq!(Dim::Custom2.name(), "custom2");
}
