use stozher_kernel::codes::{ADOPTED, REGISTER};

#[test]
fn every_local_code_is_marked_as_non_normative() {
    for code in REGISTER {
        assert!(
            code.starts_with("x-"),
            "{code} is not marked as an implementation-local code"
        );
    }
}

#[test]
fn no_adopted_code_still_claims_to_be_local() {
    for code in ADOPTED {
        assert!(
            !code.starts_with("x-"),
            "{code} was adopted and still carries the local prefix"
        );
    }
}

#[test]
fn the_two_sets_are_disjoint_and_have_no_duplicates() {
    let mut seen: Vec<&str> = REGISTER.iter().chain(ADOPTED.iter()).copied().collect();
    let before = seen.len();
    seen.sort_unstable();
    seen.dedup();
    assert_eq!(
        before,
        seen.len(),
        "a code appears twice, or is claimed as both adopted and local"
    );
}
