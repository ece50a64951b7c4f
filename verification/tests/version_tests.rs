use binary_manager::version::SemVer;

fn v(major: u64, minor: u64, patch: u64) -> SemVer {
    SemVer::new(major, minor, patch)
}

fn pre(major: u64, minor: u64, patch: u64, tag: &str) -> SemVer {
    SemVer::with_pre(major, minor, patch, tag.as_bytes().to_vec()).unwrap()
}

#[test]
fn numeric_triple_orders_first() {
    assert!(v(1, 2, 0).lt(&v(1, 3, 0)));
    assert!(v(1, 9, 9).lt(&v(2, 0, 0)));
    assert!(v(1, 2, 3).lt(&v(1, 2, 4)));
    assert!(!v(2, 0, 0).lt(&v(1, 9, 9)));
    assert!(!v(1, 2, 0).lt(&v(1, 2, 0)));
}

#[test]
fn release_outranks_prerelease() {
    assert!(pre(1, 0, 0, "alpha").lt(&v(1, 0, 0)));
    assert!(!v(1, 0, 0).lt(&pre(1, 0, 0, "alpha")));
    // but a prerelease of a higher triple still wins
    assert!(v(1, 0, 0).lt(&pre(1, 0, 1, "alpha")));
}

#[test]
fn prerelease_precedence_chain() {
    // the worked example of the semver specification
    let chain = [
        pre(1, 0, 0, "alpha"),
        pre(1, 0, 0, "alpha.1"),
        pre(1, 0, 0, "alpha.beta"),
        pre(1, 0, 0, "beta"),
        pre(1, 0, 0, "beta.2"),
        pre(1, 0, 0, "beta.11"),
        pre(1, 0, 0, "rc.1"),
        v(1, 0, 0),
    ];
    for i in 0..chain.len() {
        for j in 0..chain.len() {
            assert_eq!(chain[i].lt(&chain[j]), i < j, "positions {} {}", i, j);
        }
    }
}

#[test]
fn canonical_string_renders_release_and_prerelease() {
    assert_eq!(v(1, 4, 0).canonical_string(), "1.4.0");
    assert_eq!(v(0, 0, 0).canonical_string(), "0.0.0");
    assert_eq!(v(12, 305, 7).canonical_string(), "12.305.7");
    assert_eq!(pre(1, 5, 0, "rc.2").canonical_string(), "1.5.0-rc.2");
}

#[test]
fn with_pre_rejects_malformed_prereleases() {
    assert!(SemVer::with_pre(1, 0, 0, b"rc.1".to_vec()).is_some());
    assert!(SemVer::with_pre(1, 0, 0, b"0".to_vec()).is_some());
    assert!(SemVer::with_pre(1, 0, 0, b"0abc".to_vec()).is_some());
    // empty identifiers
    assert!(SemVer::with_pre(1, 0, 0, b".rc".to_vec()).is_none());
    assert!(SemVer::with_pre(1, 0, 0, b"rc.".to_vec()).is_none());
    assert!(SemVer::with_pre(1, 0, 0, b"rc..1".to_vec()).is_none());
    // characters outside the grammar
    assert!(SemVer::with_pre(1, 0, 0, b"rc_1".to_vec()).is_none());
    // numeric identifier with a leading zero
    assert!(SemVer::with_pre(1, 0, 0, b"01".to_vec()).is_none());
    assert!(SemVer::with_pre(1, 0, 0, b"rc.01".to_vec()).is_none());
}

#[test]
fn same_compares_values_not_identities() {
    let a = pre(1, 0, 0, "rc.1");
    let b = pre(1, 0, 0, "rc.1");
    let c = pre(1, 0, 0, "rc.2");
    assert!(a.same(&b));
    assert!(!a.same(&c));
    assert!(a.same(&a.duplicate()));
}

#[test]
fn numeric_identifiers_compare_numerically_not_lexically() {
    // lexically "11" < "2"; numerically 2 < 11
    assert!(pre(1, 0, 0, "beta.2").lt(&pre(1, 0, 0, "beta.11")));
    // numeric identifiers rank below alphanumeric ones
    assert!(pre(1, 0, 0, "1").lt(&pre(1, 0, 0, "alpha")));
}
