use duke::tree::version::Version;

#[test]
fn test_cmp() {
    assert!(Version::V21() < Version::V22());
    assert!(Version::V21() < Version::V23());
    assert!(Version::V21() <= Version::V21());
    assert!(Version::V21() >= Version::V20());
    assert!(Version::V21() >= Version::V10());

    assert!(Version::V21() < Version::new(65, 1));
    assert!(Version::V22() > Version::new(65, 1));
    assert!(Version::new(65, 2) > Version::new(65, 1));
}

#[test]
fn version_values() {
    assert_eq!(Version::V21(), Version::new(65, 0));
    assert_eq!(Version::V1_1(), Version::new(45, 3));
    assert!(Version::V1_1() < Version::V1_2());
}
