use std::str::FromStr;

use quazal::version::Version;

#[test]
fn test_from_tuple() {
    let version_tuple = (1, 2, 3);
    let version = Version::from(version_tuple);
    assert_eq!(version.major, 1);
    assert_eq!(version.minor, 2);
    assert_eq!(version.patch, 3);
}

#[test]
fn test_from_array() {
    let version_array = [4, 5, 6];
    let version = Version::from(version_array);
    assert_eq!(version.major, 4);
    assert_eq!(version.minor, 5);
    assert_eq!(version.patch, 6);
}

#[test]
fn test_from_str_valid() {
    let version_str = "7.8.9";
    let version = Version::from_str(version_str).expect("Should parse valid string");
    assert_eq!(version.major, 7);
    assert_eq!(version.minor, 8);
    assert_eq!(version.patch, 9);

    let version_str_zeros = "0.0.0";
    let version_zeros = Version::from_str(version_str_zeros).expect("Should parse zeros");
    assert_eq!(version_zeros.major, 0);
    assert_eq!(version_zeros.minor, 0);
    assert_eq!(version_zeros.patch, 0);
}

#[test]
fn test_from_str_invalid() {
    assert!(Version::from_str("1.2").is_err(), "Missing patch");
    assert!(Version::from_str("1").is_err(), "Missing minor and patch");
    assert!(Version::from_str("1.2.a").is_err(), "Invalid patch character");
    assert!(Version::from_str("b.2.3").is_err(), "Invalid major character");
    assert!(Version::from_str("1.c.3").is_err(), "Invalid minor character");
    assert!(Version::from_str("1.2.3.4").is_err(), "Too many parts");
    assert!(Version::from_str("").is_err(), "Empty string");
    assert!(Version::from_str("..").is_err(), "Empty parts");
    assert!(Version::from_str("1..3").is_err(), "Empty minor part");
}

#[test]
fn test_display() {
    let version = Version { major: 10, minor: 20, patch: 30 };
    assert_eq!(version.to_string(), "10.20.30");

    let version_zero = Version::default();
    assert_eq!(version_zero.to_string(), "0.0.0");
}

#[test]
fn test_equality() {
    let v1 = Version::from((1, 2, 3));
    let v2 = Version::from_str("1.2.3").unwrap();
    let v3 = Version::from([1, 2, 3]);
    let v_diff = Version::from((1, 2, 4));

    assert_eq!(v1, v2);
    assert_eq!(v1, v3);
    assert_ne!(v1, v_diff);
}

#[test]
fn test_ordering() {
    let v1_0_0 = Version::from_str("1.0.0").unwrap();
    let v1_1_0 = Version::from_str("1.1.0").unwrap();
    let v1_1_1 = Version::from_str("1.1.1").unwrap();
    let v2_0_0 = Version::from_str("2.0.0").unwrap();

    assert!(v1_0_0 < v1_1_0);
    assert!(v1_1_0 < v1_1_1);
    assert!(v1_1_1 < v2_0_0);
    assert!(v1_0_0 < v2_0_0);

    assert!(v1_1_0 > v1_0_0);
    assert!(v1_1_1 > v1_1_0);
    assert!(v2_0_0 > v1_1_1);

    assert_eq!(v1_0_0.cmp(&v1_0_0), std::cmp::Ordering::Equal);
    assert_eq!(v1_0_0.cmp(&v2_0_0), std::cmp::Ordering::Less);
    assert_eq!(v2_0_0.cmp(&v1_0_0), std::cmp::Ordering::Greater);
}

#[test]
fn test_default() {
    let default_version = Version::default();
    assert_eq!(default_version.major, 0);
    assert_eq!(default_version.minor, 0);
    assert_eq!(default_version.patch, 0);
    assert_eq!(default_version, Version::from((0, 0, 0)));
}

#[test]
fn version_text_round_trip() {
    let v = Version { major: 12, minor: 0, patch: 345 };
    let text = v.to_string();
    assert_eq!(text, "12.0.345");
    assert_eq!(Version::parse_str(&text), Ok(v));
}

#[test]
fn version_signs_and_spaces() {
    // as for Rust's integer parsing, a plus sign is accepted
    assert_eq!(Version::parse_str("+1.2.3"), Ok(Version { major: 1, minor: 2, patch: 3 }));
    assert!(Version::parse_str("1.2.3 ").is_err());
    assert!(Version::parse_str("-1.2.3").is_err());
}
