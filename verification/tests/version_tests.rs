use vitals::version::{extract_version, meets_requirement, normalize_requirement, normalize_version};

#[test]
fn test_extract_version() {
    assert_eq!(extract_version("v20.10.0"), Some("20.10.0".into()));
    assert_eq!(extract_version("Python 3.12.1"), Some("3.12.1".into()));
    assert_eq!(
        extract_version("rustc 1.75.0 (abcd 2024)"),
        Some("1.75.0".into())
    );
    assert_eq!(
        extract_version("go version go1.21.5 darwin/arm64"),
        Some("1.21.5".into())
    );
}

#[test]
fn test_normalize_version() {
    assert_eq!(normalize_version("20"), "20.0.0");
    assert_eq!(normalize_version("v20.10"), "20.10.0");
    assert_eq!(normalize_version("3.12.1"), "3.12.1");
}

#[test]
fn test_meets_requirement() {
    assert!(meets_requirement("20.10.0", ">=18"));
    assert!(!meets_requirement("16.0.0", ">=18"));
    assert!(meets_requirement("3.12.1", "3.12"));
    assert!(!meets_requirement("3.11.0", "3.12"));
    assert!(meets_requirement("1.75.0", ">=1.70"));
    assert!(meets_requirement("20.10.0", "20"));
    assert!(!meets_requirement("21.0.0", "20"));
}

#[test]
fn test_bare_major_range() {
    // A bare major N admits [N.0.0, (N+1).0.0).
    assert!(meets_requirement("7.0.0", "7"));
    assert!(meets_requirement("7.99.99", "7"));
    assert!(!meets_requirement("8.0.0", "7"));
    assert!(!meets_requirement("6.99.99", "7"));
}

#[test]
fn test_minor_pin_range() {
    // A bare N.M admits [N.M.0, N.(M+1).0).
    assert!(meets_requirement("3.12.0", "3.12"));
    assert!(meets_requirement("3.12.99", "3.12"));
    assert!(!meets_requirement("3.13.0", "3.12"));
    assert!(!meets_requirement("2.12.0", "3.12"));
}

#[test]
fn test_operator_passthrough() {
    // Strings already carrying an operator or comma are used as they stand.
    assert_eq!(normalize_requirement(">=18"), ">=18");
    assert_eq!(normalize_requirement("^1.2"), "^1.2");
    assert_eq!(normalize_requirement("~0.3.1"), "~0.3.1");
    assert_eq!(normalize_requirement(">=1.0, <2.0"), ">=1.0, <2.0");
    assert_eq!(normalize_requirement("  >=18  "), ">=18");
}

#[test]
fn test_normalize_requirement_bare() {
    assert_eq!(normalize_requirement("20"), ">=20.0.0, <21.0.0");
    assert_eq!(normalize_requirement("20.10"), ">=20.10.0, <20.11.0");
    assert_eq!(normalize_requirement("20.10.1"), ">=20.10.1");
    assert_eq!(normalize_requirement("v20"), ">=20.0.0, <21.0.0");
    assert_eq!(normalize_requirement(""), ">=0.0.0");
}

#[test]
fn test_extract_idempotent() {
    // Extracting from a normalized extraction returns the same value.
    let first = extract_version("Python 3.12").unwrap();
    assert_eq!(first, "3.12");
    let normalized = normalize_version(&first);
    assert_eq!(normalized, "3.12.0");
    assert_eq!(extract_version(&normalized), Some(normalized.clone()));
}

#[test]
fn test_extract_version_none() {
    assert_eq!(extract_version("no digits here"), None);
    assert_eq!(extract_version("only 7 alone"), None);
    assert_eq!(extract_version(""), None);
}

#[test]
fn test_meets_requirement_parse_failure() {
    // Any parse failure is a plain "does not meet", never a crash.
    assert!(!meets_requirement("abc", "1"));
    assert!(!meets_requirement("1.0.0", ">=x"));
    assert!(!meets_requirement("", ">=1, bogus"));
    // A bare requirement with no parsable part degrades to accept-all.
    assert!(meets_requirement("1.0.0", "abc"));
}
