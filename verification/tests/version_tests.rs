//! Tests of the version comparator, major-version extraction and the
//! compatibility resolver.

use java_runtimes::{
    compare_mc_versions, get_required_java_version, is_java_compatible, is_snapshot_version,
    mc_java_requirements, parse_major_version,
};

#[test]
fn test_parse_major_version() {
    assert_eq!(parse_major_version("17.0.2"), 17);
    assert_eq!(parse_major_version("21.0.1"), 21);
    assert_eq!(parse_major_version("1.8.0_321"), 8);
    assert_eq!(parse_major_version("1.8.0"), 8);
    assert_eq!(parse_major_version("11.0.12"), 11);
}

#[test]
fn test_get_required_java_version() {
    assert_eq!(get_required_java_version("1.20.6"), 21);
    assert_eq!(get_required_java_version("1.20.5"), 21);
    assert_eq!(get_required_java_version("1.20.4"), 17);
    assert_eq!(get_required_java_version("1.18"), 17);
    assert_eq!(get_required_java_version("1.17"), 16);
    assert_eq!(get_required_java_version("1.16.5"), 8);
    assert_eq!(get_required_java_version("1.12.2"), 8);
}

#[test]
fn test_is_java_compatible() {
    assert!(is_java_compatible(21, "1.20.6"));
    assert!(is_java_compatible(21, "1.18"));
    assert!(!is_java_compatible(17, "1.20.6"));
    assert!(is_java_compatible(17, "1.20.4"));
    assert!(is_java_compatible(17, "1.18"));
    assert!(!is_java_compatible(16, "1.18"));
    assert!(is_java_compatible(16, "1.17"));
    assert!(is_java_compatible(8, "1.16.5"));
}

#[test]
fn test_compare_mc_versions() {
    assert_eq!(compare_mc_versions("1.20.5", "1.20.5"), 0);
    assert_eq!(compare_mc_versions("1.20.6", "1.20.5"), 1);
    assert_eq!(compare_mc_versions("1.20.4", "1.20.5"), -1);
    assert_eq!(compare_mc_versions("1.21", "1.20.5"), 1);
    assert_eq!(compare_mc_versions("1.18", "1.17"), 1);
}

#[test]
fn test_parse_major_version_non_numeric() {
    assert_eq!(parse_major_version("abc"), 0);
    assert_eq!(parse_major_version(""), 0);
    assert_eq!(parse_major_version("1"), 1);
}

#[test]
fn test_is_snapshot_version() {
    assert!(is_snapshot_version("24w14a"));
    assert!(is_snapshot_version("23w51b"));
    assert!(!is_snapshot_version("1.20.5"));
    assert!(!is_snapshot_version("24w1"));
    assert!(!is_snapshot_version("10w40a"));
    assert!(!is_snapshot_version("w1234"));
    assert!(!is_snapshot_version("24w14w"));
}

#[test]
fn test_snapshot_comparisons() {
    assert_eq!(compare_mc_versions("24w14a", "1.20.5"), 1);
    assert_eq!(compare_mc_versions("1.20.5", "24w14a"), -1);
    assert_eq!(compare_mc_versions("24w14a", "23w51b"), 1);
    assert_eq!(compare_mc_versions("24w14a", "24w06c"), 0);
    assert_eq!(get_required_java_version("24w14a"), 21);
}

#[test]
fn test_compare_missing_components_default_to_zero() {
    assert_eq!(compare_mc_versions("1.20", "1.20.0"), 0);
    assert_eq!(compare_mc_versions("1.20", "1.20.1"), -1);
    assert_eq!(compare_mc_versions("2", "1.99.99"), 1);
}

#[test]
fn test_requirement_table_shape() {
    let table = mc_java_requirements();
    assert_eq!(table.len(), 4);
    assert_eq!(table[0].mc_version_min, "1.20.5");
    assert_eq!(table[0].java_major, 21);
    assert_eq!(table[1].mc_version_min, "1.18");
    assert_eq!(table[1].java_major, 17);
    assert_eq!(table[2].mc_version_min, "1.17");
    assert_eq!(table[2].java_major, 16);
    assert_eq!(table[3].mc_version_min, "1.0");
    assert_eq!(table[3].java_major, 8);
}

#[test]
fn test_required_major_monotone_samples() {
    let versions = ["1.8.9", "1.12.2", "1.16.5", "1.17", "1.17.1", "1.18", "1.20.4", "1.20.5",
        "1.20.6", "1.21"];
    let mut last = 0u32;
    for v in versions {
        let req = get_required_java_version(v);
        assert!(req >= last, "required major decreased at {}", v);
        last = req;
    }
}
