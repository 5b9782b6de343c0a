use std::cmp::Ordering;

use reapack_index::publish::{
    choose_version_name, is_filename_safe, next_version_name, package_dir_candidate,
    VersionNameError,
};
use reapack_index::version::{compare_version_names, find_latest_version, increment_version};

#[test]
fn test_increment_01() {
    let result = increment_version("0.1.15").unwrap();
    let expected = "0.1.16";
    assert_eq!(result, expected);
}

#[test]
fn test_increment_02() {
    let result = increment_version("0.1").unwrap();
    let expected = "0.2";
    assert_eq!(result, expected);
}

#[test]
fn test_increment_03() {
    let result = increment_version("0.1a");
    assert!(result.is_err());
}

#[test]
fn test_latest_01() {
    let result = find_latest_version(&vec!["0.1.0", "0.1.15"]).unwrap();
    let expected = "0.1.15";
    assert_eq!(result, expected);
}

#[test]
fn test_latest_02() {
    let result = find_latest_version(&vec!["0.1.1", "0.1.15"]).unwrap();
    let expected = "0.1.15";
    assert_eq!(result, expected);
}

#[test]
fn test_latest_03() {
    let result = find_latest_version(&vec!["0.1", "0.1.15"]).unwrap();
    let expected = "0.1.15";
    assert_eq!(result, expected);
}

#[test]
fn test_latest_04() {
    let result = find_latest_version(&vec!["0.1.15", "0.1.15"]).unwrap();
    let expected = "0.1.15";
    assert_eq!(result, expected);
}

#[test]
fn test_latest_05() {
    let result = find_latest_version(&vec!["0.1.15b", "0.1.15"]).unwrap();
    let expected = "0.1.15b";
    assert_eq!(result, expected);
}

#[test]
fn increment_carries_into_a_new_digit() {
    assert_eq!(increment_version("0.1.9").unwrap(), "0.1.10");
    assert_eq!(increment_version("v2").unwrap(), "v3");
    assert_eq!(increment_version("1.99").unwrap(), "1.100");
}

#[test]
fn increment_reads_the_run_as_a_number() {
    assert_eq!(increment_version("0.1.09").unwrap(), "0.1.10");
    assert_eq!(increment_version("007").unwrap(), "8");
    assert_eq!(increment_version("1.000").unwrap(), "1.1");
}

#[test]
fn increment_has_no_width_limit() {
    assert_eq!(
        increment_version("1.99999999999999999999").unwrap(),
        "1.100000000000000000000"
    );
}

#[test]
fn increment_error_carries_the_name() {
    let err = increment_version("0.1a").unwrap_err();
    assert_eq!(err.0, "0.1a");
    assert!(increment_version("").is_err());
    assert!(increment_version("1.0.").is_err());
}

#[test]
fn compare_equal_versions() {
    assert_eq!(compare_version_names("0.1.15", "0.1.15"), Ordering::Equal);
}

#[test]
fn compare_longer_wins_after_equal_prefix() {
    assert_eq!(compare_version_names("0.1.15b", "0.1.15"), Ordering::Greater);
    assert_eq!(compare_version_names("0.1", "0.1.15"), Ordering::Less);
    assert_eq!(compare_version_names("0.1.0", "0.1"), Ordering::Greater);
}

#[test]
fn compare_segments_as_text() {
    assert_eq!(compare_version_names("9", "10"), Ordering::Greater);
    assert_eq!(compare_version_names("0.1.2", "0.1.15"), Ordering::Greater);
    assert_eq!(compare_version_names("0.2.0", "0.10.0"), Ordering::Greater);
}

#[test]
fn compare_is_antisymmetric_and_transitive_on_samples() {
    let names = ["0.1", "0.1.0", "0.1.15", "0.1.15b", "0.2", "1", "1.0.0", "10"];
    for a in names {
        assert_eq!(compare_version_names(a, a), Ordering::Equal);
        for b in names {
            assert_eq!(compare_version_names(a, b), compare_version_names(b, a).reverse());
            for c in names {
                if compare_version_names(a, b) != Ordering::Greater
                    && compare_version_names(b, c) != Ordering::Greater
                {
                    assert_ne!(compare_version_names(a, c), Ordering::Greater);
                }
            }
        }
    }
}

#[test]
fn latest_of_none_is_none() {
    let empty: Vec<&str> = Vec::new();
    assert!(find_latest_version(&empty).is_none());
}

#[test]
fn next_version_defaults_to_first() {
    let empty: Vec<&str> = Vec::new();
    assert_eq!(next_version_name(&empty).unwrap(), "0.0.1");
}

#[test]
fn next_version_follows_latest() {
    assert_eq!(next_version_name(&vec!["0.1.0", "0.1.15", "0.1.1"]).unwrap(), "0.1.16");
    // segments compare as text, so "2" is later than "15"
    assert_eq!(next_version_name(&vec!["0.1.0", "0.1.15", "0.1.2"]).unwrap(), "0.1.3");
    assert!(next_version_name(&vec!["0.1", "1.0b"]).is_err());
}

#[test]
fn filename_safety() {
    assert!(is_filename_safe("my-package"));
    assert!(is_filename_safe("0.1.2"));
    assert!(!is_filename_safe("a/b"));
    assert!(!is_filename_safe("what?"));
}

#[test]
fn requested_version_name_must_be_free() {
    let existing = vec!["0.1.0", "0.2.0"];
    assert_eq!(choose_version_name(&existing, Some("0.3.0")).unwrap(), "0.3.0");
    match choose_version_name(&existing, Some("0.2.0")) {
        Err(VersionNameError::AlreadyExists(v)) => assert_eq!(v, "0.2.0"),
        other => panic!("unexpected result: {:?}", other),
    }
    assert_eq!(choose_version_name(&existing, None).unwrap(), "0.2.1");
    let empty: Vec<&str> = Vec::new();
    assert_eq!(choose_version_name(&empty, None).unwrap(), "0.0.1");
    assert!(matches!(
        choose_version_name(&vec!["beta"], None),
        Err(VersionNameError::UnknownFormat(_))
    ));
}

#[test]
fn package_dir_candidates_are_numbered() {
    assert_eq!(package_dir_candidate("pkg", 0), "pkg");
    assert_eq!(package_dir_candidate("pkg", 1), "pkg_1");
    assert_eq!(package_dir_candidate("pkg", 10), "pkg_10");
    assert_eq!(package_dir_candidate("pkg", 18446744073709551615), "pkg_18446744073709551615");
}
