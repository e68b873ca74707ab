use symview::paths::{
    is_win_absolute, normalize_display_path, normalize_drive, normalize_path_for_prefix_compare,
    parse_drive_letter, prefix_excluded, resolve_target, should_exclude,
};

#[test]
fn normalize_drive_accepts_expected_forms() {
    assert_eq!(normalize_drive("c:").unwrap(), "C:\\");
    assert_eq!(normalize_drive("D:\\").unwrap(), "D:\\");
    assert_eq!(normalize_drive(" e:/ ").unwrap(), "E:\\");
}

#[test]
fn normalize_drive_rejects_unsafe_forms() {
    assert!(normalize_drive("C:\\Windows").is_err());
    assert!(normalize_drive("..\\").is_err());
    assert!(normalize_drive("\\\\.\\PhysicalDrive0").is_err());
}

#[test]
fn normalize_drive_accepts_bare_letter() {
    assert_eq!(normalize_drive("x").unwrap(), "X:\\");
}

#[test]
fn parse_drive_letter_uppercases() {
    assert_eq!(parse_drive_letter(" f:\\ ").unwrap(), 'F');
    assert!(parse_drive_letter("").is_err());
    assert!(parse_drive_letter("1:").is_err());
}

#[test]
fn drive_errors_name_the_input() {
    let err = normalize_drive("C:\\Windows").unwrap_err();
    assert_eq!(err, "Invalid drive format: C:\\Windows. Expected format like C:");
    let err = normalize_drive("").unwrap_err();
    assert_eq!(err, "Drive is empty. Expected format like C:");
    let err = normalize_drive("9:").unwrap_err();
    assert_eq!(err, "Invalid drive letter in path: 9:");
}

#[test]
fn exclude_prefix_must_match_path_boundary() {
    assert!(should_exclude(
        "C:\\data\\archive\\item.txt",
        &vec!["C:\\data\\archive".to_string()]
    ));

    assert!(!should_exclude(
        "C:\\data\\archives\\item.txt",
        &vec!["C:\\data\\archive".to_string()]
    ));
}

#[test]
fn exclusion_is_case_insensitive_and_slash_normalized() {
    assert!(should_exclude(
        "c:/DATA/Archive/item.txt",
        &vec!["C:\\data\\archive\\".to_string()]
    ));
    assert!(should_exclude("C:\\Data\\Archive", &vec!["c:\\data\\archive".to_string()]));
}

#[test]
fn empty_exclusion_entries_never_match() {
    assert!(!should_exclude("C:\\anything", &vec!["".to_string(), "   ".to_string()]));
}

#[test]
fn prefix_excluded_requires_boundary() {
    assert!(prefix_excluded("c:\\data\\archive", "c:\\data\\archive"));
    assert!(prefix_excluded("c:\\data\\archive\\x", "c:\\data\\archive"));
    assert!(!prefix_excluded("c:\\data\\archives", "c:\\data\\archive"));
    assert!(!prefix_excluded("c:\\data", ""));
}

#[test]
fn prefix_compare_normalization() {
    assert_eq!(normalize_path_for_prefix_compare("  C:/Data\\Sub\\  "), "c:\\data\\sub");
    assert_eq!(normalize_path_for_prefix_compare("C:\\X////"), "c:\\x");
}

#[test]
fn windows_absolute_forms() {
    assert!(is_win_absolute("C:\\x"));
    assert!(is_win_absolute("d:/y"));
    assert!(is_win_absolute("\\\\server\\share"));
    assert!(!is_win_absolute("relative\\path"));
    assert!(!is_win_absolute("C:"));
    assert!(!is_win_absolute("..\\up"));
}

#[test]
fn resolve_target_joins_relative_against_parent() {
    assert_eq!(resolve_target("C:\\tmp\\l.txt", "C:\\other\\t.txt"), "C:\\other\\t.txt");
    assert_eq!(resolve_target("C:\\tmp\\l.txt", "t.txt"), "C:\\tmp\\t.txt");
    assert_eq!(resolve_target("l.txt", "t.txt"), "\\t.txt");
}

#[test]
fn display_path_strips_device_prefixes() {
    assert_eq!(normalize_display_path("\\\\?\\C:\\dir\\f"), "C:\\dir\\f");
    assert_eq!(normalize_display_path("\\\\?\\UNC\\srv\\share\\f"), "\\\\srv\\share\\f");
    assert_eq!(normalize_display_path("C:\\plain"), "C:\\plain");
}
