use symview::classify::{classify_status, detect_link_type, map_attributes, map_error,
    ProbeOutcome};
use symview::config::{config_path, default_config, default_system_drive, load_config,
    previous_config_path, temp_config_path, Config, ConfigFileState};
use symview::export::{export_header, export_row};
use symview::shellops::{parse_elevation_output, ps_argument_list, ps_single_quoted,
    shell_key_paths};
use symview::types::{link_type_from_text, link_type_to_text, status_to_string, LinkDetails,
    LinkEntry, LinkStatus, LinkType, ObjectType};
use symview::validate::{needs_target_probe, timeout_probe, validate_one};
use symview::volumes::{decode_powershell_text, decode_utf16le_if_applicable};

#[test]
fn has_junction_prefix_logic() {
    let path = "C:\\root\\item";
    let target = "C:\\root\\target";
    let same_volume = path.chars().take(2).collect::<String>() == target.chars().take(2).collect::<String>();
    assert!(same_volume);
}

fn entry(target: &str) -> LinkEntry {
    LinkEntry {
        path: "C:\\tmp\\link".to_string(),
        target: target.to_string(),
        link_type: LinkType::Symlink,
        status: LinkStatus::Valid,
    }
}

#[test]
fn empty_target_is_broken() {
    let validated = validate_one(entry(""), None);
    assert!(matches!(validated.status, LinkStatus::Broken(ref m) if m == "target path is empty"));
    assert!(!needs_target_probe(&entry("   ")));
    assert!(needs_target_probe(&entry("C:\\x")));
}

#[test]
fn classifies_missing_target() {
    let validated = validate_one(entry("C:\\definitely_missing_target_123"), Some(ProbeOutcome::NotFound));
    assert!(matches!(validated.status, LinkStatus::Broken(ref m) if m == "target does not exist"));
}

#[test]
fn probe_outcomes_map_to_statuses() {
    assert!(matches!(classify_status(ProbeOutcome::Found), LinkStatus::Valid));
    assert!(matches!(classify_status(ProbeOutcome::PermissionDenied), LinkStatus::AccessDenied));
    assert!(matches!(
        classify_status(ProbeOutcome::Failed("disk on fire".to_string())),
        LinkStatus::Broken(ref m) if m == "disk on fire"
    ));
    assert!(matches!(
        classify_status(timeout_probe()),
        LinkStatus::Broken(ref m) if m == "timeout resolving target"
    ));
}

#[test]
fn privilege_code_maps_to_guidance() {
    let msg = map_error(Some(1314), "os error 1314");
    assert_eq!(
        msg,
        "SeCreateSymbolicLinkPrivilege is required. Enable Developer Mode in Windows Settings or run as Administrator."
    );
    assert_eq!(map_error(Some(5), "access denied"), "access denied");
    assert_eq!(map_error(None, "plain failure"), "plain failure");
}

#[test]
fn link_type_labels_round_trip() {
    for k in [LinkType::Symlink, LinkType::Junction, LinkType::Hardlink] {
        assert_eq!(link_type_from_text(link_type_to_text(&k)), k);
    }
    assert_eq!(link_type_from_text("SomethingElse"), LinkType::Symlink);
    assert_eq!(link_type_to_text(&LinkType::Junction), "Junction");
}

#[test]
fn status_text_forms() {
    assert_eq!(status_to_string(&LinkStatus::Valid), "Ok");
    assert_eq!(status_to_string(&LinkStatus::AccessDenied), "AccessDenied");
    assert_eq!(
        status_to_string(&LinkStatus::Broken("target does not exist".to_string())),
        "Broken(target does not exist)"
    );
}

#[test]
fn attribute_names_in_order() {
    assert_eq!(map_attributes(0, false), vec!["NORMAL"]);
    assert_eq!(map_attributes(0x2 | 0x20, false), vec!["HIDDEN", "ARCHIVE"]);
    assert_eq!(
        map_attributes(0x4 | 0x400, true),
        vec!["READONLY", "SYSTEM", "REPARSE_POINT"]
    );
}

#[test]
fn detect_link_type_decision_table() {
    assert_eq!(detect_link_type(true, true, 0).unwrap(), LinkType::Junction);
    assert_eq!(detect_link_type(true, false, 0).unwrap(), LinkType::Symlink);
    assert_eq!(detect_link_type(false, false, 2).unwrap(), LinkType::Hardlink);
    assert_eq!(
        detect_link_type(false, false, 1).unwrap_err(),
        "Path is not a recognized link type"
    );
}

#[test]
fn utf16_decoding_with_and_without_bom() {
    // "ab" as UTF-16LE behind a byte-order mark
    let bytes = vec![0xFF, 0xFE, 0x61, 0x00, 0x62, 0x00];
    assert_eq!(decode_utf16le_if_applicable(&bytes).unwrap(), "ab");
    // without the mark, the zero high bytes decide
    let bytes = vec![0x61, 0x00, 0x62, 0x00];
    assert_eq!(decode_utf16le_if_applicable(&bytes).unwrap(), "ab");
    // plain ASCII does not look like UTF-16
    let bytes = b"ab".to_vec();
    assert!(decode_utf16le_if_applicable(&bytes).is_none());
    assert_eq!(decode_powershell_text(&b"ab".to_vec()), "ab");
    // empty input decodes to the empty string
    assert_eq!(decode_utf16le_if_applicable(&Vec::new()).unwrap(), "");
    // invalid UTF-8 falls back lossily
    let bytes = vec![0x61, 0xFF, 0x62];
    assert_eq!(decode_powershell_text(&bytes), "a\u{FFFD}b");
}

#[test]
fn shell_quoting_doubles_single_quotes() {
    assert_eq!(ps_single_quoted("plain"), "'plain'");
    assert_eq!(ps_single_quoted("it's"), "'it''s'");
    assert_eq!(ps_argument_list(&Vec::new()), "");
    assert_eq!(
        ps_argument_list(&vec!["--path".to_string(), "C:\\it's".to_string()]),
        " -ArgumentList @('--path', 'C:\\it''s')"
    );
}

#[test]
fn shell_keys_and_elevation_parse() {
    let keys = shell_key_paths();
    assert_eq!(keys, vec!["*\\shell\\symview", "Directory\\shell\\symview"]);
    assert!(parse_elevation_output("True\r\n"));
    assert!(parse_elevation_output(" true "));
    assert!(!parse_elevation_output("False"));
    assert!(!parse_elevation_output(""));
}

#[test]
fn default_system_drive_filters_the_environment() {
    assert_eq!(default_system_drive(Some(" D:\\ ".to_string())), "D:");
    assert_eq!(default_system_drive(Some("bogus".to_string())), "C:");
    assert_eq!(default_system_drive(None), "C:");
}

#[test]
fn default_config_values() {
    let c = default_config();
    assert_eq!(c.scan.default_volume, "C:");
    assert_eq!(c.scan.excluded_paths, vec!["C:\\Windows\\WinSxS".to_string()]);
    assert!(!c.scan.auto_scan_on_start);
    assert!(c.ui.remember_filters);
    assert_eq!(c.ui.last_filter_type, "All");
    assert_eq!(c.ui.last_filter_status, "All");
    assert!(!c.shell.context_menu_registered);
}

#[test]
fn config_file_names() {
    assert_eq!(config_path("C:\\home\\symview"), "C:\\home\\symview\\config.toml");
    assert_eq!(previous_config_path("C:\\home\\symview"), "C:\\home\\symview\\config.toml.prev");
    assert_eq!(temp_config_path("C:\\home\\symview"), "C:\\home\\symview\\config.toml.tmp");
}

#[test]
fn load_config_recovery_decisions() {
    let mut parsed = default_config();
    parsed.scan.default_volume = "D:".to_string();

    let d = load_config(ConfigFileState::Parsed(parsed), ConfigFileState::Missing);
    assert_eq!(d.config.scan.default_volume, "D:");
    assert!(!d.stash_corrupt && !d.save);

    let mut backup = default_config();
    backup.scan.default_volume = "E:".to_string();
    let d = load_config(ConfigFileState::Corrupt, ConfigFileState::Parsed(backup));
    assert_eq!(d.config.scan.default_volume, "E:");
    assert!(d.stash_corrupt && d.save);

    let d = load_config(ConfigFileState::Corrupt, ConfigFileState::Corrupt);
    assert_eq!(d.config.scan.default_volume, "C:");
    assert!(d.stash_corrupt && d.save);

    let d = load_config(ConfigFileState::Missing, ConfigFileState::Missing);
    assert_eq!(d.config.scan.default_volume, "C:");
    assert!(!d.stash_corrupt && d.save);
}

#[test]
fn export_row_cells_in_order() {
    assert_eq!(
        export_header(),
        vec![
            "link_path",
            "target_stored",
            "target_real",
            "link_type",
            "status",
            "object_type",
            "created_at",
            "owner"
        ]
    );
    let details = LinkDetails {
        path: "C:\\tmp\\l".to_string(),
        target_real: "C:\\tmp\\t".to_string(),
        target_stored: "t".to_string(),
        link_type: LinkType::Junction,
        object_type: ObjectType::Directory,
        created_at: "2025-01-01T00:00:00Z".to_string(),
        modified_at: "2025-01-02T00:00:00Z".to_string(),
        owner: "BUILTIN\\Administrators".to_string(),
        attributes: vec!["NORMAL".to_string()],
        status: LinkStatus::Valid,
    };
    assert_eq!(
        export_row(&details),
        vec![
            "C:\\tmp\\l",
            "t",
            "C:\\tmp\\t",
            "Junction",
            "Ok",
            "Directory",
            "2025-01-01T00:00:00Z",
            "BUILTIN\\Administrators"
        ]
    );
}

#[test]
fn sibling_chooser_prefers_the_other_name() {
    let lines = vec!["C:\\tmp\\A.txt".to_string(), "C:\\tmp\\b.txt".to_string()];
    assert_eq!(symview::scan::choose_sibling(&lines, "C:\\tmp\\a.txt"), "C:\\tmp\\b.txt");
    // only the queried name itself: the first line comes back
    let lines = vec!["C:\\tmp\\A.txt".to_string()];
    assert_eq!(symview::scan::choose_sibling(&lines, "C:\\tmp\\a.txt"), "C:\\tmp\\A.txt");
    // no lines at all: the queried path comes back
    let lines: Vec<String> = Vec::new();
    assert_eq!(symview::scan::choose_sibling(&lines, "C:\\tmp\\a.txt"), "C:\\tmp\\a.txt");
}

#[test]
fn hardlink_listing_count_skips_blank_lines() {
    let lines = vec![
        "C:\\tmp\\a.txt".to_string(),
        "   ".to_string(),
        "C:\\tmp\\b.txt".to_string(),
        "".to_string(),
    ];
    assert_eq!(symview::classify::hardlink_name_count(&lines), 2);
}

#[test]
fn migration_plan_adds_exactly_the_absent_columns() {
    let existing = vec!["id".to_string(), "action_type".to_string(), "timestamp".to_string()];
    let plan = symview::actionlog::plan_missing_columns(&existing).unwrap();
    let names: Vec<&str> = plan.iter().map(|(n, _)| n.as_str()).collect();
    assert_eq!(
        names,
        vec!["link_path", "link_type", "target_old", "target_new", "success", "error_msg"]
    );
    assert_eq!(plan[0].1, "TEXT NOT NULL DEFAULT ''");

    let no_id = vec!["action_type".to_string()];
    assert_eq!(
        symview::actionlog::plan_missing_columns(&no_id).unwrap_err(),
        "Migration failed: existing actions table is missing required id column"
    );
}

#[test]
fn validation_output_sorts_by_path() {
    let mk = |p: &str| LinkEntry {
        path: p.to_string(),
        target: "C:\\t".to_string(),
        link_type: LinkType::Symlink,
        status: LinkStatus::Valid,
    };
    let sorted = symview::validate::sort_entries_by_path(vec![
        mk("C:\\b"),
        mk("C:\\a\\x"),
        mk("C:\\a"),
        mk("C:\\b"),
    ]);
    let paths: Vec<&str> = sorted.iter().map(|e| e.path.as_str()).collect();
    assert_eq!(paths, vec!["C:\\a", "C:\\a\\x", "C:\\b", "C:\\b"]);
}

#[test]
fn exotic_whitespace_trims_like_plain_whitespace() {
    // a no-break space around the drive letter is trimmed as std's trim does
    assert_eq!(symview::paths::normalize_drive("\u{00A0}d:\\\u{00A0}").unwrap(), "D:\\");
    let entry = LinkEntry {
        path: "C:\\tmp\\l".to_string(),
        target: "\u{2003}\u{00A0}".to_string(),
        link_type: LinkType::Symlink,
        status: LinkStatus::Valid,
    };
    assert!(!symview::validate::needs_target_probe(&entry));
}

#[test]
fn config_struct_is_visible_to_callers() {
    let c: Config = default_config();
    assert_eq!(c.scan.excluded_paths.len(), 1);
}
