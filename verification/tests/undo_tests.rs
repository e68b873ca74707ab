use symview::actionlog::ActionLog;
use symview::fsmodel::FsModel;
use symview::types::{ActionInput, LinkType};
use symview::undo::{latest_undo_candidate, undo_last};

fn action(action_type: &str, link_path: &str, success: bool) -> ActionInput {
    ActionInput {
        action_type: action_type.to_string(),
        link_path: link_path.to_string(),
        link_type: LinkType::Symlink,
        target_old: Some("C:\\tmp\\old".to_string()),
        target_new: Some("C:\\tmp\\new".to_string()),
        success,
        error_msg: None,
    }
}

fn stamp(n: u32) -> String {
    format!("2025-01-01T00:00:{n:02}Z")
}

#[test]
fn insert_and_query_in_memory() {
    let mut log = ActionLog::new();

    log.log_action(
        ActionInput {
            action_type: "Create".to_string(),
            link_path: "C:\\tmp\\a".to_string(),
            link_type: LinkType::Symlink,
            target_old: None,
            target_new: Some("C:\\tmp\\b".to_string()),
            success: true,
            error_msg: None,
        },
        stamp(0),
    );

    assert_eq!(log.len(), 1);
}

#[test]
fn undo_candidate_skips_actions_already_consumed_by_undo() {
    let mut log = ActionLog::new();

    log.log_action(action("Create", "C:\\tmp\\first", true), stamp(1));
    log.log_action(action("Create", "C:\\tmp\\second", true), stamp(2));
    log.log_action(action("Undo", "C:\\tmp\\second", true), stamp(3));

    let candidate = latest_undo_candidate(&log).expect("candidate exists");

    assert_eq!(candidate.action_type, "Create");
    assert_eq!(candidate.link_path, "C:\\tmp\\first");
}

#[test]
fn undo_candidate_ignores_failed_undo_rows() {
    let mut log = ActionLog::new();

    log.log_action(action("Create", "C:\\tmp\\first", true), stamp(1));
    log.log_action(action("Undo", "C:\\tmp\\first", false), stamp(2));

    let candidate = latest_undo_candidate(&log).expect("candidate exists");

    assert_eq!(candidate.action_type, "Create");
    assert_eq!(candidate.link_path, "C:\\tmp\\first");
}

#[test]
fn log_ids_strictly_increase() {
    let mut log = ActionLog::new();
    let a = log.log_action(action("Create", "C:\\tmp\\a", true), stamp(1));
    let b = log.log_action(action("Delete", "C:\\tmp\\a", false), stamp(2));
    let c = log.log_action(action("Undo", "C:\\tmp\\a", true), stamp(3));
    assert!(a < b && b < c);
    assert_eq!(log.row_at(0).id, a);
    assert_eq!(log.row_at(1).id, b);
    assert_eq!(log.row_at(2).id, c);
}

#[test]
fn history_pages_newest_first() {
    let mut log = ActionLog::new();
    log.log_action(action("Create", "C:\\tmp\\a", true), stamp(1));
    log.log_action(action("Create", "C:\\tmp\\b", true), stamp(2));
    log.log_action(action("Create", "C:\\tmp\\c", true), stamp(3));

    let page = log.get_history(2, 0);
    assert_eq!(page.len(), 2);
    assert_eq!(page[0].link_path, "C:\\tmp\\c");
    assert_eq!(page[1].link_path, "C:\\tmp\\b");

    let page = log.get_history(10, 2);
    assert_eq!(page.len(), 1);
    assert_eq!(page[0].link_path, "C:\\tmp\\a");

    let page = log.get_history(10, 5);
    assert_eq!(page.len(), 0);
}

#[test]
fn undo_skip_by_count_scenario() {
    // Log (Create A, Create B, Undo of B): the engine must pick Create A.
    let mut fs = FsModel::new();
    fs.add_dir("C:\\tmp".to_string());
    fs.add_file("C:\\tmp\\t".to_string(), 1);
    fs.create_link_internal("C:\\tmp\\A", "C:\\tmp\\t", &LinkType::Symlink, false).unwrap();

    let mut log = ActionLog::new();
    log.log_action(action("Create", "C:\\tmp\\A", true), stamp(1));
    log.log_action(action("Create", "C:\\tmp\\B", true), stamp(2));
    log.log_action(action("Undo", "C:\\tmp\\B", true), stamp(3));

    let candidate = latest_undo_candidate(&log).expect("candidate exists");
    assert_eq!(candidate.action_type, "Create");
    assert_eq!(candidate.link_path, "C:\\tmp\\A");

    // its compensation (Delete A) runs and is re-logged as an Undo row
    undo_last(&mut log, &mut fs, stamp(4)).unwrap();
    assert!(!fs.path_exists("C:\\tmp\\A"));
    assert_eq!(log.len(), 4);
    let last = log.row_at(3);
    assert_eq!(last.action_type, "Undo");
    assert!(last.success);

    // now everything is compensated
    let err = undo_last(&mut log, &mut fs, stamp(5)).unwrap_err();
    assert_eq!(err, "Nothing to undo");
}

#[test]
fn undo_of_delete_recreates_the_link() {
    let mut fs = FsModel::new();
    fs.add_dir("C:\\tmp".to_string());
    fs.add_dir("C:\\tmp\\d".to_string());

    let mut log = ActionLog::new();
    log.log_action(
        ActionInput {
            action_type: "Delete".to_string(),
            link_path: "C:\\tmp\\j".to_string(),
            link_type: LinkType::Junction,
            target_old: Some("C:\\tmp\\d".to_string()),
            target_new: None,
            success: true,
            error_msg: None,
        },
        stamp(1),
    );

    undo_last(&mut log, &mut fs, stamp(2)).unwrap();
    assert!(fs.path_exists("C:\\tmp\\j"));
    assert_eq!(fs.read_target("C:\\tmp\\j"), "C:\\tmp\\d");
}

#[test]
fn undo_of_retarget_points_back() {
    let mut fs = FsModel::new();
    fs.add_dir("C:\\tmp".to_string());
    fs.add_file("C:\\tmp\\t1".to_string(), 1);
    fs.add_file("C:\\tmp\\t2".to_string(), 2);
    fs.create_link_internal("C:\\tmp\\l", "C:\\tmp\\t1", &LinkType::Symlink, false).unwrap();
    fs.retarget_link_internal("C:\\tmp\\l", "C:\\tmp\\t2").unwrap();

    let mut log = ActionLog::new();
    log.log_action(
        ActionInput {
            action_type: "Retarget".to_string(),
            link_path: "C:\\tmp\\l".to_string(),
            link_type: LinkType::Symlink,
            target_old: Some("C:\\tmp\\t1".to_string()),
            target_new: Some("C:\\tmp\\t2".to_string()),
            success: true,
            error_msg: None,
        },
        stamp(1),
    );

    undo_last(&mut log, &mut fs, stamp(2)).unwrap();
    assert_eq!(fs.read_target("C:\\tmp\\l"), "C:\\tmp\\t1");
}

#[test]
fn undo_with_missing_stored_target_fails_loudly() {
    let mut fs = FsModel::new();
    let mut log = ActionLog::new();
    log.log_action(
        ActionInput {
            action_type: "Delete".to_string(),
            link_path: "C:\\tmp\\j".to_string(),
            link_type: LinkType::Junction,
            target_old: None,
            target_new: None,
            success: true,
            error_msg: None,
        },
        stamp(1),
    );
    let err = undo_last(&mut log, &mut fs, stamp(2)).unwrap_err();
    assert_eq!(err, "Delete action is missing previous target");
    // the failed attempt is still recorded, as an unsuccessful Undo row
    assert_eq!(log.len(), 2);
    let last = log.row_at(1);
    assert_eq!(last.action_type, "Undo");
    assert!(!last.success);
    assert_eq!(last.error_msg.as_deref(), Some("Delete action is missing previous target"));
}

#[test]
fn mutation_pair_then_two_undos_restores_the_model() {
    let mut fs = FsModel::new();
    fs.add_dir("C:\\tmp".to_string());
    fs.add_file("C:\\tmp\\t".to_string(), 1);
    fs.add_dir("C:\\tmp\\d".to_string());

    let mut log = ActionLog::new();

    // M1: create a symlink; M2: create a junction — both logged
    fs.create_link_internal("C:\\tmp\\l", "C:\\tmp\\t", &LinkType::Symlink, false).unwrap();
    log.log_action(
        ActionInput {
            action_type: "Create".to_string(),
            link_path: "C:\\tmp\\l".to_string(),
            link_type: LinkType::Symlink,
            target_old: None,
            target_new: Some("C:\\tmp\\t".to_string()),
            success: true,
            error_msg: None,
        },
        stamp(1),
    );
    fs.create_link_internal("C:\\tmp\\j", "C:\\tmp\\d", &LinkType::Junction, false).unwrap();
    log.log_action(
        ActionInput {
            action_type: "Create".to_string(),
            link_path: "C:\\tmp\\j".to_string(),
            link_type: LinkType::Junction,
            target_old: None,
            target_new: Some("C:\\tmp\\d".to_string()),
            success: true,
            error_msg: None,
        },
        stamp(2),
    );

    // two undos reverse both mutations, newest first
    undo_last(&mut log, &mut fs, stamp(3)).unwrap();
    assert!(!fs.path_exists("C:\\tmp\\j"));
    assert!(fs.path_exists("C:\\tmp\\l"));
    undo_last(&mut log, &mut fs, stamp(4)).unwrap();
    assert!(!fs.path_exists("C:\\tmp\\l"));
    assert!(fs.path_exists("C:\\tmp\\t"));
    assert!(fs.path_exists("C:\\tmp\\d"));
    let err = undo_last(&mut log, &mut fs, stamp(5)).unwrap_err();
    assert_eq!(err, "Nothing to undo");
}
