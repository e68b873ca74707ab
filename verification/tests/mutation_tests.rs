use symview::fsmodel::FsModel;
use symview::types::LinkType;

fn base_model() -> FsModel {
    let mut fs = FsModel::new();
    fs.add_dir("C:\\tmp".to_string());
    fs
}

#[test]
fn create_and_delete_symlink_round_trip() {
    let mut fs = base_model();
    fs.add_file("C:\\tmp\\t.txt".to_string(), 1);

    fs.create_link_internal("C:\\tmp\\l.txt", "C:\\tmp\\t.txt", &LinkType::Symlink, false)
        .unwrap();
    assert!(fs.path_exists("C:\\tmp\\l.txt"));
    assert_eq!(fs.read_target("C:\\tmp\\l.txt"), "C:\\tmp\\t.txt");
    assert_eq!(fs.detect_link_type("C:\\tmp\\l.txt").unwrap(), LinkType::Symlink);

    fs.delete_link_internal("C:\\tmp\\l.txt").unwrap();
    assert!(!fs.path_exists("C:\\tmp\\l.txt"));
    assert!(fs.path_exists("C:\\tmp\\t.txt"));
}

#[test]
fn create_rejects_existing_link_path() {
    let mut fs = base_model();
    fs.add_file("C:\\tmp\\t.txt".to_string(), 1);
    let err = fs
        .create_link_internal("C:\\tmp\\t.txt", "C:\\tmp\\x", &LinkType::Symlink, false)
        .unwrap_err();
    assert_eq!(err, "Link path already exists");
}

#[test]
fn create_makes_missing_parent_directories() {
    let mut fs = FsModel::new();
    fs.create_link_internal("C:\\a\\b\\l", "C:\\t", &LinkType::Symlink, false).unwrap();
    assert!(fs.path_exists("C:\\a"));
    assert!(fs.path_exists("C:\\a\\b"));
    assert!(fs.path_exists("C:\\a\\b\\l"));
}

#[test]
fn junction_requires_absolute_target() {
    let mut fs = base_model();
    let err = fs
        .create_link_internal("C:\\tmp\\j", "relative\\dir", &LinkType::Junction, false)
        .unwrap_err();
    assert_eq!(err, "Junction target must be an absolute path");
    assert!(!fs.path_exists("C:\\tmp\\j"));
}

#[test]
fn junction_to_directory_detects_as_junction() {
    let mut fs = base_model();
    fs.add_dir("C:\\tmp\\d".to_string());
    fs.create_link_internal("C:\\tmp\\j", "C:\\tmp\\d", &LinkType::Junction, false).unwrap();
    assert_eq!(fs.detect_link_type("C:\\tmp\\j").unwrap(), LinkType::Junction);
    assert_eq!(fs.read_target("C:\\tmp\\j"), "C:\\tmp\\d");
}

#[test]
fn hardlink_requires_file_target_on_same_volume() {
    let mut fs = base_model();
    fs.add_dir("C:\\tmp\\d".to_string());
    let err = fs
        .create_link_internal("C:\\tmp\\h", "C:\\tmp\\d", &LinkType::Hardlink, false)
        .unwrap_err();
    assert_eq!(err, "Hardlink target must be a file");

    fs.add_file("C:\\tmp\\a.txt".to_string(), 9);
    let err = fs
        .create_link_internal("D:\\tmp\\h", "C:\\tmp\\a.txt", &LinkType::Hardlink, false)
        .unwrap_err();
    assert_eq!(err, "Hardlink requires source and target to be on the same volume");

    fs.create_link_internal("C:\\tmp\\b.txt", "C:\\tmp\\a.txt", &LinkType::Hardlink, false)
        .unwrap();
    assert_eq!(fs.detect_link_type("C:\\tmp\\b.txt").unwrap(), LinkType::Hardlink);
    assert_eq!(fs.detect_link_type("C:\\tmp\\a.txt").unwrap(), LinkType::Hardlink);
}

#[test]
fn deleting_one_hardlink_name_keeps_the_other() {
    let mut fs = base_model();
    fs.add_file("C:\\tmp\\a.txt".to_string(), 9);
    fs.create_link_internal("C:\\tmp\\b.txt", "C:\\tmp\\a.txt", &LinkType::Hardlink, false)
        .unwrap();
    fs.delete_link_internal("C:\\tmp\\b.txt").unwrap();
    assert!(!fs.path_exists("C:\\tmp\\b.txt"));
    assert!(fs.path_exists("C:\\tmp\\a.txt"));
}

#[test]
fn retarget_replaces_the_stored_target() {
    let mut fs = base_model();
    fs.add_file("C:\\tmp\\t1".to_string(), 1);
    fs.add_file("C:\\tmp\\t2".to_string(), 2);
    fs.create_link_internal("C:\\tmp\\l", "C:\\tmp\\t1", &LinkType::Symlink, false).unwrap();

    fs.retarget_link_internal("C:\\tmp\\l", "C:\\tmp\\t2").unwrap();
    assert_eq!(fs.read_target("C:\\tmp\\l"), "C:\\tmp\\t2");
}

#[test]
fn retarget_twice_restores_the_original_target() {
    let mut fs = base_model();
    fs.add_file("C:\\tmp\\t1".to_string(), 1);
    fs.add_file("C:\\tmp\\t2".to_string(), 2);
    fs.create_link_internal("C:\\tmp\\l", "C:\\tmp\\t1", &LinkType::Symlink, false).unwrap();

    fs.retarget_link_internal("C:\\tmp\\l", "C:\\tmp\\t2").unwrap();
    fs.retarget_link_internal("C:\\tmp\\l", "C:\\tmp\\t1").unwrap();
    assert_eq!(fs.read_target("C:\\tmp\\l"), "C:\\tmp\\t1");
}

#[test]
fn retarget_rolls_back_when_creation_fails() {
    let mut fs = base_model();
    fs.add_file("C:\\tmp\\t1".to_string(), 1);
    fs.create_link_internal("C:\\tmp\\l", "C:\\tmp\\t1", &LinkType::Symlink, false).unwrap();

    // the environment refuses creation toward the new target
    fs.deny_target("C:\\gone\\t2".to_string());
    let err = fs.retarget_link_internal("C:\\tmp\\l", "C:\\gone\\t2").unwrap_err();
    assert_eq!(err, "target cannot be reached");
    // the link still points at its previous target
    assert_eq!(fs.read_target("C:\\tmp\\l"), "C:\\tmp\\t1");
}

#[test]
fn retarget_reports_both_failures_when_rollback_fails() {
    let mut fs = base_model();
    fs.add_file("C:\\tmp\\t1".to_string(), 1);
    fs.create_link_internal("C:\\tmp\\l", "C:\\tmp\\t1", &LinkType::Symlink, false).unwrap();

    // the environment refuses creation toward both the new and the old target
    fs.deny_target("C:\\gone\\t2".to_string());
    fs.deny_target("C:\\tmp\\t1".to_string());
    let err = fs.retarget_link_internal("C:\\tmp\\l", "C:\\gone\\t2").unwrap_err();
    assert_eq!(err, "target cannot be reached; rollback failed: target cannot be reached");
    // with the rollback refused too, the link is gone
    assert!(!fs.path_exists("C:\\tmp\\l"));
}

#[test]
fn delete_refuses_a_directory_with_children() {
    let mut fs = base_model();
    fs.add_file("C:\\tmp\\t.txt".to_string(), 1);
    let err = fs.delete_link_internal("C:\\tmp").unwrap_err();
    assert_eq!(err, "directory is not empty");
    fs.delete_link_internal("C:\\tmp\\t.txt").unwrap();
    fs.delete_link_internal("C:\\tmp").unwrap();
    assert!(!fs.path_exists("C:\\tmp"));
}

#[test]
fn detect_rejects_plain_objects() {
    let mut fs = base_model();
    fs.add_file("C:\\tmp\\f".to_string(), 3);
    assert_eq!(fs.detect_link_type("C:\\tmp\\f").unwrap_err(), "Path is not a recognized link type");
    assert_eq!(fs.detect_link_type("C:\\tmp").unwrap_err(), "Path is not a recognized link type");
    assert_eq!(fs.detect_link_type("C:\\absent").unwrap_err(), "path not found");
}

#[test]
fn symlink_to_directory_detects_as_junction() {
    let mut fs = base_model();
    fs.add_dir("C:\\tmp\\d".to_string());
    fs.create_link_internal("C:\\tmp\\l", "C:\\tmp\\d", &LinkType::Symlink, false).unwrap();
    // a directory-resolving reparse point is reported as Junction
    assert_eq!(fs.detect_link_type("C:\\tmp\\l").unwrap(), LinkType::Junction);
}
