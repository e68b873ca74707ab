use symview::classify::{classify_reparse_tag, map_symlink_type, IO_REPARSE_TAG_MOUNT_POINT,
    IO_REPARSE_TAG_SYMLINK};
use symview::journal::{read_le16, read_le32, read_le64, FrnForest};
use symview::scan::{collect_walkdir_entries, journal_probe, scan_path_with_walkdir_for_tests,
    HardlinkInfo, WalkEntryProbe, SCAN_BATCH_SIZE};
use symview::types::{LinkStatus, LinkType};

fn file_probe(path: &str, links: u32, index: u64) -> WalkEntryProbe {
    WalkEntryProbe {
        path: path.to_string(),
        meta_ok: true,
        is_symlink: false,
        is_dir: false,
        stored_target: String::new(),
        reparse_tag: None,
        fallback_is_dir: false,
        hardlink: Some(HardlinkInfo { volume_serial: 7, file_index: index, links_count: links }),
        sibling_target: String::new(),
    }
}

fn dir_probe(path: &str) -> WalkEntryProbe {
    WalkEntryProbe {
        path: path.to_string(),
        meta_ok: true,
        is_symlink: false,
        is_dir: true,
        stored_target: String::new(),
        reparse_tag: None,
        fallback_is_dir: false,
        hardlink: None,
        sibling_target: String::new(),
    }
}

fn link_probe(path: &str, target: &str, tag: Option<u32>, fallback_is_dir: bool) -> WalkEntryProbe {
    WalkEntryProbe {
        path: path.to_string(),
        meta_ok: true,
        is_symlink: true,
        is_dir: false,
        stored_target: target.to_string(),
        reparse_tag: tag,
        fallback_is_dir,
        hardlink: None,
        sibling_target: String::new(),
    }
}

#[test]
fn unknown_reparse_tag_classifies_as_symlink() {
    assert_eq!(classify_reparse_tag(IO_REPARSE_TAG_MOUNT_POINT), LinkType::Junction);
    assert_eq!(classify_reparse_tag(IO_REPARSE_TAG_SYMLINK), LinkType::Symlink);
    assert_eq!(classify_reparse_tag(0xDEAD_BEEF), LinkType::Symlink);
    assert_eq!(classify_reparse_tag(0), LinkType::Symlink);
}

#[test]
fn fallback_classification_uses_target_kind() {
    assert_eq!(map_symlink_type(None, true), LinkType::Junction);
    assert_eq!(map_symlink_type(None, false), LinkType::Symlink);
    assert_eq!(map_symlink_type(Some(IO_REPARSE_TAG_MOUNT_POINT), false), LinkType::Junction);
}

#[test]
fn symlink_scan_returns_exactly_the_link() {
    let probes = vec![
        dir_probe("C:\\tmp"),
        file_probe("C:\\tmp\\t.txt", 1, 100),
        link_probe("C:\\tmp\\l.txt", "C:\\tmp\\t.txt", Some(IO_REPARSE_TAG_SYMLINK), false),
    ];
    let entries = scan_path_with_walkdir_for_tests(probes);
    assert_eq!(entries.len(), 1);
    assert_eq!(entries[0].path, "C:\\tmp\\l.txt");
    assert_eq!(entries[0].target, "C:\\tmp\\t.txt");
    assert_eq!(entries[0].link_type, LinkType::Symlink);
    assert!(matches!(entries[0].status, LinkStatus::Valid));
}

#[test]
fn broken_symlink_still_scans_as_symlink() {
    let probes = vec![
        dir_probe("C:\\tmp"),
        link_probe("C:\\tmp\\l.txt", "C:\\tmp\\t.txt", Some(IO_REPARSE_TAG_SYMLINK), false),
    ];
    let entries = scan_path_with_walkdir_for_tests(probes);
    assert_eq!(entries.len(), 1);
    assert_eq!(entries[0].link_type, LinkType::Symlink);
}

#[test]
fn junction_keeps_kind_when_target_is_gone() {
    let with_target = vec![
        dir_probe("C:\\tmp"),
        dir_probe("C:\\tmp\\d"),
        link_probe("C:\\tmp\\j", "C:\\tmp\\d", Some(IO_REPARSE_TAG_MOUNT_POINT), false),
    ];
    let entries = scan_path_with_walkdir_for_tests(with_target);
    assert_eq!(entries.len(), 1);
    assert_eq!(entries[0].link_type, LinkType::Junction);

    // the target directory is gone; the reparse tag is decisive
    let without_target = vec![
        dir_probe("C:\\tmp"),
        link_probe("C:\\tmp\\j", "C:\\tmp\\d", Some(IO_REPARSE_TAG_MOUNT_POINT), false),
    ];
    let entries = scan_path_with_walkdir_for_tests(without_target);
    assert_eq!(entries.len(), 1);
    assert_eq!(entries[0].link_type, LinkType::Junction);
}

#[test]
fn hardlink_pair_yields_exactly_one_record() {
    let probes = vec![
        dir_probe("C:\\tmp"),
        file_probe("C:\\tmp\\a.txt", 2, 42),
        file_probe("C:\\tmp\\b.txt", 2, 42),
    ];
    let entries = scan_path_with_walkdir_for_tests(probes);
    let hard: Vec<_> = entries.iter().filter(|e| e.link_type == LinkType::Hardlink).collect();
    assert_eq!(hard.len(), 1);
    assert!(hard[0].path == "C:\\tmp\\a.txt" || hard[0].path == "C:\\tmp\\b.txt");
}

#[test]
fn hardlink_dedup_is_per_file_index() {
    let probes = vec![
        file_probe("C:\\x\\a", 2, 1),
        file_probe("C:\\x\\b", 2, 1),
        file_probe("C:\\x\\c", 3, 2),
        file_probe("C:\\x\\d", 3, 2),
        file_probe("C:\\x\\e", 1, 3),
    ];
    let entries = scan_path_with_walkdir_for_tests(probes);
    assert_eq!(entries.len(), 2);
    assert_eq!(entries[0].path, "C:\\x\\a");
    assert_eq!(entries[1].path, "C:\\x\\c");
}

#[test]
fn batches_concatenate_to_the_result() {
    let mut probes = Vec::new();
    for i in 0..600u32 {
        probes.push(link_probe(
            &format!("C:\\links\\l{i}"),
            "C:\\t",
            Some(IO_REPARSE_TAG_SYMLINK),
            false,
        ));
    }
    let excluded: Vec<String> = Vec::new();
    let out = collect_walkdir_entries(&probes, &excluded);
    assert_eq!(out.entries.len(), 600);
    assert_eq!(out.found, 600);
    assert_eq!(out.scanned, 600);
    assert_eq!(out.batches.len(), 3);
    assert_eq!(out.batches[0].entries.len(), SCAN_BATCH_SIZE);
    assert_eq!(out.batches[1].entries.len(), SCAN_BATCH_SIZE);
    assert_eq!(out.batches[2].entries.len(), 600 - 2 * SCAN_BATCH_SIZE);
    let flat: Vec<&str> = out
        .batches
        .iter()
        .flat_map(|b| b.entries.iter().map(|e| e.path.as_str()))
        .collect();
    let all: Vec<&str> = out.entries.iter().map(|e| e.path.as_str()).collect();
    assert_eq!(flat, all);
    // pairwise disjoint: no path occurs in two batches
    for (i, b1) in out.batches.iter().enumerate() {
        for b2 in out.batches.iter().skip(i + 1) {
            for e1 in &b1.entries {
                assert!(b2.entries.iter().all(|e2| e2.path != e1.path));
            }
        }
    }
}

#[test]
fn scan_honors_exclusions() {
    let probes = vec![
        link_probe("C:\\keep\\l", "C:\\t", Some(IO_REPARSE_TAG_SYMLINK), false),
        link_probe("C:\\skip\\l", "C:\\t", Some(IO_REPARSE_TAG_SYMLINK), false),
    ];
    let excluded = vec!["C:\\skip".to_string()];
    let out = collect_walkdir_entries(&probes, &excluded);
    assert_eq!(out.entries.len(), 1);
    assert_eq!(out.entries[0].path, "C:\\keep\\l");
    assert_eq!(out.scanned, 1);
}

#[test]
fn little_endian_readers_read_exact_values() {
    let bytes = [0x78u8, 0x56, 0x34, 0x12, 0xEF, 0xCD, 0xAB, 0x89];
    assert_eq!(read_le16(&bytes, 0), 0x5678);
    assert_eq!(read_le32(&bytes, 0), 0x12345678);
    assert_eq!(read_le64(&bytes, 0), 0x89ABCDEF12345678);
}

fn push_le16(v: &mut Vec<u8>, x: u16) {
    v.push((x & 0xFF) as u8);
    v.push((x >> 8) as u8);
}

fn push_le32(v: &mut Vec<u8>, x: u32) {
    push_le16(v, (x & 0xFFFF) as u16);
    push_le16(v, (x >> 16) as u16);
}

fn push_le64(v: &mut Vec<u8>, x: u64) {
    push_le32(v, (x & 0xFFFF_FFFF) as u32);
    push_le32(v, (x >> 32) as u32);
}

fn journal_record(frn: u64, parent: u64, attrs: u32, name: &str) -> Vec<u8> {
    let name_bytes: Vec<u8> = name.encode_utf16().flat_map(|u| u.to_le_bytes()).collect();
    let mut rec = Vec::new();
    push_le32(&mut rec, 64 + name_bytes.len() as u32); // record length
    push_le16(&mut rec, 2); // major version
    push_le16(&mut rec, 0); // minor version
    push_le64(&mut rec, frn);
    push_le64(&mut rec, parent);
    push_le64(&mut rec, 0); // usn
    push_le64(&mut rec, 0); // timestamp
    push_le32(&mut rec, 0); // reason
    push_le32(&mut rec, 0); // source info
    push_le32(&mut rec, 0); // security id
    push_le32(&mut rec, attrs);
    push_le16(&mut rec, name_bytes.len() as u16); // name length
    push_le16(&mut rec, 64); // name offset
    push_le32(&mut rec, 0); // header padding up to 64 bytes
    rec.extend_from_slice(&name_bytes);
    rec
}

#[test]
fn journal_page_parses_records_and_resolves_paths() {
    let mut page = Vec::new();
    push_le64(&mut page, 0); // next starting reference: none
    page.extend(journal_record(5, 0x0005_0000_0000_0005, 0x10, "tmp"));
    page.extend(journal_record(9, 5, 0x400, "link.txt"));

    let mut forest = FrnForest::new();
    let mut scanned = 0u64;
    let len = page.len();
    let next = forest.parse_page(&page, len, &mut scanned);
    assert_eq!(next, 0);
    assert_eq!(scanned, 2);
    assert_eq!(forest.len(), 2);

    let path = forest.resolve_path_from_frn(9, "c:").unwrap();
    assert_eq!(path, "C:\\tmp\\link.txt");
    let path = forest.resolve_path_from_frn(5, "c:").unwrap();
    assert_eq!(path, "C:\\tmp");
    // an unknown reference resolves to the bare drive
    let path = forest.resolve_path_from_frn(77, "c:").unwrap();
    assert_eq!(path, "C:\\");
    assert!(forest.resolve_path_from_frn(9, "not a drive").is_none());
}

#[test]
fn journal_page_rejects_malformed_records() {
    // a record that declares a length past the page end is ignored
    let mut page = Vec::new();
    push_le64(&mut page, 3);
    let mut rec = journal_record(5, 0, 0, "x");
    rec[0] = 0xFF; // record length low byte: overruns the page
    rec[1] = 0x00;
    page.extend(rec);
    let mut forest = FrnForest::new();
    let mut scanned = 0u64;
    let len = page.len();
    let next = forest.parse_page(&page, len, &mut scanned);
    assert_eq!(next, 3);
    assert_eq!(forest.len(), 0);
    assert_eq!(scanned, 0);

    // a short page yields nothing and a zero next reference
    let short = vec![1u8, 2, 3];
    let next = forest.parse_page(&short, 3, &mut scanned);
    assert_eq!(next, 0);
    assert_eq!(forest.len(), 0);
}

#[test]
fn journal_candidates_resolve_every_node() {
    let mut page = Vec::new();
    push_le64(&mut page, 0);
    page.extend(journal_record(5, 0, 0x10, "dir"));
    page.extend(journal_record(6, 5, 0x400, "j"));
    let mut forest = FrnForest::new();
    let mut scanned = 0u64;
    let len = page.len();
    forest.parse_page(&page, len, &mut scanned);
    let cands = forest.candidates("C:");
    assert_eq!(cands.len(), 2);
    assert_eq!(cands[0].path, "C:\\dir");
    assert_eq!(cands[0].file_attributes, 0x10);
    assert_eq!(cands[1].path, "C:\\dir\\j");
    let probe = journal_probe(
        cands[1].path.clone(),
        cands[1].file_attributes,
        None,
        String::new(),
        None,
        String::new(),
    );
    assert!(probe.is_symlink);
    assert_eq!(probe.reparse_tag, Some(0));
}
