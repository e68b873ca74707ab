//! The data model: link records and kinds, scan events, volume summaries,
//! and the action-log record types, together with the fixed text encodings
//! that the log and the export writer use.

use vstd::prelude::*;
use vstd::string::StringExecFns;
use crate::strutil;

verus! {

/// One link found by the scanner: its absolute path, the target as stored
/// in the link (empty for hard links until resolved), its kind, and a
/// validation status.
#[derive(Clone, Debug)]
pub struct LinkEntry {
    pub path: String,
    pub target: String,
    pub link_type: LinkType,
    pub status: LinkStatus,
}

/// The three link kinds of an NTFS volume.
#[derive(Clone, Copy, Debug, PartialEq, Eq, Structural)]
pub enum LinkType {
    Symlink,
    Junction,
    Hardlink,
}

/// Validation outcome for a link's target.
#[derive(Clone, Debug)]
pub enum LinkStatus {
    Valid,
    Broken(String),
    AccessDenied,
}

/// The mathematical form of a validation status.
pub ghost enum LinkStatusV {
    Valid,
    Broken(Seq<char>),
    AccessDenied,
}

impl View for LinkStatus {
    type V = LinkStatusV;

    open spec fn view(&self) -> LinkStatusV {
        match self {
            LinkStatus::Valid => LinkStatusV::Valid,
            LinkStatus::Broken(reason) => LinkStatusV::Broken(reason@),
            LinkStatus::AccessDenied => LinkStatusV::AccessDenied,
        }
    }
}

/// The mathematical form of a link record.
pub ghost struct LinkEntryV {
    pub path: Seq<char>,
    pub target: Seq<char>,
    pub link_type: LinkType,
    pub status: LinkStatusV,
}

impl View for LinkEntry {
    type V = LinkEntryV;

    open spec fn view(&self) -> LinkEntryV {
        LinkEntryV {
            path: self.path@,
            target: self.target@,
            link_type: self.link_type,
            status: self.status@,
        }
    }
}

/// Enrichment of a link record with resolved target, timestamps, owner,
/// attribute names and object kind.
#[derive(Clone, Debug)]
pub struct LinkDetails {
    pub path: String,
    pub target_real: String,
    pub target_stored: String,
    pub link_type: LinkType,
    pub object_type: ObjectType,
    pub created_at: String,
    pub modified_at: String,
    pub owner: String,
    pub attributes: Vec<String>,
    pub status: LinkStatus,
}

/// Whether a path names a file or a directory.
#[derive(Clone, Copy, Debug, PartialEq, Eq, Structural)]
pub enum ObjectType {
    File,
    Directory,
}

/// A progress snapshot emitted while a scan runs.
#[derive(Clone, Debug)]
pub struct ScanProgress {
    pub scanned: u64,
    pub found: u64,
    pub current_path: String,
}

/// A batch of link records emitted while a scan runs.
#[derive(Clone, Debug)]
pub struct ScanBatch {
    pub entries: Vec<LinkEntry>,
}

impl View for ScanBatch {
    type V = Seq<LinkEntryV>;

    open spec fn view(&self) -> Seq<LinkEntryV> {
        self.entries@.map_values(|e: LinkEntry| e@)
    }
}

/// Which engine produced a scan result.
#[derive(Clone, Copy, Debug, PartialEq, Eq, Structural)]
pub enum ScanMode {
    UsnJournal,
    WalkdirFallback,
}

/// The terminating result of a volume scan.
#[derive(Clone, Debug)]
pub struct ScanResult {
    pub entries: Vec<LinkEntry>,
    pub mode: ScanMode,
}

/// A mounted volume as reported by the volume lister.
#[derive(Clone, Debug)]
pub struct VolumeInfo {
    pub letter: String,
    pub label: String,
    pub fs: String,
    pub total_bytes: u64,
    pub free_bytes: u64,
}

/// The formats the export writer can produce.
#[derive(Clone, Copy, Debug, PartialEq, Eq, Structural)]
pub enum ExportFormat {
    Csv,
    Json,
}

/// A durable action-log row.
#[derive(Clone, Debug)]
pub struct ActionRecord {
    pub id: i64,
    pub action_type: String,
    pub link_path: String,
    pub link_type: LinkType,
    pub target_old: Option<String>,
    pub target_new: Option<String>,
    pub timestamp: String,
    pub success: bool,
    pub error_msg: Option<String>,
}

/// The view of an optional text field.
pub open spec fn opt_text(o: Option<String>) -> Option<Seq<char>> {
    match o {
        Some(s) => Some(s@),
        None => None,
    }
}

/// The mathematical form of an action-log row.
pub ghost struct ActionRecordV {
    pub id: i64,
    pub action_type: Seq<char>,
    pub link_path: Seq<char>,
    pub link_type: LinkType,
    pub target_old: Option<Seq<char>>,
    pub target_new: Option<Seq<char>>,
    pub timestamp: Seq<char>,
    pub success: bool,
    pub error_msg: Option<Seq<char>>,
}

impl View for ActionRecord {
    type V = ActionRecordV;

    open spec fn view(&self) -> ActionRecordV {
        ActionRecordV {
            id: self.id,
            action_type: self.action_type@,
            link_path: self.link_path@,
            link_type: self.link_type,
            target_old: opt_text(self.target_old),
            target_new: opt_text(self.target_new),
            timestamp: self.timestamp@,
            success: self.success,
            error_msg: opt_text(self.error_msg),
        }
    }
}

/// The caller-supplied part of an action-log row.
#[derive(Clone, Debug)]
pub struct ActionInput {
    pub action_type: String,
    pub link_path: String,
    pub link_type: LinkType,
    pub target_old: Option<String>,
    pub target_new: Option<String>,
    pub success: bool,
    pub error_msg: Option<String>,
}

/// The mathematical form of an action input.
pub ghost struct ActionInputV {
    pub action_type: Seq<char>,
    pub link_path: Seq<char>,
    pub link_type: LinkType,
    pub target_old: Option<Seq<char>>,
    pub target_new: Option<Seq<char>>,
    pub success: bool,
    pub error_msg: Option<Seq<char>>,
}

impl View for ActionInput {
    type V = ActionInputV;

    open spec fn view(&self) -> ActionInputV {
        ActionInputV {
            action_type: self.action_type@,
            link_path: self.link_path@,
            link_type: self.link_type,
            target_old: opt_text(self.target_old),
            target_new: opt_text(self.target_new),
            success: self.success,
            error_msg: opt_text(self.error_msg),
        }
    }
}

/// The fixed log label of each link kind.
pub open spec fn link_type_label(k: LinkType) -> Seq<char> {
    match k {
        LinkType::Symlink => "Symlink"@,
        LinkType::Junction => "Junction"@,
        LinkType::Hardlink => "Hardlink"@,
    }
}

/// The fixed text encoding of a link kind, used by the action log and the
/// export writer.
pub fn link_type_to_text(link_type: &LinkType) -> (r: &'static str)
    ensures
        r@ == link_type_label(*link_type),
{
    match link_type {
        LinkType::Symlink => "Symlink",
        LinkType::Junction => "Junction",
        LinkType::Hardlink => "Hardlink",
    }
}

/// Reads a link kind back from its log label; unknown labels read back as
/// Symlink.
pub fn link_type_from_text(value: &str) -> (r: LinkType)
    ensures
        r == (if value@ == link_type_label(LinkType::Junction) {
            LinkType::Junction
        } else if value@ == link_type_label(LinkType::Hardlink) {
            LinkType::Hardlink
        } else {
            LinkType::Symlink
        }),
{
    if strutil::str_eq(value, "Junction") {
        LinkType::Junction
    } else if strutil::str_eq(value, "Hardlink") {
        LinkType::Hardlink
    } else {
        LinkType::Symlink
    }
}

/// The text form of a validation status, as written by the export writer.
pub fn status_to_string(status: &LinkStatus) -> (r: String)
    ensures
        match status {
            LinkStatus::Valid => r@ == "Ok"@,
            LinkStatus::AccessDenied => r@ == "AccessDenied"@,
            LinkStatus::Broken(reason) => r@ == "Broken("@ + reason@ + ")"@,
        },
{
    match status {
        LinkStatus::Valid => String::from_str("Ok"),
        LinkStatus::AccessDenied => String::from_str("AccessDenied"),
        LinkStatus::Broken(reason) => {
            let mut s = String::from_str("Broken(");
            s.append(reason.as_str());
            s.append(")");
            s
        }
    }
}

} // verus!
