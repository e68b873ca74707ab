//! The reparse classifier and the error mappings: reparse tags map to
//! link kinds, probe failures map to validation statuses, and the
//! privilege error code maps to its guidance message.

use vstd::prelude::*;
use vstd::string::StringExecFns;
use crate::types::{LinkStatus, LinkType};

verus! {

/// The reparse tag of a mount point (directory junction).
pub const IO_REPARSE_TAG_MOUNT_POINT: u32 = 0xA0000003;

/// The reparse tag of a symbolic link.
pub const IO_REPARSE_TAG_SYMLINK: u32 = 0xA000000C;

/// The directory bit of a file-attribute word.
pub const FILE_ATTRIBUTE_DIRECTORY: u32 = 0x10;

/// The reparse-point bit of a file-attribute word.
pub const FILE_ATTRIBUTE_REPARSE_POINT: u32 = 0x400;

/// The raw OS error raised when the symbolic-link privilege is missing.
pub const PRIVILEGE_ERROR_CODE: i32 = 1314;

/// Tag interpretation: the mount-point tag is a junction; the symlink
/// tag, and conservatively every unknown tag, is a symlink.
pub open spec fn classify_tag_spec(tag: u32) -> LinkType {
    if tag == IO_REPARSE_TAG_MOUNT_POINT {
        LinkType::Junction
    } else {
        LinkType::Symlink
    }
}

/// Maps a reparse tag to the link kind it denotes.
pub fn classify_reparse_tag(tag: u32) -> (r: LinkType)
    ensures
        r == classify_tag_spec(tag),
{
    if tag == IO_REPARSE_TAG_MOUNT_POINT {
        LinkType::Junction
    } else if tag == IO_REPARSE_TAG_SYMLINK {
        LinkType::Symlink
    } else {
        LinkType::Symlink
    }
}

/// The kind of a reparse point: by tag when the tag could be read, else
/// by the fallback question of whether the resolved target is a
/// directory.
pub open spec fn symlink_type_spec(tag: Option<u32>, fallback_is_dir: bool) -> LinkType {
    match tag {
        Some(t) => classify_tag_spec(t),
        None => if fallback_is_dir {
            LinkType::Junction
        } else {
            LinkType::Symlink
        },
    }
}

/// Classifies a reparse point found by the tree walker.
pub fn map_symlink_type(tag: Option<u32>, fallback_is_dir: bool) -> (r: LinkType)
    ensures
        r == symlink_type_spec(tag, fallback_is_dir),
{
    match tag {
        Some(t) => classify_reparse_tag(t),
        None => {
            if fallback_is_dir {
                LinkType::Junction
            } else {
                LinkType::Symlink
            }
        }
    }
}

/// The outcome of probing a path's metadata, as plain values.
#[derive(Clone, Debug)]
pub enum ProbeOutcome {
    Found,
    NotFound,
    PermissionDenied,
    Failed(String),
}

/// Classifies a target-probe outcome into a validation status: a missing
/// target is broken, a permission failure is access-denied, any other
/// failure is broken with its own words.
pub fn classify_status(probe: ProbeOutcome) -> (r: LinkStatus)
    ensures
        match probe {
            ProbeOutcome::Found => r is Valid,
            ProbeOutcome::NotFound => r matches LinkStatus::Broken(m) && m@
                == "target does not exist"@,
            ProbeOutcome::PermissionDenied => r is AccessDenied,
            ProbeOutcome::Failed(msg) => r matches LinkStatus::Broken(m) && m@ == msg@,
        },
{
    match probe {
        ProbeOutcome::Found => LinkStatus::Valid,
        ProbeOutcome::NotFound => LinkStatus::Broken(String::from_str("target does not exist")),
        ProbeOutcome::PermissionDenied => LinkStatus::AccessDenied,
        ProbeOutcome::Failed(msg) => LinkStatus::Broken(msg),
    }
}

/// A failed metadata probe, as plain values.
#[derive(Clone, Debug)]
pub enum ProbeError {
    NotFound,
    PermissionDenied,
    Other(String),
}

/// Classifies a probe failure during validation: a missing target is
/// broken, a permission failure is access-denied, anything else is
/// broken with its own words.
pub fn classify_error(error: ProbeError) -> (r: LinkStatus)
    ensures
        match error {
            ProbeError::NotFound => r matches LinkStatus::Broken(m) && m@
                == "target does not exist"@,
            ProbeError::PermissionDenied => r is AccessDenied,
            ProbeError::Other(msg) => r matches LinkStatus::Broken(m) && m@ == msg@,
        },
{
    match error {
        ProbeError::NotFound => LinkStatus::Broken(String::from_str("target does not exist")),
        ProbeError::PermissionDenied => LinkStatus::AccessDenied,
        ProbeError::Other(msg) => LinkStatus::Broken(msg),
    }
}

/// How many of the listing's lines hold anything besides whitespace.
pub open spec fn nonempty_line_count(ls: Seq<Seq<char>>) -> nat
    decreases ls.len(),
{
    if ls.len() == 0 {
        0
    } else {
        nonempty_line_count(ls.drop_last()) + (if crate::paths::trim_spec(ls.last()).len() > 0 {
            1nat
        } else {
            0nat
        })
    }
}

/// Tallies a hard-link listing's names: its lines that hold anything
/// besides whitespace, as the detector counts them.
pub fn hardlink_name_count(lines: &Vec<String>) -> (r: u32)
    requires
        lines@.len() <= u32::MAX,
    ensures
        r as nat == nonempty_line_count(lines@.map_values(|s: String| s@)),
{
    let ghost ls = lines@.map_values(|s: String| s@);
    let mut count: u32 = 0;
    let mut i: usize = 0;
    proof {
        assert(ls.take(0) =~= Seq::<Seq<char>>::empty());
    }
    while i < lines.len()
        invariant
            ls == lines@.map_values(|s: String| s@),
            lines@.len() <= u32::MAX,
            i <= lines@.len(),
            count <= i,
            count as nat == nonempty_line_count(ls.take(i as int)),
        decreases lines@.len() - i,
    {
        proof {
            assert(ls.take(i as int + 1).drop_last() =~= ls.take(i as int));
            assert(ls.take(i as int + 1).last() == ls[i as int]);
        }
        if !crate::paths::is_blank(lines[i].as_str()) {
            count = count + 1;
        }
        i = i + 1;
    }
    proof {
        assert(ls.take(ls.len() as int) =~= ls);
    }
    count
}

/// The guidance message for a missing symbolic-link privilege.
pub open spec fn privilege_message() -> Seq<char> {
    "SeCreateSymbolicLinkPrivilege is required. Enable Developer Mode in Windows Settings or run as Administrator."@
}

/// Maps an operation error to its user-visible text: the raw privilege
/// code becomes the guidance message, everything else keeps its words.
pub fn map_error(code: Option<i32>, text: &str) -> (r: String)
    ensures
        r@ == (if code == Some(PRIVILEGE_ERROR_CODE) {
            privilege_message()
        } else {
            text@
        }),
{
    match code {
        Some(c) if c == PRIVILEGE_ERROR_CODE => String::from_str(
            "SeCreateSymbolicLinkPrivilege is required. Enable Developer Mode in Windows Settings or run as Administrator.",
        ),
        _ => {
            let mut s = String::new();
            s.append(text);
            s
        }
    }
}

/// What a path must look like to be a recognized link: a reparse point is
/// a junction when it resolves to a directory and a symlink otherwise; a
/// plain file with more than one hard-link name is a hard link.
pub open spec fn detect_spec(is_reparse: bool, resolves_dir: bool, names: u32) -> Option<
    LinkType,
> {
    if is_reparse {
        if resolves_dir {
            Some(LinkType::Junction)
        } else {
            Some(LinkType::Symlink)
        }
    } else if names > 1 {
        Some(LinkType::Hardlink)
    } else {
        None
    }
}

/// Detects the kind of an existing link from its probed facts: whether
/// its metadata carries the reparse flag, whether the path resolves to a
/// directory, and how many hard-link names the file has (zero when the
/// listing failed). Unrecognized paths are rejected.
pub fn detect_link_type(is_reparse: bool, resolves_dir: bool, names: u32) -> (r: Result<
    LinkType,
    String,
>)
    ensures
        match detect_spec(is_reparse, resolves_dir, names) {
            Some(k) => r == Ok::<LinkType, String>(k),
            None => r matches Err(m) && m@ == "Path is not a recognized link type"@,
        },
{
    if is_reparse {
        if resolves_dir {
            Ok(LinkType::Junction)
        } else {
            Ok(LinkType::Symlink)
        }
    } else if names > 1 {
        Ok(LinkType::Hardlink)
    } else {
        Err(String::from_str("Path is not a recognized link type"))
    }
}

/// The attribute names of a metadata word, in reporting order; NORMAL
/// stands in when none apply.
pub open spec fn attr_names_spec(attrs: u32, readonly: bool) -> Seq<Seq<char>> {
    let base = (if readonly {
        seq!["READONLY"@]
    } else {
        Seq::empty()
    }) + (if attrs & 0x2 != 0 {
        seq!["HIDDEN"@]
    } else {
        Seq::empty()
    }) + (if attrs & 0x4 != 0 {
        seq!["SYSTEM"@]
    } else {
        Seq::empty()
    }) + (if attrs & 0x20 != 0 {
        seq!["ARCHIVE"@]
    } else {
        Seq::empty()
    }) + (if attrs & FILE_ATTRIBUTE_REPARSE_POINT != 0 {
        seq!["REPARSE_POINT"@]
    } else {
        Seq::empty()
    });
    if base.len() == 0 {
        seq!["NORMAL"@]
    } else {
        base
    }
}

/// Names the attributes of a metadata word: READONLY, HIDDEN, SYSTEM,
/// ARCHIVE and REPARSE_POINT as they apply, or NORMAL when none do.
pub fn map_attributes(attrs: u32, readonly: bool) -> (r: Vec<String>)
    ensures
        r@.map_values(|s: String| s@) == attr_names_spec(attrs, readonly),
{
    let mut result: Vec<String> = Vec::new();
    if readonly {
        result.push(String::from_str("READONLY"));
    }
    if attrs & 0x2 != 0 {
        result.push(String::from_str("HIDDEN"));
    }
    if attrs & 0x4 != 0 {
        result.push(String::from_str("SYSTEM"));
    }
    if attrs & 0x20 != 0 {
        result.push(String::from_str("ARCHIVE"));
    }
    if attrs & FILE_ATTRIBUTE_REPARSE_POINT != 0 {
        result.push(String::from_str("REPARSE_POINT"));
    }
    if result.len() == 0 {
        result.push(String::from_str("NORMAL"));
    }
    proof {
        assert(result@.map_values(|s: String| s@) =~= attr_names_spec(attrs, readonly));
    }
    result
}

} // verus!
