//! The mutation engine, stated and verified over an explicit model of the
//! link-relevant filesystem state: a finite map from absolute paths to
//! objects. Creation, deletion and retargeting follow the kind-specific
//! rules of the engine; the driver that mirrors each verified transition
//! onto the operating system lives outside the library.

use vstd::prelude::*;
use vstd::string::StringExecFns;
use crate::paths;
use crate::strutil;
use crate::types::LinkType;

verus! {

/// One filesystem object the engine cares about. Hard links are modeled
/// as several paths holding `FileObj` values with one file identity.
#[derive(Clone, Debug)]
pub enum FsObject {
    FileObj { id: u64 },
    DirObj,
    SymlinkObj { target: String, dir_form: bool },
    JunctionObj { target: String },
}

/// The mathematical form of a filesystem object.
pub ghost enum FsObjectV {
    FileObj { id: u64 },
    DirObj,
    SymlinkObj { target: Seq<char>, dir_form: bool },
    JunctionObj { target: Seq<char> },
}

impl View for FsObject {
    type V = FsObjectV;

    open spec fn view(&self) -> FsObjectV {
        match self {
            FsObject::FileObj { id } => FsObjectV::FileObj { id: *id },
            FsObject::DirObj => FsObjectV::DirObj,
            FsObject::SymlinkObj { target, dir_form } => FsObjectV::SymlinkObj {
                target: target@,
                dir_form: *dir_form,
            },
            FsObject::JunctionObj { target } => FsObjectV::JunctionObj { target: target@ },
        }
    }
}

/// The map a list of path/object pairs denotes; later pairs override.
pub open spec fn pairs_map(s: Seq<(String, FsObject)>) -> Map<Seq<char>, FsObjectV>
    decreases s.len(),
{
    if s.len() == 0 {
        Map::empty()
    } else {
        pairs_map(s.drop_last()).insert(s.last().0@, s.last().1@)
    }
}

/// Pairwise distinct paths.
pub open spec fn pairs_wf(s: Seq<(String, FsObject)>) -> bool {
    forall|i: int, j: int| 0 <= i < j < s.len() ==> (#[trigger] s[i]).0@ != (#[trigger] s[j]).0@
}

proof fn lemma_pairs_map_index(s: Seq<(String, FsObject)>, i: int)
    requires
        pairs_wf(s),
        0 <= i < s.len(),
    ensures
        pairs_map(s).contains_key(s[i].0@),
        pairs_map(s)[s[i].0@] == s[i].1@,
    decreases s.len(),
{
    if i < s.len() - 1 {
        assert(pairs_wf(s.drop_last()));
        assert(s.drop_last()[i] == s[i]);
        lemma_pairs_map_index(s.drop_last(), i);
        assert(s[i].0@ != s.last().0@);
    }
}

proof fn lemma_pairs_map_domain(s: Seq<(String, FsObject)>, k: Seq<char>)
    requires
        forall|i: int| 0 <= i < s.len() ==> (#[trigger] s[i]).0@ != k,
    ensures
        !pairs_map(s).contains_key(k),
    decreases s.len(),
{
    if s.len() > 0 {
        lemma_pairs_map_domain(s.drop_last(), k);
    }
}

proof fn lemma_pairs_map_remove(s: Seq<(String, FsObject)>, i: int)
    requires
        pairs_wf(s),
        0 <= i < s.len(),
    ensures
        pairs_map(s.remove(i)) =~= pairs_map(s).remove(s[i].0@),
        pairs_wf(s.remove(i)),
    decreases s.len(),
{
    let k = s[i].0@;
    assert forall|a: int, b: int|
        0 <= a < b < s.remove(i).len() implies (#[trigger] s.remove(i)[a]).0@ != (
    #[trigger] s.remove(i)[b]).0@ by {
        let a2 = if a < i {
            a
        } else {
            a + 1
        };
        let b2 = if b < i {
            b
        } else {
            b + 1
        };
        assert(s.remove(i)[a] == s[a2] && s.remove(i)[b] == s[b2]);
    }
    if i == s.len() - 1 {
        assert(s.remove(i) =~= s.drop_last());
        assert forall|j: int| 0 <= j < s.drop_last().len() implies (
        #[trigger] s.drop_last()[j]).0@ != k by {
            assert(s.drop_last()[j] == s[j]);
        }
        lemma_pairs_map_domain(s.drop_last(), k);
        assert(pairs_map(s.drop_last()) =~= pairs_map(s.drop_last()).insert(k, s[i].1@).remove(
            k,
        ));
    } else {
        assert(s.remove(i).drop_last() =~= s.drop_last().remove(i));
        assert(s.remove(i).last() == s.last());
        assert(pairs_wf(s.drop_last()));
        lemma_pairs_map_remove(s.drop_last(), i);
        assert(s.drop_last()[i] == s[i]);
        assert(s.last().0@ != k);
        assert(pairs_map(s.remove(i)) == pairs_map(s.drop_last().remove(i)).insert(
            s.last().0@,
            s.last().1@,
        ));
        assert(pairs_map(s.drop_last()).remove(k).insert(s.last().0@, s.last().1@)
            =~= pairs_map(s.drop_last()).insert(s.last().0@, s.last().1@).remove(k));
    }
}

proof fn lemma_pairs_map_witness(s: Seq<(String, FsObject)>, k: Seq<char>)
    requires
        pairs_map(s).contains_key(k),
    ensures
        exists|i: int|
            0 <= i < s.len() && (#[trigger] s[i]).0@ == k && s[i].1@ == pairs_map(s)[k],
    decreases s.len(),
{
    if s.len() > 0 {
        if s.last().0@ == k {
            assert(s[s.len() - 1].0@ == k);
        } else {
            lemma_pairs_map_witness(s.drop_last(), k);
            let i = choose|i: int|
                0 <= i < s.drop_last().len() && (#[trigger] s.drop_last()[i]).0@ == k
                    && s.drop_last()[i].1@ == pairs_map(s.drop_last())[k];
            assert(s[i].0@ == k);
        }
    }
}

/// How many link-target steps resolution follows before giving up.
pub const RESOLVE_FUEL: usize = 32;

/// Whether `path` resolves to a directory: a directory itself, or a link
/// whose target, resolved against the link's location, does within the
/// remaining fuel.
pub open spec fn is_dir_spec(m: Map<Seq<char>, FsObjectV>, path: Seq<char>, fuel: nat) -> bool
    decreases fuel,
{
    if !m.contains_key(path) {
        false
    } else {
        match m[path] {
            FsObjectV::DirObj => true,
            FsObjectV::FileObj { .. } => false,
            FsObjectV::SymlinkObj { target, .. } => fuel > 0 && is_dir_spec(
                m,
                paths::resolve_target_spec(path, target),
                (fuel - 1) as nat,
            ),
            FsObjectV::JunctionObj { target } => fuel > 0 && is_dir_spec(
                m,
                paths::resolve_target_spec(path, target),
                (fuel - 1) as nat,
            ),
        }
    }
}

/// The file identity `path` resolves to, if it resolves to a file.
pub open spec fn file_id_spec(m: Map<Seq<char>, FsObjectV>, path: Seq<char>, fuel: nat) -> Option<
    u64,
>
    decreases fuel,
{
    if !m.contains_key(path) {
        None
    } else {
        match m[path] {
            FsObjectV::DirObj => None,
            FsObjectV::FileObj { id } => Some(id),
            FsObjectV::SymlinkObj { target, .. } => if fuel > 0 {
                file_id_spec(m, paths::resolve_target_spec(path, target), (fuel - 1) as nat)
            } else {
                None
            },
            FsObjectV::JunctionObj { target } => if fuel > 0 {
                file_id_spec(m, paths::resolve_target_spec(path, target), (fuel - 1) as nat)
            } else {
                None
            },
        }
    }
}

/// Whether the file with identity `id` has a directory entry besides
/// `path`: the mark of a hard-linked file.
pub open spec fn other_name_spec(m: Map<Seq<char>, FsObjectV>, path: Seq<char>, id: u64) -> bool {
    exists|q: Seq<char>| q != path && m.contains_key(q) && m[q] == (FsObjectV::FileObj { id })
}

proof fn lemma_parent_shorter(s: Seq<char>)
    ensures
        s.len() > 0 ==> paths::parent_dir_spec(s).len() < s.len(),
    decreases s.len(),
{
    if s.len() > 0 && !paths::is_sep(s.last()) {
        lemma_parent_shorter(s.drop_last());
        if s.drop_last().len() == 0 {
            assert(paths::parent_dir_spec(s.drop_last()).len() == 0);
        }
    }
}

/// The map after creating every missing ancestor directory of `p`.
pub open spec fn ensure_dirs_spec(m: Map<Seq<char>, FsObjectV>, p: Seq<char>) -> Map<
    Seq<char>,
    FsObjectV,
>
    decreases p.len(),
    via ensure_dirs_spec_decreases
{
    if p.len() == 0 || m.contains_key(p) {
        m
    } else {
        ensure_dirs_spec(m, paths::parent_dir_spec(p)).insert(p, FsObjectV::DirObj)
    }
}

#[via_fn]
proof fn ensure_dirs_spec_decreases(m: Map<Seq<char>, FsObjectV>, p: Seq<char>) {
    lemma_parent_shorter(p);
}

/// The first two characters of a path, its volume prefix.
pub open spec fn vol_prefix(s: Seq<char>) -> Seq<char> {
    if s.len() < 2 {
        s
    } else {
        s.take(2)
    }
}

/// Same-volume test for hard links: the lower-cased volume prefixes of
/// the two paths agree.
pub open spec fn same_volume(a: Seq<char>, b: Seq<char>) -> bool {
    strutil::lower_of(vol_prefix(a)) == strutil::lower_of(vol_prefix(b))
}

/// What one mutation did: the state it left behind, and its error text
/// if it failed.
pub ghost struct MutOutcome {
    pub fs: Map<Seq<char>, FsObjectV>,
    pub err: Option<Seq<char>>,
}

/// The creation rule of the engine. An existing link path is rejected;
/// missing parent directories are created; then each kind applies its
/// own checks: a symlink takes the directory variant iff the hint says
/// so or the target resolves to a directory; a junction demands an
/// absolute target; a hard link demands a file target on the same
/// volume. Creation toward a failing target reports the environment's
/// refusal.
pub open spec fn create_spec(
    m: Map<Seq<char>, FsObjectV>,
    failing: Seq<Seq<char>>,
    link: Seq<char>,
    target: Seq<char>,
    kind: LinkType,
    hint: bool,
) -> MutOutcome {
    if m.contains_key(link) {
        MutOutcome { fs: m, err: Some("Link path already exists"@) }
    } else if paths::parent_dir_spec(link).len() == 0 {
        MutOutcome { fs: m, err: Some("Link path has no parent directory"@) }
    } else {
        let m2 = ensure_dirs_spec(m, paths::parent_dir_spec(link));
        match kind {
            LinkType::Symlink => {
                if failing.contains(target) {
                    MutOutcome { fs: m2, err: Some("target cannot be reached"@) }
                } else {
                    let dir_form = is_dir_spec(m2, target, RESOLVE_FUEL as nat) || hint;
                    MutOutcome {
                        fs: m2.insert(link, FsObjectV::SymlinkObj { target, dir_form }),
                        err: None,
                    }
                }
            }
            LinkType::Junction => {
                if !paths::win_absolute(target) {
                    MutOutcome { fs: m2, err: Some("Junction target must be an absolute path"@) }
                } else if failing.contains(target) {
                    MutOutcome { fs: m2, err: Some("target cannot be reached"@) }
                } else {
                    MutOutcome { fs: m2.insert(link, FsObjectV::JunctionObj { target }), err: None }
                }
            }
            LinkType::Hardlink => {
                match file_id_spec(m2, target, RESOLVE_FUEL as nat) {
                    None => MutOutcome { fs: m2, err: Some("Hardlink target must be a file"@) },
                    Some(id) => {
                        if !same_volume(link, target) {
                            MutOutcome {
                                fs: m2,
                                err: Some(
                                    "Hardlink requires source and target to be on the same volume"@,
                                ),
                            }
                        } else if failing.contains(target) {
                            MutOutcome { fs: m2, err: Some("target cannot be reached"@) }
                        } else {
                            MutOutcome {
                                fs: m2.insert(link, FsObjectV::FileObj { id }),
                                err: None,
                            }
                        }
                    }
                }
            }
        }
    }
}

/// Whether some object lies strictly below `p`.
pub open spec fn has_child(m: Map<Seq<char>, FsObjectV>, p: Seq<char>) -> bool {
    exists|q: Seq<char>|
        #[trigger] m.contains_key(q) && q.len() > p.len() && q.take(p.len() as int) == p && q[
            p.len() as int
        ] == '\\'
}

/// The deletion rule of the engine: links and files are removed; a plain
/// directory is removed only when nothing lies below it; a missing path
/// is an error.
pub open spec fn delete_spec(m: Map<Seq<char>, FsObjectV>, p: Seq<char>) -> MutOutcome {
    if !m.contains_key(p) {
        MutOutcome { fs: m, err: Some("path not found"@) }
    } else {
        match m[p] {
            FsObjectV::DirObj => {
                if has_child(m, p) {
                    MutOutcome { fs: m, err: Some("directory is not empty"@) }
                } else {
                    MutOutcome { fs: m.remove(p), err: None }
                }
            }
            _ => MutOutcome { fs: m.remove(p), err: None },
        }
    }
}

/// The kind the engine detects for an existing path: a reparse point is
/// a junction when it resolves to a directory and a symlink otherwise; a
/// file with a second name is a hard link; everything else is
/// unrecognized.
pub open spec fn detect_spec_model(m: Map<Seq<char>, FsObjectV>, p: Seq<char>) -> Option<
    LinkType,
> {
    if !m.contains_key(p) {
        None
    } else {
        match m[p] {
            FsObjectV::SymlinkObj { .. } => Some(
                if is_dir_spec(m, p, RESOLVE_FUEL as nat) {
                    LinkType::Junction
                } else {
                    LinkType::Symlink
                },
            ),
            FsObjectV::JunctionObj { .. } => Some(
                if is_dir_spec(m, p, RESOLVE_FUEL as nat) {
                    LinkType::Junction
                } else {
                    LinkType::Symlink
                },
            ),
            FsObjectV::FileObj { id } => if other_name_spec(m, p, id) {
                Some(LinkType::Hardlink)
            } else {
                None
            },
            FsObjectV::DirObj => None,
        }
    }
}

/// The stored target the engine reads back: a link's target text, or the
/// path itself for anything that stores none.
pub open spec fn read_target_spec(m: Map<Seq<char>, FsObjectV>, p: Seq<char>) -> Seq<char> {
    if m.contains_key(p) {
        match m[p] {
            FsObjectV::SymlinkObj { target, .. } => target,
            FsObjectV::JunctionObj { target } => target,
            _ => p,
        }
    } else {
        p
    }
}

/// The retargeting rule: detect the kind and the stored target, delete
/// the link, create it anew toward the new target; if that creation
/// fails, re-create toward the previous target and surface the creation
/// error — or both failures when the rollback fails too.
pub open spec fn retarget_spec(
    m: Map<Seq<char>, FsObjectV>,
    failing: Seq<Seq<char>>,
    p: Seq<char>,
    new_target: Seq<char>,
) -> MutOutcome {
    match detect_spec_model(m, p) {
        None => MutOutcome { fs: m, err: Some(detect_err_text(m, p)) },
        Some(kind) => {
            let old_target = read_target_spec(m, p);
            let del = delete_spec(m, p);
            if del.err is Some {
                MutOutcome { fs: del.fs, err: del.err }
            } else {
                let c1 = create_spec(del.fs, failing, p, new_target, kind, false);
                if c1.err is None {
                    c1
                } else {
                    let c2 = create_spec(c1.fs, failing, p, old_target, kind, false);
                    MutOutcome {
                        fs: c2.fs,
                        err: if c2.err is None {
                            c1.err
                        } else {
                            Some(c1.err->0 + "; rollback failed: "@ + c2.err->0)
                        },
                    }
                }
            }
        }
    }
}

/// The error text detection reports for an unrecognized path.
pub open spec fn detect_err_text(m: Map<Seq<char>, FsObjectV>, p: Seq<char>) -> Seq<char> {
    if !m.contains_key(p) {
        "path not found"@
    } else {
        "Path is not a recognized link type"@
    }
}

/// The link-relevant filesystem state: a finite map from absolute paths
/// to objects, plus the set of targets toward which link creation fails,
/// standing in for the environment's refusals (unreachable volumes,
/// missing privileges).
pub struct FsModel {
    objects: Vec<(String, FsObject)>,
    failing_targets: Vec<String>,
}

impl FsModel {
    /// The path-to-object map this model denotes.
    pub closed spec fn fs(self) -> Map<Seq<char>, FsObjectV> {
        pairs_map(self.objects@)
    }

    /// The targets toward which creation fails.
    pub closed spec fn failing(self) -> Seq<Seq<char>> {
        self.failing_targets@.map_values(|s: String| s@)
    }

    /// Each path appears once.
    pub closed spec fn wf(self) -> bool {
        pairs_wf(self.objects@)
    }

    /// An empty filesystem.
    pub fn new() -> (r: FsModel)
        ensures
            r.wf(),
            r.fs() == Map::<Seq<char>, FsObjectV>::empty(),
            r.failing() == Seq::<Seq<char>>::empty(),
    {
        let r = FsModel { objects: Vec::new(), failing_targets: Vec::new() };
        proof {
            assert(r.fs() =~= Map::<Seq<char>, FsObjectV>::empty());
            assert(r.failing() =~= Seq::<Seq<char>>::empty());
        }
        r
    }

    /// Marks a target as one toward which link creation fails.
    pub fn deny_target(&mut self, target: String)
        requires
            old(self).wf(),
        ensures
            final(self).wf(),
            final(self).fs() == old(self).fs(),
            final(self).failing() == old(self).failing().push(target@),
    {
        self.failing_targets.push(target);
        proof {
            assert(final(self).failing() =~= old(self).failing().push(
                final(self).failing_targets@.last()@,
            ));
        }
    }

    fn find_index(&self, path: &str) -> (r: Option<usize>)
        requires
            self.wf(),
        ensures
            match r {
                Some(i) => i < self.objects@.len() && self.objects@[i as int].0@ == path@
                    && self.fs().contains_key(path@) && self.fs()[path@]
                    == self.objects@[i as int].1@,
                None => !self.fs().contains_key(path@),
            },
    {
        let mut i: usize = 0;
        while i < self.objects.len()
            invariant
                self.wf(),
                i <= self.objects@.len(),
                forall|j: int| 0 <= j < i ==> (#[trigger] self.objects@[j]).0@ != path@,
            decreases self.objects@.len() - i,
        {
            if strutil::str_eq(self.objects[i].0.as_str(), path) {
                proof {
                    lemma_pairs_map_index(self.objects@, i as int);
                }
                return Some(i);
            }
            i = i + 1;
        }
        proof {
            lemma_pairs_map_domain(self.objects@, path@);
        }
        None
    }

    /// The object stored at `path`, if any; does not follow links.
    pub fn lookup(&self, path: &str) -> (r: Option<&FsObject>)
        requires
            self.wf(),
        ensures
            match r {
                Some(o) => self.fs().contains_key(path@) && o@ == self.fs()[path@],
                None => !self.fs().contains_key(path@),
            },
    {
        match self.find_index(path) {
            Some(i) => Some(&self.objects[i].1),
            None => None,
        }
    }

    /// Whether any object is stored at `path`.
    pub fn path_exists(&self, path: &str) -> (r: bool)
        requires
            self.wf(),
        ensures
            r == self.fs().contains_key(path@),
    {
        match self.find_index(path) {
            Some(_) => true,
            None => false,
        }
    }

    /// Whether `path` resolves to a directory, following link targets a
    /// bounded number of steps.
    pub fn is_dir_resolved(&self, path: &str) -> (r: bool)
        requires
            self.wf(),
        ensures
            r == is_dir_spec(self.fs(), path@, RESOLVE_FUEL as nat),
    {
        self.is_dir_fuel(path, RESOLVE_FUEL)
    }

    fn is_dir_fuel(&self, path: &str, fuel: usize) -> (r: bool)
        requires
            self.wf(),
        ensures
            r == is_dir_spec(self.fs(), path@, fuel as nat),
        decreases fuel,
    {
        let target: String = match self.lookup(path) {
            None => {
                return false;
            }
            Some(obj) => match obj {
                FsObject::DirObj => {
                    return true;
                }
                FsObject::FileObj { .. } => {
                    return false;
                }
                FsObject::SymlinkObj { target, .. } => target.clone(),
                FsObject::JunctionObj { target } => target.clone(),
            },
        };
        if fuel == 0 {
            return false;
        }
        let resolved = paths::resolve_target(path, target.as_str());
        self.is_dir_fuel(resolved.as_str(), fuel - 1)
    }

    fn file_id_fuel(&self, path: &str, fuel: usize) -> (r: Option<u64>)
        requires
            self.wf(),
        ensures
            r == file_id_spec(self.fs(), path@, fuel as nat),
        decreases fuel,
    {
        let target: String = match self.lookup(path) {
            None => {
                return None;
            }
            Some(obj) => match obj {
                FsObject::DirObj => {
                    return None;
                }
                FsObject::FileObj { id } => {
                    return Some(*id);
                }
                FsObject::SymlinkObj { target, .. } => target.clone(),
                FsObject::JunctionObj { target } => target.clone(),
            },
        };
        if fuel == 0 {
            return None;
        }
        let resolved = paths::resolve_target(path, target.as_str());
        self.file_id_fuel(resolved.as_str(), fuel - 1)
    }

    fn has_other_name(&self, path: &str, id: u64) -> (r: bool)
        requires
            self.wf(),
        ensures
            r == other_name_spec(self.fs(), path@, id),
    {
        let mut i: usize = 0;
        while i < self.objects.len()
            invariant
                self.wf(),
                i <= self.objects@.len(),
                forall|j: int|
                    0 <= j < i ==> {
                        let pr = #[trigger] self.objects@[j];
                        pr.0@ == path@ || pr.1@ != (FsObjectV::FileObj { id })
                    },
            decreases self.objects@.len() - i,
        {
            let pr = &self.objects[i];
            let matches_id = match &pr.1 {
                FsObject::FileObj { id: fid } => *fid == id,
                _ => false,
            };
            if matches_id && !strutil::str_eq(pr.0.as_str(), path) {
                proof {
                    lemma_pairs_map_index(self.objects@, i as int);
                }
                return true;
            }
            i = i + 1;
        }
        proof {
            if other_name_spec(self.fs(), path@, id) {
                let q = choose|q: Seq<char>|
                    q != path@ && self.fs().contains_key(q) && self.fs()[q] == (FsObjectV::FileObj {
                        id,
                    });
                lemma_pairs_map_witness(self.objects@, q);
                assert(false);
            }
        }
        false
    }

    fn insert_new(&mut self, path: String, obj: FsObject)
        requires
            old(self).wf(),
            !old(self).fs().contains_key(path@),
        ensures
            final(self).wf(),
            final(self).fs() == old(self).fs().insert(path@, obj@),
            final(self).failing() == old(self).failing(),
    {
        proof {
            if exists|i: int|
                0 <= i < self.objects@.len() && (#[trigger] self.objects@[i]).0@ == path@ {
                let i = choose|i: int|
                    0 <= i < self.objects@.len() && (#[trigger] self.objects@[i]).0@ == path@;
                lemma_pairs_map_index(self.objects@, i);
                assert(false);
            }
        }
        let ghost os = self.objects@;
        self.objects.push((path, obj));
        proof {
            assert(self.objects@.drop_last() =~= os);
            assert forall|a: int, b: int|
                0 <= a < b < self.objects@.len() implies (#[trigger] self.objects@[a]).0@ != (
            #[trigger] self.objects@[b]).0@ by {
                if b == self.objects@.len() - 1 {
                    assert(self.objects@[a] == os[a]);
                }
            }
        }
    }

    fn remove_at(&mut self, path: &str)
        requires
            old(self).wf(),
        ensures
            final(self).wf(),
            final(self).fs() == old(self).fs().remove(path@),
            final(self).failing() == old(self).failing(),
    {
        match self.find_index(path) {
            Some(i) => {
                let ghost os = self.objects@;
                proof {
                    lemma_pairs_map_remove(os, i as int);
                }
                self.objects.remove(i);
                proof {
                    assert(self.objects@ =~= os.remove(i as int));
                }
            }
            None => {
                proof {
                    assert(final(self).fs() =~= old(self).fs().remove(path@));
                }
            }
        }
    }

    /// Places a plain file with identity `id` at `path`.
    pub fn add_file(&mut self, path: String, id: u64)
        requires
            old(self).wf(),
            !old(self).fs().contains_key(path@),
        ensures
            final(self).wf(),
            final(self).fs() == old(self).fs().insert(path@, FsObjectV::FileObj { id }),
            final(self).failing() == old(self).failing(),
    {
        self.insert_new(path, FsObject::FileObj { id });
    }

    /// Places a plain directory at `path`.
    pub fn add_dir(&mut self, path: String)
        requires
            old(self).wf(),
            !old(self).fs().contains_key(path@),
        ensures
            final(self).wf(),
            final(self).fs() == old(self).fs().insert(path@, FsObjectV::DirObj),
            final(self).failing() == old(self).failing(),
    {
        self.insert_new(path, FsObject::DirObj);
    }

    fn ensure_dirs(&mut self, p: &str)
        requires
            old(self).wf(),
        ensures
            final(self).wf(),
            final(self).fs() == ensure_dirs_spec(old(self).fs(), p@),
            final(self).failing() == old(self).failing(),
        decreases p@.len(),
    {
        let pv = strutil::chars_vec(p);
        if pv.len() == 0 {
            return;
        }
        if self.path_exists(p) {
            return;
        }
        let parent = paths::parent_dir(p);
        proof {
            lemma_parent_shorter(p@);
        }
        self.ensure_dirs(parent.as_str());
        proof {
            if ensure_dirs_spec(old(self).fs(), paths::parent_dir_spec(p@)).contains_key(p@) {
                lemma_ensure_dirs_monotone(old(self).fs(), paths::parent_dir_spec(p@), p@);
                assert(false);
            }
        }
        let mut owned = String::new();
        owned.append(p);
        self.insert_new(owned, FsObject::DirObj);
    }

    fn same_volume_exec(&self, a: &str, b: &str) -> (r: bool)
        ensures
            r == same_volume(a@, b@),
    {
        let av = strutil::chars_vec(a);
        let bv = strutil::chars_vec(b);
        let mut ap = String::new();
        let mut bp = String::new();
        let an = if av.len() < 2 {
            av.len()
        } else {
            2
        };
        let bn = if bv.len() < 2 {
            bv.len()
        } else {
            2
        };
        let mut i: usize = 0;
        while i < an
            invariant
                an <= av@.len(),
                i <= an,
                ap@ == av@.take(an as int).take(i as int),
            decreases an - i,
        {
            strutil::push_char(&mut ap, av[i]);
            i = i + 1;
            proof {
                assert(av@.take(an as int).take(i as int) =~= av@.take(an as int).take(
                    i as int - 1,
                ).push(av@[i as int - 1]));
            }
        }
        let mut j: usize = 0;
        while j < bn
            invariant
                bn <= bv@.len(),
                j <= bn,
                bp@ == bv@.take(bn as int).take(j as int),
            decreases bn - j,
        {
            strutil::push_char(&mut bp, bv[j]);
            j = j + 1;
            proof {
                assert(bv@.take(bn as int).take(j as int) =~= bv@.take(bn as int).take(
                    j as int - 1,
                ).push(bv@[j as int - 1]));
            }
        }
        proof {
            assert(ap@ =~= vol_prefix(a@));
            assert(bp@ =~= vol_prefix(b@));
        }
        let al = strutil::lowercase(ap.as_str());
        let bl = strutil::lowercase(bp.as_str());
        strutil::str_eq(al.as_str(), bl.as_str())
    }

    /// Creates a link of the given kind at `link_path` toward
    /// `target_path`, after the engine's preflight checks; missing parent
    /// directories are created first. Exactly `create_spec` happens.
    pub fn create_link_internal(
        &mut self,
        link_path: &str,
        target_path: &str,
        link_type: &LinkType,
        target_is_dir: bool,
    ) -> (r: Result<(), String>)
        requires
            old(self).wf(),
        ensures
            final(self).wf(),
            final(self).failing() == old(self).failing(),
            ({
                let outcome = create_spec(
                    old(self).fs(),
                    old(self).failing(),
                    link_path@,
                    target_path@,
                    *link_type,
                    target_is_dir,
                );
                &&& final(self).fs() == outcome.fs
                &&& match r {
                    Ok(()) => outcome.err is None,
                    Err(e) => outcome.err == Some(e@),
                }
            }),
    {
        if self.path_exists(link_path) {
            return Err(String::from_str("Link path already exists"));
        }
        let parent = paths::parent_dir(link_path);
        let parent_chars = strutil::chars_vec(parent.as_str());
        if parent_chars.len() == 0 {
            return Err(String::from_str("Link path has no parent directory"));
        }
        self.ensure_dirs(parent.as_str());
        let failing_hit = self.target_fails(target_path);
        match link_type {
            LinkType::Symlink => {
                if failing_hit {
                    return Err(String::from_str("target cannot be reached"));
                }
                let dir_form = self.is_dir_resolved(target_path) || target_is_dir;
                let mut target_owned = String::new();
                target_owned.append(target_path);
                let mut link_owned = String::new();
                link_owned.append(link_path);
                proof {
                    lemma_ensure_dirs_no_new_link(old(self).fs(), parent@, link_path@);
                }
                self.insert_new(link_owned, FsObject::SymlinkObj { target: target_owned, dir_form });
                Ok(())
            }
            LinkType::Junction => {
                if !paths::is_win_absolute(target_path) {
                    return Err(String::from_str("Junction target must be an absolute path"));
                }
                if failing_hit {
                    return Err(String::from_str("target cannot be reached"));
                }
                let mut target_owned = String::new();
                target_owned.append(target_path);
                let mut link_owned = String::new();
                link_owned.append(link_path);
                proof {
                    lemma_ensure_dirs_no_new_link(old(self).fs(), parent@, link_path@);
                }
                self.insert_new(link_owned, FsObject::JunctionObj { target: target_owned });
                Ok(())
            }
            LinkType::Hardlink => {
                let id = match self.file_id_fuel(target_path, RESOLVE_FUEL) {
                    Some(id) => id,
                    None => {
                        return Err(String::from_str("Hardlink target must be a file"));
                    }
                };
                if !self.same_volume_exec(link_path, target_path) {
                    return Err(
                        String::from_str(
                            "Hardlink requires source and target to be on the same volume",
                        ),
                    );
                }
                if failing_hit {
                    return Err(String::from_str("target cannot be reached"));
                }
                let mut link_owned = String::new();
                link_owned.append(link_path);
                proof {
                    lemma_ensure_dirs_no_new_link(old(self).fs(), parent@, link_path@);
                }
                self.insert_new(link_owned, FsObject::FileObj { id });
                Ok(())
            }
        }
    }

    fn target_fails(&self, target: &str) -> (r: bool)
        ensures
            r == self.failing().contains(target@),
    {
        let mut i: usize = 0;
        while i < self.failing_targets.len()
            invariant
                i <= self.failing_targets@.len(),
                forall|j: int| 0 <= j < i ==> (#[trigger] self.failing_targets@[j])@ != target@,
            decreases self.failing_targets@.len() - i,
        {
            if strutil::str_eq(self.failing_targets[i].as_str(), target) {
                assert(self.failing()[i as int] == target@);
                return true;
            }
            i = i + 1;
        }
        proof {
            if self.failing().contains(target@) {
                let j = choose|j: int|
                    0 <= j < self.failing().len() && self.failing()[j] == target@;
                assert((self.failing_targets@[j])@ == target@);
            }
        }
        false
    }

    fn child_below(&self, p: &str) -> (r: bool)
        requires
            self.wf(),
        ensures
            r == has_child(self.fs(), p@),
    {
        let mut i: usize = 0;
        while i < self.objects.len()
            invariant
                self.wf(),
                i <= self.objects@.len(),
                forall|j: int|
                    0 <= j < i ==> !child_path(((#[trigger] self.objects@[j]).0)@, p@),
            decreases self.objects@.len() - i,
        {
            let q = &self.objects[i].0;
            if is_child_path(q.as_str(), p) {
                proof {
                    lemma_pairs_map_index(self.objects@, i as int);
                }
                return true;
            }
            i = i + 1;
        }
        proof {
            if has_child(self.fs(), p@) {
                let q = choose|q: Seq<char>|
                    #[trigger] self.fs().contains_key(q) && q.len() > p@.len() && q.take(
                        p@.len() as int,
                    ) == p@ && q[p@.len() as int] == '\\';
                lemma_pairs_map_witness(self.objects@, q);
                assert(false);
            }
        }
        false
    }

    /// Deletes the object at `path` under the engine's deletion rule.
    /// Exactly `delete_spec` happens.
    pub fn delete_link_internal(&mut self, path: &str) -> (r: Result<(), String>)
        requires
            old(self).wf(),
        ensures
            final(self).wf(),
            final(self).failing() == old(self).failing(),
            ({
                let outcome = delete_spec(old(self).fs(), path@);
                &&& final(self).fs() == outcome.fs
                &&& match r {
                    Ok(()) => outcome.err is None,
                    Err(e) => outcome.err == Some(e@),
                }
            }),
    {
        let is_plain_dir = match self.lookup(path) {
            None => {
                return Err(String::from_str("path not found"));
            }
            Some(FsObject::DirObj) => true,
            Some(_) => false,
        };
        if is_plain_dir {
            if self.child_below(path) {
                return Err(String::from_str("directory is not empty"));
            }
        }
        self.remove_at(path);
        Ok(())
    }

    /// Detects the kind of the link at `path`, as the engine does before
    /// a deletion or a retarget.
    pub fn detect_link_type(&self, path: &str) -> (r: Result<LinkType, String>)
        requires
            self.wf(),
        ensures
            match r {
                Ok(k) => detect_spec_model(self.fs(), path@) == Some(k),
                Err(e) => detect_spec_model(self.fs(), path@) is None && e@ == detect_err_text(
                    self.fs(),
                    path@,
                ),
            },
    {
        let id = match self.lookup(path) {
            None => {
                return Err(String::from_str("path not found"));
            }
            Some(FsObject::SymlinkObj { .. }) | Some(FsObject::JunctionObj { .. }) => {
                if self.is_dir_resolved(path) {
                    return Ok(LinkType::Junction);
                } else {
                    return Ok(LinkType::Symlink);
                }
            }
            Some(FsObject::DirObj) => {
                return Err(String::from_str("Path is not a recognized link type"));
            }
            Some(FsObject::FileObj { id }) => *id,
        };
        if self.has_other_name(path, id) {
            Ok(LinkType::Hardlink)
        } else {
            Err(String::from_str("Path is not a recognized link type"))
        }
    }

    /// Reads the stored target of the link at `path`; paths that store no
    /// target read back as themselves.
    pub fn read_target(&self, path: &str) -> (r: String)
        requires
            self.wf(),
        ensures
            r@ == read_target_spec(self.fs(), path@),
    {
        match self.lookup(path) {
            Some(FsObject::SymlinkObj { target, .. }) => target.clone(),
            Some(FsObject::JunctionObj { target }) => target.clone(),
            _ => {
                let mut s = String::new();
                s.append(path);
                s
            }
        }
    }

    /// Retargets the link at `path` toward `new_target`: the link is
    /// deleted and re-created with its detected kind; if the re-creation
    /// fails, the previous target is restored and the creation error is
    /// surfaced, joined with the rollback's own error when that fails
    /// too. Exactly `retarget_spec` happens.
    pub fn retarget_link_internal(&mut self, path: &str, new_target: &str) -> (r: Result<
        (),
        String,
    >)
        requires
            old(self).wf(),
        ensures
            final(self).wf(),
            final(self).failing() == old(self).failing(),
            ({
                let outcome = retarget_spec(old(self).fs(), old(self).failing(), path@, new_target@);
                &&& final(self).fs() == outcome.fs
                &&& match r {
                    Ok(()) => outcome.err is None,
                    Err(e) => outcome.err == Some(e@),
                }
            }),
    {
        let link_type = match self.detect_link_type(path) {
            Ok(k) => k,
            Err(e) => {
                return Err(e);
            }
        };
        let old_target = self.read_target(path);
        if let Err(e) = self.delete_link_internal(path) {
            return Err(e);
        }
        if let Err(error) = self.create_link_internal(path, new_target, &link_type, false) {
            return match self.create_link_internal(path, old_target.as_str(), &link_type, false) {
                Ok(()) => Err(error),
                Err(rollback_error) => {
                    let mut both = error;
                    both.append("; rollback failed: ");
                    both.append(rollback_error.as_str());
                    Err(both)
                }
            };
        }
        Ok(())
    }
}

/// Whether `q` lies strictly below `p`.
pub open spec fn child_path(q: Seq<char>, p: Seq<char>) -> bool {
    q.len() > p.len() && q.take(p.len() as int) == p && q[p.len() as int] == '\\'
}

fn is_child_path(q: &str, p: &str) -> (r: bool)
    ensures
        r == child_path(q@, p@),
{
    let qv = strutil::chars_vec(q);
    let pv = strutil::chars_vec(p);
    if qv.len() <= pv.len() {
        return false;
    }
    let mut i: usize = 0;
    while i < pv.len()
        invariant
            qv@ == q@,
            pv@ == p@,
            pv@.len() < qv@.len(),
            i <= pv@.len(),
            forall|j: int| 0 <= j < i ==> qv@[j] == pv@[j],
        decreases pv@.len() - i,
    {
        if qv[i] != pv[i] {
            proof {
                assert(q@.take(p@.len() as int)[i as int] != p@[i as int]);
            }
            return false;
        }
        i = i + 1;
    }
    proof {
        assert(q@.take(p@.len() as int) =~= p@);
    }
    let r = qv[pv.len()] == '\\';
    r
}

proof fn lemma_ensure_dirs_monotone(m: Map<Seq<char>, FsObjectV>, p: Seq<char>, k: Seq<char>)
    requires
        !m.contains_key(k),
        ensure_dirs_spec(m, p).contains_key(k),
    ensures
        k.len() <= p.len(),
    decreases p.len(),
{
    if !(p.len() == 0 || m.contains_key(p)) {
        if k != p {
            lemma_parent_shorter(p);
            lemma_ensure_dirs_monotone(m, paths::parent_dir_spec(p), k);
        }
    }
}

/// Round trip: a successful Create followed by Delete of the same link
/// restores the filesystem to the pre-state, provided the link's parent
/// directory already existed (otherwise the directories made on the way
/// remain, as they do on disk).
pub proof fn lemma_create_delete_round_trip(
    m: Map<Seq<char>, FsObjectV>,
    failing: Seq<Seq<char>>,
    link: Seq<char>,
    target: Seq<char>,
    kind: LinkType,
    hint: bool,
)
    requires
        ensure_dirs_spec(m, paths::parent_dir_spec(link)) == m,
        create_spec(m, failing, link, target, kind, hint).err is None,
    ensures
        delete_spec(create_spec(m, failing, link, target, kind, hint).fs, link).err is None,
        delete_spec(create_spec(m, failing, link, target, kind, hint).fs, link).fs == m,
{
    let c = create_spec(m, failing, link, target, kind, hint);
    assert(!m.contains_key(link));
    assert(c.fs.contains_key(link));
    assert(!(c.fs[link] is DirObj));
    assert(c.fs.remove(link) =~= m);
}

/// Round trip: retargeting a link to a new target and then back to its
/// previously stored target restores the stored target exactly.
pub proof fn lemma_retarget_round_trip(
    m: Map<Seq<char>, FsObjectV>,
    failing: Seq<Seq<char>>,
    p: Seq<char>,
    t2: Seq<char>,
)
    requires
        retarget_spec(m, failing, p, t2).err is None,
        retarget_spec(
            retarget_spec(m, failing, p, t2).fs,
            failing,
            p,
            read_target_spec(m, p),
        ).err is None,
    ensures
        read_target_spec(
            retarget_spec(
                retarget_spec(m, failing, p, t2).fs,
                failing,
                p,
                read_target_spec(m, p),
            ).fs,
            p,
        ) == read_target_spec(m, p),
{
    let t1 = read_target_spec(m, p);
    let r1 = retarget_spec(m, failing, p, t2);
    let r2 = retarget_spec(r1.fs, failing, p, t1);
    let k1 = detect_spec_model(m, p)->0;
    let k2 = detect_spec_model(r1.fs, p)->0;
    let del2 = delete_spec(r1.fs, p);
    let c2 = create_spec(del2.fs, failing, p, t1, k2, false);
    assert(c2.err is None);
    assert(r2.fs == c2.fs);
    if k2 == LinkType::Hardlink {
        assert(r1.fs[p] is FileObj);
        assert(k1 == LinkType::Hardlink);
        assert(t1 == p);
        assert(!del2.fs.contains_key(p));
        assert(file_id_spec(del2.fs, p, RESOLVE_FUEL as nat) is None);
        assert(false);
    }
}

/// A junction creation with a relative target fails with exactly
/// "Junction target must be an absolute path": no junction appears at
/// the link path; only the link path's missing parent directories may
/// have been created first.
pub proof fn lemma_junction_relative_target_rejected(
    m: Map<Seq<char>, FsObjectV>,
    failing: Seq<Seq<char>>,
    link: Seq<char>,
    target: Seq<char>,
    hint: bool,
)
    requires
        !m.contains_key(link),
        paths::parent_dir_spec(link).len() > 0,
        !paths::win_absolute(target),
    ensures
        create_spec(m, failing, link, target, LinkType::Junction, hint).err == Some(
            "Junction target must be an absolute path"@,
        ),
        create_spec(m, failing, link, target, LinkType::Junction, hint).fs == ensure_dirs_spec(
            m,
            paths::parent_dir_spec(link),
        ),
        !create_spec(m, failing, link, target, LinkType::Junction, hint).fs.contains_key(link),
{
    lemma_ensure_dirs_no_new_link(m, paths::parent_dir_spec(link), link);
}

/// The hard-link creation checks, in order: a target that does not
/// resolve to a file is rejected; then a cross-volume pair is rejected
/// with the same-volume message; otherwise (and with the environment
/// willing) a second name of the target's file appears at the link path.
pub proof fn lemma_hardlink_creation_checks(
    m: Map<Seq<char>, FsObjectV>,
    failing: Seq<Seq<char>>,
    link: Seq<char>,
    target: Seq<char>,
    hint: bool,
)
    requires
        !m.contains_key(link),
        paths::parent_dir_spec(link).len() > 0,
    ensures
        ({
            let m2 = ensure_dirs_spec(m, paths::parent_dir_spec(link));
            let c = create_spec(m, failing, link, target, LinkType::Hardlink, hint);
            &&& file_id_spec(m2, target, RESOLVE_FUEL as nat) is None ==> c.err == Some(
                "Hardlink target must be a file"@,
            ) && c.fs == m2
            &&& (file_id_spec(m2, target, RESOLVE_FUEL as nat) is Some && !same_volume(
                link,
                target,
            )) ==> c.err == Some(
                "Hardlink requires source and target to be on the same volume"@,
            ) && c.fs == m2
            &&& (file_id_spec(m2, target, RESOLVE_FUEL as nat) is Some && same_volume(link, target)
                && !failing.contains(target)) ==> c.err is None && c.fs == m2.insert(
                link,
                FsObjectV::FileObj { id: file_id_spec(m2, target, RESOLVE_FUEL as nat)->0 },
            )
        }),
{
}

/// Retarget rollback: when the creation toward the new target fails but
/// the compensating re-create toward the previously stored target
/// succeeds, the operation surfaces exactly the creation error and the
/// link still stores its previous target.
pub proof fn lemma_retarget_rollback(
    m: Map<Seq<char>, FsObjectV>,
    failing: Seq<Seq<char>>,
    p: Seq<char>,
    new_target: Seq<char>,
)
    requires
        detect_spec_model(m, p) is Some,
        delete_spec(m, p).err is None,
        create_spec(
            delete_spec(m, p).fs,
            failing,
            p,
            new_target,
            detect_spec_model(m, p)->0,
            false,
        ).err is Some,
        create_spec(
            create_spec(
                delete_spec(m, p).fs,
                failing,
                p,
                new_target,
                detect_spec_model(m, p)->0,
                false,
            ).fs,
            failing,
            p,
            read_target_spec(m, p),
            detect_spec_model(m, p)->0,
            false,
        ).err is None,
    ensures
        retarget_spec(m, failing, p, new_target).err == create_spec(
            delete_spec(m, p).fs,
            failing,
            p,
            new_target,
            detect_spec_model(m, p)->0,
            false,
        ).err,
        retarget_spec(m, failing, p, new_target).fs.contains_key(p),
        read_target_spec(retarget_spec(m, failing, p, new_target).fs, p) == read_target_spec(
            m,
            p,
        ),
{
    let kind = detect_spec_model(m, p)->0;
    let t1 = read_target_spec(m, p);
    let del = delete_spec(m, p);
    let c1 = create_spec(del.fs, failing, p, new_target, kind, false);
    let c2 = create_spec(c1.fs, failing, p, t1, kind, false);
    if kind == LinkType::Hardlink {
        assert(m[p] is FileObj);
        assert(t1 == p);
        assert(!del.fs.contains_key(p));
        assert(!c1.fs.contains_key(p));
        assert(file_id_spec(c1.fs, p, RESOLVE_FUEL as nat) is None);
        assert(false);
    }
}

/// Round trip: deleting a junction and re-creating it toward its stored
/// target restores the filesystem exactly, provided the link's parent
/// directories stand on their own and the environment does not refuse
/// the target. This is the compensation the undo engine applies to a
/// logged junction deletion.
pub proof fn lemma_delete_create_round_trip_junction(
    m: Map<Seq<char>, FsObjectV>,
    failing: Seq<Seq<char>>,
    p: Seq<char>,
    t: Seq<char>,
)
    requires
        m.contains_key(p),
        m[p] == (FsObjectV::JunctionObj { target: t }),
        paths::win_absolute(t),
        !failing.contains(t),
        paths::parent_dir_spec(p).len() > 0,
        ensure_dirs_spec(m.remove(p), paths::parent_dir_spec(p)) == m.remove(p),
    ensures
        delete_spec(m, p).err is None,
        create_spec(delete_spec(m, p).fs, failing, p, t, LinkType::Junction, false).err is None,
        create_spec(delete_spec(m, p).fs, failing, p, t, LinkType::Junction, false).fs == m,
{
    let m2 = m.remove(p);
    let c = create_spec(m2, failing, p, t, LinkType::Junction, false);
    assert(c.fs == m2.insert(p, FsObjectV::JunctionObj { target: t }));
    assert(c.fs =~= m);
}

/// Round trip: deleting a file-form symlink and re-creating it toward
/// its stored target restores the filesystem exactly, provided the
/// target still does not resolve to a directory, the parents stand, and
/// the environment does not refuse the target.
pub proof fn lemma_delete_create_round_trip_symlink(
    m: Map<Seq<char>, FsObjectV>,
    failing: Seq<Seq<char>>,
    p: Seq<char>,
    t: Seq<char>,
)
    requires
        m.contains_key(p),
        m[p] == (FsObjectV::SymlinkObj { target: t, dir_form: false }),
        !is_dir_spec(m.remove(p), t, RESOLVE_FUEL as nat),
        !failing.contains(t),
        paths::parent_dir_spec(p).len() > 0,
        ensure_dirs_spec(m.remove(p), paths::parent_dir_spec(p)) == m.remove(p),
    ensures
        delete_spec(m, p).err is None,
        create_spec(delete_spec(m, p).fs, failing, p, t, LinkType::Symlink, false).err is None,
        create_spec(delete_spec(m, p).fs, failing, p, t, LinkType::Symlink, false).fs == m,
{
    let m2 = m.remove(p);
    let c = create_spec(m2, failing, p, t, LinkType::Symlink, false);
    assert(c.fs == m2.insert(p, FsObjectV::SymlinkObj { target: t, dir_form: false }));
    assert(c.fs =~= m);
}

proof fn lemma_ensure_dirs_no_new_link(m: Map<Seq<char>, FsObjectV>, parent: Seq<char>, link: Seq<char>)
    requires
        !m.contains_key(link),
        parent == paths::parent_dir_spec(link),
        parent.len() > 0,
    ensures
        !ensure_dirs_spec(m, parent).contains_key(link),
{
    lemma_parent_shorter(link);
    if ensure_dirs_spec(m, parent).contains_key(link) {
        lemma_ensure_dirs_monotone(m, parent, link);
    }
}

} // verus!
