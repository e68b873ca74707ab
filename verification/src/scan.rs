//! The scan core shared by both engines: exclusion filtering, per-entry
//! classification, per-file-index deduplication of hard links, and
//! fixed-size batch assembly. The engines differ only in their
//! enumeration source; both hand this module one probe per entry.

use vstd::prelude::*;
use vstd::hash_set::HashSetWithView;
use crate::classify;
use crate::strutil;
use crate::paths;
use crate::types::{LinkEntry, LinkEntryV, LinkStatus, LinkType, ScanBatch};

verus! {

/// The size at which a batch of link records is emitted.
pub const SCAN_BATCH_SIZE: usize = 256;

/// What a file-information query returned for a path.
#[derive(Clone, Copy, Debug)]
pub struct HardlinkInfo {
    pub volume_serial: u32,
    pub file_index: u64,
    pub links_count: u32,
}

/// The deduplication key of a hard-linked file: its volume serial and
/// 64-bit file index, packed.
pub open spec fn hl_key(h: HardlinkInfo) -> u128 {
    (h.volume_serial as u128 * 0x1_0000_0000_0000_0000 + h.file_index as u128) as u128
}

fn hl_key_exec(h: &HardlinkInfo) -> (k: u128)
    ensures
        k == hl_key(*h),
{
    h.volume_serial as u128 * 0x1_0000_0000_0000_0000 + h.file_index as u128
}

/// Everything the enumeration source observed of one entry, as plain
/// values: the walker or the journal phase probes each entry once and
/// hands the outcome here.
#[derive(Clone, Debug)]
pub struct WalkEntryProbe {
    /// The entry's absolute path.
    pub path: String,
    /// Whether the metadata probe succeeded at all.
    pub meta_ok: bool,
    /// Whether the entry is a reparse point.
    pub is_symlink: bool,
    /// Whether the entry is a directory.
    pub is_dir: bool,
    /// The stored link target; empty when it could not be read.
    pub stored_target: String,
    /// The reparse tag, when it could be read.
    pub reparse_tag: Option<u32>,
    /// Whether the resolved target is a directory (tag fallback).
    pub fallback_is_dir: bool,
    /// The file-information probe, for regular files.
    pub hardlink: Option<HardlinkInfo>,
    /// The sibling-name probe, used as a hard link's display target.
    pub sibling_target: String,
}

/// The mathematical form of a probe.
pub ghost struct WalkEntryProbeV {
    pub path: Seq<char>,
    pub meta_ok: bool,
    pub is_symlink: bool,
    pub is_dir: bool,
    pub stored_target: Seq<char>,
    pub reparse_tag: Option<u32>,
    pub fallback_is_dir: bool,
    pub hardlink: Option<HardlinkInfo>,
    pub sibling_target: Seq<char>,
}

impl View for WalkEntryProbe {
    type V = WalkEntryProbeV;

    open spec fn view(&self) -> WalkEntryProbeV {
        WalkEntryProbeV {
            path: self.path@,
            meta_ok: self.meta_ok,
            is_symlink: self.is_symlink,
            is_dir: self.is_dir,
            stored_target: self.stored_target@,
            reparse_tag: self.reparse_tag,
            fallback_is_dir: self.fallback_is_dir,
            hardlink: self.hardlink,
            sibling_target: self.sibling_target@,
        }
    }
}

/// The scan's running state: records produced so far, hard-link keys
/// already emitted, and the two progress counters.
pub ghost struct ScanState {
    pub out: Seq<LinkEntryV>,
    pub seen: Set<u128>,
    pub scanned: nat,
}

/// The empty scan state.
pub open spec fn scan_init() -> ScanState {
    ScanState { out: Seq::empty(), seen: Set::empty(), scanned: 0 }
}

/// A probe that yields a hard-link record once its key is new: a regular
/// file whose link count exceeds one.
pub open spec fn hl_eligible(p: WalkEntryProbeV) -> bool {
    &&& p.meta_ok
    &&& !p.is_symlink
    &&& !p.is_dir
    &&& p.hardlink is Some
    &&& p.hardlink->0.links_count > 1
}

/// One step of the scan: excluded paths are skipped before counting;
/// reparse points always yield a record of the classified kind; regular
/// files yield one hard-link record per (volume-serial, file-index) key.
pub open spec fn scan_step(st: ScanState, p: WalkEntryProbeV, excluded: Seq<String>) -> ScanState {
    if paths::path_excluded(p.path, excluded) {
        st
    } else if !p.meta_ok {
        ScanState { scanned: st.scanned + 1, ..st }
    } else if p.is_symlink {
        ScanState {
            out: st.out.push(
                LinkEntryV {
                    path: p.path,
                    target: p.stored_target,
                    link_type: classify::symlink_type_spec(p.reparse_tag, p.fallback_is_dir),
                    status: crate::types::LinkStatusV::Valid,
                },
            ),
            seen: st.seen,
            scanned: st.scanned + 1,
        }
    } else if !p.is_dir && hl_eligible(p) && !st.seen.contains(hl_key(p.hardlink->0)) {
        ScanState {
            out: st.out.push(
                LinkEntryV {
                    path: p.path,
                    target: p.sibling_target,
                    link_type: LinkType::Hardlink,
                    status: crate::types::LinkStatusV::Valid,
                },
            ),
            seen: st.seen.insert(hl_key(p.hardlink->0)),
            scanned: st.scanned + 1,
        }
    } else {
        ScanState { scanned: st.scanned + 1, ..st }
    }
}

/// The scan state after all probes, in order.
pub open spec fn scan_run(probes: Seq<WalkEntryProbeV>, excluded: Seq<String>) -> ScanState
    decreases probes.len(),
{
    if probes.len() == 0 {
        scan_init()
    } else {
        scan_step(scan_run(probes.drop_last(), excluded), probes.last(), excluded)
    }
}

/// The views of a list of probes.
pub open spec fn probe_views(probes: Seq<WalkEntryProbe>) -> Seq<WalkEntryProbeV> {
    probes.map_values(|p: WalkEntryProbe| p@)
}

/// The views of a list of records.
pub open spec fn entry_views(entries: Seq<LinkEntry>) -> Seq<LinkEntryV> {
    entries.map_values(|e: LinkEntry| e@)
}

/// The records of a list of batches, in emission order.
pub open spec fn concat_batches(bs: Seq<Seq<LinkEntryV>>) -> Seq<LinkEntryV>
    decreases bs.len(),
{
    if bs.len() == 0 {
        Seq::empty()
    } else {
        concat_batches(bs.drop_last()) + bs.last()
    }
}

/// The views of a list of batches.
pub open spec fn batch_views(bs: Seq<ScanBatch>) -> Seq<Seq<LinkEntryV>> {
    bs.map_values(|b: ScanBatch| b@)
}

/// Everything one scan pass produces: the full record list, the batches
/// whose concatenation is exactly that list, and the progress counters.
#[derive(Clone, Debug)]
pub struct ScanOutcome {
    pub entries: Vec<LinkEntry>,
    pub batches: Vec<ScanBatch>,
    pub scanned: u64,
    pub found: u64,
}

/// Runs the scan core over the probes of one enumeration pass.
///
/// The returned record list is exactly the fold of `scan_step` over the
/// probes; the batches concatenate, in order, to that same list; every
/// batch holds between one and `SCAN_BATCH_SIZE` records.
#[verifier::rlimit(60)]
pub fn collect_walkdir_entries(probes: &Vec<WalkEntryProbe>, excluded: &Vec<String>) -> (r:
    ScanOutcome)
    requires
        probes@.len() <= u64::MAX,
    ensures
        ({
            let st = scan_run(probe_views(probes@), excluded@);
            &&& entry_views(r.entries@) == st.out
            &&& concat_batches(batch_views(r.batches@)) == st.out
            &&& r.scanned == st.scanned
            &&& r.found == st.out.len()
            &&& forall|i: int|
                0 <= i < r.batches@.len() ==> 0 < (#[trigger] r.batches@[i])@.len()
                    <= SCAN_BATCH_SIZE
        }),
{
    let ghost all = probe_views(probes@);
    let mut entries: Vec<LinkEntry> = Vec::new();
    let mut batches: Vec<ScanBatch> = Vec::new();
    let mut batch: Vec<LinkEntry> = Vec::new();
    let mut seen: HashSetWithView<u128> = HashSetWithView::new();
    let mut scanned: u64 = 0;
    let mut found: u64 = 0;
    let mut i: usize = 0;
    proof {
        assert(all.take(0) =~= Seq::<WalkEntryProbeV>::empty());
    }
    while i < probes.len()
        invariant
            all == probe_views(probes@),
            probes@.len() <= u64::MAX,
            i <= probes@.len(),
            ({
                let st = scan_run(all.take(i as int), excluded@);
                &&& entry_views(entries@) == st.out
                &&& concat_batches(batch_views(batches@)) + entry_views(batch@) == st.out
                &&& seen@ == st.seen
                &&& scanned == st.scanned
                &&& found == st.out.len()
            }),
            scanned <= i,
            found <= i,
            batch@.len() < SCAN_BATCH_SIZE,
            forall|q: int|
                0 <= q < batches@.len() ==> 0 < (#[trigger] batches@[q])@.len()
                    <= SCAN_BATCH_SIZE,
        decreases probes@.len() - i,
    {
        let ghost st0 = scan_run(all.take(i as int), excluded@);
        proof {
            assert(all.take(i as int + 1).drop_last() =~= all.take(i as int));
            assert(all.take(i as int + 1).last() == all[i as int]);
            assert(all[i as int] == probes@[i as int]@);
        }
        let p = &probes[i];
        let excluded_here = paths::should_exclude(p.path.as_str(), excluded);
        if !excluded_here {
            scanned = scanned + 1;
            if p.meta_ok {
                if p.is_symlink {
                    let link_type = classify::map_symlink_type(p.reparse_tag, p.fallback_is_dir);
                    let entry = LinkEntry {
                        path: p.path.clone(),
                        target: p.stored_target.clone(),
                        link_type,
                        status: LinkStatus::Valid,
                    };
                    let batch_entry = LinkEntry {
                        path: p.path.clone(),
                        target: p.stored_target.clone(),
                        link_type,
                        status: LinkStatus::Valid,
                    };
                    let ghost ob = batch@;
                    let ghost oe = entries@;
                    batch.push(batch_entry);
                    entries.push(entry);
                    found = found + 1;
                    proof {
                        assert(entry_views(entries@) =~= entry_views(oe).push(entries@.last()@));
                        assert(entry_views(batch@) =~= entry_views(ob).push(batch@.last()@));
                        assert(concat_batches(batch_views(batches@)) + entry_views(batch@) =~= (
                        concat_batches(batch_views(batches@)) + entry_views(ob)).push(
                            batch@.last()@,
                        ));
                        assert(concat_batches(batch_views(batches@)) + entry_views(batch@)
                            == scan_step(st0, all[i as int], excluded@).out);
                    }
                } else if !p.is_dir {
                    let mut emitted = false;
                    if let Some(h) = &p.hardlink {
                        if h.links_count > 1 {
                            let key = hl_key_exec(h);
                            if !seen.contains(&key) {
                                seen.insert(key);
                                let entry = LinkEntry {
                                    path: p.path.clone(),
                                    target: p.sibling_target.clone(),
                                    link_type: LinkType::Hardlink,
                                    status: LinkStatus::Valid,
                                };
                                let batch_entry = LinkEntry {
                                    path: p.path.clone(),
                                    target: p.sibling_target.clone(),
                                    link_type: LinkType::Hardlink,
                                    status: LinkStatus::Valid,
                                };
                                let ghost ob = batch@;
                                let ghost oe = entries@;
                                batch.push(batch_entry);
                                entries.push(entry);
                                found = found + 1;
                                emitted = true;
                                proof {
                                    assert(entry_views(entries@) =~= entry_views(oe).push(
                                        entries@.last()@,
                                    ));
                                    assert(entry_views(batch@) =~= entry_views(ob).push(
                                        batch@.last()@,
                                    ));
                                    assert(concat_batches(batch_views(batches@)) + entry_views(
                                        batch@,
                                    ) =~= (concat_batches(batch_views(batches@)) + entry_views(
                                        ob,
                                    )).push(batch@.last()@));
                                }
                            }
                        }
                    }
                    proof {
                        if !emitted {
                            assert(scan_step(st0, all[i as int], excluded@).out == st0.out);
                        }
                    }
                }
            }
        }
        if batch.len() >= SCAN_BATCH_SIZE {
            let ghost bflat = entry_views(batch@);
            let full = ScanBatch { entries: batch };
            batch = Vec::new();
            let ghost obs = batches@;
            batches.push(full);
            proof {
                assert(batches@ == obs.push(full));
                assert(batch_views(batches@).drop_last() =~= batch_views(obs));
                assert(batch_views(batches@).last() == bflat);
                assert(entry_views(batch@) =~= Seq::<LinkEntryV>::empty());
                assert(concat_batches(batch_views(batches@)) == concat_batches(batch_views(obs))
                    + bflat);
                assert(concat_batches(batch_views(obs)) + bflat == scan_step(
                    st0,
                    all[i as int],
                    excluded@,
                ).out);
                assert(concat_batches(batch_views(batches@)) + entry_views(batch@)
                    =~= concat_batches(batch_views(obs)) + bflat);
            }
        }
        proof {
            let stn = scan_run(all.take(i as int + 1), excluded@);
            assert(stn == scan_step(st0, all[i as int], excluded@));
            assert(entry_views(entries@) =~= stn.out);
            assert(seen@ =~= stn.seen);
            assert(scanned == stn.scanned);
            assert(found == stn.out.len());
            assert(concat_batches(batch_views(batches@)) + entry_views(batch@) =~= stn.out);
        }
        i = i + 1;
    }
    proof {
        assert(all.take(probes@.len() as int) =~= all);
    }
    if batch.len() > 0 {
        let ghost bflat = entry_views(batch@);
        let last = ScanBatch { entries: batch };
        batch = Vec::new();
        let ghost obs = batches@;
        batches.push(last);
        proof {
            assert(batches@ == obs.push(last));
            assert(batch_views(batches@).drop_last() =~= batch_views(obs));
            assert(batch_views(batches@).last() == bflat);
            assert(concat_batches(batch_views(batches@)) =~= concat_batches(batch_views(obs))
                + bflat);
        }
    } else {
        proof {
            assert(concat_batches(batch_views(batches@)) + entry_views(batch@)
                =~= concat_batches(batch_views(batches@)));
        }
    }
    ScanOutcome { entries, batches, scanned, found }
}

/// Scans a list of probes with no exclusions, as the test entry point of
/// the fallback engine does.
pub fn scan_path_with_walkdir_for_tests(probes: Vec<WalkEntryProbe>) -> (r: Vec<LinkEntry>)
    requires
        probes@.len() <= u64::MAX,
    ensures
        entry_views(r@) == scan_run(probe_views(probes@), Seq::empty()).out,
{
    let excluded: Vec<String> = Vec::new();
    let out = collect_walkdir_entries(&probes, &excluded);
    proof {
        assert(excluded@ =~= Seq::<String>::empty());
    }
    out.entries
}

/// How many hard-link records a record list holds.
pub open spec fn hl_count(out: Seq<LinkEntryV>) -> nat
    decreases out.len(),
{
    if out.len() == 0 {
        0
    } else {
        hl_count(out.drop_last()) + (if out.last().link_type == LinkType::Hardlink {
            1nat
        } else {
            0nat
        })
    }
}

/// A probe that must yield a hard-link record when its key is new:
/// reachable (not excluded) and hard-link eligible.
pub open spec fn hl_probe_emits(p: WalkEntryProbeV, excluded: Seq<String>) -> bool {
    &&& !paths::path_excluded(p.path, excluded)
    &&& !p.is_symlink
    &&& !p.is_dir
    &&& hl_eligible(p)
}

/// Hard-link deduplication: a scan emits exactly one hard-link record per
/// (volume-serial, file-index) key, and the keys emitted are exactly the
/// keys of the reachable hard-linked files among the probes. In
/// particular, every hard-linked file reachable from the scan root yields
/// one record, never two.
pub proof fn lemma_hardlink_dedup(probes: Seq<WalkEntryProbeV>, excluded: Seq<String>)
    ensures
        scan_run(probes, excluded).seen.finite(),
        hl_count(scan_run(probes, excluded).out) == scan_run(probes, excluded).seen.len(),
        forall|k: u128|
            scan_run(probes, excluded).seen.contains(k) <==> exists|i: int|
                0 <= i < probes.len() && hl_probe_emits(#[trigger] probes[i], excluded)
                    && hl_key(probes[i].hardlink->0) == k,
    decreases probes.len(),
{
    if probes.len() == 0 {
        assert(scan_run(probes, excluded).seen =~= Set::<u128>::empty());
    } else {
        let prefix = probes.drop_last();
        let p = probes.last();
        lemma_hardlink_dedup(prefix, excluded);
        let st0 = scan_run(prefix, excluded);
        let stn = scan_run(probes, excluded);
        assert(stn == scan_step(st0, p, excluded));
        if !paths::path_excluded(p.path, excluded) && p.meta_ok && p.is_symlink {
            assert(stn.out.drop_last() =~= st0.out);
            assert(stn.out.last().link_type != LinkType::Hardlink);
        } else if hl_probe_emits(p, excluded) && !st0.seen.contains(hl_key(p.hardlink->0)) {
            assert(stn.out.drop_last() =~= st0.out);
            assert(stn.out.last().link_type == LinkType::Hardlink);
            assert(stn.seen.len() == st0.seen.len() + 1);
        } else {
            assert(stn.out == st0.out);
            assert(stn.seen == st0.seen);
        }
        assert forall|k: u128| stn.seen.contains(k) implies exists|i: int|
            0 <= i < probes.len() && hl_probe_emits(#[trigger] probes[i], excluded) && hl_key(
                probes[i].hardlink->0,
            ) == k by {
            if st0.seen.contains(k) {
                let i = choose|i: int|
                    0 <= i < prefix.len() && hl_probe_emits(#[trigger] prefix[i], excluded)
                        && hl_key(prefix[i].hardlink->0) == k;
                assert(probes[i] == prefix[i]);
            } else {
                assert(probes[probes.len() - 1] == p);
            }
        }
        assert forall|k: u128|
            (exists|i: int|
                0 <= i < probes.len() && hl_probe_emits(#[trigger] probes[i], excluded) && hl_key(
                    probes[i].hardlink->0,
                ) == k) implies stn.seen.contains(k) by {
            let i = choose|i: int|
                0 <= i < probes.len() && hl_probe_emits(#[trigger] probes[i], excluded) && hl_key(
                    probes[i].hardlink->0,
                ) == k;
            if i < probes.len() - 1 {
                assert(prefix[i] == probes[i]);
                assert(st0.seen.contains(k));
            }
        }
    }
}

/// The paths of a record list.
pub open spec fn paths_of(out: Seq<LinkEntryV>) -> Seq<Seq<char>> {
    out.map_values(|e: LinkEntryV| e.path)
}

/// The paths of a probe list.
pub open spec fn probe_paths(probes: Seq<WalkEntryProbeV>) -> Seq<Seq<char>> {
    probes.map_values(|p: WalkEntryProbeV| p.path)
}

/// On a quiescent tree the walker reports each path once; under that
/// assumption the scan's records carry pairwise distinct paths, each of
/// them a probed path.
pub proof fn lemma_out_paths_distinct(probes: Seq<WalkEntryProbeV>, excluded: Seq<String>)
    requires
        probe_paths(probes).no_duplicates(),
    ensures
        paths_of(scan_run(probes, excluded).out).no_duplicates(),
        forall|j: int|
            0 <= j < scan_run(probes, excluded).out.len() ==> probe_paths(probes).contains(
                #[trigger] scan_run(probes, excluded).out[j].path,
            ),
    decreases probes.len(),
{
    if probes.len() > 0 {
        let prefix = probes.drop_last();
        let p = probes.last();
        assert forall|a: int, b: int|
            0 <= a < prefix.len() && 0 <= b < prefix.len() && a != b implies probe_paths(
            prefix,
        )[a] != probe_paths(prefix)[b] by {
            assert(probe_paths(probes)[a] == probe_paths(prefix)[a]);
            assert(probe_paths(probes)[b] == probe_paths(prefix)[b]);
        }
        lemma_out_paths_distinct(prefix, excluded);
        let st0 = scan_run(prefix, excluded);
        let stn = scan_run(probes, excluded);
        if stn.out != st0.out {
            assert(stn.out == st0.out.push(stn.out.last()));
            assert(stn.out.last().path == p.path);
            assert(stn.out.drop_last() =~= st0.out);
            // the new path was never probed before, so it is not in the output yet
            assert forall|j: int| 0 <= j < st0.out.len() implies st0.out[j].path != p.path by {
                if st0.out[j].path == p.path {
                    let q = choose|q: int|
                        0 <= q < prefix.len() && probe_paths(prefix)[q] == st0.out[j].path;
                    assert(probe_paths(probes)[q] == p.path);
                    assert(probe_paths(probes)[probes.len() - 1] == p.path);
                }
            }
            assert forall|a: int, b: int|
                0 <= a < stn.out.len() && 0 <= b < stn.out.len() && a != b implies paths_of(
                stn.out,
            )[a] != paths_of(stn.out)[b] by {
                if a < stn.out.len() - 1 && b < stn.out.len() - 1 {
                    assert(paths_of(st0.out)[a] == paths_of(stn.out)[a]);
                    assert(paths_of(st0.out)[b] == paths_of(stn.out)[b]);
                }
            }
            assert forall|j: int| 0 <= j < stn.out.len() implies probe_paths(probes).contains(
                #[trigger] stn.out[j].path,
            ) by {
                if j < stn.out.len() - 1 {
                    let q = choose|q: int|
                        0 <= q < prefix.len() && probe_paths(prefix)[q] == st0.out[j].path;
                    assert(probe_paths(probes)[q] == stn.out[j].path);
                } else {
                    assert(probe_paths(probes)[probes.len() - 1] == stn.out[j].path);
                }
            }
        } else {
            assert forall|j: int| 0 <= j < stn.out.len() implies probe_paths(probes).contains(
                #[trigger] stn.out[j].path,
            ) by {
                let q = choose|q: int|
                    0 <= q < prefix.len() && probe_paths(prefix)[q] == st0.out[j].path;
                assert(probe_paths(probes)[q] == stn.out[j].path);
            }
            assert forall|a: int, b: int|
                0 <= a < stn.out.len() && 0 <= b < stn.out.len() && a != b implies paths_of(
                stn.out,
            )[a] != paths_of(stn.out)[b] by {
                assert(paths_of(st0.out)[a] == paths_of(stn.out)[a]);
                assert(paths_of(st0.out)[b] == paths_of(stn.out)[b]);
            }
        }
    }
}

/// Where batch `i` begins inside the concatenation.
pub open spec fn batches_offset(bs: Seq<Seq<LinkEntryV>>, i: int) -> int {
    concat_batches(bs.take(i)).len() as int
}

proof fn lemma_offset_step(bs: Seq<Seq<LinkEntryV>>, i: int)
    requires
        0 <= i < bs.len(),
    ensures
        batches_offset(bs, i + 1) == batches_offset(bs, i) + bs[i].len(),
{
    assert(bs.take(i + 1).drop_last() =~= bs.take(i));
    assert(bs.take(i + 1).last() == bs[i]);
    assert(concat_batches(bs.take(i + 1)) == concat_batches(bs.take(i)) + bs[i]);
}

proof fn lemma_offset_mono(bs: Seq<Seq<LinkEntryV>>, i: int, j: int)
    requires
        0 <= i <= j <= bs.len(),
    ensures
        batches_offset(bs, i) <= batches_offset(bs, j),
    decreases j - i,
{
    if i < j {
        lemma_offset_step(bs, i);
        lemma_offset_mono(bs, i + 1, j);
    }
}

proof fn lemma_concat_index(bs: Seq<Seq<LinkEntryV>>, i: int, a: int)
    requires
        0 <= i < bs.len(),
        0 <= a < bs[i].len(),
    ensures
        0 <= batches_offset(bs, i) + a < concat_batches(bs).len(),
        concat_batches(bs)[batches_offset(bs, i) + a] == bs[i][a],
    decreases bs.len(),
{
    if i == bs.len() - 1 {
        assert(bs.take(i) =~= bs.drop_last());
        assert(concat_batches(bs) == concat_batches(bs.drop_last()) + bs.last());
    } else {
        assert(bs.drop_last().take(i) =~= bs.take(i));
        assert(bs.drop_last()[i] == bs[i]);
        lemma_concat_index(bs.drop_last(), i, a);
        assert(concat_batches(bs) == concat_batches(bs.drop_last()) + bs.last());
    }
}

/// Batch disjointness: on a quiescent tree (each path probed once), the
/// batches of one scan are pairwise disjoint, and their concatenation is
/// the returned record list. No record appears in two batches.
pub proof fn lemma_batches_disjoint(
    probes: Seq<WalkEntryProbeV>,
    excluded: Seq<String>,
    bs: Seq<Seq<LinkEntryV>>,
)
    requires
        probe_paths(probes).no_duplicates(),
        concat_batches(bs) == scan_run(probes, excluded).out,
    ensures
        forall|i: int, j: int, a: int, b: int|
            0 <= i < j < bs.len() && 0 <= a < bs[i].len() && 0 <= b < bs[j].len()
                ==> (#[trigger] bs[i][a]).path != (#[trigger] bs[j][b]).path,
{
    lemma_out_paths_distinct(probes, excluded);
    let out = scan_run(probes, excluded).out;
    assert forall|i: int, j: int, a: int, b: int|
        0 <= i < j < bs.len() && 0 <= a < bs[i].len() && 0 <= b < bs[j].len() implies (
    #[trigger] bs[i][a]).path != (#[trigger] bs[j][b]).path by {
        lemma_concat_index(bs, i, a);
        lemma_concat_index(bs, j, b);
        lemma_offset_step(bs, i);
        lemma_offset_mono(bs, i + 1, j);
        let p1 = batches_offset(bs, i) + a;
        let p2 = batches_offset(bs, j) + b;
        assert(p1 < p2);
        assert(paths_of(out)[p1] == bs[i][a].path);
        assert(paths_of(out)[p2] == bs[j][b].path);
    }
}

/// The sibling chooser of the hard-link listing: the first line whose
/// lower-cased text differs from the queried path's, else the first line
/// when any exists, else the queried path itself. The listing's lines
/// arrive already trimmed and non-empty.
pub fn choose_sibling(lines: &Vec<String>, path: &str) -> (r: String)
    ensures
        lines@.len() == 0 ==> r@ == path@,
        (exists|i: int|
            0 <= i < lines@.len() && strutil::lower_of((#[trigger] lines@[i])@)
                != strutil::lower_of(path@)) ==> exists|i: int|
            {
                &&& 0 <= i < lines@.len()
                &&& r@ == (#[trigger] lines@[i])@
                &&& strutil::lower_of(lines@[i]@) != strutil::lower_of(path@)
                &&& forall|j: int|
                    0 <= j < i ==> strutil::lower_of((#[trigger] lines@[j])@)
                        == strutil::lower_of(path@)
            },
        (lines@.len() > 0 && forall|i: int|
            0 <= i < lines@.len() ==> strutil::lower_of((#[trigger] lines@[i])@)
                == strutil::lower_of(path@)) ==> r@ == lines@[0]@,
{
    let path_lower = strutil::lowercase(path);
    let mut i: usize = 0;
    while i < lines.len()
        invariant
            path_lower@ == strutil::lower_of(path@),
            i <= lines@.len(),
            forall|j: int|
                0 <= j < i ==> strutil::lower_of((#[trigger] lines@[j])@) == strutil::lower_of(
                    path@,
                ),
        decreases lines@.len() - i,
    {
        let line_lower = strutil::lowercase(lines[i].as_str());
        if !strutil::str_eq(line_lower.as_str(), path_lower.as_str()) {
            return lines[i].clone();
        }
        i = i + 1;
    }
    if lines.len() > 0 {
        lines[0].clone()
    } else {
        let mut s = String::new();
        s.append(path);
        s
    }
}

/// Builds the probe of one journal candidate: the reparse and directory
/// facts come from the node's attribute word, and a reparse tag that
/// could not be read defaults to zero, which classifies as Symlink.
pub fn journal_probe(
    path: String,
    file_attributes: u32,
    reparse_tag: Option<u32>,
    stored_target: String,
    hardlink: Option<HardlinkInfo>,
    sibling_target: String,
) -> (r: WalkEntryProbe)
    ensures
        r@ == (WalkEntryProbeV {
            path: path@,
            meta_ok: true,
            is_symlink: file_attributes & classify::FILE_ATTRIBUTE_REPARSE_POINT != 0,
            is_dir: file_attributes & classify::FILE_ATTRIBUTE_DIRECTORY != 0,
            stored_target: stored_target@,
            reparse_tag: Some(
                match reparse_tag {
                    Some(t) => t,
                    None => 0,
                },
            ),
            fallback_is_dir: false,
            hardlink,
            sibling_target: sibling_target@,
        }),
{
    let tag = match reparse_tag {
        Some(t) => t,
        None => 0,
    };
    WalkEntryProbe {
        path,
        meta_ok: true,
        is_symlink: file_attributes & classify::FILE_ATTRIBUTE_REPARSE_POINT != 0,
        is_dir: file_attributes & classify::FILE_ATTRIBUTE_DIRECTORY != 0,
        stored_target,
        reparse_tag: Some(tag),
        fallback_is_dir: false,
        hardlink,
        sibling_target,
    }
}

} // verus!
