//! The change-journal reader: a bounds-checked parser for enumeration
//! pages of variable-length version-2 records, feeding a file-reference
//! forest, and the path reconstructor that materializes absolute paths
//! from file-reference numbers by walking parent references.

use vstd::prelude::*;
use vstd::hash_map::HashMapWithView;
use crate::strutil;
use crate::strutil::utf16_lossy_of;
use crate::paths;

verus! {

/// One node of the file-reference forest: the parent reference, the
/// decoded file name, and the file attributes.
#[derive(Clone, Debug)]
pub struct FrnNode {
    pub parent_frn: u64,
    pub name: String,
    pub file_attributes: u32,
}

/// The mathematical form of a forest node.
pub ghost struct FrnNodeV {
    pub parent_frn: u64,
    pub name: Seq<char>,
    pub file_attributes: u32,
}

impl View for FrnNode {
    type V = FrnNodeV;

    open spec fn view(&self) -> FrnNodeV {
        FrnNodeV { parent_frn: self.parent_frn, name: self.name@, file_attributes: self.file_attributes }
    }
}

/// A 16-bit little-endian read at `off`.
pub open spec fn le16(b: Seq<u8>, off: int) -> u16 {
    (b[off] + b[off + 1] * 0x100) as u16
}

/// A 32-bit little-endian read at `off`.
pub open spec fn le32(b: Seq<u8>, off: int) -> u32 {
    (b[off] + b[off + 1] * 0x100 + b[off + 2] * 0x1_0000 + b[off + 3] * 0x100_0000) as u32
}

/// A 64-bit little-endian read at `off`.
pub open spec fn le64(b: Seq<u8>, off: int) -> u64 {
    (b[off] + b[off + 1] * 0x100 + b[off + 2] * 0x1_0000 + b[off + 3] * 0x100_0000 + b[off + 4]
        * 0x1_0000_0000 + b[off + 5] * 0x100_0000_0000 + b[off + 6] * 0x1_0000_0000_0000 + b[off
        + 7] * 0x100_0000_0000_0000) as u64
}

/// Reads two bytes little-endian.
pub fn read_le16(b: &[u8], off: usize) -> (r: u16)
    requires
        off + 2 <= b@.len(),
    ensures
        r == le16(b@, off as int),
{
    let b0 = b[off] as u16;
    let b1 = b[off + 1] as u16;
    b0 + b1 * 0x100
}

/// Reads four bytes little-endian.
pub fn read_le32(b: &[u8], off: usize) -> (r: u32)
    requires
        off + 4 <= b@.len(),
    ensures
        r == le32(b@, off as int),
{
    let b0 = b[off] as u32;
    let b1 = b[off + 1] as u32;
    let b2 = b[off + 2] as u32;
    let b3 = b[off + 3] as u32;
    b0 + b1 * 0x100 + b2 * 0x1_0000 + b3 * 0x100_0000
}

/// Reads eight bytes little-endian.
pub fn read_le64(b: &[u8], off: usize) -> (r: u64)
    requires
        off + 8 <= b@.len(),
    ensures
        r == le64(b@, off as int),
{
    let b0 = b[off] as u64;
    let b1 = b[off + 1] as u64;
    let b2 = b[off + 2] as u64;
    let b3 = b[off + 3] as u64;
    let b4 = b[off + 4] as u64;
    let b5 = b[off + 5] as u64;
    let b6 = b[off + 6] as u64;
    let b7 = b[off + 7] as u64;
    b0 + b1 * 0x100 + b2 * 0x1_0000 + b3 * 0x100_0000 + b4 * 0x1_0000_0000 + b5 * 0x100_0000_0000
        + b6 * 0x1_0000_0000_0000 + b7 * 0x100_0000_0000_0000
}

/// The fixed size of a version-2 record header, file-name bytes excluded.
pub const USN_HEADER_SIZE: usize = 64;

/// The file-name code units of a record: `count` 16-bit units read
/// little-endian starting at `start`.
pub open spec fn name_units(b: Seq<u8>, start: int, count: int) -> Seq<u16> {
    Seq::new(count as nat, |i: int| le16(b, start + 2 * i))
}

/// One record as the parser hands it to the forest.
pub ghost struct JournalEntry {
    pub frn: u64,
    pub parent_frn: u64,
    pub name: Seq<char>,
    pub file_attributes: u32,
}

/// The entry encoded by the record at `off`, assuming its name field
/// passed the bounds checks.
pub open spec fn record_entry(b: Seq<u8>, off: int) -> JournalEntry {
    JournalEntry {
        frn: le64(b, off + 8),
        parent_frn: le64(b, off + 16),
        name: utf16_lossy_of(
            name_units(b, off + le16(b, off + 58) as int, le16(b, off + 56) as int / 2),
        ),
        file_attributes: le32(b, off + 52),
    }
}

/// Whether the record at `off` declares a well-placed name field: the
/// name must lie within the record and hold a whole number of code units.
pub open spec fn record_name_ok(b: Seq<u8>, off: int) -> bool {
    let rl = le32(b, off) as int;
    let name_off = le16(b, off + 58) as int;
    let name_len = le16(b, off + 56) as int;
    name_off + name_len <= rl && name_len % 2 == 0
}

/// The entries of the concatenated records between `off` and `end`,
/// in record order. Parsing honors each record's declared length, takes
/// only major version 2, and stops on a zero, undersized, or overrunning
/// length.
pub open spec fn parse_records(b: Seq<u8>, off: int, end: int) -> Seq<JournalEntry>
    decreases end - off,
{
    if off < 0 || end - off < USN_HEADER_SIZE {
        Seq::empty()
    } else {
        let rl = le32(b, off) as int;
        if rl < USN_HEADER_SIZE || off + rl > end {
            Seq::empty()
        } else {
            let rest = parse_records(b, off + rl, end);
            if le16(b, off + 4) == 2 && record_name_ok(b, off) {
                seq![record_entry(b, off)] + rest
            } else {
                rest
            }
        }
    }
}

/// The view of a forest map, node by node.
pub open spec fn nodes_view(m: Map<u64, FrnNode>) -> Map<u64, FrnNodeV> {
    m.map_values(|n: FrnNode| n@)
}

/// The forest map after inserting `entries` in order.
pub open spec fn insert_entries(m: Map<u64, FrnNodeV>, entries: Seq<JournalEntry>) -> Map<
    u64,
    FrnNodeV,
>
    decreases entries.len(),
{
    if entries.len() == 0 {
        m
    } else {
        let e = entries[0];
        insert_entries(
            m.insert(
                e.frn,
                FrnNodeV {
                    parent_frn: e.parent_frn,
                    name: e.name,
                    file_attributes: e.file_attributes,
                },
            ),
            entries.drop_first(),
        )
    }
}

/// The file-reference forest built from journal enumeration pages: a map
/// keyed by file-reference number, with the key set mirrored in insertion
/// order so the scanner can walk it.
pub struct FrnForest {
    nodes: HashMapWithView<u64, FrnNode>,
    order: Vec<u64>,
}

impl FrnForest {
    /// The node map.
    pub closed spec fn map_view(self) -> Map<u64, FrnNodeV> {
        nodes_view(self.nodes@)
    }

    /// The keys, in first-insertion order.
    pub closed spec fn keys_view(self) -> Seq<u64> {
        self.order@
    }

    /// Each key appears once, and the keys are exactly the map's domain.
    pub closed spec fn wf(self) -> bool {
        &&& self.order@.no_duplicates()
        &&& forall|k: u64| #[trigger] self.nodes@.contains_key(k) <==> self.order@.contains(k)
    }

    pub fn new() -> (r: FrnForest)
        ensures
            r.wf(),
            r.map_view() == Map::<u64, FrnNodeV>::empty(),
            r.keys_view() == Seq::<u64>::empty(),
    {
        let r = FrnForest { nodes: HashMapWithView::new(), order: Vec::new() };
        proof {
            assert(r.map_view() =~= Map::<u64, FrnNodeV>::empty());
        }
        r
    }

    /// How many distinct file references the forest holds.
    pub fn len(&self) -> (n: usize)
        requires
            self.wf(),
        ensures
            n == self.keys_view().len(),
    {
        self.order.len()
    }

    /// The key at position `i` of the insertion order.
    pub fn key_at(&self, i: usize) -> (k: u64)
        requires
            self.wf(),
            i < self.keys_view().len(),
        ensures
            k == self.keys_view()[i as int],
    {
        self.order[i]
    }

    /// The node stored under `k`.
    pub fn node_at(&self, k: u64) -> (r: Option<&FrnNode>)
        ensures
            match r {
                Some(n) => self.map_view().contains_key(k) && n@ == self.map_view()[k],
                None => !self.map_view().contains_key(k),
            },
    {
        let r = self.nodes.get(&k);
        proof {
            if self.nodes@.contains_key(k) {
                assert(self.map_view()[k] == self.nodes@[k]@);
            }
        }
        r
    }

    fn insert_node(&mut self, frn: u64, node: FrnNode)
        requires
            old(self).wf(),
        ensures
            final(self).wf(),
            final(self).map_view() == old(self).map_view().insert(frn, node@),
            final(self).keys_view() == (if old(self).map_view().contains_key(frn) {
                old(self).keys_view()
            } else {
                old(self).keys_view().push(frn)
            }),
    {
        let fresh = !self.nodes.contains_key(&frn);
        self.nodes.insert(frn, node);
        if fresh {
            self.order.push(frn);
        }
        proof {
            assert(final(self).map_view() =~= old(self).map_view().insert(frn, node@));
            if fresh {
                assert forall|k: u64| #[trigger] final(self).nodes@.contains_key(k)
                    <==> final(self).order@.contains(k) by {
                    if k == frn {
                        assert(final(self).order@[final(self).order@.len() - 1] == frn);
                    } else {
                        assert(final(self).nodes@.contains_key(k) <==> old(
                            self,
                        ).nodes@.contains_key(k));
                        assert(old(self).order@.contains(k) ==> final(self).order@.contains(
                            k,
                        )) by {
                            if old(self).order@.contains(k) {
                                let i = choose|i: int|
                                    0 <= i < old(self).order@.len() && old(self).order@[i] == k;
                                assert(final(self).order@[i] == k);
                            }
                        }
                        assert(final(self).order@.contains(k) ==> old(self).order@.contains(
                            k,
                        )) by {
                            if final(self).order@.contains(k) {
                                let i = choose|i: int|
                                    0 <= i < final(self).order@.len() && final(self).order@[i]
                                        == k;
                                assert(i < old(self).order@.len());
                            }
                        }
                    }
                }
            }
        }
    }
    /// Parses one enumeration page. The page begins with an 8-byte
    /// next-starting-reference header followed by concatenated
    /// variable-length records; every record of major version 2 whose name
    /// field passes the bounds checks is inserted into the forest. Returns
    /// the header's starting reference, or zero for a short page.
    pub fn parse_page(&mut self, buffer: &[u8], bytes_returned: usize, scanned: &mut u64) -> (next:
        u64)
        requires
            old(self).wf(),
            bytes_returned <= buffer@.len(),
            *old(scanned) + bytes_returned <= u64::MAX,
        ensures
            final(self).wf(),
            next == page_next_frn_of(buffer@, bytes_returned as int),
            final(self).map_view() == insert_entries(
                old(self).map_view(),
                page_entries(buffer@, bytes_returned as int),
            ),
            *final(scanned) == *old(scanned) + page_entries(
                buffer@,
                bytes_returned as int,
            ).len(),
    {
        let end = bytes_returned;
        let ghost gend = end as int;
        let ghost full = page_entries(buffer@, gend);
        if end < 8 {
            proof {
                assert(insert_entries(old(self).map_view(), full) =~= old(self).map_view());
            }
            return 0;
        }
        let next_start_frn = read_le64(buffer, 0);
        let ghost m0 = self.map_view();
        let ghost s0 = *scanned;
        let mut offset: usize = 8;
        loop
            invariant
                self.wf(),
                8 <= offset <= end,
                gend == end as int,
                end == bytes_returned <= buffer@.len(),
                s0 + end <= u64::MAX,
                *scanned >= s0,
                64 * (*scanned - s0) <= offset - 8,
                insert_entries(m0, parse_records(buffer@, 8, gend)) == insert_entries(
                    self.map_view(),
                    parse_records(buffer@, offset as int, gend),
                ),
                *scanned + parse_records(buffer@, offset as int, gend).len() == s0
                    + parse_records(buffer@, 8, gend).len(),
            ensures
                self.wf(),
                insert_entries(m0, parse_records(buffer@, 8, gend)) == self.map_view(),
                *scanned == s0 + parse_records(buffer@, 8, gend).len(),
            decreases end - offset,
        {
            if end - offset < USN_HEADER_SIZE {
                proof {
                    assert(parse_records(buffer@, offset as int, gend) == Seq::<
                        JournalEntry,
                    >::empty());
                }
                break;
            }
            let record_length = read_le32(buffer, offset);
            if record_length == 0 {
                proof {
                    assert(parse_records(buffer@, offset as int, gend) == Seq::<
                        JournalEntry,
                    >::empty());
                }
                break;
            }
            let record_len = record_length as usize;
            if record_len < USN_HEADER_SIZE {
                proof {
                    assert(parse_records(buffer@, offset as int, gend) == Seq::<
                        JournalEntry,
                    >::empty());
                }
                break;
            }
            if record_len > end - offset {
                proof {
                    assert(parse_records(buffer@, offset as int, gend) == Seq::<
                        JournalEntry,
                    >::empty());
                }
                break;
            }
            let record_end = offset + record_len;
            let ghost rest = parse_records(buffer@, record_end as int, gend);
            let major_version = read_le16(buffer, offset + 4);
            let mut inserted = false;
            if major_version == 2 {
                let name_off = read_le16(buffer, offset + 58) as usize;
                let name_len = read_le16(buffer, offset + 56) as usize;
                if name_off + name_len <= record_len && name_len % 2 == 0 {
                    let count = name_len / 2;
                    let name_start = offset + name_off;
                    let mut units: Vec<u16> = Vec::new();
                    let mut j: usize = 0;
                    while j < count
                        invariant
                            end <= buffer@.len(),
                            name_start + 2 * count <= record_end <= end,
                            j <= count,
                            units@ =~= name_units(buffer@, name_start as int, j as int),
                        decreases count - j,
                    {
                        units.push(read_le16(buffer, name_start + 2 * j));
                        j = j + 1;
                        proof {
                            assert(units@ =~= name_units(buffer@, name_start as int, j as int));
                        }
                    }
                    let name = strutil::utf16_lossy(&units);
                    let frn = read_le64(buffer, offset + 8);
                    let node = FrnNode {
                        parent_frn: read_le64(buffer, offset + 16),
                        name,
                        file_attributes: read_le32(buffer, offset + 52),
                    };
                    proof {
                        assert(node@ == entry_node(record_entry(buffer@, offset as int)));
                    }
                    self.insert_node(frn, node);
                    *scanned = *scanned + 1;
                    inserted = true;
                }
            }
            proof {
                let here = parse_records(buffer@, offset as int, gend);
                if inserted {
                    let e = record_entry(buffer@, offset as int);
                    assert(here =~= seq![e] + rest);
                    assert(here[0] == e);
                    assert(here.drop_first() =~= rest);
                } else {
                    assert(here =~= rest);
                }
            }
            offset = record_end;
        }
        next_start_frn
    }
}

/// The node a parsed entry inserts.
pub open spec fn entry_node(e: JournalEntry) -> FrnNodeV {
    FrnNodeV { parent_frn: e.parent_frn, name: e.name, file_attributes: e.file_attributes }
}

/// The entries of a whole page: its records start after the 8-byte header.
pub open spec fn page_entries(b: Seq<u8>, end: int) -> Seq<JournalEntry> {
    if end >= 8 {
        parse_records(b, 8, end)
    } else {
        Seq::empty()
    }
}

/// The next starting reference a page declares; zero for a short page.
pub open spec fn page_next_frn_of(b: Seq<u8>, end: int) -> u64 {
    if end >= 8 {
        le64(b, 0)
    } else {
        0
    }
}

/// How far a page enumeration loop is allowed to chain: 256 parent steps
/// defeat reference cycles.
pub const MAX_CHAIN_DEPTH: usize = 256;

/// The name components met while following parent references up from
/// `cur`: the walk stops when fuel runs out, on a reference already
/// visited, on a missing node, and after a node whose parent is zero or
/// itself. Empty names (the root) contribute nothing.
pub open spec fn chain_parts(m: Map<u64, FrnNodeV>, cur: u64, visited: Set<u64>, fuel: nat) -> Seq<
    Seq<char>,
>
    decreases fuel,
{
    if fuel == 0 || visited.contains(cur) || !m.contains_key(cur) {
        Seq::empty()
    } else {
        let node = m[cur];
        let head: Seq<Seq<char>> = if node.name.len() > 0 {
            seq![node.name]
        } else {
            Seq::empty()
        };
        if node.parent_frn == 0 || node.parent_frn == cur {
            head
        } else {
            head + chain_parts(m, node.parent_frn, visited.insert(cur), (fuel - 1) as nat)
        }
    }
}

/// Components joined with single backslashes, in the order given.
pub open spec fn join_bs(parts: Seq<Seq<char>>) -> Seq<char>
    decreases parts.len(),
{
    if parts.len() == 0 {
        Seq::empty()
    } else if parts.len() == 1 {
        parts[0]
    } else {
        join_bs(parts.drop_last()) + seq!['\\'] + parts.last()
    }
}

/// The views of a list of component strings.
pub open spec fn parts_views(parts: Seq<String>) -> Seq<Seq<char>> {
    parts.map_values(|s: String| s@)
}

/// The absolute path of file reference `frn` under the normalized drive
/// `dn`: the drive prefix followed by the reversed parent chain.
pub open spec fn full_path_of(m: Map<u64, FrnNodeV>, dn: Seq<char>, frn: u64) -> Seq<char> {
    dn + join_bs(chain_parts(m, frn, Set::empty(), MAX_CHAIN_DEPTH as nat).reverse())
}

/// The reconstructed path of `frn` for a raw drive specifier: none when
/// the drive does not normalize.
pub open spec fn resolved_path_spec(m: Map<u64, FrnNodeV>, drive: Seq<char>, frn: u64) -> Option<
    Seq<char>,
> {
    if paths::drive_ok(paths::trim_spec(drive)) {
        Some(full_path_of(m, paths::normalized_drive_of(paths::trim_spec(drive)), frn))
    } else {
        None
    }
}

/// A memo of already-reconstructed paths, valid for one forest and drive.
pub open spec fn cache_ok(
    m: Map<u64, FrnNodeV>,
    dn: Seq<char>,
    cache: Map<u64, String>,
) -> bool {
    forall|k: u64| #[trigger] cache.contains_key(k) ==> cache[k]@ == full_path_of(m, dn, k)
}

fn vec_contains_u64(v: &Vec<u64>, x: u64) -> (r: bool)
    ensures
        r == v@.contains(x),
{
    let mut i: usize = 0;
    while i < v.len()
        invariant
            i <= v@.len(),
            forall|j: int| 0 <= j < i ==> v@[j] != x,
        decreases v@.len() - i,
    {
        if v[i] == x {
            return true;
        }
        i = i + 1;
    }
    false
}

/// One node of the forest as the scanner consumes it: its reference, its
/// reconstructed absolute path, and its attributes.
#[derive(Clone, Debug)]
pub struct ScanCandidate {
    pub frn: u64,
    pub path: String,
    pub file_attributes: u32,
}

impl FrnForest {
    fn resolve_with_cache(
        &self,
        frn: u64,
        drive_norm: &str,
        cache: &mut HashMapWithView<u64, String>,
    ) -> (r: String)
        requires
            cache_ok(self.map_view(), drive_norm@, old(cache)@),
        ensures
            cache_ok(self.map_view(), drive_norm@, final(cache)@),
            r@ == full_path_of(self.map_view(), drive_norm@, frn),
    {
        broadcast use Seq::<u64>::lemma_push_to_set_commute;

        if let Some(hit) = cache.get(&frn) {
            return hit.clone();
        }
        let ghost m = self.map_view();
        let mut parts: Vec<String> = Vec::new();
        let mut current: u64 = frn;
        let mut visited: Vec<u64> = Vec::new();
        let mut i: usize = 0;
        proof {
            assert(visited@.to_set() =~= Set::<u64>::empty());
        }
        loop
            invariant_except_break
                chain_parts(m, frn, Set::empty(), MAX_CHAIN_DEPTH as nat) == parts_views(parts@)
                    + chain_parts(m, current, visited@.to_set(), (MAX_CHAIN_DEPTH - i) as nat),
            invariant
                i <= MAX_CHAIN_DEPTH,
                m == self.map_view(),
            ensures
                chain_parts(m, frn, Set::empty(), MAX_CHAIN_DEPTH as nat) == parts_views(parts@),
            decreases MAX_CHAIN_DEPTH - i,
        {
            let ghost pending = chain_parts(
                m,
                current,
                visited@.to_set(),
                (MAX_CHAIN_DEPTH - i) as nat,
            );
            if i >= MAX_CHAIN_DEPTH {
                proof {
                    assert(pending == Seq::<Seq<char>>::empty());
                    assert(parts_views(parts@) + pending =~= parts_views(parts@));
                }
                break;
            }
            if vec_contains_u64(&visited, current) {
                proof {
                    assert(visited@.to_set().contains(current));
                    assert(pending == Seq::<Seq<char>>::empty());
                    assert(parts_views(parts@) + pending =~= parts_views(parts@));
                }
                break;
            }
            let ghost vis0 = visited@;
            visited.push(current);
            proof {
                assert(visited@ == vis0.push(current));
                vis0.lemma_push_to_set_commute(current);
                assert(visited@.to_set() =~= vis0.to_set().insert(current));
            }
            let node = match self.node_at(current) {
                Some(n) => n,
                None => {
                    proof {
                        assert(pending == Seq::<Seq<char>>::empty());
                        assert(parts_views(parts@) + pending =~= parts_views(parts@));
                    }
                    break;
                }
            };
            let ghost old_parts = parts@;
            if !node.name.as_str().is_empty() {
                parts.push(node.name.clone());
            }
            proof {
                let head: Seq<Seq<char>> = if m[current].name.len() > 0 {
                    seq![m[current].name]
                } else {
                    Seq::empty()
                };
                assert(parts_views(parts@) =~= parts_views(old_parts) + head);
            }
            if node.parent_frn == 0 || node.parent_frn == current {
                proof {
                    let head: Seq<Seq<char>> = if m[current].name.len() > 0 {
                        seq![m[current].name]
                    } else {
                        Seq::empty()
                    };
                    assert(pending == head);
                    assert(parts_views(old_parts) + pending =~= parts_views(parts@));
                }
                break;
            }
            let parent = node.parent_frn;
            proof {
                let head: Seq<Seq<char>> = if m[current].name.len() > 0 {
                    seq![m[current].name]
                } else {
                    Seq::empty()
                };
                let vis2 = visited@.to_set();
                assert(vis2 =~= vis0.to_set().insert(current));
                assert(pending == head + chain_parts(
                    m,
                    parent,
                    vis2,
                    (MAX_CHAIN_DEPTH - i - 1) as nat,
                ));
                assert(parts_views(old_parts) + pending =~= parts_views(parts@) + chain_parts(
                    m,
                    parent,
                    vis2,
                    (MAX_CHAIN_DEPTH - i - 1) as nat,
                ));
            }
            current = parent;
            i = i + 1;
        }
        let ghost rev = parts_views(parts@).reverse();
        let mut full = String::new();
        full.append(drive_norm);
        let n = parts.len();
        let mut j: usize = 0;
        while j < n
            invariant
                n == parts@.len(),
                j <= n,
                rev == parts_views(parts@).reverse(),
                full@ == drive_norm@ + join_bs(rev.take(j as int)),
            decreases n - j,
        {
            if j > 0 {
                strutil::push_char(&mut full, '\\');
            }
            full.append(parts[n - 1 - j].as_str());
            j = j + 1;
            proof {
                assert(rev[j - 1] == parts_views(parts@)[n - j]);
                assert(rev.take(j as int).drop_last() =~= rev.take(j as int - 1));
                if j == 1 {
                    assert(join_bs(rev.take(1)) == rev[0]);
                    assert(full@ =~= drive_norm@ + join_bs(rev.take(j as int)));
                } else {
                    assert(join_bs(rev.take(j as int)) == join_bs(rev.take(j as int - 1))
                        + seq!['\\'] + rev[j - 1]);
                    assert(full@ =~= drive_norm@ + join_bs(rev.take(j as int)));
                }
            }
        }
        proof {
            assert(rev.take(n as int) =~= rev);
            assert(full@ == full_path_of(m, drive_norm@, frn));
        }
        cache.insert(frn, full.clone());
        full
    }

    /// Reconstructs the absolute path of `frn` by following parent
    /// references up the forest: chain depth is bounded, cycles and
    /// missing parents end the walk, and the normalized drive prefix
    /// leads the result. None iff the drive specifier is invalid.
    pub fn resolve_path_from_frn(&self, frn: u64, drive: &str) -> (r: Option<String>)
        ensures
            match r {
                Some(p) => resolved_path_spec(self.map_view(), drive@, frn) == Some(p@),
                None => resolved_path_spec(self.map_view(), drive@, frn) is None,
            },
    {
        match paths::normalize_drive(drive) {
            Ok(dn) => {
                let mut cache: HashMapWithView<u64, String> = HashMapWithView::new();
                let p = self.resolve_with_cache(frn, dn.as_str(), &mut cache);
                Some(p)
            }
            Err(_) => None,
        }
    }

    /// Resolves every node of the forest, in insertion order, into scan
    /// candidates carrying the reconstructed path and the node's
    /// attributes. Empty when the drive specifier is invalid.
    pub fn candidates(&self, drive: &str) -> (r: Vec<ScanCandidate>)
        requires
            self.wf(),
        ensures
            paths::drive_ok(paths::trim_spec(drive@)) ==> {
                let dn = paths::normalized_drive_of(paths::trim_spec(drive@));
                &&& r@.len() == self.keys_view().len()
                &&& forall|i: int|
                    0 <= i < r@.len() ==> {
                        let k = self.keys_view()[i];
                        &&& (#[trigger] r@[i]).frn == k
                        &&& r@[i].path@ == full_path_of(self.map_view(), dn, k)
                        &&& self.map_view().contains_key(k)
                        &&& r@[i].file_attributes == self.map_view()[k].file_attributes
                    }
            },
            !paths::drive_ok(paths::trim_spec(drive@)) ==> r@.len() == 0,
    {
        let mut out: Vec<ScanCandidate> = Vec::new();
        let dn = match paths::normalize_drive(drive) {
            Ok(v) => v,
            Err(_) => {
                return out;
            }
        };
        let ghost dnv = paths::normalized_drive_of(paths::trim_spec(drive@));
        let mut cache: HashMapWithView<u64, String> = HashMapWithView::new();
        let total = self.len();
        let mut i: usize = 0;
        while i < total
            invariant
                self.wf(),
                total == self.keys_view().len(),
                dn@ == dnv,
                cache_ok(self.map_view(), dn@, cache@),
                i <= total,
                out@.len() == i,
                forall|q: int|
                    0 <= q < i ==> {
                        let k = self.keys_view()[q];
                        &&& (#[trigger] out@[q]).frn == k
                        &&& out@[q].path@ == full_path_of(self.map_view(), dnv, k)
                        &&& self.map_view().contains_key(k)
                        &&& out@[q].file_attributes == self.map_view()[k].file_attributes
                    },
            decreases total - i,
        {
            let k = self.key_at(i);
            let path = self.resolve_with_cache(k, dn.as_str(), &mut cache);
            let node = match self.node_at(k) {
                Some(n) => n,
                None => {
                    proof {
                        let kv = self.keys_view();
                        assert(kv.contains(kv[i as int]));
                        assert(false);
                    }
                    return out;
                }
            };
            out.push(ScanCandidate { frn: k, path, file_attributes: node.file_attributes });
            i = i + 1;
        }
        out
    }
}

} // verus!
