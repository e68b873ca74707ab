//! Target validation: the per-record decision that turns a metadata
//! probe outcome into a validation status. An empty target is broken
//! before any probe; otherwise the probe outcome decides.

use vstd::prelude::*;
use vstd::multiset::Multiset;
use vstd::string::StringExecFns;
use crate::classify::{classify_status, ProbeOutcome};
use crate::paths;
use crate::strutil;
use crate::types::{LinkEntry, LinkStatus};

verus! {

/// Whether a record's target needs a metadata probe at all: only a
/// target with something besides whitespace does.
pub fn needs_target_probe(entry: &LinkEntry) -> (r: bool)
    ensures
        r == (paths::trim_spec(entry.target@).len() > 0),
{
    !paths::is_blank(entry.target.as_str())
}

/// The probe outcome standing for a probe that ran out of time.
pub fn timeout_probe() -> (r: ProbeOutcome)
    ensures
        r matches ProbeOutcome::Failed(m) && m@ == "timeout resolving target"@,
{
    ProbeOutcome::Failed(String::from_str("timeout resolving target"))
}

/// Validates one record: a whitespace-only target yields
/// `Broken("target path is empty")` with no probe; otherwise the probe
/// outcome decides the status. Path, target and kind pass through
/// unchanged.
pub fn validate_one(entry: LinkEntry, probe: Option<ProbeOutcome>) -> (r: LinkEntry)
    requires
        (probe is Some) == (paths::trim_spec(entry.target@).len() > 0),
    ensures
        r.path@ == entry.path@,
        r.target@ == entry.target@,
        r.link_type == entry.link_type,
        match probe {
            None => r.status@ matches crate::types::LinkStatusV::Broken(m) && m
                == "target path is empty"@,
            Some(p) => match p {
                ProbeOutcome::Found => r.status@ is Valid,
                ProbeOutcome::NotFound => r.status@ matches crate::types::LinkStatusV::Broken(m)
                    && m == "target does not exist"@,
                ProbeOutcome::PermissionDenied => r.status@ is AccessDenied,
                ProbeOutcome::Failed(msg) => r.status@ matches crate::types::LinkStatusV::Broken(
                    m,
                ) && m == msg@,
            },
        },
{
    let status = match probe {
        None => LinkStatus::Broken(String::from_str("target path is empty")),
        Some(p) => classify_status(p),
    };
    LinkEntry { path: entry.path, target: entry.target, link_type: entry.link_type, status }
}

/// Lexicographic order on path text, by character code point — the
/// order the validation output is sorted by for deterministic
/// downstream use.
pub open spec fn lex_le(a: Seq<char>, b: Seq<char>) -> bool
    decreases a.len(),
{
    if a.len() == 0 {
        true
    } else if b.len() == 0 {
        false
    } else if a[0] as u32 != b[0] as u32 {
        (a[0] as u32) < (b[0] as u32)
    } else {
        lex_le(a.drop_first(), b.drop_first())
    }
}

proof fn lemma_lex_refl(a: Seq<char>)
    ensures
        lex_le(a, a),
    decreases a.len(),
{
    if a.len() > 0 {
        lemma_lex_refl(a.drop_first());
    }
}

proof fn lemma_lex_total(a: Seq<char>, b: Seq<char>)
    ensures
        lex_le(a, b) || lex_le(b, a),
    decreases a.len(),
{
    if a.len() > 0 && b.len() > 0 && a[0] as u32 == b[0] as u32 {
        lemma_lex_total(a.drop_first(), b.drop_first());
    }
}

proof fn lemma_lex_trans(a: Seq<char>, b: Seq<char>, c: Seq<char>)
    requires
        lex_le(a, b),
        lex_le(b, c),
    ensures
        lex_le(a, c),
    decreases a.len(),
{
    if a.len() > 0 {
        if a[0] as u32 == b[0] as u32 && b[0] as u32 == c[0] as u32 {
            lemma_lex_trans(a.drop_first(), b.drop_first(), c.drop_first());
        }
    }
}

fn lex_le_exec(a: &str, b: &str) -> (r: bool)
    ensures
        r == lex_le(a@, b@),
{
    let av = strutil::chars_vec(a);
    let bv = strutil::chars_vec(b);
    let mut i: usize = 0;
    proof {
        assert(a@.skip(0) =~= a@);
        assert(b@.skip(0) =~= b@);
    }
    while i < av.len() && i < bv.len()
        invariant
            av@ == a@,
            bv@ == b@,
            i <= av@.len(),
            i <= bv@.len(),
            lex_le(a@, b@) == lex_le(a@.skip(i as int), b@.skip(i as int)),
        decreases av@.len() - i,
    {
        let ca = av[i] as u32;
        let cb = bv[i] as u32;
        proof {
            assert(a@.skip(i as int)[0] == a@[i as int]);
            assert(b@.skip(i as int)[0] == b@[i as int]);
            assert(a@.skip(i as int).drop_first() =~= a@.skip(i as int + 1));
            assert(b@.skip(i as int).drop_first() =~= b@.skip(i as int + 1));
        }
        if ca != cb {
            return ca < cb;
        }
        i = i + 1;
    }
    proof {
        if i == av.len() {
            assert(a@.skip(i as int) =~= Seq::<char>::empty());
        } else {
            assert(b@.skip(i as int) =~= Seq::<char>::empty());
            assert(a@.skip(i as int).len() > 0);
        }
    }
    av.len() <= bv.len()
}

fn min_path_index(entries: &Vec<LinkEntry>) -> (idx: usize)
    requires
        entries@.len() > 0,
    ensures
        idx < entries@.len(),
        forall|j: int|
            0 <= j < entries@.len() ==> lex_le(
                entries@[idx as int].path@,
                (#[trigger] entries@[j]).path@,
            ),
{
    let mut best: usize = 0;
    let mut j: usize = 1;
    proof {
        lemma_lex_refl(entries@[0].path@);
    }
    while j < entries.len()
        invariant
            best < j <= entries@.len() || (j <= entries@.len() && best == 0),
            best < entries@.len(),
            forall|k: int|
                0 <= k < j ==> lex_le(
                    entries@[best as int].path@,
                    (#[trigger] entries@[k]).path@,
                ),
        decreases entries@.len() - j,
    {
        if !lex_le_exec(entries[best].path.as_str(), entries[j].path.as_str()) {
            proof {
                lemma_lex_total(entries@[best as int].path@, entries@[j as int].path@);
                assert forall|k: int|
                    0 <= k < j + 1 implies lex_le(
                    entries@[j as int].path@,
                    (#[trigger] entries@[k]).path@,
                ) by {
                    if k < j {
                        lemma_lex_trans(
                            entries@[j as int].path@,
                            entries@[best as int].path@,
                            entries@[k].path@,
                        );
                    } else {
                        lemma_lex_refl(entries@[j as int].path@);
                    }
                }
            }
            best = j;
        }
        j = j + 1;
    }
    best
}

/// Sorts validation output by path, keeping exactly the same records:
/// the result is a permutation of the input, ordered by the
/// code-point-lexicographic path order.
pub fn sort_entries_by_path(entries: Vec<LinkEntry>) -> (r: Vec<LinkEntry>)
    ensures
        r@.map_values(|e: LinkEntry| e@).to_multiset() == entries@.map_values(
            |e: LinkEntry| e@,
        ).to_multiset(),
        forall|i: int, j: int|
            0 <= i < j < r@.len() ==> lex_le((#[trigger] r@[i]).path@, (#[trigger] r@[j]).path@),
{
    broadcast use Seq::<crate::types::LinkEntryV>::to_multiset_ensures;
    broadcast use vstd::multiset::group_multiset_axioms;

    let ghost orig = entries@.map_values(|e: LinkEntry| e@);
    let mut rest = entries;
    let mut out: Vec<LinkEntry> = Vec::new();
    proof {
        assert(out@.map_values(|e: LinkEntry| e@) =~= Seq::<crate::types::LinkEntryV>::empty());
        Seq::<crate::types::LinkEntryV>::empty().to_multiset_ensures();
        assert(Seq::<crate::types::LinkEntryV>::empty().to_multiset() =~= Multiset::<
            crate::types::LinkEntryV,
        >::empty());
        assert(Multiset::<crate::types::LinkEntryV>::empty().add(orig.to_multiset())
            =~= orig.to_multiset());
    }
    while rest.len() > 0
        invariant
            out@.map_values(|e: LinkEntry| e@).to_multiset().add(
                rest@.map_values(|e: LinkEntry| e@).to_multiset(),
            ) == orig.to_multiset(),
            forall|i: int, j: int|
                0 <= i < j < out@.len() ==> lex_le(
                    (#[trigger] out@[i]).path@,
                    (#[trigger] out@[j]).path@,
                ),
            forall|i: int, j: int|
                0 <= i < out@.len() && 0 <= j < rest@.len() ==> lex_le(
                    (#[trigger] out@[i]).path@,
                    (#[trigger] rest@[j]).path@,
                ),
        decreases rest@.len(),
    {
        broadcast use vstd::multiset::group_multiset_axioms;

        let idx = min_path_index(&rest);
        let ghost old_rest = rest@;
        let ghost old_out = out@;
        let picked = rest.remove(idx);
        out.push(picked);
        proof {
            assert(rest@ =~= old_rest.remove(idx as int));
            assert(rest@.map_values(|e: LinkEntry| e@) =~= old_rest.map_values(
                |e: LinkEntry| e@,
            ).remove(idx as int));
            assert(out@.map_values(|e: LinkEntry| e@) =~= old_out.map_values(
                |e: LinkEntry| e@,
            ).push(picked@));
            let om = old_out.map_values(|e: LinkEntry| e@).to_multiset();
            let rm = old_rest.map_values(|e: LinkEntry| e@).to_multiset();
            old_out.map_values(|e: LinkEntry| e@).to_multiset_ensures();
            old_rest.map_values(|e: LinkEntry| e@).to_multiset_ensures();
            assert(old_rest.map_values(|e: LinkEntry| e@)[idx as int] == picked@);
            assert(old_out.map_values(|e: LinkEntry| e@).push(picked@).to_multiset() =~= om.insert(
                picked@,
            ));
            assert(old_rest.map_values(|e: LinkEntry| e@).remove(idx as int).to_multiset()
                =~= rm.remove(picked@));
            assert(out@.map_values(|e: LinkEntry| e@).to_multiset() == om.insert(picked@));
            assert(rest@.map_values(|e: LinkEntry| e@).to_multiset() == rm.remove(picked@));
            assert(old_rest.map_values(|e: LinkEntry| e@).contains(picked@));
            assert(rm.count(picked@) > 0);
            assert(om.insert(picked@).add(rm.remove(picked@)) =~= om.add(rm));
            assert forall|i: int, j: int|
                0 <= i < out@.len() && 0 <= j < rest@.len() implies lex_le(
                (#[trigger] out@[i]).path@,
                (#[trigger] rest@[j]).path@,
            ) by {
                let j2 = if j < idx {
                    j
                } else {
                    j + 1
                };
                assert(rest@[j] == old_rest[j2]);
                if i < out@.len() - 1 {
                    assert(out@[i] == old_out[i]);
                } else {
                    assert(out@[i] == picked);
                }
            }
            assert forall|i: int, j: int|
                0 <= i < j < out@.len() implies lex_le(
                (#[trigger] out@[i]).path@,
                (#[trigger] out@[j]).path@,
            ) by {
                if j == out@.len() - 1 {
                    assert(out@[i] == old_out[i]);
                    assert(out@[j] == picked);
                    assert(old_rest[idx as int] == picked);
                } else {
                    assert(out@[i] == old_out[i] && out@[j] == old_out[j]);
                }
            }
        }
    }
    proof {
        assert(rest@.map_values(|e: LinkEntry| e@) =~= Seq::<crate::types::LinkEntryV>::empty());
        Seq::<crate::types::LinkEntryV>::empty().to_multiset_ensures();
        assert(Seq::<crate::types::LinkEntryV>::empty().to_multiset() =~= Multiset::<
            crate::types::LinkEntryV,
        >::empty());
        assert(out@.map_values(|e: LinkEntry| e@).to_multiset().add(
            Multiset::<crate::types::LinkEntryV>::empty(),
        ) =~= out@.map_values(|e: LinkEntry| e@).to_multiset());
    }
    out
}

} // verus!
