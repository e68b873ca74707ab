//! The undo engine: scan the successful log rows newest-first, skip the
//! mutations already consumed by earlier undos, apply the compensating
//! mutation of the first unconsumed one, and record the attempt as an
//! Undo row.

use vstd::prelude::*;
use vstd::string::StringExecFns;
use crate::actionlog::{successes_desc, ActionLog};
use crate::fsmodel::{create_spec, delete_spec, retarget_spec, FsModel, MutOutcome, FsObjectV};
use crate::strutil;
use crate::types::{ActionInput, ActionRecord, ActionRecordV, LinkType, opt_text};

verus! {

/// The compensating mutation of a logged row: Create is undone by
/// Delete of the link path, Delete by Create toward the stored old
/// target with the logged kind, Retarget by Retarget back to the old
/// target; anything else cannot be undone.
pub open spec fn compensation_spec(
    fs: Map<Seq<char>, FsObjectV>,
    failing: Seq<Seq<char>>,
    c: ActionRecordV,
) -> MutOutcome {
    if c.action_type == "Delete"@ {
        match c.target_old {
            None => MutOutcome { fs, err: Some("Delete action is missing previous target"@) },
            Some(t) => create_spec(fs, failing, c.link_path, t, c.link_type, false),
        }
    } else if c.action_type == "Create"@ {
        delete_spec(fs, c.link_path)
    } else if c.action_type == "Retarget"@ {
        match c.target_old {
            None => MutOutcome { fs, err: Some("Retarget action is missing old target"@) },
            Some(t) => retarget_spec(fs, failing, c.link_path, t),
        }
    } else {
        MutOutcome { fs, err: Some("Undo is not supported for action: "@ + c.action_type) }
    }
}

/// The row the undo engine decides to compensate, as loaded from the log.
#[derive(Clone, Debug)]
pub struct UndoCandidate {
    pub action_type: String,
    pub link_path: String,
    pub link_type: LinkType,
    pub target_old: Option<String>,
    pub target_new: Option<String>,
}

/// The scan of the log: walking successful rows newest-first with a
/// pending counter, an Undo row raises the counter, a mutation row
/// lowers a positive counter (it was already compensated), and the first
/// mutation row met at counter zero is the candidate.
pub open spec fn undo_candidate_spec(rows: Seq<ActionRecordV>, pending: nat) -> Option<
    ActionRecordV,
>
    decreases rows.len(),
{
    if rows.len() == 0 {
        None
    } else {
        let head = rows[0];
        if head.action_type == "Undo"@ {
            undo_candidate_spec(rows.drop_first(), pending + 1)
        } else if pending > 0 {
            undo_candidate_spec(rows.drop_first(), (pending - 1) as nat)
        } else {
            Some(head)
        }
    }
}

/// Finds the most recent successful mutation not yet consumed by a prior
/// undo, or nothing when every mutation is already compensated.
pub fn latest_undo_candidate(log: &ActionLog) -> (r: Option<UndoCandidate>)
    ensures
        match r {
            Some(c) => {
                let picked = undo_candidate_spec(successes_desc(log.rows()), 0);
                &&& picked is Some
                &&& c.action_type@ == picked->0.action_type
                &&& c.link_path@ == picked->0.link_path
                &&& c.link_type == picked->0.link_type
                &&& opt_text(c.target_old) == picked->0.target_old
                &&& opt_text(c.target_new) == picked->0.target_new
            },
            None => undo_candidate_spec(successes_desc(log.rows()), 0) is None,
        },
{
    let rows = log.successful_desc();
    let ghost rv = successes_desc(log.rows());
    let n = rows.len();
    let mut pending: usize = 0;
    let mut i: usize = 0;
    proof {
        assert(rv.skip(0) =~= rv);
    }
    while i < n
        invariant
            n == rv.len(),
            rv == successes_desc(log.rows()),
            rows@.map_values(|x: ActionRecord| x@) == rv,
            i <= n,
            pending <= i,
            undo_candidate_spec(rv, 0) == undo_candidate_spec(
                rv.skip(i as int),
                pending as nat,
            ),
        decreases n - i,
    {
        let row = &rows[i];
        proof {
            assert(rv.skip(i as int)[0] == rv[i as int]);
            assert(rv[i as int] == rows@[i as int]@);
            assert(rv.skip(i as int).drop_first() =~= rv.skip(i as int + 1));
        }
        if strutil::str_eq(row.action_type.as_str(), "Undo") {
            pending = pending + 1;
        } else if pending > 0 {
            pending = pending - 1;
        } else {
            proof {
                let tailseq = rv.skip(i as int);
                assert(tailseq.len() > 0);
                assert(tailseq[0].action_type != "Undo"@);
                assert(undo_candidate_spec(tailseq, pending as nat) == Some(tailseq[0]));
                assert(undo_candidate_spec(rv, 0) == Some(rv[i as int]));
            }
            return Some(
                UndoCandidate {
                    action_type: row.action_type.clone(),
                    link_path: row.link_path.clone(),
                    link_type: row.link_type,
                    target_old: crate::actionlog::clone_opt_string(&row.target_old),
                    target_new: crate::actionlog::clone_opt_string(&row.target_new),
                },
            );
        }
        i = i + 1;
    }
    proof {
        assert(rv.skip(n as int) =~= Seq::<ActionRecordV>::empty());
    }
    None
}

/// Applies the compensating mutation of the candidate row and appends
/// the attempt as an Undo row carrying the candidate's path, kind and
/// targets; the row's success flag reports whether the compensation
/// succeeded. With nothing to undo, the engine fails loudly and leaves
/// both the log and the filesystem untouched.
pub fn undo_last(log: &mut ActionLog, fs: &mut FsModel, timestamp: String) -> (r: Result<
    (),
    String,
>)
    requires
        old(log).wf(),
        old(log).can_append(),
        old(fs).wf(),
    ensures
        final(log).wf(),
        final(fs).wf(),
        final(fs).failing() == old(fs).failing(),
        ({
            match undo_candidate_spec(successes_desc(old(log).rows()), 0) {
                None => {
                    &&& r matches Err(e) && e@ == "Nothing to undo"@
                    &&& final(fs).fs() == old(fs).fs()
                    &&& final(log).rows() == old(log).rows()
                },
                Some(c) => {
                    let comp = compensation_spec(
                        old(fs).fs(),
                        old(fs).failing(),
                        c,
                    );
                    &&& final(fs).fs() == comp.fs
                    &&& final(log).rows().len() == old(log).rows().len() + 1
                    &&& final(log).rows().drop_last() == old(log).rows()
                    &&& ({
                        let row = final(log).rows().last();
                        &&& row.action_type == "Undo"@
                        &&& row.link_path == c.link_path
                        &&& row.link_type == c.link_type
                        &&& row.target_old == c.target_old
                        &&& row.target_new == c.target_new
                        &&& row.timestamp == timestamp@
                        &&& row.success == (comp.err is None)
                        &&& row.error_msg == comp.err
                    })
                    &&& match r {
                        Ok(()) => comp.err is None,
                        Err(e) => comp.err == Some(e@),
                    }
                },
            }
        }),
{
    let cand = match latest_undo_candidate(log) {
        Some(c) => c,
        None => {
            return Err(String::from_str("Nothing to undo"));
        }
    };
    let result: Result<(), String> = if strutil::str_eq(cand.action_type.as_str(), "Delete") {
        match &cand.target_old {
            None => Err(String::from_str("Delete action is missing previous target")),
            Some(t) => fs.create_link_internal(
                cand.link_path.as_str(),
                t.as_str(),
                &cand.link_type,
                false,
            ),
        }
    } else if strutil::str_eq(cand.action_type.as_str(), "Create") {
        fs.delete_link_internal(cand.link_path.as_str())
    } else if strutil::str_eq(cand.action_type.as_str(), "Retarget") {
        match &cand.target_old {
            None => Err(String::from_str("Retarget action is missing old target")),
            Some(t) => fs.retarget_link_internal(cand.link_path.as_str(), t.as_str()),
        }
    } else {
        let mut m = String::from_str("Undo is not supported for action: ");
        m.append(cand.action_type.as_str());
        Err(m)
    };
    let (success, error_msg) = match &result {
        Ok(_) => (true, None),
        Err(error) => (false, Some(error.clone())),
    };
    log.log_action(
        ActionInput {
            action_type: String::from_str("Undo"),
            link_path: cand.link_path,
            link_type: cand.link_type,
            target_old: cand.target_old,
            target_new: cand.target_new,
            success,
            error_msg,
        },
        timestamp,
    );
    result
}

/// Leading Undo rows only raise the pending count: the scan of a log
/// whose newest rows are all Undo rows continues past them with the
/// count raised by their number.
pub proof fn lemma_undo_candidate_skips(
    us: Seq<ActionRecordV>,
    rest: Seq<ActionRecordV>,
    pending: nat,
)
    requires
        forall|i: int| 0 <= i < us.len() ==> (#[trigger] us[i]).action_type == "Undo"@,
    ensures
        undo_candidate_spec(us + rest, pending) == undo_candidate_spec(
            rest,
            pending + us.len(),
        ),
    decreases us.len(),
{
    if us.len() == 0 {
        assert(us + rest =~= rest);
    } else {
        assert((us + rest)[0] == us[0]);
        assert((us + rest).drop_first() =~= us.drop_first() + rest);
        assert forall|i: int| 0 <= i < us.drop_first().len() implies (
        #[trigger] us.drop_first()[i]).action_type == "Undo"@ by {
            assert(us.drop_first()[i] == us[i + 1]);
        }
        lemma_undo_candidate_skips(us.drop_first(), rest, pending + 1);
    }
}

/// With no Undo rows in sight, a pending count of `p` lands on the row
/// `p` steps in: each mutation row met lowers the count by one.
pub proof fn lemma_undo_candidate_lands(rows: Seq<ActionRecordV>, pending: nat)
    requires
        forall|i: int| 0 <= i < rows.len() ==> (#[trigger] rows[i]).action_type != "Undo"@,
    ensures
        pending < rows.len() ==> undo_candidate_spec(rows, pending) == Some(
            rows[pending as int],
        ),
        pending >= rows.len() ==> undo_candidate_spec(rows, pending) is None,
    decreases rows.len(),
{
    if rows.len() > 0 && pending > 0 {
        assert forall|i: int| 0 <= i < rows.drop_first().len() implies (
        #[trigger] rows.drop_first()[i]).action_type != "Undo"@ by {
            assert(rows.drop_first()[i] == rows[i + 1]);
        }
        lemma_undo_candidate_lands(rows.drop_first(), (pending - 1) as nat);
        if pending < rows.len() {
            assert(rows.drop_first()[pending - 1] == rows[pending as int]);
        }
    }
}

/// The selection the undo engine makes over a quiescent history: after
/// `k` successful mutations and `j` undos of them (the log's successful
/// rows, newest first, are the `j` Undo rows followed by the `k`
/// mutation rows), the next candidate is the mutation `j` steps back
/// from the newest — or nothing once every mutation is compensated.
pub proof fn lemma_undo_selects_unconsumed(us: Seq<ActionRecordV>, ms: Seq<ActionRecordV>)
    requires
        forall|i: int| 0 <= i < us.len() ==> (#[trigger] us[i]).action_type == "Undo"@,
        forall|i: int| 0 <= i < ms.len() ==> (#[trigger] ms[i]).action_type != "Undo"@,
    ensures
        us.len() < ms.len() ==> undo_candidate_spec(us + ms, 0) == Some(ms[us.len() as int]),
        us.len() >= ms.len() ==> undo_candidate_spec(us + ms, 0) is None,
{
    lemma_undo_candidate_skips(us, ms, 0);
    lemma_undo_candidate_lands(ms, us.len());
}

/// One mutation, one undo: the compensation the engine applies to a
/// logged Create row deletes exactly the link that creation made, and
/// the filesystem returns to its pre-creation state, provided the link's
/// parent directories already stood.
pub proof fn lemma_create_compensation(
    m: Map<Seq<char>, FsObjectV>,
    failing: Seq<Seq<char>>,
    target: Seq<char>,
    kind: LinkType,
    hint: bool,
    row: ActionRecordV,
)
    requires
        row.action_type == "Create"@,
        crate::fsmodel::ensure_dirs_spec(m, crate::paths::parent_dir_spec(row.link_path)) == m,
        create_spec(m, failing, row.link_path, target, kind, hint).err is None,
    ensures
        compensation_spec(
            create_spec(m, failing, row.link_path, target, kind, hint).fs,
            failing,
            row,
        ).err is None,
        compensation_spec(
            create_spec(m, failing, row.link_path, target, kind, hint).fs,
            failing,
            row,
        ).fs == m,
{
    reveal_strlit("Create");
    reveal_strlit("Delete");
    assert("Create"@[0] != "Delete"@[0]);
    crate::fsmodel::lemma_create_delete_round_trip(m, failing, row.link_path, target, kind, hint);
}

/// The filesystem after applying the creations a row sequence records,
/// oldest first.
pub open spec fn apply_creates(
    m: Map<Seq<char>, FsObjectV>,
    failing: Seq<Seq<char>>,
    rows: Seq<ActionRecordV>,
) -> Map<Seq<char>, FsObjectV>
    decreases rows.len(),
{
    if rows.len() == 0 {
        m
    } else {
        create_spec(
            apply_creates(m, failing, rows.drop_last()),
            failing,
            rows.last().link_path,
            rows.last().target_new->0,
            rows.last().link_type,
            false,
        ).fs
    }
}

/// A quiescent run of Create mutations: each row is a Create whose
/// creation succeeds from the state the earlier rows left, with the
/// link's parent directories already standing there.
pub open spec fn creates_ok(
    m: Map<Seq<char>, FsObjectV>,
    failing: Seq<Seq<char>>,
    rows: Seq<ActionRecordV>,
) -> bool
    decreases rows.len(),
{
    rows.len() == 0 || {
        let prev = apply_creates(m, failing, rows.drop_last());
        let e = rows.last();
        &&& creates_ok(m, failing, rows.drop_last())
        &&& e.action_type == "Create"@
        &&& e.target_new is Some
        &&& crate::fsmodel::ensure_dirs_spec(prev, crate::paths::parent_dir_spec(e.link_path))
            == prev
        &&& create_spec(prev, failing, e.link_path, e.target_new->0, e.link_type, false).err
            is None
    }
}

/// The filesystem after compensating a row sequence newest-first, as
/// one undo per row does.
pub open spec fn unwind_creates(
    m2: Map<Seq<char>, FsObjectV>,
    failing: Seq<Seq<char>>,
    rows: Seq<ActionRecordV>,
) -> Map<Seq<char>, FsObjectV>
    decreases rows.len(),
{
    if rows.len() == 0 {
        m2
    } else {
        unwind_creates(compensation_spec(m2, failing, rows.last()).fs, failing, rows.drop_last())
    }
}

/// As many undos as mutations: a quiescent run of `k` successful Create
/// mutations followed by `k` compensations, applied newest-first as the
/// undo engine applies them, is equivalent to the empty sequence — the
/// filesystem returns to its starting state, and every compensation
/// along the way succeeds.
pub proof fn lemma_creates_then_undos_restore(
    m: Map<Seq<char>, FsObjectV>,
    failing: Seq<Seq<char>>,
    rows: Seq<ActionRecordV>,
)
    requires
        creates_ok(m, failing, rows),
    ensures
        unwind_creates(apply_creates(m, failing, rows), failing, rows) == m,
        rows.len() > 0 ==> compensation_spec(
            apply_creates(m, failing, rows),
            failing,
            rows.last(),
        ).err is None,
    decreases rows.len(),
{
    if rows.len() > 0 {
        let prefix = rows.drop_last();
        let e = rows.last();
        let prev = apply_creates(m, failing, prefix);
        lemma_create_compensation(prev, failing, e.target_new->0, e.link_type, false, e);
        assert(compensation_spec(apply_creates(m, failing, rows), failing, e).fs == prev);
        lemma_creates_then_undos_restore(m, failing, prefix);
    }
}

} // verus!
