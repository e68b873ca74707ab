//! The append-only action log: every mutation attempt becomes a row with
//! a strictly increasing id. Rows are never updated or deleted; readers
//! page through them newest-first, and the undo engine scans the
//! successful rows newest-first.

use vstd::prelude::*;
use vstd::string::StringExecFns;
use crate::types::{ActionInput, ActionRecord, ActionRecordV, opt_text};

verus! {

/// The most rows one history page may hold.
pub const MAX_HISTORY_LIMIT: u32 = 1000;

/// Copies an optional text field.
pub fn clone_opt_string(o: &Option<String>) -> (r: Option<String>)
    ensures
        opt_text(r) == opt_text(*o),
{
    match o {
        Some(s) => Some(s.clone()),
        None => None,
    }
}

/// Copies a log row.
pub fn copy_record(r: &ActionRecord) -> (c: ActionRecord)
    ensures
        c@ == r@,
{
    ActionRecord {
        id: r.id,
        action_type: r.action_type.clone(),
        link_path: r.link_path.clone(),
        link_type: r.link_type,
        target_old: clone_opt_string(&r.target_old),
        target_new: clone_opt_string(&r.target_new),
        timestamp: r.timestamp.clone(),
        success: r.success,
        error_msg: clone_opt_string(&r.error_msg),
    }
}

/// The views of a list of column name/definition pairs.
pub open spec fn column_views(cols: Seq<(String, String)>) -> Seq<(Seq<char>, Seq<char>)> {
    cols.map_values(|p: (String, String)| (p.0@, p.1@))
}

/// The columns an additive upgrade must add for a given set of existing
/// column names: the absent ones of the eight fixed name/definition
/// pairs, in declaration order.
pub open spec fn missing_columns_spec(ex: Seq<Seq<char>>) -> Seq<(Seq<char>, Seq<char>)> {
    (if ex.contains("action_type"@) {
        Seq::empty()
    } else {
        seq![("action_type"@, "TEXT NOT NULL DEFAULT 'Unknown'"@)]
    }) + (if ex.contains("link_path"@) {
        Seq::empty()
    } else {
        seq![("link_path"@, "TEXT NOT NULL DEFAULT ''"@)]
    }) + (if ex.contains("link_type"@) {
        Seq::empty()
    } else {
        seq![("link_type"@, "TEXT NOT NULL DEFAULT 'Symlink'"@)]
    }) + (if ex.contains("target_old"@) {
        Seq::empty()
    } else {
        seq![("target_old"@, "TEXT"@)]
    }) + (if ex.contains("target_new"@) {
        Seq::empty()
    } else {
        seq![("target_new"@, "TEXT"@)]
    }) + (if ex.contains("timestamp"@) {
        Seq::empty()
    } else {
        seq![("timestamp"@, "TEXT NOT NULL DEFAULT ''"@)]
    }) + (if ex.contains("success"@) {
        Seq::empty()
    } else {
        seq![("success"@, "INTEGER NOT NULL DEFAULT 1"@)]
    }) + (if ex.contains("error_msg"@) {
        Seq::empty()
    } else {
        seq![("error_msg"@, "TEXT"@)]
    })
}

fn contains_text(v: &Vec<String>, s: &str) -> (r: bool)
    ensures
        r == v@.map_values(|x: String| x@).contains(s@),
{
    let ghost vs = v@.map_values(|x: String| x@);
    let mut i: usize = 0;
    while i < v.len()
        invariant
            vs == v@.map_values(|x: String| x@),
            i <= v@.len(),
            forall|j: int| 0 <= j < i ==> vs[j] != s@,
        decreases v@.len() - i,
    {
        if crate::strutil::str_eq(v[i].as_str(), s) {
            assert(vs[i as int] == s@);
            return true;
        }
        i = i + 1;
    }
    proof {
        if vs.contains(s@) {
            let j = choose|j: int| 0 <= j < vs.len() && vs[j] == s@;
        }
    }
    false
}

/// Plans an additive schema upgrade over the existing column names: the
/// id column is required, and every absent one of the eight fixed
/// columns is returned with its definition, in declaration order.
#[verifier::rlimit(80)]
pub fn plan_missing_columns(existing: &Vec<String>) -> (r: Result<Vec<(String, String)>, String>)
    ensures
        r is Err <==> !existing@.map_values(|s: String| s@).contains("id"@),
        r matches Err(e) ==> e@
            == "Migration failed: existing actions table is missing required id column"@,
        r matches Ok(cols) ==> column_views(cols@) == missing_columns_spec(
            existing@.map_values(|s: String| s@),
        ),
{
    if !contains_text(existing, "id") {
        return Err(
            String::from_str(
                "Migration failed: existing actions table is missing required id column",
            ),
        );
    }
    let mut cols: Vec<(String, String)> = Vec::new();
    if !contains_text(existing, "action_type") {
        cols.push(
            (String::from_str("action_type"), String::from_str("TEXT NOT NULL DEFAULT 'Unknown'")),
        );
    }
    if !contains_text(existing, "link_path") {
        cols.push((String::from_str("link_path"), String::from_str("TEXT NOT NULL DEFAULT ''")));
    }
    if !contains_text(existing, "link_type") {
        cols.push(
            (String::from_str("link_type"), String::from_str("TEXT NOT NULL DEFAULT 'Symlink'")),
        );
    }
    if !contains_text(existing, "target_old") {
        cols.push((String::from_str("target_old"), String::from_str("TEXT")));
    }
    if !contains_text(existing, "target_new") {
        cols.push((String::from_str("target_new"), String::from_str("TEXT")));
    }
    if !contains_text(existing, "timestamp") {
        cols.push((String::from_str("timestamp"), String::from_str("TEXT NOT NULL DEFAULT ''")));
    }
    if !contains_text(existing, "success") {
        cols.push((String::from_str("success"), String::from_str("INTEGER NOT NULL DEFAULT 1")));
    }
    if !contains_text(existing, "error_msg") {
        cols.push((String::from_str("error_msg"), String::from_str("TEXT")));
    }
    proof {
        assert(column_views(cols@) =~= missing_columns_spec(
            existing@.map_values(|s: String| s@),
        ));
    }
    Ok(cols)
}

/// The successful rows of a log, newest first.
pub open spec fn successes_desc(s: Seq<ActionRecordV>) -> Seq<ActionRecordV>
    decreases s.len(),
{
    if s.len() == 0 {
        Seq::empty()
    } else if s.last().success {
        seq![s.last()] + successes_desc(s.drop_last())
    } else {
        successes_desc(s.drop_last())
    }
}

/// The append-only action log.
pub struct ActionLog {
    records: Vec<ActionRecord>,
}

impl ActionLog {
    /// The rows, oldest first.
    pub closed spec fn rows(self) -> Seq<ActionRecordV> {
        self.records@.map_values(|r: ActionRecord| r@)
    }

    /// Ids increase strictly along the log: every append is observed
    /// after every earlier row, by every reader.
    pub open spec fn wf(self) -> bool {
        forall|i: int, j: int|
            0 <= i < j < self.rows().len() ==> (#[trigger] self.rows()[i]).id < (
            #[trigger] self.rows()[j]).id
    }

    /// Whether one more row can be appended without exhausting ids.
    pub open spec fn can_append(self) -> bool {
        self.rows().len() == 0 || self.rows().last().id < i64::MAX
    }

    /// An empty log.
    pub fn new() -> (r: ActionLog)
        ensures
            r.wf(),
            r.rows() == Seq::<ActionRecordV>::empty(),
    {
        let r = ActionLog { records: Vec::new() };
        proof {
            assert(r.rows() =~= Seq::<ActionRecordV>::empty());
        }
        r
    }

    /// How many rows the log holds.
    pub fn len(&self) -> (n: usize)
        ensures
            n == self.rows().len(),
    {
        self.records.len()
    }

    /// Appends one attempt as a new row. The new row's id is one past the
    /// newest id (starting at 1), so ids strictly increase across all
    /// appends.
    pub fn log_action(&mut self, action: ActionInput, timestamp: String) -> (id: i64)
        requires
            old(self).wf(),
            old(self).can_append(),
        ensures
            final(self).wf(),
            final(self).can_append() == (id < i64::MAX),
            id == (if old(self).rows().len() == 0 {
                1
            } else {
                old(self).rows().last().id + 1
            }),
            final(self).rows() == old(self).rows().push(
                ActionRecordV {
                    id,
                    action_type: action@.action_type,
                    link_path: action@.link_path,
                    link_type: action@.link_type,
                    target_old: action@.target_old,
                    target_new: action@.target_new,
                    timestamp: timestamp@,
                    success: action@.success,
                    error_msg: action@.error_msg,
                },
            ),
            forall|i: int|
                0 <= i < old(self).rows().len() ==> (#[trigger] old(self).rows()[i]).id < id,
    {
        let n = self.records.len();
        let id: i64 = if n == 0 {
            1
        } else {
            self.records[n - 1].id + 1
        };
        let row = ActionRecord {
            id,
            action_type: action.action_type,
            link_path: action.link_path,
            link_type: action.link_type,
            target_old: action.target_old,
            target_new: action.target_new,
            timestamp,
            success: action.success,
            error_msg: action.error_msg,
        };
        let ghost or = self.records@;
        self.records.push(row);
        proof {
            assert(final(self).rows() =~= old(self).rows().push(
                final(self).records@.last()@,
            ));
            assert forall|i: int| 0 <= i < old(self).rows().len() implies (
            #[trigger] old(self).rows()[i]).id < id by {
                if n > 0 {
                    assert(old(self).rows()[i].id <= old(self).rows()[n - 1].id);
                }
            }
        }
        id
    }

    /// The row at position `i`, oldest first.
    pub fn row_at(&self, i: usize) -> (r: ActionRecord)
        requires
            i < self.rows().len(),
        ensures
            r@ == self.rows()[i as int],
    {
        copy_record(&self.records[i])
    }

    /// One page of history, newest first: at most `limit` rows (capped),
    /// skipping the newest `offset`.
    pub fn get_history(&self, limit: u32, offset: u32) -> (r: Vec<ActionRecord>)
        ensures
            ({
                let cap = if limit < MAX_HISTORY_LIMIT {
                    limit
                } else {
                    MAX_HISTORY_LIMIT
                };
                let avail = if offset < self.rows().len() {
                    self.rows().len() - offset
                } else {
                    0
                };
                let take = if cap <= avail {
                    cap as int
                } else {
                    avail as int
                };
                &&& r@.len() == take
                &&& forall|q: int|
                    0 <= q < r@.len() ==> (#[trigger] r@[q])@ == self.rows()[self.rows().len() - 1
                        - offset - q]
            }),
    {
        let cap = if limit < MAX_HISTORY_LIMIT {
            limit
        } else {
            MAX_HISTORY_LIMIT
        };
        let n = self.records.len();
        let mut out: Vec<ActionRecord> = Vec::new();
        let mut q: usize = 0;
        while q < cap as usize && (offset as usize) < n && q < n - offset as usize
            invariant
                n == self.rows().len(),
                q <= n,
                (offset as usize) < n ==> q <= n - offset as usize,
                (offset as usize) >= n ==> q == 0,
                q <= cap as usize,
                out@.len() == q,
                forall|p: int|
                    0 <= p < q ==> (#[trigger] out@[p])@ == self.rows()[n - 1 - offset - p],
            decreases n - q,
        {
            let idx = n - 1 - offset as usize - q;
            out.push(copy_record(&self.records[idx]));
            q = q + 1;
        }
        out
    }

    /// The successful rows, newest first, as the undo engine scans them.
    pub fn successful_desc(&self) -> (r: Vec<ActionRecord>)
        ensures
            r@.map_values(|x: ActionRecord| x@) == successes_desc(self.rows()),
    {
        let n = self.records.len();
        let mut out: Vec<ActionRecord> = Vec::new();
        let mut j: usize = n;
        proof {
            assert(self.rows().subrange(n as int, n as int) =~= Seq::<ActionRecordV>::empty());
            assert(out@.map_values(|x: ActionRecord| x@) =~= successes_desc(
                self.rows().subrange(n as int, n as int),
            ));
        }
        while j > 0
            invariant
                n == self.rows().len(),
                j <= n,
                out@.map_values(|x: ActionRecord| x@) == successes_desc(
                    self.rows().subrange(j as int, n as int),
                ),
            decreases j,
        {
            j = j - 1;
            let ghost pre = self.rows().subrange(j as int + 1, n as int);
            let ghost cur = self.rows().subrange(j as int, n as int);
            proof {
                assert(cur == seq![self.rows()[j as int]] + pre);
                lemma_successes_prepend(self.rows()[j as int], pre);
            }
            if self.records[j].success {
                let ghost oo = out@;
                out.push(copy_record(&self.records[j]));
                proof {
                    assert(out@.map_values(|x: ActionRecord| x@) =~= oo.map_values(
                        |x: ActionRecord| x@,
                    ).push(out@.last()@));
                    assert(out@.map_values(|x: ActionRecord| x@) =~= successes_desc(cur));
                }
            } else {
                proof {
                    assert(out@.map_values(|x: ActionRecord| x@) =~= successes_desc(cur));
                }
            }
        }
        proof {
            assert(self.rows().subrange(0, n as int) =~= self.rows());
        }
        out
    }
}

/// Prepending one row to a newest-first scan appends it, filtered, at
/// the old end of the result.
proof fn lemma_successes_prepend(a: ActionRecordV, t: Seq<ActionRecordV>)
    ensures
        successes_desc(seq![a] + t) == successes_desc(t) + (if a.success {
            seq![a]
        } else {
            Seq::<ActionRecordV>::empty()
        }),
    decreases t.len(),
{
    let s = seq![a] + t;
    if t.len() == 0 {
        assert(s.len() == 1 && s.last() == a);
        assert(s.drop_last() =~= Seq::<ActionRecordV>::empty());
        assert(successes_desc(Seq::<ActionRecordV>::empty()) == Seq::<ActionRecordV>::empty());
        if a.success {
            assert(successes_desc(s) =~= successes_desc(t) + seq![a]);
        } else {
            assert(successes_desc(s) =~= successes_desc(t));
        }
    } else {
        assert(s.last() == t.last());
        assert(s.drop_last() =~= seq![a] + t.drop_last());
        lemma_successes_prepend(a, t.drop_last());
        if a.success {
            if t.last().success {
                assert(successes_desc(s) == seq![t.last()] + (successes_desc(t.drop_last())
                    + seq![a]));
                assert(seq![t.last()] + (successes_desc(t.drop_last()) + seq![a]) =~= (
                seq![t.last()] + successes_desc(t.drop_last())) + seq![a]);
            } else {
                assert(successes_desc(s) == successes_desc(t.drop_last()) + seq![a]);
            }
        } else {
            if t.last().success {
                assert(successes_desc(s) == seq![t.last()] + successes_desc(t.drop_last()));
            }
        }
    }
}

} // verus!
