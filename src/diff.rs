//! Change detection: compares each poll's runs with the statuses seen
//! before, announces transitions, and keeps the snapshot bounded.
use vstd::prelude::*;

use crate::app::{lemma_filter_contains_iff, retain_where, AppState};
use crate::model::{Conclusion, Notification, RunStatus, SnapshotEntry, WorkflowRun};
use crate::text::concat;

verus! {

/// A snapshot entry unseen for more than this many polls is evicted.
pub const SNAPSHOT_EVICTION_POLLS: u64 = 10;

pub open spec fn status_label(s: RunStatus) -> Seq<char> {
    match s {
        RunStatus::Completed => "Completed"@,
        RunStatus::InProgress => "InProgress"@,
        RunStatus::Queued => "Queued"@,
        RunStatus::Requested => "Requested"@,
        RunStatus::Waiting => "Waiting"@,
        RunStatus::Pending => "Pending"@,
        RunStatus::Unknown => "Unknown"@,
    }
}

pub open spec fn conclusion_label(c: Conclusion) -> Seq<char> {
    match c {
        Conclusion::Success => "Success"@,
        Conclusion::Failure => "Failure"@,
        Conclusion::Cancelled => "Cancelled"@,
        Conclusion::Skipped => "Skipped"@,
        Conclusion::TimedOut => "TimedOut"@,
        Conclusion::ActionRequired => "ActionRequired"@,
        Conclusion::StartupFailure => "StartupFailure"@,
        Conclusion::Stale => "Stale"@,
        Conclusion::Neutral => "Neutral"@,
        Conclusion::Unknown => "Unknown"@,
    }
}

/// The name of a status.
pub fn status_name(s: RunStatus) -> (r: &'static str)
    ensures
        r@ == status_label(s),
{
    match s {
        RunStatus::Completed => "Completed",
        RunStatus::InProgress => "InProgress",
        RunStatus::Queued => "Queued",
        RunStatus::Requested => "Requested",
        RunStatus::Waiting => "Waiting",
        RunStatus::Pending => "Pending",
        RunStatus::Unknown => "Unknown",
    }
}

/// The name of a conclusion.
pub fn conclusion_name(c: Conclusion) -> (r: &'static str)
    ensures
        r@ == conclusion_label(c),
{
    match c {
        Conclusion::Success => "Success",
        Conclusion::Failure => "Failure",
        Conclusion::Cancelled => "Cancelled",
        Conclusion::Skipped => "Skipped",
        Conclusion::TimedOut => "TimedOut",
        Conclusion::ActionRequired => "ActionRequired",
        Conclusion::StartupFailure => "StartupFailure",
        Conclusion::Stale => "Stale",
        Conclusion::Neutral => "Neutral",
        Conclusion::Unknown => "Unknown",
    }
}

/// The announcement of a run's new state.
pub open spec fn change_message(run: WorkflowRun) -> Seq<char> {
    let t = run.display_title@;
    match (run.status, run.conclusion) {
        (RunStatus::Completed, Some(Conclusion::Success)) => t + " completed successfully"@,
        (RunStatus::Completed, Some(Conclusion::Failure)) => t + " failed"@,
        (RunStatus::Completed, Some(c)) => t + " completed ("@ + conclusion_label(c) + ")"@,
        (RunStatus::InProgress, _) => t + " started"@,
        _ => t + " changed to "@ + status_label(run.status),
    }
}

/// The announcement of a run's new state.
pub fn change_message_text(run: &WorkflowRun) -> (r: String)
    ensures
        r@ == change_message(*run),
{
    let t = run.display_title.as_str();
    match (run.status, run.conclusion) {
        (RunStatus::Completed, Some(Conclusion::Success)) => concat(t, " completed successfully"),
        (RunStatus::Completed, Some(Conclusion::Failure)) => concat(t, " failed"),
        (RunStatus::Completed, Some(c)) => {
            let a = concat(t, " completed (");
            let b = concat(a.as_str(), conclusion_name(c));
            concat(b.as_str(), ")")
        },
        (RunStatus::InProgress, _) => concat(t, " started"),
        _ => {
            let a = concat(t, " changed to ");
            concat(a.as_str(), status_name(run.status))
        },
    }
}

/// The index of the first entry for `id`, or -1.
pub open spec fn key_index(s: Seq<(u64, SnapshotEntry)>, id: u64) -> int
    decreases s.len(),
{
    if s.len() == 0 {
        -1
    } else if key_index(s.drop_last(), id) >= 0 {
        key_index(s.drop_last(), id)
    } else if s.last().0 == id {
        s.len() - 1
    } else {
        -1
    }
}

/// The entry for `id`, if any.
pub open spec fn lookup(s: Seq<(u64, SnapshotEntry)>, id: u64) -> Option<SnapshotEntry> {
    if key_index(s, id) >= 0 {
        Some(s[key_index(s, id)].1)
    } else {
        None
    }
}

/// The run was seen before, with another status or conclusion.
pub open spec fn is_change(snap: Seq<(u64, SnapshotEntry)>) -> spec_fn(WorkflowRun) -> bool {
    |run: WorkflowRun| match lookup(snap, run.database_id) {
        Some(e) => e.status != run.status || e.conclusion != run.conclusion,
        None => false,
    }
}

/// The runs of a poll that are announced, in order.
pub open spec fn changed_runs(snap: Seq<(u64, SnapshotEntry)>, runs: Seq<WorkflowRun>) -> Seq<WorkflowRun> {
    runs.filter(is_change(snap))
}

/// The snapshot with `(id, e)` replacing the first entry for `id`, or added.
pub open spec fn upsert(s: Seq<(u64, SnapshotEntry)>, id: u64, e: SnapshotEntry) -> Seq<(u64, SnapshotEntry)> {
    if key_index(s, id) >= 0 {
        s.update(key_index(s, id), (id, e))
    } else {
        s.push((id, e))
    }
}

/// The entry recorded for a run seen in poll `poll`.
pub open spec fn entry_of(run: WorkflowRun, poll: u64) -> SnapshotEntry {
    SnapshotEntry { status: run.status, conclusion: run.conclusion, last_seen_poll: poll }
}

/// The snapshot after recording every run, in order.
pub open spec fn merge_runs(s: Seq<(u64, SnapshotEntry)>, runs: Seq<WorkflowRun>, poll: u64) -> Seq<(u64, SnapshotEntry)>
    decreases runs.len(),
{
    if runs.len() == 0 {
        s
    } else {
        let m = merge_runs(s, runs.drop_last(), poll);
        upsert(m, runs.last().database_id, entry_of(runs.last(), poll))
    }
}

/// The entry was seen within the last `SNAPSHOT_EVICTION_POLLS` polls.
pub open spec fn recent(poll: u64) -> spec_fn((u64, SnapshotEntry)) -> bool {
    |p: (u64, SnapshotEntry)| (if poll >= p.1.last_seen_poll { poll - p.1.last_seen_poll } else { 0 })
        <= SNAPSHOT_EVICTION_POLLS
}

fn entry_is_recent(p: &(u64, SnapshotEntry), poll: &u64) -> (b: bool)
    ensures
        b == recent(*poll)(*p),
{
    poll.saturating_sub(p.1.last_seen_poll) <= SNAPSHOT_EVICTION_POLLS
}

/// The index of the first entry for `id`.
fn find_key(s: &Vec<(u64, SnapshotEntry)>, id: u64) -> (r: Option<usize>)
    ensures
        r matches Some(i) ==> i == key_index(s@, id) && i < s@.len(),
        r is None ==> key_index(s@, id) == -1,
{
    let mut i: usize = 0;
    while i < s.len()
        invariant
            i <= s@.len(),
            key_index(s@.subrange(0, i as int), id) == -1,
        decreases s@.len() - i,
    {
        proof {
            assert(s@.subrange(0, i + 1).drop_last() =~= s@.subrange(0, i as int));
        }
        if s[i].0 == id {
            proof {
                lemma_key_index_prefix(s@, i as int + 1, id);
            }
            return Some(i);
        }
        i = i + 1;
    }
    proof {
        assert(s@.subrange(0, i as int) =~= s@);
    }
    None
}

/// The entry recorded for a run id, if any.
pub fn find_snapshot(s: &Vec<(u64, SnapshotEntry)>, id: u64) -> (r: Option<SnapshotEntry>)
    ensures
        r == lookup(s@, id),
{
    match find_key(s, id) {
        Some(i) => Some(s[i].1),
        None => None,
    }
}

/// A key found in a prefix is found at the same index in the whole snapshot.
pub proof fn lemma_key_index_prefix(s: Seq<(u64, SnapshotEntry)>, n: int, id: u64)
    requires
        0 < n <= s.len(),
        key_index(s.subrange(0, n - 1), id) == -1,
        s[n - 1].0 == id,
    ensures
        key_index(s, id) == n - 1,
    decreases s.len(),
{
    assert(s.subrange(0, n).drop_last() =~= s.subrange(0, n - 1));
    assert(key_index(s.subrange(0, n), id) == n - 1);
    if s.len() > n {
        assert(s.drop_last().subrange(0, n - 1) =~= s.subrange(0, n - 1));
        assert(s.drop_last().subrange(0, n) =~= s.subrange(0, n));
        lemma_key_index_prefix(s.drop_last(), n, id);
    } else {
        assert(s.subrange(0, n) =~= s);
    }
}

/// Compares a new poll with the snapshot: announces every run seen before
/// whose status or conclusion changed, records every run with the current
/// poll number, and evicts the entries unseen for too long.
pub fn detect_changes(state: &mut AppState, new_runs: &[WorkflowRun], now: u64)
    requires
        old(state).poll_count < u64::MAX,
    ensures
        final(state).poll_count == old(state).poll_count + 1,
        ({
            let changed = changed_runs(old(state).previous_snapshot@, new_runs@);
            let n0 = old(state).notifications@.len();
            &&& final(state).notifications@.len() == n0 + changed.len()
            &&& final(state).notifications@.subrange(0, n0 as int) == old(state).notifications@
            &&& forall|k: int| 0 <= k < changed.len() ==> {
                let n = #[trigger] final(state).notifications@[n0 + k];
                &&& n.run_id == changed[k].database_id
                &&& n.message@ == change_message(changed[k])
                &&& n.timestamp == now
            }
        }),
        final(state).previous_snapshot@ == merge_runs(old(state).previous_snapshot@, new_runs@, final(state).poll_count).filter(
            recent(final(state).poll_count),
        ),
        final(state).same_tree(old(state)),
        final(state).overlay == old(state).overlay,
        final(state).log_cache@ == old(state).log_cache@,
        final(state).run_errors@ == old(state).run_errors@,
        final(state).error == old(state).error,
        final(state).same_extras(old(state)),
{
    state.poll_count = state.poll_count + 1;
    let current_poll = state.poll_count;
    let ghost snap = state.previous_snapshot@;
    let ghost n0 = state.notifications@.len();
    let ghost pred = is_change(snap);
    let mut i: usize = 0;
    while i < new_runs.len()
        invariant
            i <= new_runs@.len(),
            state.previous_snapshot@ == snap,
            pred == is_change(snap),
            snap == old(state).previous_snapshot@,
            n0 == old(state).notifications@.len(),
            state.poll_count == current_poll,
            current_poll == old(state).poll_count + 1,
            state.same_tree(old(state)),
            state.overlay == old(state).overlay,
            state.log_cache@ == old(state).log_cache@,
            state.run_errors@ == old(state).run_errors@,
            state.error == old(state).error,
            state.same_extras(old(state)),
            ({
                let changed = new_runs@.subrange(0, i as int).filter(pred);
                &&& state.notifications@.len() == n0 + changed.len()
                &&& state.notifications@.subrange(0, n0 as int) == old(state).notifications@
                &&& forall|k: int| 0 <= k < changed.len() ==> {
                    let n = #[trigger] state.notifications@[n0 + k];
                    &&& n.run_id == changed[k].database_id
                    &&& n.message@ == change_message(changed[k])
                    &&& n.timestamp == now
                }
            }),
        decreases new_runs@.len() - i,
    {
        let run = &new_runs[i];
        let ghost before = state.notifications@;
        let ghost prev_changed = new_runs@.subrange(0, i as int).filter(pred);
        proof {
            let sub = new_runs@.subrange(0, i + 1);
            assert(sub.drop_last() =~= new_runs@.subrange(0, i as int));
            assert(sub.last() == new_runs@[i as int]);
            assert(sub.filter(pred) == if pred(new_runs@[i as int]) {
                prev_changed.push(new_runs@[i as int])
            } else {
                prev_changed
            }) by {
                reveal(Seq::filter);
            }
        }
        match find_key(&state.previous_snapshot, run.database_id) {
            Some(j) => {
                let e = state.previous_snapshot[j].1;
                if e.status != run.status || e.conclusion != run.conclusion {
                    let message = change_message_text(run);
                    state.notifications.push(
                        Notification { run_id: run.database_id, message, timestamp: now },
                    );
                    assert(state.notifications@.subrange(0, n0 as int) =~= before.subrange(0, n0 as int));
                }
            },
            None => {},
        }
        i = i + 1;
    }
    proof {
        assert(new_runs@.subrange(0, new_runs@.len() as int) =~= new_runs@);
    }
    let mut i: usize = 0;
    while i < new_runs.len()
        invariant
            i <= new_runs@.len(),
            state.previous_snapshot@ == merge_runs(snap, new_runs@.subrange(0, i as int), current_poll),
            state.poll_count == current_poll,
            state.same_tree(old(state)),
            state.overlay == old(state).overlay,
            state.log_cache@ == old(state).log_cache@,
            state.run_errors@ == old(state).run_errors@,
            state.error == old(state).error,
            state.same_extras(old(state)),
            state.notifications@.len() == n0 + changed_runs(snap, new_runs@).len(),
            state.notifications@.subrange(0, n0 as int) == old(state).notifications@,
            forall|k: int| 0 <= k < changed_runs(snap, new_runs@).len() ==> {
                let n = #[trigger] state.notifications@[n0 + k];
                &&& n.run_id == changed_runs(snap, new_runs@)[k].database_id
                &&& n.message@ == change_message(changed_runs(snap, new_runs@)[k])
                &&& n.timestamp == now
            },
        decreases new_runs@.len() - i,
    {
        let run = &new_runs[i];
        let entry = SnapshotEntry {
            status: run.status,
            conclusion: run.conclusion,
            last_seen_poll: current_poll,
        };
        proof {
            let sub = new_runs@.subrange(0, i + 1);
            assert(sub.drop_last() =~= new_runs@.subrange(0, i as int));
            assert(sub.last() == new_runs@[i as int]);
        }
        match find_key(&state.previous_snapshot, run.database_id) {
            Some(j) => {
                state.previous_snapshot.set(j, (run.database_id, entry));
            },
            None => {
                state.previous_snapshot.push((run.database_id, entry));
            },
        }
        i = i + 1;
    }
    proof {
        assert(new_runs@.subrange(0, new_runs@.len() as int) =~= new_runs@);
    }
    let mut taken: Vec<(u64, SnapshotEntry)> = Vec::new();
    std::mem::swap(&mut taken, &mut state.previous_snapshot);
    state.previous_snapshot = retain_where(taken, &current_poll, entry_is_recent, Ghost(recent(current_poll)));
}

/// Law: a run is announced only if it was in the snapshot before and its
/// status or conclusion differs from the one recorded there. So a first
/// sighting, or a run seen again unchanged, is never announced.
pub proof fn lemma_only_changes_announced(snap: Seq<(u64, SnapshotEntry)>, runs: Seq<WorkflowRun>, k: int)
    requires
        0 <= k < changed_runs(snap, runs).len(),
    ensures
        lookup(snap, changed_runs(snap, runs)[k].database_id) is Some,
        ({
            let run = changed_runs(snap, runs)[k];
            let e = lookup(snap, run.database_id)->0;
            e.status != run.status || e.conclusion != run.conclusion
        }),
        runs.contains(changed_runs(snap, runs)[k]),
{
    broadcast use vstd::seq_lib::group_filter_ensures;
    runs.lemma_filter_pred(is_change(snap), k);
    lemma_filter_contains_iff(runs, is_change(snap), changed_runs(snap, runs)[k]);
}

/// Law: a run id absent from the snapshot, or whose runs in this poll all
/// match the recorded status and conclusion, gets no announcement.
pub proof fn lemma_no_announcement_without_change(snap: Seq<(u64, SnapshotEntry)>, runs: Seq<WorkflowRun>, id: u64)
    requires
        lookup(snap, id) is None || forall|i: int| 0 <= i < runs.len() && (#[trigger] runs[i]).database_id == id
            ==> lookup(snap, id)->0.status == runs[i].status && lookup(snap, id)->0.conclusion == runs[i].conclusion,
    ensures
        forall|k: int| 0 <= k < changed_runs(snap, runs).len() ==> (#[trigger] changed_runs(snap, runs)[k]).database_id != id,
{
    assert forall|k: int| 0 <= k < changed_runs(snap, runs).len() implies (#[trigger] changed_runs(snap, runs)[k]).database_id != id by {
        lemma_only_changes_announced(snap, runs, k);
        let run = changed_runs(snap, runs)[k];
        if run.database_id == id {
            let i = choose|i: int| 0 <= i < runs.len() && runs[i] == run;
            assert(runs[i].database_id == id);
        }
    }
}

/// Law: after a poll, every snapshot entry was seen within the eviction
/// threshold; older entries are gone.
pub proof fn lemma_snapshot_entries_recent(merged: Seq<(u64, SnapshotEntry)>, poll: u64, k: int)
    requires
        0 <= k < merged.filter(recent(poll)).len(),
    ensures
        (if poll >= merged.filter(recent(poll))[k].1.last_seen_poll {
            poll - merged.filter(recent(poll))[k].1.last_seen_poll
        } else {
            0
        }) <= SNAPSHOT_EVICTION_POLLS,
{
    merged.lemma_filter_pred(recent(poll), k);
}

/// Law: an entry of the merged snapshot that is older than the threshold
/// does not survive eviction.
pub proof fn lemma_stale_entry_evicted(merged: Seq<(u64, SnapshotEntry)>, poll: u64, p: (u64, SnapshotEntry))
    requires
        (if poll >= p.1.last_seen_poll { poll - p.1.last_seen_poll } else { 0 }) > SNAPSHOT_EVICTION_POLLS,
    ensures
        !merged.filter(recent(poll)).contains(p),
{
    lemma_filter_contains_iff(merged, recent(poll), p);
}

/// `key_index` finds the first entry with the key, or -1 when there is none.
pub proof fn lemma_key_index_bounds(s: Seq<(u64, SnapshotEntry)>, id: u64)
    ensures
        -1 <= key_index(s, id) < s.len(),
        key_index(s, id) >= 0 ==> s[key_index(s, id)].0 == id,
        forall|k: int| 0 <= k < s.len() && (key_index(s, id) == -1 || k < key_index(s, id)) ==> (#[trigger] s[k]).0 != id,
    decreases s.len(),
{
    if s.len() > 0 {
        lemma_key_index_bounds(s.drop_last(), id);
        assert forall|k: int| 0 <= k < s.len() && (key_index(s, id) == -1 || k < key_index(s, id)) implies (#[trigger] s[k]).0 != id by {
            if k < s.len() - 1 {
                assert(s.drop_last()[k] == s[k]);
            }
        }
    }
}

/// The first entry with the key is where `key_index` points.
pub proof fn lemma_key_index_first(s: Seq<(u64, SnapshotEntry)>, id: u64, i: int)
    requires
        0 <= i < s.len(),
        s[i].0 == id,
        forall|k: int| 0 <= k < i ==> (#[trigger] s[k]).0 != id,
    ensures
        key_index(s, id) == i,
    decreases s.len(),
{
    if i < s.len() - 1 {
        assert forall|k: int| 0 <= k < i implies (#[trigger] s.drop_last()[k]).0 != id by {
            assert(s.drop_last()[k] == s[k]);
        }
        lemma_key_index_first(s.drop_last(), id, i);
    } else {
        lemma_key_index_bounds(s.drop_last(), id);
        if key_index(s.drop_last(), id) >= 0 {
            assert(s.drop_last()[key_index(s.drop_last(), id)] == s[key_index(s.drop_last(), id)]);
        }
    }
}

/// Without an entry for the key, `key_index` is -1.
pub proof fn lemma_key_index_none(s: Seq<(u64, SnapshotEntry)>, id: u64)
    requires
        forall|k: int| 0 <= k < s.len() ==> (#[trigger] s[k]).0 != id,
    ensures
        key_index(s, id) == -1,
{
    lemma_key_index_bounds(s, id);
}

/// Recording `(id, e)` makes `e` the entry for `id`, and leaves the entries
/// of the other keys as they were.
pub proof fn lemma_lookup_upsert(s: Seq<(u64, SnapshotEntry)>, id: u64, e: SnapshotEntry, other: u64)
    ensures
        lookup(upsert(s, id, e), id) == Some(e),
        other != id ==> lookup(upsert(s, id, e), other) == lookup(s, other),
{
    lemma_key_index_bounds(s, id);
    lemma_key_index_bounds(s, other);
    let t = upsert(s, id, e);
    let i = key_index(s, id);
    if i >= 0 {
        assert forall|k: int| 0 <= k < i implies (#[trigger] t[k]).0 != id by {
            assert(t[k] == s[k]);
        }
        lemma_key_index_first(t, id, i);
        if other != id {
            let j = key_index(s, other);
            if j >= 0 {
                assert forall|k: int| 0 <= k < j implies (#[trigger] t[k]).0 != other by {
                    if k != i {
                        assert(t[k] == s[k]);
                    }
                }
                lemma_key_index_first(t, other, j);
            } else {
                assert forall|k: int| 0 <= k < t.len() implies (#[trigger] t[k]).0 != other by {
                    if k != i {
                        assert(t[k] == s[k]);
                    }
                }
                lemma_key_index_none(t, other);
            }
        }
    } else {
        assert forall|k: int| 0 <= k < s.len() implies (#[trigger] t[k]).0 != id by {
            assert(t[k] == s[k]);
        }
        lemma_key_index_first(t, id, s.len() as int);
        if other != id {
            let j = key_index(s, other);
            if j >= 0 {
                assert forall|k: int| 0 <= k < j implies (#[trigger] t[k]).0 != other by {
                    assert(t[k] == s[k]);
                }
                lemma_key_index_first(t, other, j);
            } else {
                assert forall|k: int| 0 <= k < t.len() implies (#[trigger] t[k]).0 != other by {
                    if k < s.len() {
                        assert(t[k] == s[k]);
                    }
                }
                lemma_key_index_none(t, other);
            }
        }
    }
}

/// Every run of a poll has an entry stamped with that poll after merging.
pub proof fn lemma_merge_records_runs(s: Seq<(u64, SnapshotEntry)>, runs: Seq<WorkflowRun>, poll: u64, k: int)
    requires
        0 <= k < runs.len(),
    ensures
        lookup(merge_runs(s, runs, poll), runs[k].database_id) is Some,
        lookup(merge_runs(s, runs, poll), runs[k].database_id)->0.last_seen_poll == poll,
    decreases runs.len(),
{
    let last = runs.last();
    let m = merge_runs(s, runs.drop_last(), poll);
    lemma_lookup_upsert(m, last.database_id, entry_of(last, poll), runs[k].database_id);
    if k < runs.len() - 1 && runs[k].database_id != last.database_id {
        assert(runs.drop_last()[k] == runs[k]);
        lemma_merge_records_runs(s, runs.drop_last(), poll, k);
    }
}

/// Merging leaves the entries of runs not in the poll as they were.
pub proof fn lemma_merge_keeps_others(s: Seq<(u64, SnapshotEntry)>, runs: Seq<WorkflowRun>, poll: u64, id: u64)
    requires
        forall|k: int| 0 <= k < runs.len() ==> (#[trigger] runs[k]).database_id != id,
    ensures
        lookup(merge_runs(s, runs, poll), id) == lookup(s, id),
    decreases runs.len(),
{
    if runs.len() > 0 {
        assert forall|k: int| 0 <= k < runs.drop_last().len() implies (#[trigger] runs.drop_last()[k]).database_id != id by {
            assert(runs.drop_last()[k] == runs[k]);
        }
        lemma_merge_keeps_others(s, runs.drop_last(), poll, id);
        let last = runs.last();
        lemma_lookup_upsert(merge_runs(s, runs.drop_last(), poll), last.database_id, entry_of(last, poll), id);
    }
}

/// Law: after a poll, the snapshot holds an entry for every run of the
/// poll, stamped with the current poll number: statuses are merged in, and
/// eviction never drops them.
pub proof fn lemma_current_runs_kept(s: Seq<(u64, SnapshotEntry)>, runs: Seq<WorkflowRun>, poll: u64, k: int)
    requires
        0 <= k < runs.len(),
    ensures
        ({
            let merged = merge_runs(s, runs, poll);
            let e = lookup(merged, runs[k].database_id)->0;
            &&& e.last_seen_poll == poll
            &&& merged.filter(recent(poll)).contains((runs[k].database_id, e))
        }),
{
    let merged = merge_runs(s, runs, poll);
    let id = runs[k].database_id;
    lemma_merge_records_runs(s, runs, poll, k);
    lemma_key_index_bounds(merged, id);
    let i = key_index(merged, id);
    assert(merged.contains(merged[i]));
    lemma_filter_contains_iff(merged, recent(poll), merged[i]);
}

} // verus!
