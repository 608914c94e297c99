//! How the state answers the events of the driver loop: poll results, job
//! results, fetched logs, per-run errors, and the user's requests to rerun,
//! cancel or delete a run.
use vstd::prelude::*;

use crate::app::{retain_where, run_index, lemma_run_index_bounds, lemma_run_index_prefix, AppState};
use crate::diff::{changed_runs, detect_changes, lookup, merge_runs, recent};
use crate::model::{
    copy_jobs, same_jobs, ActiveOverlay, ConfirmAction, Job, RunStatus, Conclusion, TreeLevel, WorkflowRun,
    POLL_INTERVAL_ACTIVE, POLL_INTERVAL_IDLE, POLL_INTERVAL_RECENT, POLL_RECENT_THRESHOLD_SECS,
};
use crate::text::{concat, decimal};

verus! {

/// Two runs agree on everything but their jobs.
pub open spec fn same_but_jobs(a: WorkflowRun, b: WorkflowRun) -> bool {
    &&& a.database_id == b.database_id
    &&& a.display_title == b.display_title
    &&& a.name == b.name
    &&& a.head_branch == b.head_branch
    &&& a.status == b.status
    &&& a.conclusion == b.conclusion
    &&& a.created_at == b.created_at
    &&& a.updated_at == b.updated_at
    &&& a.event == b.event
    &&& a.number == b.number
    &&& a.url == b.url
}

/// The earlier record of a run keeps its fetched jobs valid: it was fetched
/// and the run has not been updated since.
pub open spec fn carries_jobs(old_runs: Seq<WorkflowRun>, run: WorkflowRun) -> bool {
    let j = run_index(old_runs, run.database_id);
    &&& j >= 0
    &&& old_runs[j].jobs is Some
    &&& old_runs[j].updated_at == run.updated_at
}

/// The run was fetched before, has been updated since, and is expanded: its
/// jobs have to be fetched again.
pub open spec fn needs_refetch(old_runs: Seq<WorkflowRun>, expanded: Seq<u64>) -> spec_fn(WorkflowRun) -> bool {
    |run: WorkflowRun| {
        let j = run_index(old_runs, run.database_id);
        &&& j >= 0
        &&& old_runs[j].jobs is Some
        &&& old_runs[j].updated_at != run.updated_at
        &&& expanded.contains(run.database_id)
    }
}

/// The ids of the runs, in order.
pub open spec fn ids_of(runs: Seq<WorkflowRun>) -> Seq<u64> {
    runs.map_values(|r: WorkflowRun| r.database_id)
}

/// Some run of the list has this id.
pub open spec fn has_id(runs: Seq<WorkflowRun>, id: u64) -> bool {
    exists|i: int| 0 <= i < runs.len() && (#[trigger] runs[i]).database_id == id
}

pub open spec fn id_present(runs: Seq<WorkflowRun>) -> spec_fn(u64) -> bool {
    |id: u64| has_id(runs, id)
}

pub open spec fn pair_run_present(runs: Seq<WorkflowRun>) -> spec_fn((u64, u64)) -> bool {
    |p: (u64, u64)| has_id(runs, p.0)
}

/// The polling interval for the current activity: active runs poll fast,
/// a recent successful poll keeps a medium pace, otherwise idle.
pub open spec fn interval_for(active: bool, last_poll: Option<u64>, now: u64) -> u64 {
    if active {
        POLL_INTERVAL_ACTIVE
    } else if last_poll is Some && (if now >= last_poll->0 { now - last_poll->0 } else { 0 })
        < POLL_RECENT_THRESHOLD_SECS {
        POLL_INTERVAL_RECENT
    } else {
        POLL_INTERVAL_IDLE
    }
}

fn has_run_id(runs: &Vec<WorkflowRun>, id: u64) -> (r: bool)
    ensures
        r == has_id(runs@, id),
{
    let mut i: usize = 0;
    while i < runs.len()
        invariant
            i <= runs@.len(),
            forall|k: int| 0 <= k < i ==> (#[trigger] runs@[k]).database_id != id,
        decreases runs@.len() - i,
    {
        if runs[i].database_id == id {
            return true;
        }
        i = i + 1;
    }
    false
}

fn id_is_present(id: &u64, runs: &Vec<WorkflowRun>) -> (b: bool)
    ensures
        b == id_present(runs@)(*id),
{
    has_run_id(runs, *id)
}

fn pair_is_present(p: &(u64, u64), runs: &Vec<WorkflowRun>) -> (b: bool)
    ensures
        b == pair_run_present(runs@)(*p),
{
    has_run_id(runs, p.0)
}

/// The index of the first run with this id.
fn find_run(runs: &Vec<WorkflowRun>, run_id: u64) -> (r: Option<usize>)
    ensures
        r matches Some(i) ==> i == run_index(runs@, run_id) && i < runs@.len(),
        r is None ==> run_index(runs@, run_id) == -1,
{
    let mut i: usize = 0;
    while i < runs.len()
        invariant
            i <= runs@.len(),
            run_index(runs@.subrange(0, i as int), run_id) == -1,
        decreases runs@.len() - i,
    {
        proof {
            assert(runs@.subrange(0, i + 1).drop_last() =~= runs@.subrange(0, i as int));
        }
        if runs[i].database_id == run_id {
            proof {
                lemma_run_index_prefix(runs@, i as int + 1, run_id);
            }
            return Some(i);
        }
        i = i + 1;
    }
    proof {
        assert(runs@.subrange(0, i as int) =~= runs@);
    }
    None
}

/// The index of the first job with this id, or -1.
pub open spec fn job_index(jobs: Seq<Job>, job_id: u64) -> int
    decreases jobs.len(),
{
    if jobs.len() == 0 {
        -1
    } else if job_index(jobs.drop_last(), job_id) >= 0 {
        job_index(jobs.drop_last(), job_id)
    } else if jobs.last().database_id == Some(job_id) {
        jobs.len() - 1
    } else {
        -1
    }
}

/// The title of the log overlay of a run, or of one of its jobs.
pub open spec fn log_title_spec(runs: Seq<WorkflowRun>, run_id: u64, job_id: Option<u64>) -> Seq<char> {
    let i = run_index(runs, run_id);
    let run_name = if i >= 0 { runs[i].display_title@ } else { "Unknown"@ };
    match job_id {
        None => run_name,
        Some(jid) => {
            let job_name = if i >= 0 && runs[i].jobs is Some && job_index(runs[i].jobs->0@, jid) >= 0 {
                runs[i].jobs->0@[job_index(runs[i].jobs->0@, jid)].name@
            } else {
                "Unknown job"@
            };
            run_name + " > "@ + job_name
        },
    }
}

/// The index of the first job with this id.
fn find_job(jobs: &Vec<Job>, job_id: u64) -> (r: Option<usize>)
    ensures
        r matches Some(i) ==> i == job_index(jobs@, job_id) && i < jobs@.len(),
        r is None ==> job_index(jobs@, job_id) == -1,
{
    let mut i: usize = 0;
    while i < jobs.len()
        invariant
            i <= jobs@.len(),
            job_index(jobs@.subrange(0, i as int), job_id) == -1,
        decreases jobs@.len() - i,
    {
        proof {
            assert(jobs@.subrange(0, i + 1).drop_last() =~= jobs@.subrange(0, i as int));
        }
        if jobs[i].database_id == Some(job_id) {
            proof {
                lemma_job_index_prefix(jobs@, i as int + 1, job_id);
            }
            return Some(i);
        }
        i = i + 1;
    }
    proof {
        assert(jobs@.subrange(0, i as int) =~= jobs@);
    }
    None
}

proof fn lemma_job_index_prefix(jobs: Seq<Job>, n: int, job_id: u64)
    requires
        0 < n <= jobs.len(),
        job_index(jobs.subrange(0, n - 1), job_id) == -1,
        jobs[n - 1].database_id == Some(job_id),
    ensures
        job_index(jobs, job_id) == n - 1,
    decreases jobs.len(),
{
    assert(jobs.subrange(0, n).drop_last() =~= jobs.subrange(0, n - 1));
    assert(job_index(jobs.subrange(0, n), job_id) == n - 1);
    if jobs.len() > n {
        assert(jobs.drop_last().subrange(0, n - 1) =~= jobs.subrange(0, n - 1));
        assert(jobs.drop_last().subrange(0, n) =~= jobs.subrange(0, n));
        lemma_job_index_prefix(jobs.drop_last(), n, job_id);
    } else {
        assert(jobs.subrange(0, n) =~= jobs);
    }
}

/// The run has just finished: it is completed now and was recorded as not
/// completed before.
pub open spec fn just_finished(snap: Seq<(u64, crate::model::SnapshotEntry)>, run: WorkflowRun) -> bool {
    &&& run.status == RunStatus::Completed
    &&& lookup(snap, run.database_id) is Some
    &&& lookup(snap, run.database_id)->0.status != RunStatus::Completed
}

/// The outcome of a request to rerun, cancel or delete the run under the cursor.
#[derive(Debug, Clone, Copy, PartialEq, Eq, Structural)]
pub enum RunRequest {
    /// There is no run under the cursor.
    NoRun,
    /// The request was refused; the reason is in the error toast.
    Refused,
    /// The request may go out for this run.
    Proceed(u64),
    /// A confirmation for this run was opened.
    AskConfirm(u64),
}

/// The outcome of a request to show the failure log of the row under the cursor.
#[derive(Debug, Clone, PartialEq, Eq)]
pub enum LogRequest {
    /// Nothing to show, or no run under the cursor.
    NoLog,
    /// Refused; the reason is in the error toast.
    Refused,
    /// A cached log was opened.
    Shown,
    /// The log has to be fetched, and then shown under this title.
    Fetch { run_id: u64, job_id: Option<u64>, title: String },
}

impl AppState {
    /// The log of the failed row under the cursor: opened from the cache
    /// when a fresh copy is there, else to be fetched. Rows that did not
    /// fail are refused, and so are jobs without an id yet.
    pub fn request_logs(&mut self, now: u64) -> (r: LogRequest)
        ensures
            ({
                let item = old(self).cursor_item()->0;
                let failed = old(self).cursor_item() is Some && old(self).resolvable(item)
                    && old(self).resolved_conclusion(item) == Some(Conclusion::Failure);
                if !failed {
                    r == LogRequest::Refused && final(self).error_text() == "No failure logs for this item"@
                        && final(self).error is Some
                } else if item.level != TreeLevel::Run && old(self).job_of(item).database_id is None {
                    r == LogRequest::Refused && final(self).error_text() == "Job ID unavailable, cannot fetch logs"@
                        && final(self).error is Some
                } else {
                    let run_id = old(self).runs@[item.run_idx as int].database_id;
                    let job_id = if item.level == TreeLevel::Run {
                        None
                    } else {
                        old(self).job_of(item).database_id
                    };
                    &&& (r is Shown || r is Fetch)
                    &&& r is Shown ==> (final(self).overlay matches ActiveOverlay::Log(o) && o.run_id == run_id
                        && o.job_id == job_id && o.title@ == log_title_spec(old(self).runs@, run_id, job_id))
                    &&& r matches LogRequest::Fetch { run_id: a, job_id: b, title: t } ==> a == run_id && b == job_id
                        && t@ == log_title_spec(old(self).runs@, run_id, job_id)
                        && final(self).overlay == old(self).overlay
                }
            }),
            final(self).same_tree(old(self)),
    {
        if !self.current_item_is_failed() {
            self.error = Some(("No failure logs for this item".to_owned(), now));
            return LogRequest::Refused;
        }
        let (run_id, job_id) = match self.current_item_ids() {
            Some(ids) => ids,
            None => {
                return LogRequest::NoLog;
            },
        };
        let level = self.tree_items[self.cursor].level;
        if level != TreeLevel::Run && job_id.is_none() {
            self.error = Some(("Job ID unavailable, cannot fetch logs".to_owned(), now));
            return LogRequest::Refused;
        }
        let title = self.log_title(run_id, job_id);
        let cached = match self.cached_log(run_id, job_id, now) {
            Some(c) => Some(c.clone()),
            None => None,
        };
        match cached {
            Some(content) => {
                self.open_log_overlay(title, content.as_str(), run_id, job_id);
                LogRequest::Shown
            },
            None => LogRequest::Fetch { run_id, job_id, title },
        }
    }

    /// Merges the runs of a new poll: announces changes, carries fetched
    /// jobs over for runs that have not been updated, forgets expansion
    /// state of runs that are gone, closes a log overlay whose run is gone,
    /// and rebuilds the tree. Returns the ids of expanded runs that were
    /// updated and whose jobs have to be fetched again.
    pub fn apply_poll_result(&mut self, new_runs: Vec<WorkflowRun>, manual: bool, now: u64) -> (r: Vec<u64>)
        requires
            old(self).poll_count < u64::MAX,
        ensures
            r@ == ids_of(new_runs@.filter(needs_refetch(old(self).runs@, old(self).expanded_runs@))),
            final(self).runs@.len() == new_runs@.len(),
            forall|i: int| 0 <= i < new_runs@.len() ==> {
                let a = #[trigger] final(self).runs@[i];
                let b = new_runs@[i];
                &&& same_but_jobs(a, b)
                &&& if carries_jobs(old(self).runs@, b) {
                    a.jobs is Some && same_jobs(
                        a.jobs->0@,
                        old(self).runs@[run_index(old(self).runs@, b.database_id)].jobs->0@,
                    )
                } else {
                    a.jobs == b.jobs
                }
            },
            final(self).expanded_runs@ == old(self).expanded_runs@.filter(id_present(new_runs@)),
            final(self).expanded_jobs@ == old(self).expanded_jobs@.filter(pair_run_present(new_runs@)),
            final(self).previous_snapshot@ == merge_runs(old(self).previous_snapshot@, new_runs@, final(self).poll_count).filter(
                recent(final(self).poll_count),
            ),
            final(self).poll_count == old(self).poll_count + 1,
            ({
                let changed = changed_runs(old(self).previous_snapshot@, new_runs@);
                let n0 = old(self).notifications@.len();
                &&& final(self).notifications@.len() == n0 + changed.len()
                &&& final(self).notifications@.subrange(0, n0 as int) == old(self).notifications@
                &&& forall|k: int| 0 <= k < changed.len() ==> {
                    let n = #[trigger] final(self).notifications@[n0 + k];
                    &&& n.run_id == changed[k].database_id
                    &&& n.message@ == crate::diff::change_message(changed[k])
                    &&& n.timestamp == now
                }
            }),
            final(self).error is None,
            final(self).run_errors@.len() == 0,
            final(self).loading_count == if manual && old(self).loading_count > 0 {
                old(self).loading_count - 1
            } else {
                old(self).loading_count as int
            },
            final(self).last_poll == Some(now),
            match old(self).overlay {
                ActiveOverlay::Log(o) => if has_id(new_runs@, o.run_id) {
                    final(self).overlay == old(self).overlay
                } else {
                    final(self).overlay is Closed
                },
                _ => final(self).overlay == old(self).overlay,
            },
            final(self).filter == old(self).filter,
            final(self).tree_consistent(),
    {
        if manual {
            self.loading_count = self.loading_count.saturating_sub(1);
        }
        self.error = None;
        self.run_errors = Vec::new();
        detect_changes(self, new_runs.as_slice(), now);

        let ghost old_runs = self.runs@;
        let ghost expanded = self.expanded_runs@;
        let ghost pred = needs_refetch(old_runs, expanded);
        let ghost incoming = new_runs@;
        let mut runs = new_runs;
        let mut refetch: Vec<u64> = Vec::new();
        let mut i: usize = 0;
        while i < runs.len()
            invariant
                i <= runs@.len(),
                runs@.len() == incoming.len(),
                self.runs@ == old_runs,
                self.expanded_runs@ == expanded,
                old_runs == old(self).runs@,
                expanded == old(self).expanded_runs@,
                pred == needs_refetch(old_runs, expanded),
                forall|k: int| i <= k < runs@.len() ==> #[trigger] runs@[k] == incoming[k],
                forall|k: int| 0 <= k < i ==> {
                    let a = #[trigger] runs@[k];
                    let b = incoming[k];
                    &&& same_but_jobs(a, b)
                    &&& if carries_jobs(old_runs, b) {
                        a.jobs is Some && same_jobs(a.jobs->0@, old_runs[run_index(old_runs, b.database_id)].jobs->0@)
                    } else {
                        a.jobs == b.jobs
                    }
                },
                refetch@ == ids_of(incoming.subrange(0, i as int).filter(pred)),
            decreases runs@.len() - i,
        {
            let id = runs[i].database_id;
            let updated = runs[i].updated_at;
            proof {
                let sub = incoming.subrange(0, i + 1);
                assert(sub.drop_last() =~= incoming.subrange(0, i as int));
                assert(sub.last() == incoming[i as int]);
                assert(sub.filter(pred) == if pred(incoming[i as int]) {
                    incoming.subrange(0, i as int).filter(pred).push(incoming[i as int])
                } else {
                    incoming.subrange(0, i as int).filter(pred)
                }) by {
                    reveal(Seq::filter);
                }
                lemma_run_index_bounds(old_runs, id);
            }
            match find_run(&self.runs, id) {
                Some(j) => {
                    match &self.runs[j].jobs {
                        Some(old_jobs) => {
                            if self.runs[j].updated_at == updated {
                                let carried = copy_jobs(old_jobs);
                                let mut run = runs.remove(i);
                                run.jobs = Some(carried);
                                runs.insert(i, run);
                            } else if crate::app::contains_id(&self.expanded_runs, id) {
                                refetch.push(id);
                            }
                        },
                        None => {},
                    }
                },
                None => {},
            }
            i = i + 1;
        }
        proof {
            assert(incoming.subrange(0, incoming.len() as int) =~= incoming);
        }

        let mut taken: Vec<u64> = Vec::new();
        std::mem::swap(&mut taken, &mut self.expanded_runs);
        proof {
            assert forall|id: u64| has_id(runs@, id) == has_id(incoming, id) by {
                if has_id(incoming, id) {
                    let k = choose|k: int| 0 <= k < incoming.len() && (#[trigger] incoming[k]).database_id == id;
                    assert(runs@[k].database_id == id);
                }
                if has_id(runs@, id) {
                    let k = choose|k: int| 0 <= k < runs@.len() && (#[trigger] runs@[k]).database_id == id;
                    assert(incoming[k].database_id == id);
                }
            }
            assert(id_present(runs@) =~= id_present(incoming));
            assert(pair_run_present(runs@) =~= pair_run_present(incoming));
        }
        self.expanded_runs = retain_where(taken, &runs, id_is_present, Ghost(id_present(runs@)));
        let mut taken_jobs: Vec<(u64, u64)> = Vec::new();
        std::mem::swap(&mut taken_jobs, &mut self.expanded_jobs);
        self.expanded_jobs = retain_where(taken_jobs, &runs, pair_is_present, Ghost(pair_run_present(runs@)));

        let close = match &self.overlay {
            ActiveOverlay::Log(o) => !has_run_id(&runs, o.run_id),
            _ => false,
        };
        if close {
            self.overlay = ActiveOverlay::Closed;
        }
        self.runs = runs;
        self.last_poll = Some(now);
        self.rebuild_tree();
        refetch
    }

    /// Stores the fetched jobs of a run, found by id, and rebuilds the tree.
    /// A result for a run that is gone changes nothing but the rebuild.
    pub fn apply_jobs_result(&mut self, run_id: u64, jobs: Vec<Job>)
        ensures
            run_index(old(self).runs@, run_id) >= 0 ==> final(self).runs@ == old(self).runs@.update(
                run_index(old(self).runs@, run_id),
                WorkflowRun { jobs: Some(jobs), ..old(self).runs@[run_index(old(self).runs@, run_id)] },
            ),
            run_index(old(self).runs@, run_id) == -1 ==> final(self).runs@ == old(self).runs@,
            final(self).expanded_runs@ == old(self).expanded_runs@,
            final(self).expanded_jobs@ == old(self).expanded_jobs@,
            final(self).filter == old(self).filter,
            final(self).tree_consistent(),
    {
        match find_run(&self.runs, run_id) {
            Some(j) => {
                let mut run = self.runs.remove(j);
                run.jobs = Some(jobs);
                self.runs.insert(j, run);
                proof {
                    assert(self.runs@ =~= old(self).runs@.update(
                        j as int,
                        WorkflowRun { jobs: Some(jobs), ..old(self).runs@[j as int] },
                    ));
                }
            },
            None => {},
        }
        self.rebuild_tree();
    }

    /// Attaches a sticky error to a run and rebuilds the tree.
    pub fn apply_run_error(&mut self, run_id: u64, error: String)
        ensures
            final(self).run_errors@ == old(self).run_errors@.filter(crate::app::error_other_run(run_id)).push((run_id, error)),
            final(self).same_tree_inputs(old(self)),
            final(self).tree_consistent(),
    {
        self.set_run_error(run_id, error);
        self.rebuild_tree();
    }

    /// Shows a fetched failure log and caches it at time `now`.
    pub fn apply_failed_log(&mut self, run_id: u64, job_id: Option<u64>, title: String, content: String, now: u64)
        ensures
            final(self).overlay matches ActiveOverlay::Log(o) && o.run_id == run_id && o.job_id == job_id
                && o.title == title && o.scroll == 0
                && crate::text::texts(o.lines@) == crate::text::tail_spec(crate::text::lines_of(content@), crate::model::LOG_MAX_LINES as nat),
            final(self).log_cache@.len() > 0,
            final(self).log_cache@.last().run_id == run_id,
            final(self).log_cache@.last().job_id == job_id,
            final(self).log_cache@.last().log.content == content,
            final(self).log_cache@.last().log.fetched_at == now,
            final(self).same_tree(old(self)),
    {
        self.open_log_overlay(title, content.as_str(), run_id, job_id);
        self.cache_log(run_id, job_id, content, now);
    }

    /// The polling interval that the current activity calls for at `now`.
    pub fn desired_poll_interval(&self, now: u64) -> (r: u64)
        ensures
            r == interval_for(self.has_active_runs_spec(), self.last_poll, now),
    {
        if self.has_active_runs() {
            POLL_INTERVAL_ACTIVE
        } else {
            match self.last_poll {
                Some(t) => if now.saturating_sub(t) < POLL_RECENT_THRESHOLD_SECS {
                    POLL_INTERVAL_RECENT
                } else {
                    POLL_INTERVAL_IDLE
                },
                None => POLL_INTERVAL_IDLE,
            }
        }
    }

    /// Adopts the interval that the activity calls for; returns it when it
    /// changed, so that the poller can be woken.
    pub fn refresh_poll_interval(&mut self, now: u64) -> (r: Option<u64>)
        ensures
            final(self).poll_interval == interval_for(old(self).has_active_runs_spec(), old(self).last_poll, now),
            r == if final(self).poll_interval != old(self).poll_interval {
                Some(final(self).poll_interval)
            } else {
                None
            },
            final(self).same_tree(old(self)),
    {
        let next = self.desired_poll_interval(now);
        if next != self.poll_interval {
            self.poll_interval = next;
            Some(next)
        } else {
            None
        }
    }

    /// A rerun of the run under the cursor: refused while it is not
    /// completed, or when it succeeded.
    pub fn request_rerun(&mut self, now: u64) -> (r: RunRequest)
        ensures
            ({
                let st = old(self).runs@[old(self).cursor_item()->0.run_idx as int];
                if !crate::app::cursor_on_run(old(self)) {
                    r == RunRequest::NoRun && final(self).error == old(self).error
                } else if st.status != RunStatus::Completed {
                    r == RunRequest::Refused && final(self).error is Some
                        && final(self).error_text() == "Cannot rerun: workflow is still in progress"@
                } else if run_index(old(self).runs@, st.database_id) >= 0
                    && old(self).runs@[run_index(old(self).runs@, st.database_id)].conclusion == Some(Conclusion::Success) {
                    r == RunRequest::Refused && final(self).error is Some
                        && final(self).error_text() == "Run completed successfully \u{2014} nothing to rerun"@
                } else {
                    r == RunRequest::Proceed(st.database_id) && final(self).error == old(self).error
                }
            }),
            final(self).same_tree(old(self)),
            final(self).overlay == old(self).overlay,
    {
        let run_id = match self.current_run_id() {
            Some(id) => id,
            None => {
                return RunRequest::NoRun;
            },
        };
        let conclusion = match find_run(&self.runs, run_id) {
            Some(j) => self.runs[j].conclusion,
            None => None,
        };
        if self.current_run_status() != Some(RunStatus::Completed) {
            self.error = Some(("Cannot rerun: workflow is still in progress".to_owned(), now));
            RunRequest::Refused
        } else if conclusion == Some(Conclusion::Success) {
            self.error = Some(("Run completed successfully \u{2014} nothing to rerun".to_owned(), now));
            RunRequest::Refused
        } else {
            RunRequest::Proceed(run_id)
        }
    }

    /// A cancel of the run under the cursor: refused unless it is in
    /// progress; otherwise asks for confirmation.
    pub fn request_cancel(&mut self, now: u64) -> (r: RunRequest)
        ensures
            ({
                let st = old(self).runs@[old(self).cursor_item()->0.run_idx as int];
                if !crate::app::cursor_on_run(old(self)) {
                    r == RunRequest::NoRun && final(self).overlay == old(self).overlay
                } else if st.status != RunStatus::InProgress {
                    r == RunRequest::Refused && final(self).error is Some
                        && final(self).error_text() == "Cannot cancel: run is not in progress"@
                        && final(self).overlay == old(self).overlay
                } else {
                    r == RunRequest::AskConfirm(st.database_id)
                        && (final(self).overlay matches ActiveOverlay::Confirm(c)
                        && c.action == ConfirmAction::CancelRun(st.database_id)
                        && c.title@ == "Confirm Cancel"@
                        && c.message@ == "Cancel \""@ + st.name@ + " #"@ + decimal(st.number as nat) + "\"?"@)
                }
            }),
            final(self).same_tree(old(self)),
    {
        let run_id = match self.current_run_id() {
            Some(id) => id,
            None => {
                return RunRequest::NoRun;
            },
        };
        if self.current_run_status() != Some(RunStatus::InProgress) {
            self.error = Some(("Cannot cancel: run is not in progress".to_owned(), now));
            RunRequest::Refused
        } else {
            let message = self.confirm_message("Cancel \"");
            self.open_confirm_overlay("Confirm Cancel".to_owned(), message, ConfirmAction::CancelRun(run_id));
            RunRequest::AskConfirm(run_id)
        }
    }

    /// A delete of the run under the cursor: refused while it is in
    /// progress; otherwise asks for confirmation.
    pub fn request_delete(&mut self, now: u64) -> (r: RunRequest)
        ensures
            ({
                let st = old(self).runs@[old(self).cursor_item()->0.run_idx as int];
                if !crate::app::cursor_on_run(old(self)) {
                    r == RunRequest::NoRun && final(self).overlay == old(self).overlay
                } else if st.status == RunStatus::InProgress {
                    r == RunRequest::Refused && final(self).error is Some
                        && final(self).error_text() == "Cannot delete: run is still in progress"@
                        && final(self).overlay == old(self).overlay
                } else {
                    r == RunRequest::AskConfirm(st.database_id)
                        && (final(self).overlay matches ActiveOverlay::Confirm(c)
                        && c.action == ConfirmAction::DeleteRun(st.database_id)
                        && c.title@ == "Confirm Delete"@
                        && c.message@ == "Delete \""@ + st.name@ + " #"@ + decimal(st.number as nat) + "\"?"@)
                }
            }),
            final(self).same_tree(old(self)),
    {
        let run_id = match self.current_run_id() {
            Some(id) => id,
            None => {
                return RunRequest::NoRun;
            },
        };
        if self.current_run_status() == Some(RunStatus::InProgress) {
            self.error = Some(("Cannot delete: run is still in progress".to_owned(), now));
            RunRequest::Refused
        } else {
            let message = self.confirm_message("Delete \"");
            self.open_confirm_overlay("Confirm Delete".to_owned(), message, ConfirmAction::DeleteRun(run_id));
            RunRequest::AskConfirm(run_id)
        }
    }

    /// `<verb> "<name> #<number>"?` for the run under the cursor.
    fn confirm_message(&self, lead: &str) -> (r: String)
        requires
            crate::app::cursor_on_run(self),
        ensures
            ({
                let st = self.runs@[self.cursor_item()->0.run_idx as int];
                r@ == lead@ + st.name@ + " #"@ + decimal(st.number as nat) + "\"?"@
            }),
    {
        let title = match self.current_run_display_title() {
            Some(t) => t,
            None => String::new(),
        };
        proof {
            reveal_strlit(" #");
        }
        let a = concat(lead, title.as_str());
        concat(a.as_str(), "\"?")
    }

    /// Takes the pending confirmation: closes the confirm overlay and
    /// returns its action, exactly once.
    pub fn take_confirmed_action(&mut self) -> (r: Option<ConfirmAction>)
        ensures
            r == match old(self).overlay {
                ActiveOverlay::Confirm(o) => Some(o.action),
                _ => None,
            },
            r is Some ==> final(self).overlay is Closed,
            r is None ==> final(self).overlay == old(self).overlay,
            final(self).same_tree(old(self)),
    {
        let action = self.confirm_action();
        if action.is_some() {
            self.close_confirm_overlay();
        }
        action
    }

    /// After a rerun was triggered, its cached logs are stale.
    pub fn apply_rerun_success(&mut self, run_id: u64, now: u64)
        ensures
            final(self).log_cache@ == old(self).log_cache@.filter(crate::app::cache_other_run(run_id)),
            final(self).notifications@.len() == old(self).notifications@.len() + 1,
            final(self).notifications@.last().run_id == run_id,
            final(self).notifications@.last().message@ == "Rerun triggered"@,
            final(self).same_tree(old(self)),
    {
        self.forget_logs_of(run_id);
        self.add_notification(run_id, "Rerun triggered".to_owned(), now);
    }

    /// After a run was deleted remotely, it leaves the state.
    pub fn apply_delete_success(&mut self, run_id: u64, now: u64)
        ensures
            run_index(old(self).runs@, run_id) >= 0 ==> final(self).runs@ == old(self).runs@.remove(
                run_index(old(self).runs@, run_id),
            ),
            run_index(old(self).runs@, run_id) == -1 ==> final(self).runs@ == old(self).runs@,
            final(self).notifications@.len() == old(self).notifications@.len() + 1,
            final(self).notifications@.last().run_id == run_id,
            final(self).notifications@.last().message@ == "Run deleted"@,
            old(self).tree_consistent() || run_index(old(self).runs@, run_id) >= 0 ==> final(self).tree_consistent(),
    {
        let ghost pre = *self;
        self.remove_run(run_id);
        let ghost mid = *self;
        self.add_notification(run_id, "Run deleted".to_owned(), now);
        proof {
            if pre.tree_consistent() || run_index(pre.runs@, run_id) >= 0 {
                if run_index(pre.runs@, run_id) == -1 {
                    crate::app::lemma_same_tree_consistent(&pre, &mid);
                }
                crate::app::lemma_same_tree_consistent(&mid, self);
            }
        }
    }
    /// The title of the log overlay of a run, or of one of its jobs.
    pub fn log_title(&self, run_id: u64, job_id: Option<u64>) -> (r: String)
        ensures
            r@ == log_title_spec(self.runs@, run_id, job_id),
    {
        let idx = find_run(&self.runs, run_id);
        proof {
            lemma_run_index_bounds(self.runs@, run_id);
        }
        let run_name: &str = match idx {
            Some(i) => self.runs[i].display_title.as_str(),
            None => "Unknown",
        };
        match job_id {
            None => run_name.to_owned(),
            Some(jid) => {
                let mut job_name: &str = "Unknown job";
                if let Some(i) = idx {
                    if let Some(jobs) = &self.runs[i].jobs {
                        if let Some(j) = find_job(jobs, jid) {
                            job_name = jobs[j].name.as_str();
                        }
                    }
                }
                let a = concat(run_name, " > ");
                concat(a.as_str(), job_name)
            },
        }
    }

    /// The indices of the runs of a poll that have just finished, in order;
    /// they are the ones a desktop notification is sent for.
    pub fn newly_completed(&self, new_runs: &Vec<WorkflowRun>) -> (r: Vec<usize>)
        ensures
            forall|k: int| 0 <= k < r@.len() ==> (#[trigger] r@[k]) < new_runs@.len()
                && just_finished(self.previous_snapshot@, new_runs@[r@[k] as int]),
            forall|k: int, l: int| 0 <= k < l < r@.len() ==> (#[trigger] r@[k]) < (#[trigger] r@[l]),
            forall|i: int| 0 <= i < new_runs@.len() && just_finished(self.previous_snapshot@, #[trigger] new_runs@[i])
                ==> r@.contains(i as usize),
    {
        let mut out: Vec<usize> = Vec::new();
        let mut i: usize = 0;
        while i < new_runs.len()
            invariant
                i <= new_runs@.len(),
                forall|k: int| 0 <= k < out@.len() ==> (#[trigger] out@[k]) < i
                    && just_finished(self.previous_snapshot@, new_runs@[out@[k] as int]),
                forall|k: int, l: int| 0 <= k < l < out@.len() ==> (#[trigger] out@[k]) < (#[trigger] out@[l]),
                forall|j: int| 0 <= j < i && just_finished(self.previous_snapshot@, #[trigger] new_runs@[j])
                    ==> out@.contains(j as usize),
            decreases new_runs@.len() - i,
        {
            let ghost prev = out@;
            let run = &new_runs[i];
            if run.status == RunStatus::Completed {
                match crate::diff::find_snapshot(&self.previous_snapshot, run.database_id) {
                    Some(e) => {
                        if e.status != RunStatus::Completed {
                            out.push(i);
                        }
                    },
                    None => {},
                }
            }
            assert forall|j: int| 0 <= j < i + 1 && just_finished(self.previous_snapshot@, #[trigger] new_runs@[j])
                implies out@.contains(j as usize) by {
                if j < i {
                    let k = choose|k: int| 0 <= k < prev.len() && prev[k] == j as usize;
                    assert(out@[k] == prev[k]);
                } else {
                    assert(out@[out@.len() - 1] == i);
                }
            }
            i = i + 1;
        }
        out
    }
}

} // verus!
