//! Domain records for pipeline runs, jobs and steps, and the row projection
//! that the tree view is built from.
use vstd::prelude::*;

verus! {

/// Polling interval while any run is still active, in seconds.
pub const POLL_INTERVAL_ACTIVE: u64 = 3;

/// Polling interval shortly after the last successful poll, in seconds.
pub const POLL_INTERVAL_RECENT: u64 = 10;

/// Polling interval when nothing is happening, in seconds.
pub const POLL_INTERVAL_IDLE: u64 = 30;

/// A poll counts as recent for this many seconds.
pub const POLL_RECENT_THRESHOLD_SECS: u64 = 60;

/// Lifetime of a transient notification, in seconds.
pub const NOTIFICATION_TTL_SECS: u64 = 5;

/// Number of frames of the loading spinner.
pub const SPINNER_FRAME_COUNT: usize = 10;

/// Highest run number reachable by quick-select.
pub const QUICK_SELECT_MAX: usize = 9;

/// Below this terminal width the compact layout is used.
pub const NARROW_WIDTH_THRESHOLD: u16 = 60;

/// Lifetime of the global error toast, in seconds.
pub const ERROR_TTL_SECS: u64 = 10;

/// The log overlay keeps at most this many lines (the tail of the log).
pub const LOG_MAX_LINES: usize = 500;

/// Lifetime of a cached log, in seconds.
pub const LOG_CACHE_TTL_SECS: u64 = 120;

#[derive(Debug, Clone, Copy, PartialEq, Eq, Structural, Hash)]
pub enum RunStatus {
    Completed,
    InProgress,
    Queued,
    Requested,
    Waiting,
    Pending,
    Unknown,
}

impl RunStatus {
    /// A run in one of these states may still change on its own.
    pub open spec fn is_active_spec(self) -> bool {
        match self {
            RunStatus::InProgress | RunStatus::Queued | RunStatus::Waiting | RunStatus::Pending
            | RunStatus::Requested => true,
            _ => false,
        }
    }

    pub fn is_active(&self) -> (r: bool)
        ensures
            r == self.is_active_spec(),
    {
        match self {
            RunStatus::InProgress | RunStatus::Queued | RunStatus::Waiting | RunStatus::Pending
            | RunStatus::Requested => true,
            _ => false,
        }
    }
}

#[derive(Debug, Clone, Copy, PartialEq, Eq, Structural, Hash)]
pub enum Conclusion {
    Success,
    Failure,
    Cancelled,
    Skipped,
    TimedOut,
    ActionRequired,
    StartupFailure,
    Stale,
    Neutral,
    Unknown,
}

/// The last status seen for a run, and the poll in which it was seen.
#[derive(Debug, Clone, Copy, PartialEq, Eq, Structural)]
pub struct SnapshotEntry {
    pub status: RunStatus,
    pub conclusion: Option<Conclusion>,
    pub last_seen_poll: u64,
}

/// One execution of a pipeline. Timestamps are seconds since the Unix epoch.
#[derive(Debug, Clone)]
pub struct WorkflowRun {
    pub database_id: u64,
    pub display_title: String,
    pub name: String,
    pub head_branch: String,
    pub status: RunStatus,
    pub conclusion: Option<Conclusion>,
    pub created_at: i64,
    pub updated_at: i64,
    pub event: String,
    pub number: u64,
    pub url: String,
    /// `None` = not yet fetched, `Some(vec)` = fetched (possibly empty).
    pub jobs: Option<Vec<Job>>,
}

/// One unit of work of a run. `database_id` is `None` while the platform is
/// still provisioning the job.
#[derive(Debug, Clone)]
pub struct Job {
    pub database_id: Option<u64>,
    pub name: String,
    pub status: RunStatus,
    pub conclusion: Option<Conclusion>,
    pub started_at: Option<i64>,
    pub completed_at: Option<i64>,
    pub url: String,
    pub steps: Vec<Step>,
}

/// One step of a job; platforms without step-level data leave `steps` empty.
#[derive(Debug, Clone)]
pub struct Step {
    pub name: String,
    pub status: RunStatus,
    pub conclusion: Option<Conclusion>,
    pub number: u64,
    pub started_at: Option<i64>,
    pub completed_at: Option<i64>,
}

#[derive(Debug, Clone, Copy, PartialEq, Eq, Structural)]
pub enum TreeLevel {
    Run,
    Job,
    Step,
    Loading,
}

/// A visible row: indices into `runs`, their jobs and steps, not data.
/// Only valid until the next change of the runs or of the expansion state.
#[derive(Debug, Clone, Copy, PartialEq, Eq, Structural)]
pub struct TreeItem {
    pub level: TreeLevel,
    pub run_idx: usize,
    pub job_idx: Option<usize>,
    pub step_idx: Option<usize>,
    pub expanded: bool,
}

/// What a row points at.
pub enum ResolvedItem<'a> {
    Run(&'a WorkflowRun),
    Job(&'a Job),
    Step(&'a Step),
}

#[derive(Debug, Clone, Copy, PartialEq, Eq, Structural)]
pub enum FilterMode {
    All,
    ActiveOnly,
    CurrentBranch,
}

/// A transient message; `timestamp` is in seconds.
#[derive(Debug, Clone)]
pub struct Notification {
    pub run_id: u64,
    pub message: String,
    pub timestamp: u64,
}

/// A cached failure log; `fetched_at` is in seconds.
#[derive(Debug, Clone)]
pub struct FailedLog {
    pub content: String,
    pub fetched_at: u64,
}

/// A log cache entry, keyed by run and optional job.
#[derive(Debug, Clone)]
pub struct LogCacheEntry {
    pub run_id: u64,
    pub job_id: Option<u64>,
    pub log: FailedLog,
}

pub struct LogOverlay {
    pub title: String,
    pub lines: Vec<String>,
    pub scroll: usize,
    pub run_id: u64,
    pub job_id: Option<u64>,
}

pub struct DetailOverlay {
    pub title: String,
    pub lines: Vec<(String, String)>,
}

pub struct ConfirmOverlay {
    pub title: String,
    pub message: String,
    pub action: ConfirmAction,
}

#[derive(Debug, Clone, Copy, PartialEq, Eq, Structural)]
pub enum ConfirmAction {
    CancelRun(u64),
    DeleteRun(u64),
}

impl ConfirmAction {
    pub open spec fn run_id_spec(self) -> u64 {
        match self {
            ConfirmAction::CancelRun(id) => id,
            ConfirmAction::DeleteRun(id) => id,
        }
    }

    pub fn run_id(&self) -> (r: u64)
        ensures
            r == self.run_id_spec(),
    {
        match self {
            ConfirmAction::CancelRun(id) => *id,
            ConfirmAction::DeleteRun(id) => *id,
        }
    }
}

/// At most one overlay is active at a time; opening one replaces the other.
pub enum ActiveOverlay {
    Closed,
    Log(LogOverlay),
    Detail(DetailOverlay),
    Confirm(ConfirmOverlay),
}

/// Configuration fixed at startup.
pub struct AppConfig {
    pub repo: String,
    pub branch: Option<String>,
    pub limit: usize,
    pub workflow_filter: Option<String>,
    pub version_string: String,
}

/// Platform-specific names shown by the shared UI.
pub struct PlatformConfig {
    pub name: &'static str,
    pub full_name: &'static str,
    pub cli_tool: &'static str,
    pub install_hint: &'static str,
    pub ascii_art: &'static [&'static str],
}

/// A field-by-field copy of a step.
pub fn copy_step(s: &Step) -> (r: Step)
    ensures
        r == *s,
{
    Step {
        name: s.name.clone(),
        status: s.status,
        conclusion: s.conclusion,
        number: s.number,
        started_at: s.started_at,
        completed_at: s.completed_at,
    }
}

/// Two jobs hold the same data (their step lists as sequences).
pub open spec fn same_job(a: Job, b: Job) -> bool {
    &&& a.database_id == b.database_id
    &&& a.name == b.name
    &&& a.status == b.status
    &&& a.conclusion == b.conclusion
    &&& a.started_at == b.started_at
    &&& a.completed_at == b.completed_at
    &&& a.url == b.url
    &&& a.steps@ == b.steps@
}

/// Two job lists hold the same jobs in the same order.
pub open spec fn same_jobs(a: Seq<Job>, b: Seq<Job>) -> bool {
    &&& a.len() == b.len()
    &&& forall|i: int| 0 <= i < a.len() ==> same_job(#[trigger] a[i], b[i])
}

/// A field-by-field copy of a job and its steps.
pub fn copy_job(j: &Job) -> (r: Job)
    ensures
        same_job(r, *j),
{
    let mut steps: Vec<Step> = Vec::new();
    let mut i: usize = 0;
    while i < j.steps.len()
        invariant
            i <= j.steps@.len(),
            steps@ == j.steps@.subrange(0, i as int),
        decreases j.steps@.len() - i,
    {
        steps.push(copy_step(&j.steps[i]));
        i = i + 1;
    }
    assert(steps@ =~= j.steps@);
    Job {
        database_id: j.database_id,
        name: j.name.clone(),
        status: j.status,
        conclusion: j.conclusion,
        started_at: j.started_at,
        completed_at: j.completed_at,
        url: j.url.clone(),
        steps,
    }
}

/// A copy of a list of jobs.
pub fn copy_jobs(jobs: &Vec<Job>) -> (r: Vec<Job>)
    ensures
        same_jobs(r@, jobs@),
{
    let mut out: Vec<Job> = Vec::new();
    let mut i: usize = 0;
    while i < jobs.len()
        invariant
            i <= jobs@.len(),
            same_jobs(out@, jobs@.subrange(0, i as int)),
        decreases jobs@.len() - i,
    {
        out.push(copy_job(&jobs[i]));
        i = i + 1;
    }
    assert(jobs@.subrange(0, jobs@.len() as int) =~= jobs@);
    out
}

} // verus!
