//! The GitLab side: the executor's configuration, how it words the
//! failures of the `glab` tool, and how GitLab's single pipeline status
//! splits into a status and a conclusion.
use vstd::prelude::*;

use crate::gh::{classify_tool_error, tool_error_message};
use crate::model::{Conclusion, Job, RunStatus, WorkflowRun};
use crate::text::{chars_of, concat, decimal, join_spec, lines_of, same_text, string_of, tail_spec, u64_text};

verus! {

/// Options of the GitLab front end.
pub struct Cli {
    /// Project path, `group/project` or deeper.
    pub project: Option<String>,
    pub branch: Option<String>,
    /// Poll interval in seconds, at least 1.
    pub interval: u64,
    pub limit: usize,
    /// Pipeline source to filter on.
    pub source: Option<String>,
    pub no_notify: bool,
    pub verbose: bool,
}

/// `s` with every `/` written as `%2F`.
pub open spec fn url_encode_slashes(s: Seq<char>) -> Seq<char>
    decreases s.len(),
{
    if s.len() == 0 {
        seq![]
    } else {
        url_encode_slashes(s.drop_last()) + if s.last() == '/' {
            seq!['%', '2', 'F']
        } else {
            seq![s.last()]
        }
    }
}

/// Runs the `glab` tool against one project.
pub struct GlabExecutor {
    pub project: String,
    /// The project path as the API takes it in a URL.
    pub encoded_project: String,
}

impl GlabExecutor {
    pub fn new(project: String) -> (r: GlabExecutor)
        ensures
            r.project == project,
            r.encoded_project@ == url_encode_slashes(project@),
    {
        let cs = chars_of(project.as_str());
        let mut out: Vec<char> = Vec::new();
        let mut i: usize = 0;
        while i < cs.len()
            invariant
                i <= cs@.len(),
                cs@ == project@,
                out@ == url_encode_slashes(cs@.subrange(0, i as int)),
            decreases cs@.len() - i,
        {
            proof {
                assert(cs@.subrange(0, i + 1).drop_last() =~= cs@.subrange(0, i as int));
            }
            if cs[i] == '/' {
                out.push('%');
                out.push('2');
                out.push('F');
            } else {
                out.push(cs[i]);
            }
            assert(out@ =~= url_encode_slashes(cs@.subrange(0, i + 1)));
            i = i + 1;
        }
        assert(cs@.subrange(0, cs@.len() as int) =~= cs@);
        let encoded_project = string_of(out.as_slice());
        GlabExecutor { project, encoded_project }
    }
}

/// How a failure of `glab` is shown to the user.
pub fn classify_glab_error(stderr: &str) -> (r: String)
    ensures
        r@ == tool_error_message(
            stderr@,
            "glab"@,
            "Not authenticated with glab. Run `glab auth login` first."@,
            "Not in a GitLab repository. Use --project flag or cd into a repo."@,
        ),
{
    classify_tool_error(
        stderr,
        "glab",
        "Not authenticated with glab. Run `glab auth login` first.",
        "Not in a GitLab repository. Use --project flag or cd into a repo.",
    )
}

/// The status that a GitLab pipeline or job status stands for.
pub open spec fn glab_status(s: Seq<char>) -> RunStatus {
    if s == "success"@ || s == "failed"@ || s == "canceled"@ || s == "skipped"@ {
        RunStatus::Completed
    } else if s == "running"@ {
        RunStatus::InProgress
    } else if s == "pending"@ || s == "created"@ || s == "preparing"@ || s == "manual"@ || s
        == "scheduled"@ {
        RunStatus::Pending
    } else if s == "waiting_for_resource"@ {
        RunStatus::Waiting
    } else {
        RunStatus::Unknown
    }
}

/// The conclusion that a GitLab status stands for; only finished ones have one.
pub open spec fn glab_conclusion(s: Seq<char>) -> Option<Conclusion> {
    if s == "success"@ {
        Some(Conclusion::Success)
    } else if s == "failed"@ {
        Some(Conclusion::Failure)
    } else if s == "canceled"@ {
        Some(Conclusion::Cancelled)
    } else if s == "skipped"@ {
        Some(Conclusion::Skipped)
    } else {
        None
    }
}

/// Splits GitLab's single status into the run status.
pub fn map_status(status: &str) -> (r: RunStatus)
    ensures
        r == glab_status(status@),
{
    if same_text(status, "success") || same_text(status, "failed") || same_text(status, "canceled")
        || same_text(status, "skipped") {
        RunStatus::Completed
    } else if same_text(status, "running") {
        RunStatus::InProgress
    } else if same_text(status, "pending") || same_text(status, "created") || same_text(
        status,
        "preparing",
    ) || same_text(status, "manual") || same_text(status, "scheduled") {
        RunStatus::Pending
    } else if same_text(status, "waiting_for_resource") {
        RunStatus::Waiting
    } else {
        RunStatus::Unknown
    }
}

/// Splits GitLab's single status into the conclusion.
pub fn map_conclusion(status: &str) -> (r: Option<Conclusion>)
    ensures
        r == glab_conclusion(status@),
{
    if same_text(status, "success") {
        Some(Conclusion::Success)
    } else if same_text(status, "failed") {
        Some(Conclusion::Failure)
    } else if same_text(status, "canceled") {
        Some(Conclusion::Cancelled)
    } else if same_text(status, "skipped") {
        Some(Conclusion::Skipped)
    } else {
        None
    }
}

/// A GitLab pipeline as a run: its single status split in two, titled
/// `Pipeline #<iid>`, named and filed under its source. Timestamps are
/// seconds since the epoch.
pub fn pipeline_run(
    id: u64,
    iid: u64,
    git_ref: String,
    status: &str,
    source: String,
    created_at: i64,
    updated_at: i64,
    web_url: String,
) -> (r: WorkflowRun)
    ensures
        r.database_id == id,
        r.number == iid,
        r.display_title@ == "Pipeline #"@ + decimal(iid as nat),
        r.name == source,
        r.event == source,
        r.head_branch == git_ref,
        r.status == glab_status(status@),
        r.conclusion == glab_conclusion(status@),
        r.created_at == created_at,
        r.updated_at == updated_at,
        r.url == web_url,
        r.jobs is None,
{
    let n = u64_text(iid);
    WorkflowRun {
        database_id: id,
        number: iid,
        display_title: concat("Pipeline #", n.as_str()),
        name: source.clone(),
        head_branch: git_ref,
        status: map_status(status),
        conclusion: map_conclusion(status),
        created_at,
        updated_at,
        event: source,
        url: web_url,
        jobs: None,
    }
}

/// A GitLab job: always identified, and without steps, which GitLab does
/// not report.
pub fn glab_job(id: u64, name: String, status: &str, started_at: Option<i64>, finished_at: Option<i64>, web_url: String) -> (r: Job)
    ensures
        r.database_id == Some(id),
        r.name == name,
        r.status == glab_status(status@),
        r.conclusion == glab_conclusion(status@),
        r.started_at == started_at,
        r.completed_at == finished_at,
        r.url == web_url,
        r.steps@.len() == 0,
{
    Job {
        database_id: Some(id),
        name,
        status: map_status(status),
        conclusion: map_conclusion(status),
        started_at,
        completed_at: finished_at,
        url: web_url,
        steps: Vec::new(),
    }
}

/// The GitLab response parser.
pub struct GlabParser;

impl GlabParser {
    /// The tail of a job trace, as `text::process_log_output` keeps it.
    pub fn process_log_output(&self, raw: &str, max_lines: usize) -> (r: (String, bool))
        ensures
            r.1 == (lines_of(raw@).len() > max_lines),
            r.1 ==> r.0@ == join_spec(tail_spec(lines_of(raw@), max_lines as nat)),
            !r.1 ==> r.0@ == raw@,
    {
        crate::text::process_log_output(raw, max_lines)
    }
}

} // verus!
