//! The detail panel: the title and the label/value lines shown for a run,
//! a job or a step, and the durations and timestamps in it.
use vstd::prelude::*;

use crate::app::AppState;
use crate::diff::{conclusion_label, conclusion_name, status_label, status_name};
use crate::model::{Conclusion, Job, ResolvedItem, RunStatus, Step, WorkflowRun};
use crate::text::{concat, decimal, duration_text, format_duration, u64_text};

verus! {

/// A timestamp written as `YYYY-MM-DD HH:MM:SS UTC`, or `None` when it is
/// out of the calendar's range.
pub uninterp spec fn utc_text(secs: i64) -> Option<Seq<char>>;

/// Relies on `chrono::DateTime::from_timestamp` and its `format`: the UTC
/// date and time of `secs` seconds since the epoch, `None` out of range.
#[verifier::external_body]
fn utc_timestamp(secs: i64) -> (r: Option<String>)
    ensures
        r is Some == utc_text(secs) is Some,
        r matches Some(t) ==> t@ == utc_text(secs)->0,
{
    match chrono::DateTime::from_timestamp(secs, 0) {
        Some(dt) => Some(dt.format("%Y-%m-%d %H:%M:%S UTC").to_string()),
        None => None,
    }
}

/// How a timestamp is shown: its UTC text, or `-` out of range.
pub open spec fn stamp_text(secs: i64) -> Seq<char> {
    match utc_text(secs) {
        Some(t) => t,
        None => "-"@,
    }
}

/// A timestamp as shown in the detail panel.
pub fn format_stamp(secs: i64) -> (r: String)
    ensures
        r@ == stamp_text(secs),
{
    match utc_timestamp(secs) {
        Some(t) => t,
        None => "-".to_owned(),
    }
}

/// `x` kept within the range of `i64`.
pub open spec fn clamp_i64(x: int) -> int {
    if x > i64::MAX {
        i64::MAX as int
    } else if x < i64::MIN {
        i64::MIN as int
    } else {
        x
    }
}

/// The duration from a start to an end, or to `now` while still running;
/// empty without a start.
pub open spec fn duration_between(start: Option<i64>, end: Option<i64>, now: i64) -> Seq<char> {
    match (start, end) {
        (Some(s), Some(e)) => duration_text(clamp_i64(e - s)),
        (Some(s), None) => duration_text(clamp_i64(now - s)),
        _ => seq![],
    }
}

pub(crate) fn seconds_between(start: i64, end: i64) -> (r: i64)
    ensures
        r == clamp_i64(end - start),
{
    let d: i128 = end as i128 - start as i128;
    if d > i64::MAX as i128 {
        i64::MAX
    } else if d < i64::MIN as i128 {
        i64::MIN
    } else {
        d as i64
    }
}

/// How long something ran, as `duration_between` says.
pub fn compute_duration(started_at: Option<i64>, completed_at: Option<i64>, now: i64) -> (r: String)
    ensures
        r@ == duration_between(started_at, completed_at, now),
{
    match (started_at, completed_at) {
        (Some(s), Some(e)) => format_duration(seconds_between(s, e)),
        (Some(s), None) => format_duration(seconds_between(s, now)),
        _ => String::new(),
    }
}

/// The label/value lines as texts.
pub open spec fn line_texts(v: Seq<(String, String)>) -> Seq<(Seq<char>, Seq<char>)> {
    v.map_values(|p: (String, String)| (p.0@, p.1@))
}

/// A conclusion's name, or `-` without one.
pub open spec fn conclusion_text(c: Option<Conclusion>) -> Seq<char> {
    match c {
        Some(c) => conclusion_label(c),
        None => "-"@,
    }
}

/// The optional timing lines of a job or step.
pub open spec fn timing_lines(started: Option<i64>, completed: Option<i64>, now: i64) -> Seq<(Seq<char>, Seq<char>)> {
    let a = match started {
        Some(s) => seq![("Started"@, stamp_text(s))],
        None => seq![],
    };
    let b = match completed {
        Some(c) => seq![("Completed"@, stamp_text(c))],
        None => seq![],
    };
    let d = if started is Some {
        seq![
            (
                "Duration"@,
                if completed is None {
                    duration_between(started, completed, now) + " (running)"@
                } else {
                    duration_between(started, completed, now)
                },
            ),
        ]
    } else {
        seq![]
    };
    a + b + d
}

pub open spec fn run_lines(run: WorkflowRun, now: i64) -> Seq<(Seq<char>, Seq<char>)> {
    seq![
        ("Title"@, run.display_title@),
        ("Workflow"@, run.name@),
        ("Branch"@, run.head_branch@),
        ("Event"@, run.event@),
        ("Status"@, status_label(run.status)),
        ("Conclusion"@, conclusion_text(run.conclusion)),
        (
            "Duration"@,
            duration_between(
                Some(run.created_at),
                if run.status == RunStatus::Completed {
                    Some(run.updated_at)
                } else {
                    None
                },
                now,
            ),
        ),
        ("Created"@, stamp_text(run.created_at)),
        ("Updated"@, stamp_text(run.updated_at)),
        ("URL"@, run.url@),
    ]
}

pub open spec fn job_lines(job: Job, parent: Option<WorkflowRun>, now: i64) -> Seq<(Seq<char>, Seq<char>)> {
    seq![
        ("Name"@, job.name@),
        ("Status"@, status_label(job.status)),
        ("Conclusion"@, conclusion_text(job.conclusion)),
    ] + timing_lines(job.started_at, job.completed_at, now) + seq![("URL"@, job.url@)] + match parent {
        Some(run) => seq![("Run"@, "#"@ + decimal(run.number as nat) + " "@ + run.display_title@)],
        None => seq![],
    }
}

pub open spec fn step_lines(step: Step, now: i64) -> Seq<(Seq<char>, Seq<char>)> {
    seq![
        ("Name"@, step.name@),
        ("Number"@, decimal(step.number as nat)),
        ("Status"@, status_label(step.status)),
        ("Conclusion"@, conclusion_text(step.conclusion)),
    ] + timing_lines(step.started_at, step.completed_at, now)
}

fn push_line(lines: &mut Vec<(String, String)>, label: &str, value: String)
    ensures
        line_texts(final(lines)@) == line_texts(old(lines)@).push((label@, value@)),
{
    let ghost before = lines@;
    lines.push((label.to_owned(), value));
    assert(line_texts(lines@) =~= line_texts(before).push((label@, value@)));
}

fn conclusion_or_dash(c: Option<Conclusion>) -> (r: String)
    ensures
        r@ == conclusion_text(c),
{
    match c {
        Some(c) => conclusion_name(c).to_owned(),
        None => "-".to_owned(),
    }
}

fn push_timing(lines: &mut Vec<(String, String)>, started: Option<i64>, completed: Option<i64>, now: i64)
    ensures
        line_texts(final(lines)@) == line_texts(old(lines)@) + timing_lines(started, completed, now),
{
    let ghost before = line_texts(lines@);
    if let Some(s) = started {
        push_line(lines, "Started", format_stamp(s));
    }
    if let Some(c) = completed {
        push_line(lines, "Completed", format_stamp(c));
    }
    let dur = compute_duration(started, completed, now);
    if started.is_some() {
        let label = if completed.is_none() {
            concat(dur.as_str(), " (running)")
        } else {
            dur
        };
        push_line(lines, "Duration", label);
    }
    assert(line_texts(lines@) =~= before + timing_lines(started, completed, now));
}

/// The title and lines of the detail panel for what a row points at; `run_idx`
/// is the row's run, named on a job's panel.
pub fn build_detail_lines(resolved: &ResolvedItem, state: &AppState, run_idx: usize, now: i64) -> (r: (String, Vec<(String, String)>))
    ensures
        match resolved {
            ResolvedItem::Run(run) => r.0@ == "Run #"@ + decimal(run.number as nat) && line_texts(r.1@) == run_lines(**run, now),
            ResolvedItem::Job(job) => r.0@ == "Job: "@ + job.name@ && line_texts(r.1@) == job_lines(
                **job,
                if run_idx < state.runs@.len() {
                    Some(state.runs@[run_idx as int])
                } else {
                    None
                },
                now,
            ),
            ResolvedItem::Step(step) => r.0@ == "Step #"@ + decimal(step.number as nat) + ": "@ + step.name@
                && line_texts(r.1@) == step_lines(**step, now),
        },
{
    let mut lines: Vec<(String, String)> = Vec::new();
    assert(line_texts(lines@) =~= seq![]);
    match resolved {
        ResolvedItem::Run(run) => {
            let n = u64_text(run.number);
            let title = concat("Run #", n.as_str());
            push_line(&mut lines, "Title", run.display_title.clone());
            push_line(&mut lines, "Workflow", run.name.clone());
            push_line(&mut lines, "Branch", run.head_branch.clone());
            push_line(&mut lines, "Event", run.event.clone());
            push_line(&mut lines, "Status", status_name(run.status).to_owned());
            push_line(&mut lines, "Conclusion", conclusion_or_dash(run.conclusion));
            let end = if run.status == RunStatus::Completed {
                Some(run.updated_at)
            } else {
                None
            };
            push_line(&mut lines, "Duration", compute_duration(Some(run.created_at), end, now));
            push_line(&mut lines, "Created", format_stamp(run.created_at));
            push_line(&mut lines, "Updated", format_stamp(run.updated_at));
            push_line(&mut lines, "URL", run.url.clone());
            assert(line_texts(lines@) =~= run_lines(**run, now));
            (title, lines)
        },
        ResolvedItem::Job(job) => {
            let title = concat("Job: ", job.name.as_str());
            push_line(&mut lines, "Name", job.name.clone());
            push_line(&mut lines, "Status", status_name(job.status).to_owned());
            push_line(&mut lines, "Conclusion", conclusion_or_dash(job.conclusion));
            let ghost head = line_texts(lines@);
            push_timing(&mut lines, job.started_at, job.completed_at, now);
            push_line(&mut lines, "URL", job.url.clone());
            let ghost with_url = line_texts(lines@);
            if run_idx < state.runs.len() {
                let run = &state.runs[run_idx];
                let a = concat("#", u64_text(run.number).as_str());
                let b = concat(a.as_str(), " ");
                push_line(&mut lines, "Run", concat(b.as_str(), run.display_title.as_str()));
            }
            assert(line_texts(lines@) =~= job_lines(
                **job,
                if run_idx < state.runs@.len() {
                    Some(state.runs@[run_idx as int])
                } else {
                    None
                },
                now,
            ));
            (title, lines)
        },
        ResolvedItem::Step(step) => {
            let n = u64_text(step.number);
            let a = concat("Step #", n.as_str());
            let b = concat(a.as_str(), ": ");
            let title = concat(b.as_str(), step.name.as_str());
            push_line(&mut lines, "Name", step.name.clone());
            push_line(&mut lines, "Number", u64_text(step.number));
            push_line(&mut lines, "Status", status_name(step.status).to_owned());
            push_line(&mut lines, "Conclusion", conclusion_or_dash(step.conclusion));
            push_timing(&mut lines, step.started_at, step.completed_at, now);
            assert(line_texts(lines@) =~= step_lines(**step, now));
            (title, lines)
        },
    }
}

} // verus!
