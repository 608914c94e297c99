//! The text of the tree view's rows: status icons, quick-select labels,
//! fitted titles and durations. Colours are named by `Tone`; drawing them
//! is left to the caller.
use vstd::prelude::*;

use crate::detail::{compute_duration, duration_between};
use crate::model::{Conclusion, FilterMode, Job, RunStatus, Step, WorkflowRun, QUICK_SELECT_MAX};
use crate::text::{
    braille_frame, chars_of, concat, decimal, duration_text, format_duration, frame, str_width,
    string_of, text_width, truncate, truncate_spec, u64_text,
};

verus! {

/// The colour in which a part of a row is drawn.
#[derive(Debug, Clone, Copy, PartialEq, Eq, Structural)]
pub enum Tone {
    Green,
    Red,
    Yellow,
    DarkGray,
    Blue,
}

/// The icon and colour of a status and conclusion.
pub open spec fn icon_of(status: RunStatus, conclusion: Option<Conclusion>) -> (Seq<char>, Tone) {
    match (status, conclusion) {
        (RunStatus::Completed, Some(Conclusion::Success)) => ("\u{2713}"@, Tone::Green),
        (RunStatus::Completed, Some(Conclusion::Failure)) => ("\u{2717}"@, Tone::Red),
        (RunStatus::Completed, Some(Conclusion::Cancelled)) => ("\u{2298}"@, Tone::Yellow),
        (RunStatus::Completed, Some(Conclusion::Skipped)) => ("\u{2298}"@, Tone::DarkGray),
        (RunStatus::Completed, Some(Conclusion::TimedOut)) => ("\u{2717}"@, Tone::Red),
        (RunStatus::Completed, _) => ("\u{00b7}"@, Tone::DarkGray),
        (RunStatus::InProgress, _) => ("\u{27f3}"@, Tone::Yellow),
        _ => ("\u{00b7}"@, Tone::DarkGray),
    }
}

/// The icon and colour of a status and conclusion.
pub fn status_icon(status: RunStatus, conclusion: Option<Conclusion>) -> (r: (&'static str, Tone))
    ensures
        (r.0@, r.1) == icon_of(status, conclusion),
{
    match (status, conclusion) {
        (RunStatus::Completed, Some(Conclusion::Success)) => ("\u{2713}", Tone::Green),
        (RunStatus::Completed, Some(Conclusion::Failure)) => ("\u{2717}", Tone::Red),
        (RunStatus::Completed, Some(Conclusion::Cancelled)) => ("\u{2298}", Tone::Yellow),
        (RunStatus::Completed, Some(Conclusion::Skipped)) => ("\u{2298}", Tone::DarkGray),
        (RunStatus::Completed, Some(Conclusion::TimedOut)) => ("\u{2717}", Tone::Red),
        (RunStatus::Completed, _) => ("\u{00b7}", Tone::DarkGray),
        (RunStatus::InProgress, _) => ("\u{27f3}", Tone::Yellow),
        _ => ("\u{00b7}", Tone::DarkGray),
    }
}

/// What an empty tree says, by filter.
pub open spec fn empty_message(filter: FilterMode) -> Seq<char> {
    match filter {
        FilterMode::ActiveOnly => "No active runs"@,
        FilterMode::CurrentBranch => "No runs for current branch"@,
        FilterMode::All => "No workflow runs found"@,
    }
}

/// What an empty tree says, by filter.
pub fn empty_tree_message(filter: FilterMode) -> (r: &'static str)
    ensures
        r@ == empty_message(filter),
{
    match filter {
        FilterMode::ActiveOnly => "No active runs",
        FilterMode::CurrentBranch => "No runs for current branch",
        FilterMode::All => "No workflow runs found",
    }
}

/// The first row shown so that the cursor row is in a window of
/// `visible_height` rows.
pub fn scroll_offset(cursor: usize, visible_height: usize) -> (r: usize)
    requires
        visible_height > 0 || cursor < usize::MAX,
    ensures
        r == if cursor >= visible_height {
            cursor - visible_height + 1
        } else {
            0
        },
        visible_height > 0 ==> r <= cursor && cursor < r + visible_height,
{
    if cursor >= visible_height {
        (cursor - visible_height) + 1
    } else {
        0
    }
}

/// The quick-select digit of the `visual_idx`-th run row (from 0), or a
/// blank past the last digit.
pub open spec fn label_of(visual_idx: nat) -> Seq<char> {
    if visual_idx < QUICK_SELECT_MAX {
        decimal(visual_idx + 1)
    } else {
        " "@
    }
}

pub fn quick_select_label(visual_idx: usize) -> (r: String)
    ensures
        r@ == label_of(visual_idx as nat),
{
    if visual_idx < QUICK_SELECT_MAX {
        u64_text(visual_idx as u64 + 1)
    } else {
        " ".to_owned()
    }
}

pub open spec fn arrow_of(expanded: bool) -> Seq<char> {
    if expanded {
        "\u{25bc}"@
    } else {
        "\u{25b6}"@
    }
}

fn arrow(expanded: bool) -> (r: &'static str)
    ensures
        r@ == arrow_of(expanded),
{
    if expanded {
        "\u{25bc}"
    } else {
        "\u{25b6}"
    }
}

/// `a - b`, or 0 when `b` is larger.
pub open spec fn minus(a: int, b: int) -> int {
    if a > b {
        a - b
    } else {
        0
    }
}

/// The parts of a run row.
pub struct RunLine {
    /// Quick-select label, arrow and icon: `"<label><arrow> <icon> "`.
    pub head: String,
    pub tone: Tone,
    /// `"#<number> "`.
    pub number: String,
    /// A star when the run has a fresh notification.
    pub marker: &'static str,
    /// The title, fitted into what is left of the width.
    pub title: String,
    /// The age of the run and its branch; left out on a narrow screen.
    pub duration: Option<String>,
    pub branch: Option<String>,
}

/// How wide the title of a run row may be.
pub open spec fn run_title_width(run: WorkflowRun, narrow: bool, max_width: usize, expanded: bool, now: i64) -> int {
    let icon = icon_of(run.status, run.conclusion).0;
    let number_len = 1 + decimal(run.number as nat).len();
    let prefix = 1 + str_width(arrow_of(expanded)) + 1 + str_width(icon) + 1 + number_len + 1;
    let suffix = if narrow {
        0
    } else {
        duration_text(crate::detail::clamp_i64(now - run.created_at)).len() + 1
    };
    minus(max_width as int, (prefix + suffix + 2) as int)
}

/// The parts of a run row: `visual_idx` is the row's place among the run
/// rows, `now` the time in seconds.
pub fn run_line(
    run: &WorkflowRun,
    visual_idx: usize,
    has_notification: bool,
    narrow: bool,
    max_width: usize,
    expanded: bool,
    now: i64,
) -> (r: RunLine)
    ensures
        r.head@ == label_of(visual_idx as nat) + arrow_of(expanded) + " "@ + icon_of(run.status, run.conclusion).0 + " "@,
        r.tone == icon_of(run.status, run.conclusion).1,
        r.number@ == "#"@ + decimal(run.number as nat) + " "@,
        r.marker@ == if has_notification {
            "\u{2605} "@
        } else {
            ""@
        },
        r.title@ == truncate_spec(run.display_title@, run_title_width(*run, narrow, max_width, expanded, now) as nat),
        r.duration is Some == !narrow,
        r.duration matches Some(d) ==> d@ == " "@ + duration_text(crate::detail::clamp_i64(now - run.created_at)),
        r.branch is Some == !narrow,
        r.branch matches Some(b) ==> b@ == " "@ + run.head_branch@,
{
    let (icon, tone) = status_icon(run.status, run.conclusion);
    let arr = arrow(expanded);
    let num = u64_text(run.number);
    let duration = format_duration(crate::detail::seconds_between(run.created_at, now));
    let prefix: u128 = 1 + text_width(arr) as u128 + 1 + text_width(icon) as u128 + 1 + (1 + chars_of(num.as_str()).len() as u128) + 1;
    let suffix: u128 = if narrow {
        0
    } else {
        chars_of(duration.as_str()).len() as u128 + 1
    };
    let title_max: usize = if (max_width as u128) > prefix + suffix + 2 {
        (max_width as u128 - (prefix + suffix + 2)) as usize
    } else {
        0
    };
    let title = truncate(run.display_title.as_str(), title_max);
    let label = quick_select_label(visual_idx);
    let h1 = concat(label.as_str(), arr);
    let h2 = concat(h1.as_str(), " ");
    let h3 = concat(h2.as_str(), icon);
    let head = concat(h3.as_str(), " ");
    let n1 = concat("#", num.as_str());
    let number = concat(n1.as_str(), " ");
    let marker = if has_notification {
        "\u{2605} "
    } else {
        ""
    };
    let (duration, branch) = if narrow {
        (None, None)
    } else {
        (Some(concat(" ", duration.as_str())), Some(concat(" ", run.head_branch.as_str())))
    };
    RunLine { head, tone, number, marker, title, duration, branch }
}

/// The parts of a job or step row.
pub struct ItemLine {
    /// Indentation, arrow (for jobs) and icon.
    pub prefix: String,
    pub tone: Tone,
    /// The name, fitted into what is left of the width.
    pub name: String,
    /// `" <duration>"` for a job that has started.
    pub duration: Option<String>,
}

/// The prefix of a job row.
pub open spec fn job_prefix(expanded: bool, icon: Seq<char>) -> Seq<char> {
    "    "@ + arrow_of(expanded) + " "@ + icon + " "@
}

/// The parts of a job row.
pub fn job_line(job: &Job, max_width: usize, expanded: bool, now: i64) -> (r: ItemLine)
    ensures
        r.prefix@ == job_prefix(expanded, icon_of(job.status, job.conclusion).0),
        r.tone == icon_of(job.status, job.conclusion).1,
        ({
            let d = duration_between(job.started_at, job.completed_at, now);
            let suffix = if d.len() == 0 { 0 } else { d.len() + 1 };
            &&& r.name@ == truncate_spec(job.name@, minus(max_width as int, (str_width(r.prefix@) + suffix) as int) as nat)
            &&& r.duration is Some == (d.len() > 0)
            &&& r.duration matches Some(t) ==> t@ == " "@ + d
        }),
{
    let (icon, tone) = status_icon(job.status, job.conclusion);
    let p1 = concat("    ", arrow(expanded));
    let p2 = concat(p1.as_str(), " ");
    let p3 = concat(p2.as_str(), icon);
    let prefix = concat(p3.as_str(), " ");
    let duration = compute_duration(job.started_at, job.completed_at, now);
    let dlen = chars_of(duration.as_str()).len();
    let suffix: u128 = if dlen == 0 {
        0
    } else {
        dlen as u128 + 1
    };
    let used: u128 = text_width(prefix.as_str()) as u128 + suffix;
    let name_max: usize = if (max_width as u128) > used {
        (max_width as u128 - used) as usize
    } else {
        0
    };
    let name = truncate(job.name.as_str(), name_max);
    let duration = if dlen == 0 {
        None
    } else {
        Some(concat(" ", duration.as_str()))
    };
    ItemLine { prefix, tone, name, duration }
}

/// The parts of a step row.
pub fn step_line(step: &Step, max_width: usize) -> (r: ItemLine)
    ensures
        r.prefix@ == "        "@ + icon_of(step.status, step.conclusion).0 + " "@,
        r.tone == icon_of(step.status, step.conclusion).1,
        r.name@ == truncate_spec(step.name@, minus(max_width as int, str_width(r.prefix@) as int) as nat),
        r.duration is None,
{
    let (icon, tone) = status_icon(step.status, step.conclusion);
    let p1 = concat("        ", icon);
    let prefix = concat(p1.as_str(), " ");
    let w = text_width(prefix.as_str());
    let name_max: usize = if max_width > w {
        max_width - w
    } else {
        0
    };
    let name = truncate(step.name.as_str(), name_max);
    ItemLine { prefix, tone, name, duration: None }
}

/// The text of a loading row: the spinner frame, then `Loading…`.
pub fn loading_line(spinner_frame: usize) -> (r: String)
    ensures
        r@ == "    "@ + seq![braille_frame(spinner_frame as int % 10)] + " Loading\u{2026}"@,
{
    let c = frame(spinner_frame);
    let one: Vec<char> = vec![c];
    let cs = string_of(one.as_slice());
    let a = concat("    ", cs.as_str());
    concat(a.as_str(), " Loading\u{2026}")
}

} // verus!
