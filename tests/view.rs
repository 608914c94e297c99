use ciw::model::{Conclusion, FilterMode, Job, RunStatus, Step, WorkflowRun};
use ciw::view::{empty_tree_message, job_line, loading_line, quick_select_label, run_line, scroll_offset, status_icon, step_line, Tone};

fn run(number: u64) -> WorkflowRun {
    WorkflowRun {
        database_id: number,
        display_title: format!("Run {}", number),
        name: "CI".to_string(),
        head_branch: "main".to_string(),
        status: RunStatus::Completed,
        conclusion: Some(Conclusion::Success),
        created_at: 1000,
        updated_at: 1100,
        event: "push".to_string(),
        number,
        url: String::new(),
        jobs: None,
    }
}

#[test]
fn status_icons_by_outcome() {
    assert_eq!(status_icon(RunStatus::Completed, Some(Conclusion::Success)), ("\u{2713}", Tone::Green));
    assert_eq!(status_icon(RunStatus::Completed, Some(Conclusion::TimedOut)), ("\u{2717}", Tone::Red));
    assert_eq!(status_icon(RunStatus::Completed, Some(Conclusion::Cancelled)), ("\u{2298}", Tone::Yellow));
    assert_eq!(status_icon(RunStatus::InProgress, None), ("\u{27f3}", Tone::Yellow));
    assert_eq!(status_icon(RunStatus::Queued, None), ("\u{00b7}", Tone::DarkGray));
}

#[test]
fn empty_messages_by_filter() {
    assert_eq!(empty_tree_message(FilterMode::All), "No workflow runs found");
    assert_eq!(empty_tree_message(FilterMode::ActiveOnly), "No active runs");
    assert_eq!(empty_tree_message(FilterMode::CurrentBranch), "No runs for current branch");
}

#[test]
fn scroll_keeps_cursor_visible() {
    assert_eq!(scroll_offset(3, 10), 0);
    assert_eq!(scroll_offset(10, 10), 1);
    assert_eq!(scroll_offset(25, 10), 16);
}

#[test]
fn quick_select_labels_stop_at_nine() {
    assert_eq!(quick_select_label(0), "1");
    assert_eq!(quick_select_label(8), "9");
    assert_eq!(quick_select_label(9), " ");
}

#[test]
fn run_line_parts() {
    let r = run(42);
    let line = run_line(&r, 0, true, false, 40, false, 1125);
    assert_eq!(line.head, "1\u{25b6} \u{2713} ");
    assert_eq!(line.number, "#42 ");
    assert_eq!(line.marker, "\u{2605} ");
    assert_eq!(line.title, "Run 42");
    assert_eq!(line.duration.as_deref(), Some(" 2m 5s"));
    assert_eq!(line.branch.as_deref(), Some(" main"));
    let narrow = run_line(&r, 12, false, true, 40, true, 1125);
    assert_eq!(narrow.head, " \u{25bc} \u{2713} ");
    assert!(narrow.duration.is_none());
    assert!(narrow.branch.is_none());
    let tight = run_line(&r, 0, false, false, 20, false, 1125);
    assert_eq!(tight.title, "Ru\u{2026}");
}

#[test]
fn job_and_step_lines() {
    let job = Job {
        database_id: Some(1),
        name: "build".to_string(),
        status: RunStatus::Completed,
        conclusion: Some(Conclusion::Failure),
        started_at: Some(0),
        completed_at: Some(65),
        url: String::new(),
        steps: vec![],
    };
    let line = job_line(&job, 20, true, 100);
    assert_eq!(line.prefix, "    \u{25bc} \u{2717} ");
    assert_eq!(line.tone, Tone::Red);
    assert_eq!(line.name, "build");
    assert_eq!(line.duration.as_deref(), Some(" 1m 5s"));
    let step = Step {
        name: "Checkout code".to_string(),
        status: RunStatus::Completed,
        conclusion: Some(Conclusion::Success),
        number: 1,
        started_at: None,
        completed_at: None,
    };
    let s = step_line(&step, 14);
    assert_eq!(s.prefix, "        \u{2713} ");
    assert_eq!(s.name, "Che\u{2026}");
    assert_eq!(loading_line(3), "    \u{2838} Loading\u{2026}");
}

#[test]
fn icon_completed_success() {
    let (icon, color) = status_icon(RunStatus::Completed, Some(Conclusion::Success));
    assert_eq!(icon, "\u{2713}");
    assert_eq!(color, Tone::Green);
}

#[test]
fn icon_completed_failure() {
    let (icon, color) = status_icon(RunStatus::Completed, Some(Conclusion::Failure));
    assert_eq!(icon, "\u{2717}");
    assert_eq!(color, Tone::Red);
}

#[test]
fn icon_completed_cancelled() {
    let (icon, color) = status_icon(RunStatus::Completed, Some(Conclusion::Cancelled));
    assert_eq!(icon, "\u{2298}");
    assert_eq!(color, Tone::Yellow);
}

#[test]
fn icon_completed_skipped() {
    let (icon, color) = status_icon(RunStatus::Completed, Some(Conclusion::Skipped));
    assert_eq!(icon, "\u{2298}");
    assert_eq!(color, Tone::DarkGray);
}

#[test]
fn icon_completed_timed_out() {
    let (icon, color) = status_icon(RunStatus::Completed, Some(Conclusion::TimedOut));
    assert_eq!(icon, "\u{2717}");
    assert_eq!(color, Tone::Red);
}

#[test]
fn icon_in_progress() {
    let (icon, color) = status_icon(RunStatus::InProgress, None);
    assert_eq!(icon, "\u{27f3}");
    assert_eq!(color, Tone::Yellow);
}

#[test]
fn icon_queued_and_unknown() {
    for status in [RunStatus::Queued, RunStatus::Waiting, RunStatus::Pending, RunStatus::Unknown] {
        let (icon, color) = status_icon(status, None);
        assert_eq!(icon, "\u{00b7}");
        assert_eq!(color, Tone::DarkGray);
    }
}
