use ciw::app::AppState;
use ciw::diff::detect_changes;
use ciw::model::{ActiveOverlay, Conclusion, Job, RunStatus, WorkflowRun};
use ciw::reactive::RunRequest;

fn make_run(id: u64, status: RunStatus, conclusion: Option<Conclusion>) -> WorkflowRun {
    WorkflowRun {
        database_id: id,
        display_title: format!("Run {}", id),
        name: "CI".to_string(),
        head_branch: "main".to_string(),
        status,
        conclusion,
        created_at: 1_700_000_000,
        updated_at: 1_700_000_000,
        event: "push".to_string(),
        number: id,
        url: format!("https://github.com/test/repo/actions/runs/{}", id),
        jobs: None,
    }
}

fn make_job(id: Option<u64>, name: &str) -> Job {
    Job {
        database_id: id,
        name: name.to_string(),
        status: RunStatus::Completed,
        conclusion: Some(Conclusion::Failure),
        started_at: None,
        completed_at: None,
        url: String::new(),
        steps: vec![],
    }
}

fn make_state() -> AppState {
    AppState::new("test/repo".to_string(), Some("main".to_string()), 20, None)
}

fn snapshot_has(state: &AppState, id: u64) -> bool {
    state.previous_snapshot.iter().any(|(k, _)| *k == id)
}

#[test]
fn first_poll_no_notifications() {
    let mut state = make_state();
    let runs = vec![make_run(1, RunStatus::InProgress, None)];
    detect_changes(&mut state, &runs, 0);
    assert!(state.notifications.is_empty());
}

#[test]
fn no_change_no_notifications() {
    let mut state = make_state();
    detect_changes(&mut state, &[make_run(1, RunStatus::InProgress, None)], 0);
    detect_changes(&mut state, &[make_run(1, RunStatus::InProgress, None)], 3);
    assert!(state.notifications.is_empty());
}

#[test]
fn in_progress_to_completed_success() {
    let mut state = make_state();
    detect_changes(&mut state, &[make_run(1, RunStatus::InProgress, None)], 0);
    detect_changes(&mut state, &[make_run(1, RunStatus::Completed, Some(Conclusion::Success))], 3);
    assert_eq!(state.notifications.len(), 1);
    assert!(state.notifications[0].message.contains("completed successfully"));
}

#[test]
fn in_progress_to_completed_failure() {
    let mut state = make_state();
    detect_changes(&mut state, &[make_run(1, RunStatus::InProgress, None)], 0);
    detect_changes(&mut state, &[make_run(1, RunStatus::Completed, Some(Conclusion::Failure))], 3);
    assert_eq!(state.notifications.len(), 1);
    assert!(state.notifications[0].message.contains("failed"));
}

#[test]
fn in_progress_to_completed_cancelled() {
    let mut state = make_state();
    detect_changes(&mut state, &[make_run(1, RunStatus::InProgress, None)], 0);
    detect_changes(&mut state, &[make_run(1, RunStatus::Completed, Some(Conclusion::Cancelled))], 3);
    assert_eq!(state.notifications.len(), 1);
    assert!(state.notifications[0].message.contains("Cancelled"));
}

#[test]
fn queued_to_in_progress_started() {
    let mut state = make_state();
    detect_changes(&mut state, &[make_run(1, RunStatus::Queued, None)], 0);
    detect_changes(&mut state, &[make_run(1, RunStatus::InProgress, None)], 3);
    assert_eq!(state.notifications.len(), 1);
    assert!(state.notifications[0].message.contains("started"));
}

#[test]
fn queued_to_waiting_changed_to() {
    let mut state = make_state();
    detect_changes(&mut state, &[make_run(1, RunStatus::Queued, None)], 0);
    detect_changes(&mut state, &[make_run(1, RunStatus::Waiting, None)], 3);
    assert_eq!(state.notifications.len(), 1);
    assert!(state.notifications[0].message.contains("changed to"));
}

#[test]
fn messages_are_worded_exactly() {
    let mut state = make_state();
    detect_changes(
        &mut state,
        &[
            make_run(1, RunStatus::InProgress, None),
            make_run(2, RunStatus::InProgress, None),
            make_run(3, RunStatus::Queued, None),
            make_run(4, RunStatus::InProgress, None),
        ],
        0,
    );
    detect_changes(
        &mut state,
        &[
            make_run(1, RunStatus::Completed, Some(Conclusion::Success)),
            make_run(2, RunStatus::Completed, Some(Conclusion::TimedOut)),
            make_run(3, RunStatus::Waiting, None),
            make_run(4, RunStatus::Completed, None),
        ],
        9,
    );
    let msgs: Vec<&str> = state.notifications.iter().map(|n| n.message.as_str()).collect();
    assert_eq!(
        msgs,
        vec![
            "Run 1 completed successfully",
            "Run 2 completed (TimedOut)",
            "Run 3 changed to Waiting",
            "Run 4 changed to Completed",
        ]
    );
    assert!(state.notifications.iter().all(|n| n.timestamp == 9));
}

#[test]
fn multiple_runs_multiple_notifications() {
    let mut state = make_state();
    detect_changes(
        &mut state,
        &[make_run(1, RunStatus::InProgress, None), make_run(2, RunStatus::InProgress, None)],
        0,
    );
    detect_changes(
        &mut state,
        &[
            make_run(1, RunStatus::Completed, Some(Conclusion::Success)),
            make_run(2, RunStatus::Completed, Some(Conclusion::Failure)),
        ],
        3,
    );
    assert_eq!(state.notifications.len(), 2);
}

#[test]
fn new_run_appearing_no_notification() {
    let mut state = make_state();
    detect_changes(&mut state, &[make_run(1, RunStatus::InProgress, None)], 0);
    detect_changes(
        &mut state,
        &[make_run(1, RunStatus::InProgress, None), make_run(2, RunStatus::Queued, None)],
        3,
    );
    assert!(state.notifications.is_empty());
}

#[test]
fn snapshot_updated_after_detect() {
    let mut state = make_state();
    detect_changes(&mut state, &[make_run(1, RunStatus::InProgress, None)], 0);
    assert!(snapshot_has(&state, 1));
    let entry = state.previous_snapshot.iter().find(|(k, _)| *k == 1).unwrap().1;
    assert_eq!(entry.status, RunStatus::InProgress);
}

#[test]
fn snapshot_merges_and_retains_old_runs() {
    let mut state = make_state();
    detect_changes(&mut state, &[make_run(1, RunStatus::InProgress, None)], 0);
    detect_changes(&mut state, &[make_run(2, RunStatus::Queued, None)], 3);
    assert!(snapshot_has(&state, 1));
    assert!(snapshot_has(&state, 2));
}

#[test]
fn snapshot_evicts_after_threshold() {
    let mut state = make_state();
    detect_changes(&mut state, &[make_run(1, RunStatus::InProgress, None)], 0);
    for i in 2..=12 {
        detect_changes(&mut state, &[make_run(i, RunStatus::Queued, None)], i);
    }
    assert!(!snapshot_has(&state, 1));
}

#[test]
fn snapshot_keeps_entry_at_threshold() {
    let mut state = make_state();
    detect_changes(&mut state, &[make_run(1, RunStatus::InProgress, None)], 0);
    for i in 2..=11 {
        detect_changes(&mut state, &[make_run(i, RunStatus::Queued, None)], i);
    }
    assert!(snapshot_has(&state, 1));
}

#[test]
fn notification_contains_correct_run_id() {
    let mut state = make_state();
    detect_changes(&mut state, &[make_run(42, RunStatus::InProgress, None)], 0);
    detect_changes(&mut state, &[make_run(42, RunStatus::Completed, Some(Conclusion::Success))], 3);
    assert_eq!(state.notifications[0].run_id, 42);
}

#[test]
fn poll_transition_to_failure_gives_one_failed_notification() {
    let mut state = make_state();
    let refetch = state.apply_poll_result(vec![make_run(5, RunStatus::InProgress, None)], false, 100);
    assert!(refetch.is_empty());
    assert!(state.notifications.is_empty());
    state.apply_poll_result(vec![make_run(5, RunStatus::Completed, Some(Conclusion::Failure))], false, 103);
    assert_eq!(state.notifications.len(), 1);
    assert!(state.notifications[0].message.contains("failed"));
    assert_eq!(state.last_poll, Some(103));
}

#[test]
fn poll_carries_jobs_of_unchanged_runs() {
    let mut state = make_state();
    state.apply_poll_result(vec![make_run(1, RunStatus::InProgress, None)], false, 0);
    state.apply_jobs_result(1, vec![make_job(Some(10), "build")]);
    state.expanded_runs.push(1);
    let refetch = state.apply_poll_result(vec![make_run(1, RunStatus::InProgress, None)], false, 3);
    assert!(refetch.is_empty());
    assert_eq!(state.runs[0].jobs.as_ref().map(|j| j.len()), Some(1));
    assert_eq!(state.tree_items.len(), 2);
}

#[test]
fn poll_asks_refetch_for_updated_expanded_run() {
    let mut state = make_state();
    state.apply_poll_result(vec![make_run(1, RunStatus::InProgress, None)], false, 0);
    state.apply_jobs_result(1, vec![make_job(Some(10), "build")]);
    state.expanded_runs.push(1);
    let mut updated = make_run(1, RunStatus::InProgress, None);
    updated.updated_at += 30;
    let refetch = state.apply_poll_result(vec![updated], false, 3);
    assert_eq!(refetch, vec![1]);
    assert!(state.runs[0].jobs.is_none());
}

#[test]
fn poll_prunes_state_of_vanished_runs() {
    let mut state = make_state();
    state.apply_poll_result(vec![make_run(1, RunStatus::InProgress, None), make_run(2, RunStatus::Queued, None)], false, 0);
    state.expanded_runs.push(2);
    state.expanded_jobs.push((2, 9));
    state.open_log_overlay("t".to_string(), "x", 2, None);
    state.set_run_error(1, "boom".to_string());
    state.begin_loading();
    state.apply_poll_result(vec![make_run(1, RunStatus::InProgress, None)], true, 3);
    assert!(state.expanded_runs.is_empty());
    assert!(state.expanded_jobs.is_empty());
    assert!(matches!(state.overlay, ActiveOverlay::Closed));
    assert!(state.run_errors.is_empty());
    assert!(!state.is_loading());
}

#[test]
fn jobs_result_for_vanished_run_is_ignored() {
    let mut state = make_state();
    state.apply_poll_result(vec![make_run(1, RunStatus::InProgress, None)], false, 0);
    state.apply_jobs_result(99, vec![make_job(Some(10), "build")]);
    assert!(state.runs[0].jobs.is_none());
}

#[test]
fn poll_interval_follows_activity() {
    let mut state = make_state();
    assert_eq!(state.desired_poll_interval(0), 30);
    state.apply_poll_result(vec![make_run(1, RunStatus::InProgress, None)], false, 100);
    assert_eq!(state.refresh_poll_interval(120), Some(3));
    assert_eq!(state.refresh_poll_interval(121), None);
    state.apply_poll_result(vec![make_run(1, RunStatus::Completed, Some(Conclusion::Success))], false, 130);
    assert_eq!(state.desired_poll_interval(189), 10);
    assert_eq!(state.desired_poll_interval(190), 30);
}

#[test]
fn rerun_refused_while_running_or_after_success() {
    let mut state = make_state();
    state.apply_poll_result(vec![make_run(1, RunStatus::InProgress, None)], false, 0);
    assert_eq!(state.request_rerun(5), RunRequest::Refused);
    assert_eq!(state.error_message(), Some("Cannot rerun: workflow is still in progress"));
    state.apply_poll_result(vec![make_run(1, RunStatus::Completed, Some(Conclusion::Success))], false, 6);
    assert_eq!(state.request_rerun(7), RunRequest::Refused);
    assert_eq!(state.error_message(), Some("Run completed successfully \u{2014} nothing to rerun"));
    state.apply_poll_result(vec![make_run(1, RunStatus::Completed, Some(Conclusion::Failure))], false, 8);
    assert_eq!(state.request_rerun(9), RunRequest::Proceed(1));
}

#[test]
fn cancel_and_delete_ask_for_confirmation() {
    let mut state = make_state();
    state.apply_poll_result(vec![make_run(4, RunStatus::InProgress, None)], false, 0);
    assert_eq!(state.request_delete(1), RunRequest::Refused);
    assert_eq!(state.error_message(), Some("Cannot delete: run is still in progress"));
    assert_eq!(state.request_cancel(2), RunRequest::AskConfirm(4));
    match &state.overlay {
        ActiveOverlay::Confirm(c) => {
            assert_eq!(c.title, "Confirm Cancel");
            assert_eq!(c.message, "Cancel \"CI #4\"?");
        }
        _ => panic!("expected a confirm overlay"),
    }
    let action = state.take_confirmed_action();
    assert_eq!(action, Some(ciw::model::ConfirmAction::CancelRun(4)));
    assert_eq!(state.take_confirmed_action(), None);
}

#[test]
fn cancel_refused_when_not_running() {
    let mut state = make_state();
    state.apply_poll_result(vec![make_run(4, RunStatus::Completed, Some(Conclusion::Failure))], false, 0);
    assert_eq!(state.request_cancel(1), RunRequest::Refused);
    assert_eq!(state.error_message(), Some("Cannot cancel: run is not in progress"));
    assert_eq!(state.request_delete(2), RunRequest::AskConfirm(4));
}

#[test]
fn requests_without_runs_do_nothing() {
    let mut state = make_state();
    assert_eq!(state.request_rerun(0), RunRequest::NoRun);
    assert_eq!(state.request_cancel(0), RunRequest::NoRun);
    assert_eq!(state.request_delete(0), RunRequest::NoRun);
}

#[test]
fn log_titles_name_run_and_job() {
    let mut state = make_state();
    state.apply_poll_result(vec![make_run(1, RunStatus::Completed, Some(Conclusion::Failure))], false, 0);
    state.apply_jobs_result(1, vec![make_job(Some(10), "build")]);
    assert_eq!(state.log_title(1, None), "Run 1");
    assert_eq!(state.log_title(1, Some(10)), "Run 1 > build");
    assert_eq!(state.log_title(1, Some(11)), "Run 1 > Unknown job");
    assert_eq!(state.log_title(2, None), "Unknown");
}

#[test]
fn newly_completed_lists_just_finished_runs() {
    let mut state = make_state();
    state.apply_poll_result(vec![make_run(1, RunStatus::InProgress, None), make_run(2, RunStatus::Completed, Some(Conclusion::Success))], false, 0);
    let next = vec![
        make_run(1, RunStatus::Completed, Some(Conclusion::Failure)),
        make_run(2, RunStatus::Completed, Some(Conclusion::Success)),
        make_run(3, RunStatus::Completed, Some(Conclusion::Success)),
    ];
    assert_eq!(state.newly_completed(&next), vec![0]);
}

#[test]
fn failed_log_result_opens_overlay_and_caches() {
    let mut state = make_state();
    state.apply_failed_log(3, Some(4), "title".to_string(), "a\nb".to_string(), 50);
    assert!(state.has_log_overlay());
    assert_eq!(state.cached_log(3, Some(4), 60).map(|s| s.as_str()), Some("a\nb"));
    state.apply_rerun_success(3, 61);
    assert!(state.cached_log(3, Some(4), 62).is_none());
    assert_eq!(state.notifications.last().map(|n| n.message.as_str()), Some("Rerun triggered"));
}

#[test]
fn delete_success_removes_run_and_notifies() {
    let mut state = make_state();
    state.apply_poll_result(vec![make_run(1, RunStatus::Completed, Some(Conclusion::Success)), make_run(2, RunStatus::Completed, Some(Conclusion::Success))], false, 0);
    state.apply_delete_success(2, 5);
    assert_eq!(state.runs.len(), 1);
    assert_eq!(state.notifications.last().map(|n| n.message.as_str()), Some("Run deleted"));
}

#[test]
fn run_error_is_sticky_per_run() {
    let mut state = make_state();
    state.apply_run_error(3, "first".to_string());
    state.apply_run_error(3, "second".to_string());
    assert_eq!(state.run_errors.len(), 1);
    assert_eq!(state.run_error(3), Some("second"));
}

#[test]
fn log_request_uses_cache_or_asks_for_fetch() {
    let mut state = make_state();
    state.apply_poll_result(vec![make_run(1, RunStatus::Completed, Some(Conclusion::Failure)), make_run(2, RunStatus::Completed, Some(Conclusion::Success))], false, 0);
    match state.request_logs(5) {
        ciw::reactive::LogRequest::Fetch { run_id, job_id, title } => {
            assert_eq!((run_id, job_id), (1, None));
            assert_eq!(title, "Run 1");
        }
        other => panic!("unexpected {:?}", other),
    }
    state.cache_log(1, None, "boom".to_string(), 5);
    assert_eq!(state.request_logs(6), ciw::reactive::LogRequest::Shown);
    assert_eq!(state.log_overlay_text(), Some("boom".to_string()));
    state.close_overlay();
    state.move_cursor_down();
    assert_eq!(state.request_logs(7), ciw::reactive::LogRequest::Refused);
    assert_eq!(state.error_message(), Some("No failure logs for this item"));
}
