use ciw::app::AppState;
use ciw::model::{
    ActiveOverlay, Conclusion, ConfirmAction, FilterMode, Job, LogOverlay, ResolvedItem, RunStatus,
    Step, TreeItem, TreeLevel, WorkflowRun, LOG_MAX_LINES, SPINNER_FRAME_COUNT,
};

fn make_run(id: u64, status: RunStatus, conclusion: Option<Conclusion>) -> WorkflowRun {
    WorkflowRun {
        database_id: id,
        display_title: format!("Run {}", id),
        name: "CI".to_string(),
        head_branch: "main".to_string(),
        status,
        conclusion,
        created_at: 1_700_000_000,
        updated_at: 1_700_000_000,
        event: "push".to_string(),
        number: id,
        url: format!("https://github.com/test/repo/actions/runs/{}", id),
        jobs: None,
    }
}

fn make_run_on_branch(id: u64, branch: &str) -> WorkflowRun {
    let mut run = make_run(id, RunStatus::Completed, Some(Conclusion::Success));
    run.head_branch = branch.to_string();
    run
}

fn make_step(name: &str, number: u64) -> Step {
    Step {
        name: name.to_string(),
        status: RunStatus::Completed,
        conclusion: Some(Conclusion::Success),
        number,
        started_at: None,
        completed_at: None,
    }
}

fn make_job(name: &str, status: RunStatus, conclusion: Option<Conclusion>) -> Job {
    Job {
        database_id: Some(1),
        name: name.to_string(),
        status,
        conclusion,
        started_at: Some(1_700_000_000),
        completed_at: Some(1_700_000_060),
        url: "https://github.com/test/repo/actions/runs/1/jobs/1".to_string(),
        steps: vec![make_step("Checkout", 1), make_step("Build", 2)],
    }
}

fn state_with_runs(runs: Vec<WorkflowRun>) -> AppState {
    let mut state = AppState::new("test/repo".to_string(), Some("main".to_string()), 20, None);
    state.runs = runs;
    state.rebuild_tree();
    state
}

fn unwrap_log_overlay(state: &AppState) -> &LogOverlay {
    match &state.overlay {
        ActiveOverlay::Log(o) => o,
        _ => panic!("Expected Log overlay"),
    }
}

#[test]
fn app_cursor_up_at_zero_stays() {
    let mut state = state_with_runs(vec![
        make_run(1, RunStatus::Completed, Some(Conclusion::Success)),
        make_run(2, RunStatus::Completed, Some(Conclusion::Success)),
    ]);
    assert_eq!(state.cursor, 0);
    state.move_cursor_up();
    assert_eq!(state.cursor, 0);
}

#[test]
fn app_cursor_down_advances() {
    let mut state = state_with_runs(vec![
        make_run(1, RunStatus::Completed, Some(Conclusion::Success)),
        make_run(2, RunStatus::Completed, Some(Conclusion::Success)),
    ]);
    state.move_cursor_down();
    assert_eq!(state.cursor, 1);
}

#[test]
fn app_cursor_down_at_end_stays() {
    let mut state = state_with_runs(vec![
        make_run(1, RunStatus::Completed, Some(Conclusion::Success)),
        make_run(2, RunStatus::Completed, Some(Conclusion::Success)),
    ]);
    state.move_cursor_down();
    state.move_cursor_down();
    assert_eq!(state.cursor, 1);
}

#[test]
fn app_cursor_up_on_empty_state() {
    let mut state = state_with_runs(vec![]);
    state.move_cursor_up();
    assert_eq!(state.cursor, 0);
}

#[test]
fn app_cursor_down_on_empty_state() {
    let mut state = state_with_runs(vec![]);
    state.move_cursor_down();
    assert_eq!(state.cursor, 0);
}

#[test]
fn app_rebuild_creates_run_items() {
    let state = state_with_runs(vec![
        make_run(1, RunStatus::Completed, Some(Conclusion::Success)),
        make_run(2, RunStatus::InProgress, None),
    ]);
    assert_eq!(state.tree_items.len(), 2);
    assert_eq!(state.tree_items[0].level, TreeLevel::Run);
    assert_eq!(state.tree_items[1].level, TreeLevel::Run);
}

#[test]
fn app_rebuild_empty_runs() {
    let state = state_with_runs(vec![]);
    assert!(state.tree_items.is_empty());
}

#[test]
fn app_expanded_run_shows_jobs() {
    let mut run = make_run(1, RunStatus::Completed, Some(Conclusion::Success));
    run.jobs = Some(vec![make_job("build", RunStatus::Completed, Some(Conclusion::Success))]);
    let mut state = state_with_runs(vec![run]);
    state.expanded_runs.push(1);
    state.rebuild_tree();
    assert_eq!(state.tree_items.len(), 2);
    assert_eq!(state.tree_items[1].level, TreeLevel::Job);
}

#[test]
fn app_expanded_job_shows_steps() {
    let mut run = make_run(1, RunStatus::Completed, Some(Conclusion::Success));
    run.jobs = Some(vec![make_job("build", RunStatus::Completed, Some(Conclusion::Success))]);
    let mut state = state_with_runs(vec![run]);
    state.expanded_runs.push(1);
    state.expanded_jobs.push((1, 1));
    state.rebuild_tree();
    assert_eq!(state.tree_items.len(), 4);
    assert_eq!(state.tree_items[2].level, TreeLevel::Step);
    assert_eq!(state.tree_items[3].level, TreeLevel::Step);
}

#[test]
fn app_expand_returns_needs_fetch() {
    let mut state = state_with_runs(vec![make_run(1, RunStatus::Completed, Some(Conclusion::Success))]);
    let result = state.expand_current();
    assert_eq!(result, Some((0, true)));
    assert!(state.expanded_runs.contains(&1));
}

#[test]
fn app_expand_already_fetched_returns_no_fetch() {
    let mut run = make_run(1, RunStatus::Completed, Some(Conclusion::Success));
    run.jobs = Some(vec![]);
    let mut state = state_with_runs(vec![run]);
    let result = state.expand_current();
    assert_eq!(result, Some((0, false)));
}

#[test]
fn app_expand_already_expanded_returns_none() {
    let mut state = state_with_runs(vec![make_run(1, RunStatus::Completed, Some(Conclusion::Success))]);
    state.expanded_runs.push(1);
    state.rebuild_tree();
    let result = state.expand_current();
    assert_eq!(result, None);
}

#[test]
fn app_collapse_removes_from_expanded() {
    let mut state = state_with_runs(vec![make_run(1, RunStatus::Completed, Some(Conclusion::Success))]);
    state.expanded_runs.push(1);
    state.rebuild_tree();
    state.collapse_current();
    assert!(!state.expanded_runs.contains(&1));
}

#[test]
fn app_collapse_on_unexpanded_job_navigates_to_parent() {
    let mut run = make_run(1, RunStatus::Completed, Some(Conclusion::Success));
    run.jobs = Some(vec![make_job("build", RunStatus::Completed, Some(Conclusion::Success))]);
    let mut state = state_with_runs(vec![run]);
    state.expanded_runs.push(1);
    state.rebuild_tree();
    state.cursor = 1;
    state.collapse_current();
    assert_eq!(state.cursor, 0);
}

#[test]
fn app_toggle_expand_then_collapse() {
    let mut state = state_with_runs(vec![make_run(1, RunStatus::Completed, Some(Conclusion::Success))]);
    state.toggle_expand();
    assert!(state.expanded_runs.contains(&1));
    state.toggle_expand();
    assert!(!state.expanded_runs.contains(&1));
}

#[test]
fn app_collapse_run_cascades_to_child_jobs() {
    let mut run = make_run(1, RunStatus::Completed, Some(Conclusion::Success));
    run.jobs = Some(vec![make_job("build", RunStatus::Completed, Some(Conclusion::Success))]);
    let mut state = state_with_runs(vec![run]);
    state.expanded_runs.push(1);
    state.expanded_jobs.push((1, 1));
    state.rebuild_tree();
    state.cursor = 0;
    state.collapse_current();
    assert!(!state.expanded_runs.contains(&1));
    assert!(!state.expanded_jobs.contains(&(1, 1)));
}

#[test]
fn collapse_run_cascades_only_its_own_jobs() {
    let mut run1 = make_run(1, RunStatus::Completed, Some(Conclusion::Success));
    run1.jobs = Some(vec![make_job("build", RunStatus::Completed, Some(Conclusion::Success))]);
    let mut run2 = make_run(2, RunStatus::Completed, Some(Conclusion::Success));
    run2.jobs = Some(vec![make_job("test", RunStatus::Completed, Some(Conclusion::Success))]);
    let mut state = state_with_runs(vec![run1, run2]);
    state.expanded_runs.push(1);
    state.expanded_runs.push(2);
    state.expanded_jobs.push((1, 1));
    state.expanded_jobs.push((1, 7));
    state.expanded_jobs.push((2, 1));
    state.rebuild_tree();
    state.cursor = 0;
    state.collapse_current();
    assert!(state.expanded_jobs.iter().all(|(r, _)| *r != 1));
    assert!(state.expanded_jobs.contains(&(2, 1)));
    assert!(state.expanded_runs.contains(&2));
}

#[test]
fn collapse_on_step_moves_to_job() {
    let mut run = make_run(1, RunStatus::Completed, Some(Conclusion::Success));
    run.jobs = Some(vec![make_job("build", RunStatus::Completed, Some(Conclusion::Success))]);
    let mut state = state_with_runs(vec![run]);
    state.expanded_runs.push(1);
    state.expanded_jobs.push((1, 1));
    state.rebuild_tree();
    state.cursor = 3;
    state.collapse_current();
    assert_eq!(state.cursor, 1);
    assert_eq!(state.tree_items.len(), 4);
}

#[test]
fn expanded_run_without_jobs_shows_loading() {
    let mut state = state_with_runs(vec![make_run(1, RunStatus::InProgress, None)]);
    state.expanded_runs.push(1);
    state.rebuild_tree();
    assert_eq!(state.tree_items.len(), 2);
    assert_eq!(state.tree_items[1].level, TreeLevel::Loading);
}

#[test]
fn expanded_run_with_unidentified_jobs_shows_loading() {
    let mut run = make_run(1, RunStatus::InProgress, None);
    let mut job = make_job("build", RunStatus::Queued, None);
    job.database_id = None;
    run.jobs = Some(vec![job]);
    let mut state = state_with_runs(vec![run]);
    state.expanded_runs.push(1);
    state.rebuild_tree();
    assert_eq!(state.tree_items.len(), 2);
    assert_eq!(state.tree_items[1].level, TreeLevel::Loading);
}

#[test]
fn expanded_run_with_empty_job_list_shows_no_placeholder() {
    let mut run = make_run(1, RunStatus::Completed, Some(Conclusion::Success));
    run.jobs = Some(vec![]);
    let mut state = state_with_runs(vec![run]);
    state.expanded_runs.push(1);
    state.rebuild_tree();
    assert_eq!(state.tree_items.len(), 1);
}

#[test]
fn app_filter_all_shows_everything() {
    let state = state_with_runs(vec![
        make_run(1, RunStatus::Completed, Some(Conclusion::Success)),
        make_run(2, RunStatus::InProgress, None),
    ]);
    assert_eq!(state.tree_items.len(), 2);
}

#[test]
fn app_filter_active_only_hides_completed() {
    let mut state = state_with_runs(vec![
        make_run(1, RunStatus::Completed, Some(Conclusion::Success)),
        make_run(2, RunStatus::InProgress, None),
    ]);
    state.filter = FilterMode::ActiveOnly;
    state.rebuild_tree();
    assert_eq!(state.tree_items.len(), 1);
    assert_eq!(state.tree_items[0].run_idx, 1);
}

#[test]
fn app_filter_active_includes_all_active_statuses() {
    let mut state = state_with_runs(vec![
        make_run(1, RunStatus::InProgress, None),
        make_run(2, RunStatus::Queued, None),
        make_run(3, RunStatus::Waiting, None),
        make_run(4, RunStatus::Pending, None),
        make_run(5, RunStatus::Requested, None),
        make_run(6, RunStatus::Completed, Some(Conclusion::Success)),
    ]);
    state.filter = FilterMode::ActiveOnly;
    state.rebuild_tree();
    assert_eq!(state.tree_items.len(), 5);
}

#[test]
fn app_filter_current_branch_shows_matching() {
    let mut state = state_with_runs(vec![make_run_on_branch(1, "main"), make_run_on_branch(2, "feature")]);
    state.filter = FilterMode::CurrentBranch;
    state.rebuild_tree();
    assert_eq!(state.tree_items.len(), 1);
    assert_eq!(state.tree_items[0].run_idx, 0);
}

#[test]
fn app_filter_current_branch_with_no_branch_is_empty() {
    let mut state = AppState::new("test/repo".to_string(), None, 20, None);
    state.runs = vec![make_run_on_branch(1, "main")];
    state.filter = FilterMode::CurrentBranch;
    state.rebuild_tree();
    assert!(state.tree_items.is_empty());
}

#[test]
fn app_cycle_filter_order() {
    let mut state = state_with_runs(vec![]);
    assert_eq!(state.filter, FilterMode::All);
    state.cycle_filter();
    assert_eq!(state.filter, FilterMode::ActiveOnly);
    state.cycle_filter();
    assert_eq!(state.filter, FilterMode::CurrentBranch);
    state.cycle_filter();
    assert_eq!(state.filter, FilterMode::All);
}

#[test]
fn active_only_filter_empties_completed_tree_and_cycles_back() {
    let mut state = state_with_runs(vec![
        make_run(1, RunStatus::Completed, Some(Conclusion::Success)),
        make_run(2, RunStatus::Completed, Some(Conclusion::Success)),
        make_run(3, RunStatus::Completed, Some(Conclusion::Success)),
    ]);
    state.cursor = 2;
    state.cycle_filter();
    assert_eq!(state.filter, FilterMode::ActiveOnly);
    assert!(state.tree_items.is_empty());
    assert_eq!(state.cursor, 0);
    state.cycle_filter();
    state.cycle_filter();
    assert_eq!(state.filter, FilterMode::All);
    assert_eq!(state.tree_items.len(), 3);
}

#[test]
fn app_quick_select_first() {
    let mut state = state_with_runs(vec![
        make_run(1, RunStatus::Completed, Some(Conclusion::Success)),
        make_run(2, RunStatus::Completed, Some(Conclusion::Success)),
        make_run(3, RunStatus::Completed, Some(Conclusion::Success)),
    ]);
    state.quick_select(1);
    assert_eq!(state.cursor, 0);
}

#[test]
fn app_quick_select_second() {
    let mut state = state_with_runs(vec![
        make_run(1, RunStatus::Completed, Some(Conclusion::Success)),
        make_run(2, RunStatus::Completed, Some(Conclusion::Success)),
        make_run(3, RunStatus::Completed, Some(Conclusion::Success)),
    ]);
    state.quick_select(2);
    assert_eq!(state.cursor, 1);
}

#[test]
fn app_quick_select_skips_non_run_items() {
    let mut run = make_run(1, RunStatus::Completed, Some(Conclusion::Success));
    run.jobs = Some(vec![make_job("build", RunStatus::Completed, Some(Conclusion::Success))]);
    let mut state = state_with_runs(vec![run, make_run(2, RunStatus::Completed, Some(Conclusion::Success))]);
    state.expanded_runs.push(1);
    state.rebuild_tree();
    state.quick_select(2);
    assert_eq!(state.cursor, 2);
}

#[test]
fn app_quick_select_out_of_range_does_nothing() {
    let mut state = state_with_runs(vec![make_run(1, RunStatus::Completed, Some(Conclusion::Success))]);
    state.cursor = 0;
    state.quick_select(5);
    assert_eq!(state.cursor, 0);
}

#[test]
fn quick_select_zero_does_nothing() {
    let mut state = state_with_runs(vec![
        make_run(1, RunStatus::Completed, Some(Conclusion::Success)),
        make_run(2, RunStatus::Completed, Some(Conclusion::Success)),
    ]);
    state.cursor = 1;
    state.quick_select(0);
    assert_eq!(state.cursor, 1);
}

#[test]
fn app_has_active_runs_true() {
    let state = state_with_runs(vec![make_run(1, RunStatus::InProgress, None)]);
    assert!(state.has_active_runs());
}

#[test]
fn app_has_active_runs_false() {
    let state = state_with_runs(vec![make_run(1, RunStatus::Completed, Some(Conclusion::Success))]);
    assert!(!state.has_active_runs());
}

#[test]
fn app_has_active_runs_empty() {
    let state = state_with_runs(vec![]);
    assert!(!state.has_active_runs());
}

#[test]
fn app_error_lifecycle() {
    let mut state = state_with_runs(vec![]);
    assert!(state.error_message().is_none());
    state.set_error("something broke".to_string(), 100);
    assert_eq!(state.error_message(), Some("something broke"));
    state.clear_error();
    assert!(state.error_message().is_none());
}

#[test]
fn error_toast_expires_after_its_lifetime() {
    let mut state = state_with_runs(vec![]);
    state.set_error("boom".to_string(), 100);
    state.prune_error(109);
    assert_eq!(state.error_message(), Some("boom"));
    state.prune_error(110);
    assert!(state.error_message().is_none());
}

#[test]
fn app_resolve_item_run() {
    let state = state_with_runs(vec![make_run(1, RunStatus::Completed, Some(Conclusion::Success))]);
    let item = &state.tree_items[0];
    assert!(matches!(state.resolve_item(item), Some(ResolvedItem::Run(_))));
}

#[test]
fn app_resolve_item_job() {
    let mut run = make_run(1, RunStatus::Completed, Some(Conclusion::Success));
    run.jobs = Some(vec![make_job("build", RunStatus::Completed, Some(Conclusion::Success))]);
    let mut state = state_with_runs(vec![run]);
    state.expanded_runs.push(1);
    state.rebuild_tree();
    let item = &state.tree_items[1];
    assert!(matches!(state.resolve_item(item), Some(ResolvedItem::Job(_))));
}

#[test]
fn app_resolve_item_step() {
    let mut run = make_run(1, RunStatus::Completed, Some(Conclusion::Success));
    run.jobs = Some(vec![make_job("build", RunStatus::Completed, Some(Conclusion::Success))]);
    let mut state = state_with_runs(vec![run]);
    state.expanded_runs.push(1);
    state.expanded_jobs.push((1, 1));
    state.rebuild_tree();
    let item = &state.tree_items[2];
    assert!(matches!(state.resolve_item(item), Some(ResolvedItem::Step(_))));
}

#[test]
fn app_resolve_item_invalid_index() {
    let state = state_with_runs(vec![]);
    let item = TreeItem { level: TreeLevel::Run, run_idx: 99, job_idx: None, step_idx: None, expanded: false };
    assert!(state.resolve_item(&item).is_none());
}

#[test]
fn app_cursor_clamped_on_tree_shrink() {
    let mut state = state_with_runs(vec![
        make_run(1, RunStatus::Completed, Some(Conclusion::Success)),
        make_run(2, RunStatus::InProgress, None),
        make_run(3, RunStatus::Completed, Some(Conclusion::Success)),
    ]);
    state.cursor = 2;
    state.filter = FilterMode::ActiveOnly;
    state.rebuild_tree();
    assert_eq!(state.cursor, 0);
}

#[test]
fn app_spinner_wraps() {
    let mut state = state_with_runs(vec![]);
    for _ in 0..SPINNER_FRAME_COUNT {
        state.advance_spinner();
    }
    assert_eq!(state.spinner_frame, 0);
}

#[test]
fn app_current_run_url_returns_url() {
    let state = state_with_runs(vec![make_run(42, RunStatus::Completed, Some(Conclusion::Success))]);
    assert_eq!(state.current_run_url(), Some("https://github.com/test/repo/actions/runs/42"));
}

#[test]
fn app_current_run_id_returns_id() {
    let state = state_with_runs(vec![make_run(42, RunStatus::Completed, Some(Conclusion::Success))]);
    assert_eq!(state.current_run_id(), Some(42));
}

#[test]
fn app_current_run_url_empty() {
    let state = state_with_runs(vec![]);
    assert_eq!(state.current_run_url(), None);
}

#[test]
fn current_run_display_title_names_run() {
    let state = state_with_runs(vec![make_run(42, RunStatus::Completed, Some(Conclusion::Success))]);
    assert_eq!(state.current_run_display_title(), Some("CI #42".to_string()));
}

#[test]
fn app_current_item_is_failed_on_failed_run() {
    let state = state_with_runs(vec![make_run(1, RunStatus::Completed, Some(Conclusion::Failure))]);
    assert!(state.current_item_is_failed());
}

#[test]
fn app_current_item_is_failed_on_success_run() {
    let state = state_with_runs(vec![make_run(1, RunStatus::Completed, Some(Conclusion::Success))]);
    assert!(!state.current_item_is_failed());
}

#[test]
fn app_current_item_is_failed_on_failed_job() {
    let mut run = make_run(1, RunStatus::Completed, Some(Conclusion::Failure));
    run.jobs = Some(vec![make_job("build", RunStatus::Completed, Some(Conclusion::Failure))]);
    let mut state = state_with_runs(vec![run]);
    state.expanded_runs.push(1);
    state.rebuild_tree();
    state.cursor = 1;
    assert!(state.current_item_is_failed());
}

#[test]
fn app_current_item_is_failed_empty() {
    let state = state_with_runs(vec![]);
    assert!(!state.current_item_is_failed());
}

#[test]
fn app_current_item_ids_run() {
    let state = state_with_runs(vec![make_run(42, RunStatus::Completed, Some(Conclusion::Failure))]);
    assert_eq!(state.current_item_ids(), Some((42, None)));
}

#[test]
fn app_current_item_ids_job() {
    let mut run = make_run(42, RunStatus::Completed, Some(Conclusion::Failure));
    let mut job = make_job("build", RunStatus::Completed, Some(Conclusion::Failure));
    job.database_id = Some(99);
    run.jobs = Some(vec![job]);
    let mut state = state_with_runs(vec![run]);
    state.expanded_runs.push(42);
    state.rebuild_tree();
    state.cursor = 1;
    assert_eq!(state.current_item_ids(), Some((42, Some(99))));
}

#[test]
fn app_current_item_ids_empty() {
    let state = state_with_runs(vec![]);
    assert_eq!(state.current_item_ids(), None);
}

#[test]
fn app_open_close_log_overlay() {
    let mut state = state_with_runs(vec![]);
    assert!(!state.has_log_overlay());
    state.open_log_overlay("Test".to_string(), "line1\nline2", 1, None);
    assert!(state.has_log_overlay());
    assert_eq!(unwrap_log_overlay(&state).lines.len(), 2);
    assert_eq!(state.log_overlay_text(), Some("line1\nline2".to_string()));
    state.close_log_overlay();
    assert!(!state.has_log_overlay());
    assert_eq!(state.log_overlay_text(), None);
}

#[test]
fn app_log_overlay_truncates_long_content() {
    let mut state = state_with_runs(vec![]);
    let content: String = (0..600).map(|i| format!("line {}", i)).collect::<Vec<_>>().join("\n");
    state.open_log_overlay("Test".to_string(), &content, 1, None);
    assert_eq!(unwrap_log_overlay(&state).lines.len(), LOG_MAX_LINES);
    assert!(unwrap_log_overlay(&state).lines[0].contains("100"));
}

#[test]
fn log_overlay_keeps_exactly_the_last_lines() {
    let mut state = state_with_runs(vec![]);
    let content: String = (0..600).map(|i| format!("line {}", i)).collect::<Vec<_>>().join("\n");
    state.open_log_overlay("Test".to_string(), &content, 1, None);
    let o = unwrap_log_overlay(&state);
    assert_eq!(o.lines.len(), 500);
    assert_eq!(o.lines[0], "line 100");
    assert_eq!(o.lines[499], "line 599");
}

#[test]
fn open_close_confirm_overlay() {
    let mut state = state_with_runs(vec![make_run(1, RunStatus::InProgress, None)]);
    assert!(!state.has_confirm_overlay());
    state.open_confirm_overlay("Confirm".to_string(), "Cancel run?".to_string(), ConfirmAction::CancelRun(1));
    assert!(state.has_confirm_overlay());
    assert_eq!(state.confirm_action(), Some(ConfirmAction::CancelRun(1)));
    state.close_confirm_overlay();
    assert!(!state.has_confirm_overlay());
    assert_eq!(state.confirm_action(), None);
}

#[test]
fn confirm_overlay_is_exclusive() {
    let mut state = state_with_runs(vec![make_run(1, RunStatus::Completed, Some(Conclusion::Failure))]);
    state.open_log_overlay("Test".to_string(), "log content", 1, None);
    assert!(state.has_log_overlay());
    state.open_confirm_overlay("Confirm".to_string(), "Delete run?".to_string(), ConfirmAction::DeleteRun(1));
    assert!(state.has_confirm_overlay());
    assert!(!state.has_log_overlay());
}

#[test]
fn close_confirm_does_nothing_when_not_confirm() {
    let mut state = state_with_runs(vec![]);
    state.open_log_overlay("Test".to_string(), "log content", 1, None);
    assert!(state.has_log_overlay());
    state.close_confirm_overlay();
    assert!(state.has_log_overlay());
}

#[test]
fn delete_run_removes_from_state() {
    let mut state = state_with_runs(vec![
        make_run(1, RunStatus::Completed, Some(Conclusion::Success)),
        make_run(2, RunStatus::Completed, Some(Conclusion::Failure)),
        make_run(3, RunStatus::Completed, Some(Conclusion::Success)),
    ]);
    assert_eq!(state.runs.len(), 3);
    assert_eq!(state.tree_items.len(), 3);
    state.remove_run(2);
    assert_eq!(state.runs.len(), 2);
    assert_eq!(state.tree_items.len(), 2);
    assert!(state.runs.iter().all(|r| r.database_id != 2));
}

#[test]
fn delete_run_nonexistent_is_noop() {
    let mut state = state_with_runs(vec![make_run(1, RunStatus::Completed, Some(Conclusion::Success))]);
    state.remove_run(999);
    assert_eq!(state.runs.len(), 1);
}

#[test]
fn delete_run_clamps_cursor() {
    let mut state = state_with_runs(vec![
        make_run(1, RunStatus::Completed, Some(Conclusion::Success)),
        make_run(2, RunStatus::Completed, Some(Conclusion::Success)),
    ]);
    state.cursor = 1;
    state.remove_run(2);
    assert_eq!(state.runs.len(), 1);
    assert_eq!(state.cursor, 0);
}

#[test]
fn delete_run_clears_every_trace() {
    let mut run = make_run(7, RunStatus::Completed, Some(Conclusion::Failure));
    run.jobs = Some(vec![make_job("build", RunStatus::Completed, Some(Conclusion::Failure))]);
    let mut state = state_with_runs(vec![make_run(1, RunStatus::Completed, Some(Conclusion::Success)), run]);
    state.expanded_runs.push(7);
    state.expanded_jobs.push((7, 1));
    state.rebuild_tree();
    state.cache_log(7, None, "log".to_string(), 10);
    state.cache_log(1, None, "other".to_string(), 10);
    state.set_run_error(7, "job fetch failed".to_string());
    state.open_log_overlay("t".to_string(), "log", 7, None);
    state.cursor = 2;
    state.remove_run(7);
    assert!(state.runs.iter().all(|r| r.database_id != 7));
    assert!(!state.expanded_runs.contains(&7));
    assert!(state.expanded_jobs.is_empty());
    assert!(state.log_cache.iter().all(|e| e.run_id != 7));
    assert_eq!(state.log_cache.len(), 1);
    assert!(state.run_error(7).is_none());
    assert!(matches!(state.overlay, ActiveOverlay::Closed));
    assert_eq!(state.tree_items.len(), 1);
    assert_eq!(state.cursor, 0);
}

#[test]
fn delete_run_closes_confirm_overlay_for_it() {
    let mut state = state_with_runs(vec![make_run(3, RunStatus::Completed, Some(Conclusion::Success))]);
    state.open_confirm_overlay("Confirm Delete".to_string(), "Delete?".to_string(), ConfirmAction::DeleteRun(3));
    state.remove_run(3);
    assert!(!state.has_confirm_overlay());
}

#[test]
fn app_scroll_log_bounds() {
    let mut state = state_with_runs(vec![]);
    let content = (0..50).map(|i| format!("line {}", i)).collect::<Vec<_>>().join("\n");
    state.open_log_overlay("Test".to_string(), &content, 1, None);
    state.scroll_log_down(5, 20);
    assert_eq!(unwrap_log_overlay(&state).scroll, 5);
    state.scroll_log_up(3);
    assert_eq!(unwrap_log_overlay(&state).scroll, 2);
    state.scroll_log_up(10);
    assert_eq!(unwrap_log_overlay(&state).scroll, 0);
    state.scroll_log_down(100, 20);
    assert_eq!(unwrap_log_overlay(&state).scroll, 30);
    state.scroll_log_to_top();
    assert_eq!(unwrap_log_overlay(&state).scroll, 0);
    state.scroll_log_to_bottom(20);
    assert_eq!(unwrap_log_overlay(&state).scroll, 30);
}

#[test]
fn scroll_log_down_saturates_on_huge_amount() {
    let mut state = state_with_runs(vec![]);
    state.open_log_overlay("Test".to_string(), "a\nb\nc", 1, None);
    state.scroll_log_down(usize::MAX, 1);
    assert_eq!(unwrap_log_overlay(&state).scroll, 2);
}

#[test]
fn notifications_expire_after_their_lifetime() {
    let mut state = state_with_runs(vec![]);
    state.add_notification(1, "old".to_string(), 100);
    state.add_notification(2, "new".to_string(), 103);
    state.prune_notifications(105);
    assert_eq!(state.notifications.len(), 1);
    assert_eq!(state.notifications[0].run_id, 2);
}

#[test]
fn log_cache_expires_and_serves_fresh_entries() {
    let mut state = state_with_runs(vec![]);
    state.cache_log(1, Some(5), "first".to_string(), 0);
    assert_eq!(state.cached_log(1, Some(5), 100).map(|s| s.as_str()), Some("first"));
    assert!(state.cached_log(1, None, 100).is_none());
    assert!(state.cached_log(1, Some(5), 120).is_none());
    state.cache_log(1, Some(5), "second".to_string(), 130);
    assert_eq!(state.log_cache.len(), 1);
    state.prune_log_cache(300);
    assert!(state.log_cache.is_empty());
}

#[test]
fn loading_counter_saturates() {
    let mut state = state_with_runs(vec![]);
    assert!(!state.is_loading());
    state.end_loading();
    assert_eq!(state.loading_count, 0);
    state.begin_loading();
    assert!(state.is_loading());
    state.end_loading();
    assert!(!state.is_loading());
}

#[test]
fn filtered_runs_indices_follow_filter() {
    let mut state = state_with_runs(vec![
        make_run(1, RunStatus::Completed, Some(Conclusion::Success)),
        make_run(2, RunStatus::InProgress, None),
        make_run(3, RunStatus::Queued, None),
    ]);
    state.filter = FilterMode::ActiveOnly;
    let idx: Vec<usize> = state.filtered_runs_indices().iter().map(|(i, _)| *i).collect();
    assert_eq!(idx, vec![1, 2]);
}

fn assert_tree_consistent(state: &AppState) {
    for item in &state.tree_items {
        let run = &state.runs[item.run_idx];
        match item.level {
            TreeLevel::Run | TreeLevel::Loading => {}
            TreeLevel::Job => {
                let jobs = run.jobs.as_ref().unwrap();
                assert!(item.job_idx.unwrap() < jobs.len());
            }
            TreeLevel::Step => {
                let job = &run.jobs.as_ref().unwrap()[item.job_idx.unwrap()];
                assert!(item.step_idx.unwrap() < job.steps.len());
            }
        }
    }
    if state.tree_items.is_empty() {
        assert_eq!(state.cursor, 0);
    } else {
        assert!(state.cursor < state.tree_items.len());
    }
}

#[test]
fn tree_rows_resolve_through_a_sequence_of_mutations() {
    let mut run1 = make_run(1, RunStatus::Completed, Some(Conclusion::Failure));
    run1.jobs = Some(vec![make_job("build", RunStatus::Completed, Some(Conclusion::Failure))]);
    let mut state = state_with_runs(vec![run1, make_run(2, RunStatus::InProgress, None), make_run(3, RunStatus::Queued, None)]);
    assert_tree_consistent(&state);
    state.toggle_expand();
    assert_tree_consistent(&state);
    state.move_cursor_down();
    state.toggle_expand();
    assert_tree_consistent(&state);
    assert_eq!(state.tree_items.len(), 6);
    for _ in 0..10 {
        state.move_cursor_down();
    }
    assert_tree_consistent(&state);
    state.cycle_filter();
    assert_tree_consistent(&state);
    state.cycle_filter();
    state.cycle_filter();
    state.cursor = 3;
    state.remove_run(1);
    assert_tree_consistent(&state);
    state.runs.clear();
    state.rebuild_tree();
    assert_tree_consistent(&state);
    state.move_cursor_up();
    state.move_cursor_down();
    assert_eq!(state.cursor, 0);
}
