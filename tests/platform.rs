use ciw::cli::{validate_project_format, validate_repo_format};
use ciw::gh::{check_browser_url, classify_gh_error, gh_conclusion, gh_status, GhExecutor};
use ciw::glab::{classify_glab_error, map_conclusion, map_status, GlabExecutor};
use ciw::model::{Conclusion, RunStatus, WorkflowRun};
use ciw::notify::desktop_message;

#[test]
fn executor_classify_not_logged_in() {
    let msg = classify_gh_error("You are not logged into any GitHub hosts");
    assert!(msg.contains("Not authenticated"));
}

#[test]
fn executor_classify_auth_login() {
    let msg = classify_gh_error("To get started with GitHub CLI, please run: gh auth login");
    assert!(msg.contains("Not authenticated"));
}

#[test]
fn executor_classify_not_a_git_repo() {
    let msg = classify_gh_error("fatal: not a git repository (or any parent)");
    assert!(msg.contains("Not in a GitHub repository"));
}

#[test]
fn executor_classify_could_not_determine() {
    let msg = classify_gh_error("could not determine repo from current directory");
    assert!(msg.contains("Not in a GitHub repository"));
}

#[test]
fn executor_classify_generic_error() {
    let msg = classify_gh_error("something went wrong");
    assert_eq!(msg, "gh command failed: something went wrong");
}

#[test]
fn executor_classify_empty_stderr() {
    let msg = classify_gh_error("");
    assert_eq!(msg, "gh command failed");
}

#[test]
fn executor_classify_whitespace_only_stderr() {
    let msg = classify_gh_error("   \n  ");
    assert_eq!(msg, "gh command failed");
}

#[test]
fn glab_classify_not_logged_in() {
    let msg = classify_glab_error("You are not logged into any GitLab hosts");
    assert!(msg.contains("Not authenticated"));
}

#[test]
fn glab_classify_auth_login() {
    let msg = classify_glab_error("To get started with GitLab CLI, please run: glab auth login");
    assert!(msg.contains("Not authenticated"));
}

#[test]
fn glab_classify_not_a_git_repo() {
    let msg = classify_glab_error("fatal: not a git repository (or any parent)");
    assert!(msg.contains("Not in a GitLab repository"));
}

#[test]
fn glab_classify_could_not_determine() {
    let msg = classify_glab_error("could not determine repo from current directory");
    assert!(msg.contains("Not in a GitLab repository"));
}

#[test]
fn glab_classify_generic_error() {
    let msg = classify_glab_error("something went wrong");
    assert_eq!(msg, "glab command failed: something went wrong");
}

#[test]
fn glab_classify_empty_stderr() {
    assert_eq!(classify_glab_error(""), "glab command failed");
}

#[test]
fn glab_classify_whitespace_only_stderr() {
    assert_eq!(classify_glab_error("   \n  "), "glab command failed");
}

#[test]
fn classify_trims_surrounding_space() {
    assert_eq!(classify_gh_error("  \tbad thing \n"), "gh command failed: bad thing");
}

#[test]
fn encoded_project_replaces_slashes() {
    let exec = GlabExecutor::new("group/subgroup/project".to_string());
    assert_eq!(exec.encoded_project, "group%2Fsubgroup%2Fproject");
}

#[test]
fn encoded_project_simple() {
    let exec = GlabExecutor::new("mygroup/myproject".to_string());
    assert_eq!(exec.encoded_project, "mygroup%2Fmyproject");
}

#[test]
fn gh_executor_keeps_repo() {
    assert_eq!(GhExecutor::new("cli/cli".to_string()).repo, "cli/cli");
}

#[test]
fn valid_repo_format() {
    assert!(validate_repo_format("owner/repo").is_ok());
    assert!(validate_repo_format("cli/cli").is_ok());
    assert!(validate_repo_format("my-org/my-repo").is_ok());
}

#[test]
fn invalid_repo_no_slash() {
    assert!(validate_repo_format("noslash").is_err());
}

#[test]
fn invalid_repo_multiple_slashes() {
    assert!(validate_repo_format("a/b/c").is_err());
}

#[test]
fn invalid_repo_empty_owner() {
    assert!(validate_repo_format("/repo").is_err());
}

#[test]
fn invalid_repo_empty_name() {
    assert!(validate_repo_format("owner/").is_err());
}

#[test]
fn invalid_repo_whitespace() {
    assert!(validate_repo_format("owner /repo").is_err());
}

#[test]
fn invalid_repo_empty_string() {
    assert!(validate_repo_format("").is_err());
}

#[test]
fn invalid_repo_message() {
    assert_eq!(
        validate_repo_format("x"),
        Err("Invalid repo format 'x'. Expected 'owner/repo' (e.g. 'cli/cli').".to_string())
    );
}

#[test]
fn valid_project_format() {
    assert!(validate_project_format("group/project").is_ok());
    assert!(validate_project_format("group/subgroup/project").is_ok());
    assert!(validate_project_format("a/b/c/d").is_ok());
}

#[test]
fn invalid_project_no_slash() {
    assert!(validate_project_format("noslash").is_err());
}

#[test]
fn invalid_project_empty_segment() {
    assert!(validate_project_format("/project").is_err());
    assert!(validate_project_format("group/").is_err());
    assert!(validate_project_format("a//b").is_err());
}

#[test]
fn invalid_project_whitespace() {
    assert!(validate_project_format("group /project").is_err());
}

#[test]
fn invalid_project_empty() {
    assert!(validate_project_format("").is_err());
}

#[test]
fn glab_status_mapping() {
    assert_eq!(map_status("success"), RunStatus::Completed);
    assert_eq!(map_status("failed"), RunStatus::Completed);
    assert_eq!(map_status("running"), RunStatus::InProgress);
    assert_eq!(map_status("manual"), RunStatus::Pending);
    assert_eq!(map_status("waiting_for_resource"), RunStatus::Waiting);
    assert_eq!(map_status("weird"), RunStatus::Unknown);
    assert_eq!(map_conclusion("canceled"), Some(Conclusion::Cancelled));
    assert_eq!(map_conclusion("skipped"), Some(Conclusion::Skipped));
    assert_eq!(map_conclusion("running"), None);
}

#[test]
fn desktop_message_for_cancelled_run() {
    let run = WorkflowRun {
        database_id: 1,
        display_title: "Deploy".to_string(),
        name: "CD".to_string(),
        head_branch: "main".to_string(),
        status: RunStatus::Completed,
        conclusion: Some(Conclusion::Cancelled),
        created_at: 0,
        updated_at: 0,
        event: "push".to_string(),
        number: 1,
        url: String::new(),
        jobs: None,
    };
    let m = desktop_message(&run);
    assert_eq!(m.summary, "CI Finished");
    assert_eq!(m.body, "Deploy (Cancelled)");
    assert!(!m.critical);
}

#[test]
fn browser_only_opens_web_urls() {
    assert!(check_browser_url("https://github.com/o/r/actions/runs/1").is_ok());
    assert!(check_browser_url("http://example.com").is_ok());
    assert_eq!(
        check_browser_url("file:///etc/passwd"),
        Err("Refusing to open non-HTTP URL: file:///etc/passwd".to_string())
    );
    assert!(check_browser_url("http:/").is_err());
}

#[test]
fn gh_status_and_conclusion_names() {
    assert_eq!(gh_status("in_progress"), RunStatus::InProgress);
    assert_eq!(gh_status("requested"), RunStatus::Requested);
    assert_eq!(gh_status("mystery"), RunStatus::Unknown);
    assert_eq!(gh_conclusion("timed_out"), Conclusion::TimedOut);
    assert_eq!(gh_conclusion("startup_failure"), Conclusion::StartupFailure);
    assert_eq!(gh_conclusion(""), Conclusion::Unknown);
}

#[test]
fn gitlab_pipeline_becomes_run() {
    let run = ciw::glab::pipeline_run(
        100,
        7,
        "main".to_string(),
        "failed",
        "push".to_string(),
        10,
        20,
        "https://gitlab.com/g/p/-/pipelines/100".to_string(),
    );
    assert_eq!(run.display_title, "Pipeline #7");
    assert_eq!(run.status, RunStatus::Completed);
    assert_eq!(run.conclusion, Some(Conclusion::Failure));
    assert_eq!(run.name, "push");
    assert!(run.jobs.is_none());
    let job = ciw::glab::glab_job(5, "test".to_string(), "running", Some(1), None, String::new());
    assert_eq!(job.database_id, Some(5));
    assert_eq!(job.status, RunStatus::InProgress);
    assert_eq!(job.conclusion, None);
    assert!(job.steps.is_empty());
}
