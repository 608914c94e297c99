//! The GitHub side: the executor's configuration and how it words the
//! failures of the `gh` tool.
use vstd::prelude::*;

use crate::model::{Conclusion, RunStatus};
use crate::text::{
    chars_of, concat, contains_text, has_infix, same_text, string_of, trim_chars, trim_spec,
};

verus! {

/// Runs the `gh` tool against one repository.
pub struct GhExecutor {
    pub repo: String,
}

impl GhExecutor {
    pub fn new(repo: String) -> (r: GhExecutor)
        ensures
            r.repo == repo,
    {
        GhExecutor { repo }
    }
}

/// The message for a failure of a platform tool, from what it wrote to
/// stderr: authentication and repository problems get advice, anything
/// else is shown after `<tool> command failed`.
pub open spec fn tool_error_message(stderr: Seq<char>, tool: Seq<char>, auth_advice: Seq<char>, repo_advice: Seq<char>) -> Seq<char> {
    if has_infix(stderr, "not logged"@) || has_infix(stderr, "auth login"@) {
        auth_advice
    } else if has_infix(stderr, "not a git repository"@) || has_infix(stderr, "could not determine"@) {
        repo_advice
    } else if trim_spec(stderr).len() == 0 {
        tool + " command failed"@
    } else {
        tool + " command failed: "@ + trim_spec(stderr)
    }
}

/// Words a tool failure as `tool_error_message` says.
pub fn classify_tool_error(stderr: &str, tool: &str, auth_advice: &str, repo_advice: &str) -> (r: String)
    ensures
        r@ == tool_error_message(stderr@, tool@, auth_advice@, repo_advice@),
{
    let cs = chars_of(stderr);
    if contains_text(&cs, "not logged") || contains_text(&cs, "auth login") {
        string_of(chars_of(auth_advice).as_slice())
    } else if contains_text(&cs, "not a git repository") || contains_text(&cs, "could not determine") {
        string_of(chars_of(repo_advice).as_slice())
    } else {
        let trimmed = trim_chars(&cs);
        if trimmed.len() == 0 {
            concat(tool, " command failed")
        } else {
            let t = string_of(trimmed.as_slice());
            let head = concat(tool, " command failed: ");
            concat(head.as_str(), t.as_str())
        }
    }
}

/// The text starts with `p`.
pub open spec fn has_prefix(s: Seq<char>, p: Seq<char>) -> bool {
    p.len() <= s.len() && s.subrange(0, p.len() as int) == p
}

fn starts_with_text(s: &Vec<char>, p: &str) -> (r: bool)
    ensures
        r == has_prefix(s@, p@),
{
    let pv = chars_of(p);
    if pv.len() > s.len() {
        return false;
    }
    let mut i: usize = 0;
    while i < pv.len()
        invariant
            pv@ == p@,
            pv@.len() <= s@.len(),
            i <= pv@.len(),
            forall|k: int| 0 <= k < i ==> s@[k] == pv@[k],
        decreases pv@.len() - i,
    {
        if s[i] != pv[i] {
            assert(s@.subrange(0, pv@.len() as int)[i as int] != pv@[i as int]);
            return false;
        }
        i = i + 1;
    }
    assert(s@.subrange(0, pv@.len() as int) =~= pv@);
    true
}

/// Only web addresses are handed to the browser: anything but `http://`
/// and `https://` is refused.
pub fn check_browser_url(url: &str) -> (r: Result<(), String>)
    ensures
        r is Ok == (has_prefix(url@, "https://"@) || has_prefix(url@, "http://"@)),
        r matches Err(e) ==> e@ == "Refusing to open non-HTTP URL: "@ + url@,
{
    let cs = chars_of(url);
    if starts_with_text(&cs, "https://") || starts_with_text(&cs, "http://") {
        Ok(())
    } else {
        Err(concat("Refusing to open non-HTTP URL: ", url))
    }
}

/// How a failure of `gh` is shown to the user.
pub fn classify_gh_error(stderr: &str) -> (r: String)
    ensures
        r@ == tool_error_message(
            stderr@,
            "gh"@,
            "Not authenticated with gh. Run `gh auth login` first."@,
            "Not in a GitHub repository. Use --repo flag or cd into a repo."@,
        ),
{
    classify_tool_error(
        stderr,
        "gh",
        "Not authenticated with gh. Run `gh auth login` first.",
        "Not in a GitHub repository. Use --repo flag or cd into a repo.",
    )
}

/// The status that a GitHub status name stands for.
pub open spec fn gh_status_of(s: Seq<char>) -> RunStatus {
    if s == "completed"@ {
        RunStatus::Completed
    } else if s == "in_progress"@ {
        RunStatus::InProgress
    } else if s == "queued"@ {
        RunStatus::Queued
    } else if s == "requested"@ {
        RunStatus::Requested
    } else if s == "waiting"@ {
        RunStatus::Waiting
    } else if s == "pending"@ {
        RunStatus::Pending
    } else {
        RunStatus::Unknown
    }
}

/// The conclusion that a GitHub conclusion name stands for.
pub open spec fn gh_conclusion_of(s: Seq<char>) -> Conclusion {
    if s == "success"@ {
        Conclusion::Success
    } else if s == "failure"@ {
        Conclusion::Failure
    } else if s == "cancelled"@ {
        Conclusion::Cancelled
    } else if s == "skipped"@ {
        Conclusion::Skipped
    } else if s == "timed_out"@ {
        Conclusion::TimedOut
    } else if s == "action_required"@ {
        Conclusion::ActionRequired
    } else if s == "startup_failure"@ {
        Conclusion::StartupFailure
    } else if s == "stale"@ {
        Conclusion::Stale
    } else if s == "neutral"@ {
        Conclusion::Neutral
    } else {
        Conclusion::Unknown
    }
}

/// Reads a GitHub status name; unknown names give `Unknown`.
pub fn gh_status(s: &str) -> (r: RunStatus)
    ensures
        r == gh_status_of(s@),
{
    if same_text(s, "completed") {
        RunStatus::Completed
    } else if same_text(s, "in_progress") {
        RunStatus::InProgress
    } else if same_text(s, "queued") {
        RunStatus::Queued
    } else if same_text(s, "requested") {
        RunStatus::Requested
    } else if same_text(s, "waiting") {
        RunStatus::Waiting
    } else if same_text(s, "pending") {
        RunStatus::Pending
    } else {
        RunStatus::Unknown
    }
}

/// Reads a GitHub conclusion name; unknown names give `Unknown`.
pub fn gh_conclusion(s: &str) -> (r: Conclusion)
    ensures
        r == gh_conclusion_of(s@),
{
    if same_text(s, "success") {
        Conclusion::Success
    } else if same_text(s, "failure") {
        Conclusion::Failure
    } else if same_text(s, "cancelled") {
        Conclusion::Cancelled
    } else if same_text(s, "skipped") {
        Conclusion::Skipped
    } else if same_text(s, "timed_out") {
        Conclusion::TimedOut
    } else if same_text(s, "action_required") {
        Conclusion::ActionRequired
    } else if same_text(s, "startup_failure") {
        Conclusion::StartupFailure
    } else if same_text(s, "stale") {
        Conclusion::Stale
    } else if same_text(s, "neutral") {
        Conclusion::Neutral
    } else {
        Conclusion::Unknown
    }
}

} // verus!
