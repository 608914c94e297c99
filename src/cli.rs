//! Command-line options of the two front ends, and the checks on the
//! repository and project names they take.
use vstd::prelude::*;

use crate::text::{chars_of, concat, contains_white_space, has_white_space};

verus! {

/// Options of the GitHub front end.
pub struct Cli {
    /// Repository in owner/repo form.
    pub repo: Option<String>,
    /// Branch to filter on.
    pub branch: Option<String>,
    /// Poll interval in seconds.
    pub interval: u64,
    /// Maximum number of runs shown.
    pub limit: usize,
    /// Workflow name to filter on.
    pub workflow: Option<String>,
    pub no_notify: bool,
    pub verbose: bool,
}

/// The number of slashes in `s`.
pub open spec fn slash_count(s: Seq<char>) -> nat
    decreases s.len(),
{
    if s.len() == 0 {
        0
    } else {
        slash_count(s.drop_last()) + if s.last() == '/' {
            1nat
        } else {
            0nat
        }
    }
}

/// Two slashes follow each other somewhere in `s`.
pub open spec fn has_double_slash(s: Seq<char>) -> bool {
    exists|i: int| 0 <= i < s.len() - 1 && #[trigger] s[i] == '/' && s[i + 1] == '/'
}

/// `owner/repo`: one slash, two non-empty parts, no white space.
pub open spec fn valid_repo(s: Seq<char>) -> bool {
    &&& slash_count(s) == 1
    &&& s[0] != '/'
    &&& s.last() != '/'
    &&& !has_white_space(s)
}

/// `group/project` or deeper: at least one slash, no empty part, no white space.
pub open spec fn valid_project(s: Seq<char>) -> bool {
    &&& slash_count(s) >= 1
    &&& s[0] != '/'
    &&& s.last() != '/'
    &&& !has_double_slash(s)
    &&& !has_white_space(s)
}

/// Counts the slashes and checks for two in a row.
fn slash_facts(s: &Vec<char>) -> (r: (usize, bool))
    ensures
        r.0 == slash_count(s@),
        r.1 == has_double_slash(s@),
{
    let mut count: usize = 0;
    let mut double = false;
    let mut i: usize = 0;
    while i < s.len()
        invariant
            i <= s@.len(),
            count == slash_count(s@.subrange(0, i as int)),
            count <= i,
            double == exists|k: int| 0 <= k < i - 1 && #[trigger] s@[k] == '/' && s@[k + 1] == '/',
        decreases s@.len() - i,
    {
        proof {
            assert(s@.subrange(0, i + 1).drop_last() =~= s@.subrange(0, i as int));
        }
        if s[i] == '/' {
            count = count + 1;
            if i > 0 && s[i - 1] == '/' {
                double = true;
            }
        }
        proof {
            if !double {
                assert forall|k: int| 0 <= k < i + 1 - 1 implies !(#[trigger] s@[k] == '/' && s@[k + 1] == '/') by {
                    if k == i - 1 {
                    }
                }
            }
        }
        i = i + 1;
    }
    proof {
        assert(s@.subrange(0, i as int) =~= s@);
    }
    (count, double)
}

/// Accepts `owner/repo`; anything else is refused with a message.
pub fn validate_repo_format(repo: &str) -> (r: Result<(), String>)
    ensures
        r is Ok == (repo@.len() > 0 && valid_repo(repo@)),
        r matches Err(e) ==> e@ == "Invalid repo format '"@ + repo@ + "'. Expected 'owner/repo' (e.g. 'cli/cli')."@,
{
    let cs = chars_of(repo);
    let (slashes, _) = slash_facts(&cs);
    let ok = cs.len() > 0 && slashes == 1 && cs[0] != '/' && cs[cs.len() - 1] != '/' && !contains_white_space(&cs);
    if ok {
        Ok(())
    } else {
        let a = concat("Invalid repo format '", repo);
        Err(concat(a.as_str(), "'. Expected 'owner/repo' (e.g. 'cli/cli')."))
    }
}

/// Accepts `group/project` with any depth of subgroups; anything else is
/// refused with a message.
pub fn validate_project_format(project: &str) -> (r: Result<(), String>)
    ensures
        r is Ok == (project@.len() > 0 && valid_project(project@)),
        r matches Err(e) ==> e@ == "Invalid project format '"@ + project@
            + "'. Expected 'group/project' (e.g. 'gitlab-org/gitlab')."@,
{
    let cs = chars_of(project);
    let (slashes, double) = slash_facts(&cs);
    let ok = cs.len() > 0 && slashes >= 1 && cs[0] != '/' && cs[cs.len() - 1] != '/' && !double
        && !contains_white_space(&cs);
    if ok {
        Ok(())
    } else {
        let a = concat("Invalid project format '", project);
        Err(concat(a.as_str(), "'. Expected 'group/project' (e.g. 'gitlab-org/gitlab')."))
    }
}

} // verus!
