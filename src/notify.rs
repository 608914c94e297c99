//! What a desktop notification about a finished run says. Delivering it is
//! left to the caller.
use vstd::prelude::*;

use crate::diff::{conclusion_label, conclusion_name};
use crate::model::{Conclusion, WorkflowRun};
use crate::text::concat;

verus! {

/// The content of a desktop notification.
pub struct DesktopMessage {
    pub summary: &'static str,
    pub icon: &'static str,
    /// Shown with critical urgency, else normal.
    pub critical: bool,
    pub body: String,
}

/// The body of the notification: the run's title, with the conclusion in
/// parentheses unless it is a plain success or failure.
pub open spec fn desktop_body(run: WorkflowRun) -> Seq<char> {
    match run.conclusion {
        Some(Conclusion::Success) | Some(Conclusion::Failure) | None => run.display_title@,
        Some(c) => run.display_title@ + " ("@ + conclusion_label(c) + ")"@,
    }
}

/// The notification for a run that has just finished.
pub fn desktop_message(run: &WorkflowRun) -> (r: DesktopMessage)
    ensures
        r.body@ == desktop_body(*run),
        r.summary@ == match run.conclusion {
            Some(Conclusion::Success) => "CI Passed"@,
            Some(Conclusion::Failure) => "CI Failed"@,
            _ => "CI Finished"@,
        },
        r.icon@ == if run.conclusion == Some(Conclusion::Failure) {
            "dialog-error"@
        } else {
            "dialog-information"@
        },
        r.critical == (run.conclusion == Some(Conclusion::Failure)),
{
    let (summary, icon, critical) = match run.conclusion {
        Some(Conclusion::Success) => ("CI Passed", "dialog-information", false),
        Some(Conclusion::Failure) => ("CI Failed", "dialog-error", true),
        _ => ("CI Finished", "dialog-information", false),
    };
    let body = match run.conclusion {
        Some(Conclusion::Success) | Some(Conclusion::Failure) | None => run.display_title.clone(),
        Some(c) => {
            let a = concat(run.display_title.as_str(), " (");
            let b = concat(a.as_str(), conclusion_name(c));
            concat(b.as_str(), ")")
        },
    };
    DesktopMessage { summary, icon, critical, body }
}

} // verus!
