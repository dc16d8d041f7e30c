use vstd::prelude::*;
use vstd::string::*;

use crate::text::{decimal, render_int};

verus! {

/// The two kinds of policy violation.
#[derive(Clone, Copy, Debug, PartialEq, Eq, Structural)]
pub enum IssueKind {
    Disallowed,
    Outdated,
}

/// The name under which a kind is reported.
pub open spec fn kind_name(kind: IssueKind) -> Seq<char> {
    match kind {
        IssueKind::Disallowed => "disallowed"@,
        IssueKind::Outdated => "outdated"@,
    }
}

impl IssueKind {
    /// The name under which this kind is reported.
    pub fn name(&self) -> (r: &'static str)
        ensures
            r@ == kind_name(*self),
    {
        match self {
            IssueKind::Disallowed => "disallowed",
            IssueKind::Outdated => "outdated",
        }
    }
}

/// One policy violation found by a check.
pub struct Issue {
    pub kind: IssueKind,
    pub message: String,
}

/// What an issue says, as mathematical values.
pub struct IssueView {
    pub kind: IssueKind,
    pub message: Seq<char>,
}

impl View for Issue {
    type V = IssueView;

    open spec fn view(&self) -> IssueView {
        IssueView { kind: self.kind, message: self.message@ }
    }
}

/// The views of a sequence of issues.
pub open spec fn views(issues: Seq<Issue>) -> Seq<IssueView> {
    issues.map_values(|i: Issue| i@)
}

pub proof fn lemma_views_push(issues: Seq<Issue>, issue: Issue)
    ensures
        views(issues.push(issue)) == views(issues).push(issue@),
{
    assert(views(issues.push(issue)) =~= views(issues).push(issue@));
}

pub proof fn lemma_views_add(a: Seq<Issue>, b: Seq<Issue>)
    ensures
        views(a + b) == views(a) + views(b),
{
    assert(views(a + b) =~= views(a) + views(b));
}

/// The message for a tracked dependency whose Git ref is not allowed.
pub open spec fn disallowed_message(name: Seq<char>, git_ref: Seq<char>) -> Seq<char> {
    "dependency `"@ + name + "` has a Git ref of `"@ + git_ref
        + "` which is not explicitly allowed"@
}

/// The message for a tracked dependency older than the maximum age.
pub open spec fn outdated_message(name: Seq<char>, days: int, max_days: int) -> Seq<char> {
    "dependency `"@ + name + "` is **"@ + decimal(days)
        + "** days old, which is over the max of **"@ + decimal(max_days) + "**"@
}

pub fn disallowed_issue(name: &String, git_ref: &String) -> (r: Issue)
    ensures
        r@ == (IssueView {
            kind: IssueKind::Disallowed,
            message: disallowed_message(name@, git_ref@),
        }),
{
    let message = String::from_str("dependency `").concat(name.as_str()).concat(
        "` has a Git ref of `",
    ).concat(git_ref.as_str()).concat("` which is not explicitly allowed");
    Issue { kind: IssueKind::Disallowed, message }
}

pub fn outdated_issue(name: &String, days: i64, max_days: i64) -> (r: Issue)
    ensures
        r@ == (IssueView {
            kind: IssueKind::Outdated,
            message: outdated_message(name@, days as int, max_days as int),
        }),
{
    let days_text = render_int(days);
    let max_text = render_int(max_days);
    let message = String::from_str("dependency `").concat(name.as_str()).concat("` is **").concat(
        days_text.as_str(),
    ).concat("** days old, which is over the max of **").concat(max_text.as_str()).concat("**");
    Issue { kind: IssueKind::Outdated, message }
}

} // verus!
