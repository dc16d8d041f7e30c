use vstd::prelude::*;

use crate::issue::{
    disallowed_issue, disallowed_message, lemma_views_push, outdated_issue, outdated_message,
    views, Issue, IssueKind, IssueView,
};
use crate::model::{FlakeLock, Node};
use crate::select::{nixpkgs_deps, selected};

verus! {

/// Seconds in one day.
pub const SECONDS_PER_DAY: i64 = 86400;

/// A policy rule evaluated against a lock file.
pub trait Check {
    /// The issues this check finds in `flake_lock`, in order.
    spec fn spec_run(&self, flake_lock: FlakeLock) -> Seq<IssueView>;

    /// Evaluates the check; it never fails and leaves the graph untouched.
    fn run(&self, flake_lock: &FlakeLock) -> (r: Vec<Issue>)
        ensures
            views(r@) == self.spec_run(*flake_lock),
    ;
}

/// `git_ref` is one of `allowed`.
pub open spec fn allows(allowed: Seq<String>, git_ref: Seq<char>) -> bool {
    exists|i: int| 0 <= i < allowed.len() && #[trigger] allowed[i]@ == git_ref
}

/// The issue, if any, that the reference check raises for one dependency.
pub open spec fn ref_issue_of(entry: (String, Node), allowed: Seq<String>) -> Seq<IssueView> {
    match entry.1.original {
        Some(original) => match original.git_ref {
            Some(git_ref) => if allows(allowed, git_ref@) {
                Seq::empty()
            } else {
                seq![IssueView { kind: IssueKind::Disallowed, message: disallowed_message(entry.0@, git_ref@) }]
            },
            None => Seq::empty(),
        },
        None => Seq::empty(),
    }
}

/// The reference check's issues for `deps`, in their order.
pub open spec fn ref_issues(deps: Seq<(String, Node)>, allowed: Seq<String>) -> Seq<IssueView>
    decreases deps.len(),
{
    if deps.len() == 0 {
        Seq::empty()
    } else {
        ref_issues(deps.drop_last(), allowed) + ref_issue_of(deps.last(), allowed)
    }
}

/// Whole days from `last_modified` to `now`, truncated toward zero.
pub open spec fn age_days(now: int, last_modified: int) -> int {
    let seconds = now - last_modified;
    if seconds >= 0 {
        seconds / SECONDS_PER_DAY as int
    } else {
        -((-seconds) / SECONDS_PER_DAY as int)
    }
}

/// The issue, if any, that the age check raises for one dependency.
pub open spec fn age_issue_of(entry: (String, Node), max_days: int, now: int) -> Seq<IssueView> {
    match entry.1.locked {
        Some(locked) => {
            let days = age_days(now, locked.last_modified as int);
            if days > max_days {
                seq![IssueView { kind: IssueKind::Outdated, message: outdated_message(entry.0@, days, max_days) }]
            } else {
                Seq::empty()
            }
        },
        None => Seq::empty(),
    }
}

/// The age check's issues for `deps`, in their order.
pub open spec fn age_issues(deps: Seq<(String, Node)>, max_days: int, now: int) -> Seq<IssueView>
    decreases deps.len(),
{
    if deps.len() == 0 {
        Seq::empty()
    } else {
        age_issues(deps.drop_last(), max_days, now) + age_issue_of(deps.last(), max_days, now)
    }
}

/// Whether `git_ref` is one of `allowed`.
pub fn is_allowed(allowed: &Vec<String>, git_ref: &String) -> (r: bool)
    ensures
        r == allows(allowed@, git_ref@),
{
    let mut i: usize = 0;
    while i < allowed.len()
        invariant
            0 <= i <= allowed@.len(),
            forall|k: int| 0 <= k < i ==> #[trigger] allowed@[k]@ != git_ref@,
        decreases allowed@.len() - i,
    {
        if allowed[i] == *git_ref {
            return true;
        }
        i = i + 1;
    }
    false
}

/// Whole days from `last_modified` to `now`, truncated toward zero.
pub fn age_in_days(now: i64, last_modified: i64) -> (r: i64)
    ensures
        r == age_days(now as int, last_modified as int),
{
    let seconds: i128 = now as i128 - last_modified as i128;
    let day: i128 = SECONDS_PER_DAY as i128;
    if seconds >= 0 {
        assert(seconds / day <= seconds) by (nonlinear_arith)
            requires seconds >= 0, day == 86400;
        (seconds / day) as i64
    } else {
        let magnitude: i128 = -seconds;
        assert(magnitude / day <= magnitude / 2) by (nonlinear_arith)
            requires magnitude > 0, day == 86400;
        -((magnitude / day) as i64)
    }
}

/// Flags tracked dependencies whose origin pins a Git ref outside an allow-list.
pub struct Refs<'a> {
    pub allowed_refs: &'a Vec<String>,
}

impl<'a> Check for Refs<'a> {
    open spec fn spec_run(&self, flake_lock: FlakeLock) -> Seq<IssueView> {
        ref_issues(selected(flake_lock.nodes@), self.allowed_refs@)
    }

    fn run(&self, flake_lock: &FlakeLock) -> (r: Vec<Issue>) {
        let deps = nixpkgs_deps(&flake_lock.nodes);
        let ghost sel = selected(flake_lock.nodes@);
        assert(deps@.len() == sel.len());
        let mut issues: Vec<Issue> = Vec::new();
        let mut i: usize = 0;
        while i < deps.len()
            invariant
                0 <= i <= deps@.len() == sel.len(),
                forall|k: int| 0 <= k < deps@.len() ==> *#[trigger] deps@[k] == sel[k],
                views(issues@) == ref_issues(sel.subrange(0, i as int), self.allowed_refs@),
            decreases deps@.len() - i,
        {
            let entry = deps[i];
            assert(sel.subrange(0, i + 1).drop_last() =~= sel.subrange(0, i as int));
            assert(sel.subrange(0, i + 1).last() == *entry);
            if let Some(original) = &entry.1.original {
                if let Some(git_ref) = &original.git_ref {
                    if !is_allowed(self.allowed_refs, git_ref) {
                        let issue = disallowed_issue(&entry.0, git_ref);
                        proof {
                            lemma_views_push(issues@, issue);
                        }
                        issues.push(issue);
                    }
                }
            }
            i = i + 1;
        }
        assert(sel.subrange(0, sel.len() as int) =~= sel);
        issues
    }
}

/// Flags tracked dependencies whose pinned state is more than `max_days`
/// whole days older than `now` (a Unix timestamp, in seconds).
pub struct MaxAge {
    pub max_days: i64,
    pub now: i64,
}

impl Check for MaxAge {
    open spec fn spec_run(&self, flake_lock: FlakeLock) -> Seq<IssueView> {
        age_issues(selected(flake_lock.nodes@), self.max_days as int, self.now as int)
    }

    fn run(&self, flake_lock: &FlakeLock) -> (r: Vec<Issue>) {
        let deps = nixpkgs_deps(&flake_lock.nodes);
        let ghost sel = selected(flake_lock.nodes@);
        let mut issues: Vec<Issue> = Vec::new();
        let mut i: usize = 0;
        while i < deps.len()
            invariant
                0 <= i <= deps@.len() == sel.len(),
                forall|k: int| 0 <= k < deps@.len() ==> *#[trigger] deps@[k] == sel[k],
                views(issues@) == age_issues(
                    sel.subrange(0, i as int),
                    self.max_days as int,
                    self.now as int,
                ),
            decreases deps@.len() - i,
        {
            let entry = deps[i];
            assert(sel.subrange(0, i + 1).drop_last() =~= sel.subrange(0, i as int));
            assert(sel.subrange(0, i + 1).last() == *entry);
            if let Some(locked) = &entry.1.locked {
                let days = age_in_days(self.now, locked.last_modified);
                if days > self.max_days {
                    let issue = outdated_issue(&entry.0, days, self.max_days);
                    proof {
                        lemma_views_push(issues@, issue);
                    }
                    issues.push(issue);
                }
            }
            i = i + 1;
        }
        assert(sel.subrange(0, sel.len() as int) =~= sel);
        issues
    }
}

} // verus!
