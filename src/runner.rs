use vstd::prelude::*;

use crate::checks::{age_issues, ref_issues, Check, MaxAge, Refs};
use crate::issue::{lemma_views_add, views, Issue, IssueView};
use crate::model::{Config, FlakeLock};
use crate::select::selected;

verus! {

/// Everything the active checks report on `flake_lock` at time `now`: the
/// age check's issues first, then the reference check's.
pub open spec fn all_issues(flake_lock: FlakeLock, config: Config, now: int) -> Seq<IssueView> {
    age_issues(selected(flake_lock.nodes@), config.max_days as int, now) + ref_issues(
        selected(flake_lock.nodes@),
        config.allowed_refs@,
    )
}

/// Relies on chrono's `Utc::now` and `DateTime::timestamp`: the current time in
/// whole seconds since the Unix epoch. `Utc::now` panics on a clock set before
/// the epoch, so what it returns is never negative.
#[verifier::external_body]
fn now_timestamp() -> (r: i64)
    ensures
        r >= 0,
{
    chrono::Utc::now().timestamp()
}

/// Runs the active checks with ages measured at `now` (Unix seconds).
pub fn check_flake_lock_at(flake_lock: &FlakeLock, config: &Config, now: i64) -> (r: Vec<Issue>)
    ensures
        views(r@) == all_issues(*flake_lock, *config, now as int),
{
    let mut is1 = (MaxAge { max_days: config.max_days, now }).run(flake_lock);
    let mut is2 = (Refs { allowed_refs: &config.allowed_refs }).run(flake_lock);
    proof {
        lemma_views_add(is1@, is2@);
    }
    is1.append(&mut is2);
    is1
}

/// Runs the active checks with ages measured at the current time.
pub fn check_flake_lock(flake_lock: &FlakeLock, config: &Config) -> (r: Vec<Issue>)
    ensures
        exists|now: i64| now >= 0 && views(r@) == #[trigger] all_issues(*flake_lock, *config, now as int),
{
    let now = now_timestamp();
    let r = check_flake_lock_at(flake_lock, config, now);
    assert(views(r@) == all_issues(*flake_lock, *config, now as int));
    r
}

} // verus!
