//! Policy checks over a Nix flake lock graph: which dependencies are tracked,
//! which of them pin a Git ref outside an allow-list, and which are older than
//! a maximum age.

mod checks;
mod issue;
mod laws;
mod model;
mod runner;
mod select;
mod text;

pub use checks::{
    age_days, age_in_days, age_issue_of, age_issues, allows, is_allowed, ref_issue_of,
    ref_issues, Check, MaxAge, Refs, SECONDS_PER_DAY,
};
pub use issue::{
    disallowed_issue, disallowed_message, kind_name, outdated_issue, outdated_message, views,
    Issue, IssueKind, IssueView,
};
pub use laws::{
    contains_text, lemma_age_check_per_node, lemma_age_issues_add, lemma_outdated_before_disallowed,
    lemma_ref_check_per_node, lemma_ref_issues_add, lemma_runs_agree, lemma_selected_add,
    lemma_selected_split, lemma_untracked_graph_is_clean,
};
pub use model::{names_unique, Config, FlakeLock, Input, Locked, Node, Original};
pub use runner::{all_issues, check_flake_lock, check_flake_lock_at};
pub use select::{is_tracked, is_tracked_name, nixpkgs_deps, selected, TRACKED_PREFIX};
pub use text::{decimal, digits, render_int};
