use flake_checker::{
    age_in_days, check_flake_lock, check_flake_lock_at, is_allowed, is_tracked, nixpkgs_deps,
    render_int, Check, Config, FlakeLock, Input, IssueKind, Locked, MaxAge, Node, Original, Refs,
    SECONDS_PER_DAY,
};

const NOW: i64 = 1_700_000_000;

fn locked(last_modified: i64) -> Locked {
    Locked {
        last_modified,
        nar_hash: "sha256-abc".to_string(),
        owner: Some("NixOS".to_string()),
        repo: Some("nixpkgs".to_string()),
        rev: Some("0123abcd".to_string()),
        node_type: "github".to_string(),
    }
}

fn original(git_ref: Option<&str>) -> Original {
    Original {
        owner: Some("NixOS".to_string()),
        repo: Some("nixpkgs".to_string()),
        node_type: "github".to_string(),
        git_ref: git_ref.map(|r| r.to_string()),
    }
}

fn node(last_modified: Option<i64>, git_ref: Option<Option<&str>>) -> Node {
    Node {
        inputs: None,
        locked: last_modified.map(locked),
        original: git_ref.map(original),
    }
}

fn graph(entries: Vec<(&str, Node)>) -> FlakeLock {
    let mut lock = FlakeLock::new("root".to_string(), 7);
    for (name, n) in entries {
        lock.insert_node(name.to_string(), n);
    }
    lock
}

fn config(allowed: &[&str], max_days: i64) -> Config {
    Config {
        allowed_refs: allowed.iter().map(|r| r.to_string()).collect(),
        max_days,
    }
}

fn days_ago(days: i64) -> i64 {
    NOW - days * SECONDS_PER_DAY
}

#[test]
fn old_nixpkgs_is_outdated() {
    let lock = graph(vec![("nixpkgs", node(Some(days_ago(200)), None))]);
    let issues = check_flake_lock_at(&lock, &config(&[], 180), NOW);
    assert_eq!(issues.len(), 1);
    assert_eq!(issues[0].kind, IssueKind::Outdated);
    assert_eq!(
        issues[0].message,
        "dependency `nixpkgs` is **200** days old, which is over the max of **180**"
    );
}

#[test]
fn staging_ref_is_disallowed() {
    let lock = graph(vec![("nixpkgs-unstable", node(None, Some(Some("staging"))))]);
    let issues = check_flake_lock_at(&lock, &config(&["nixos-23.11"], 30), NOW);
    assert_eq!(issues.len(), 1);
    assert_eq!(issues[0].kind, IssueKind::Disallowed);
    assert_eq!(
        issues[0].message,
        "dependency `nixpkgs-unstable` has a Git ref of `staging` which is not explicitly allowed"
    );
}

#[test]
fn untracked_dependency_is_ignored() {
    let lock = graph(vec![("other-dep", node(Some(0), Some(Some("staging"))))]);
    let issues = check_flake_lock_at(&lock, &config(&["nixos-23.11"], 30), NOW);
    assert!(issues.is_empty());
}

#[test]
fn locked_without_original_only_ages() {
    let lock = graph(vec![("nixpkgs", node(Some(days_ago(100)), None))]);
    let cfg = config(&["nixos-23.11"], 30);
    assert!((Refs { allowed_refs: &cfg.allowed_refs }).run(&lock).is_empty());
    let issues = check_flake_lock_at(&lock, &cfg, NOW);
    assert_eq!(issues.len(), 1);
    assert_eq!(issues[0].kind, IssueKind::Outdated);
}

#[test]
fn graph_without_tracked_nodes_is_clean() {
    let lock = graph(vec![
        ("root", node(None, None)),
        ("flake-utils", node(Some(0), Some(Some("main")))),
        ("nixpkg", node(Some(0), Some(Some("main")))),
    ]);
    assert!(check_flake_lock_at(&lock, &config(&[], 0), NOW).is_empty());
    assert!(check_flake_lock_at(&graph(vec![]), &config(&[], 0), NOW).is_empty());
}

#[test]
fn allowed_ref_gives_no_issue() {
    let lock = graph(vec![
        ("nixpkgs", node(None, Some(Some("nixos-23.11")))),
        ("nixpkgs_2", node(None, Some(None))),
    ]);
    let cfg = config(&["nixos-unstable", "nixos-23.11"], 30);
    assert!(check_flake_lock_at(&lock, &cfg, NOW).is_empty());
}

#[test]
fn age_at_the_maximum_is_accepted() {
    let lock = graph(vec![("nixpkgs", node(Some(days_ago(30) - 86_399), None))]);
    assert!(check_flake_lock_at(&lock, &config(&[], 30), NOW).is_empty());
    let older = graph(vec![("nixpkgs", node(Some(days_ago(31)), None))]);
    let issues = check_flake_lock_at(&older, &config(&[], 30), NOW);
    assert_eq!(issues.len(), 1);
    assert!(issues[0].message.contains("**31**"));
    assert!(issues[0].message.contains("**30**"));
}

#[test]
fn future_timestamp_is_not_outdated() {
    let lock = graph(vec![("nixpkgs", node(Some(NOW + 500 * SECONDS_PER_DAY), None))]);
    assert!(check_flake_lock_at(&lock, &config(&[], 0), NOW).is_empty());
}

#[test]
fn extreme_timestamps_do_not_overflow() {
    let lock = graph(vec![("nixpkgs", node(Some(i64::MIN), None))]);
    let issues = check_flake_lock_at(&lock, &config(&[], i64::MIN), i64::MAX);
    assert_eq!(issues.len(), 1);
    assert!(issues[0].message.contains("**213503982334601**"));
    assert!(issues[0].message.contains("**-9223372036854775808**"));
}

#[test]
fn outdated_issues_precede_disallowed_ones() {
    let lock = graph(vec![
        ("nixpkgs", node(Some(days_ago(10)), Some(Some("staging")))),
        ("nixpkgs-old", node(Some(days_ago(400)), Some(Some("master")))),
        ("home-manager", node(Some(days_ago(900)), Some(Some("master")))),
    ]);
    let issues = check_flake_lock_at(&lock, &config(&["nixos-23.11"], 5), NOW);
    let kinds: Vec<IssueKind> = issues.iter().map(|i| i.kind).collect();
    assert_eq!(
        kinds,
        vec![
            IssueKind::Outdated,
            IssueKind::Outdated,
            IssueKind::Disallowed,
            IssueKind::Disallowed
        ]
    );
    assert!(issues[0].message.contains("`nixpkgs`"));
    assert!(issues[1].message.contains("`nixpkgs-old`"));
    assert!(issues[2].message.contains("`staging`"));
    assert!(issues[3].message.contains("`master`"));
}

#[test]
fn repeated_runs_agree() {
    let lock = graph(vec![
        ("nixpkgs", node(Some(days_ago(90)), Some(Some("staging")))),
        ("nixpkgs-b", node(Some(days_ago(2)), Some(Some("nixos-23.11")))),
    ]);
    let cfg = config(&["nixos-23.11"], 30);
    let first = check_flake_lock_at(&lock, &cfg, NOW);
    let second = check_flake_lock_at(&lock, &cfg, NOW + 60);
    assert_eq!(first.len(), second.len());
    for (a, b) in first.iter().zip(second.iter()) {
        assert_eq!(a.kind, b.kind);
        assert_eq!(a.message, b.message);
    }
}

#[test]
fn check_uses_the_current_time() {
    let now = chrono::Utc::now().timestamp();
    let lock = graph(vec![("nixpkgs", node(Some(now - 200 * SECONDS_PER_DAY - 3600), None))]);
    let issues = check_flake_lock(&lock, &config(&[], 180));
    assert_eq!(issues.len(), 1);
    assert!(issues[0].message.contains("**200**"));
    assert!(issues[0].message.contains("**180**"));
}

#[test]
fn max_age_check_alone() {
    let lock = graph(vec![("nixpkgs", node(Some(days_ago(3)), None))]);
    let check = MaxAge { max_days: 2, now: NOW };
    let issues = check.run(&lock);
    assert_eq!(issues.len(), 1);
    assert_eq!(
        issues[0].message,
        "dependency `nixpkgs` is **3** days old, which is over the max of **2**"
    );
}

#[test]
fn selector_keeps_prefix_matches_in_order() {
    let lock = graph(vec![
        ("nixpkgs-b", node(None, None)),
        ("root", node(None, None)),
        ("nixpkgs", node(None, None)),
        ("nix", node(None, None)),
    ]);
    let deps = nixpkgs_deps(&lock.nodes);
    let names: Vec<&str> = deps.iter().map(|e| e.0.as_str()).collect();
    assert_eq!(names, vec!["nixpkgs-b", "nixpkgs"]);
    assert!(is_tracked("nixpkgs_2"));
    assert!(!is_tracked("nixpk"));
    assert!(!is_tracked("xnixpkgs"));
    assert!(!is_tracked(""));
}

#[test]
fn inserting_a_known_name_replaces_it() {
    let mut lock = graph(vec![("nixpkgs", node(Some(1), None)), ("other", node(None, None))]);
    lock.insert_node(
        "nixpkgs".to_string(),
        Node {
            inputs: Some(vec![
                ("a".to_string(), Input::Single("other".to_string())),
                ("b".to_string(), Input::List(vec!["x".to_string(), "y".to_string()])),
            ]),
            locked: Some(locked(2)),
            original: None,
        },
    );
    assert_eq!(lock.nodes.len(), 2);
    assert_eq!(lock.nodes[0].0, "nixpkgs");
    assert_eq!(lock.nodes[0].1.locked.as_ref().map(|l| l.last_modified), Some(2));
    assert_eq!(lock.root, "root");
    assert_eq!(lock.version, 7);
}

#[test]
fn membership_of_refs() {
    let allowed = vec!["nixos-23.11".to_string(), "nixos-unstable".to_string()];
    assert!(is_allowed(&allowed, &"nixos-unstable".to_string()));
    assert!(!is_allowed(&allowed, &"nixos-23.05".to_string()));
    assert!(!is_allowed(&Vec::new(), &"nixos-23.11".to_string()));
}

#[test]
fn day_counts_truncate_toward_zero() {
    assert_eq!(age_in_days(86_399, 0), 0);
    assert_eq!(age_in_days(86_400, 0), 1);
    assert_eq!(age_in_days(0, 86_399), 0);
    assert_eq!(age_in_days(0, 86_401), -1);
    assert_eq!(age_in_days(NOW, days_ago(200)), 200);
}

#[test]
fn integers_render_in_decimal() {
    assert_eq!(render_int(0), "0");
    assert_eq!(render_int(7), "7");
    assert_eq!(render_int(180), "180");
    assert_eq!(render_int(-42), "-42");
    assert_eq!(render_int(i64::MAX), "9223372036854775807");
    assert_eq!(render_int(i64::MIN), "-9223372036854775808");
}

#[test]
fn kinds_have_report_names() {
    assert_eq!(IssueKind::Disallowed.name(), "disallowed");
    assert_eq!(IssueKind::Outdated.name(), "outdated");
}
