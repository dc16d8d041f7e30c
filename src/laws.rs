use vstd::prelude::*;

use crate::checks::{
    age_days, age_issue_of, age_issues, allows, ref_issue_of, ref_issues,
};
use crate::issue::{disallowed_message, outdated_message, IssueKind, IssueView};
use crate::model::{Config, FlakeLock, Node};
use crate::runner::all_issues;
use crate::select::{is_tracked_name, selected};
use crate::text::decimal;

verus! {

/// `text` occurs in `s` as a contiguous run.
pub open spec fn contains_text(s: Seq<char>, text: Seq<char>) -> bool {
    exists|k: int| 0 <= k && k + text.len() <= s.len() && #[trigger] s.subrange(k, k + text.len()) == text
}

pub proof fn lemma_selected_add(a: Seq<(String, Node)>, b: Seq<(String, Node)>)
    ensures
        selected(a + b) == selected(a) + selected(b),
    decreases b.len(),
{
    if b.len() == 0 {
        assert(a + b =~= a);
        assert(selected(a) + selected(b) =~= selected(a));
    } else {
        assert((a + b).drop_last() =~= a + b.drop_last());
        assert((a + b).last() == b.last());
        lemma_selected_add(a, b.drop_last());
        if is_tracked_name(b.last().0@) {
            assert(selected(a + b) =~= selected(a) + selected(b));
        }
    }
}

pub proof fn lemma_ref_issues_add(a: Seq<(String, Node)>, b: Seq<(String, Node)>, allowed: Seq<String>)
    ensures
        ref_issues(a + b, allowed) == ref_issues(a, allowed) + ref_issues(b, allowed),
    decreases b.len(),
{
    if b.len() == 0 {
        assert(a + b =~= a);
        assert(ref_issues(a, allowed) + ref_issues(b, allowed) =~= ref_issues(a, allowed));
    } else {
        assert((a + b).drop_last() =~= a + b.drop_last());
        assert((a + b).last() == b.last());
        lemma_ref_issues_add(a, b.drop_last(), allowed);
        assert(ref_issues(a + b, allowed) =~= ref_issues(a, allowed) + ref_issues(b, allowed));
    }
}

pub proof fn lemma_age_issues_add(a: Seq<(String, Node)>, b: Seq<(String, Node)>, max_days: int, now: int)
    ensures
        age_issues(a + b, max_days, now) == age_issues(a, max_days, now) + age_issues(b, max_days, now),
    decreases b.len(),
{
    if b.len() == 0 {
        assert(a + b =~= a);
        assert(age_issues(a, max_days, now) + age_issues(b, max_days, now) =~= age_issues(a, max_days, now));
    } else {
        assert((a + b).drop_last() =~= a + b.drop_last());
        assert((a + b).last() == b.last());
        lemma_age_issues_add(a, b.drop_last(), max_days, now);
        assert(age_issues(a + b, max_days, now) =~= age_issues(a, max_days, now) + age_issues(b, max_days, now));
    }
}

/// A tracked node's place in the selection: what lies before it, the node,
/// and what lies after it.
pub proof fn lemma_selected_split(nodes: Seq<(String, Node)>, i: int)
    requires
        0 <= i < nodes.len(),
        is_tracked_name(nodes[i].0@),
    ensures
        selected(nodes) == selected(nodes.subrange(0, i)) + seq![nodes[i]] + selected(
            nodes.subrange(i + 1, nodes.len() as int),
        ),
{
    let single = seq![nodes[i]];
    assert(single.drop_last() =~= Seq::<(String, Node)>::empty());
    assert(selected(single.drop_last()) =~= Seq::<(String, Node)>::empty());
    assert(single.last() == nodes[i]);
    assert(selected(single) =~= single);
    assert(nodes =~= nodes.subrange(0, i) + single + nodes.subrange(i + 1, nodes.len() as int));
    lemma_selected_add(nodes.subrange(0, i), single);
    lemma_selected_add(nodes.subrange(0, i) + single, nodes.subrange(i + 1, nodes.len() as int));
}

proof fn lemma_none_selected(nodes: Seq<(String, Node)>)
    requires
        forall|k: int| 0 <= k < nodes.len() ==> !is_tracked_name(#[trigger] nodes[k].0@),
    ensures
        selected(nodes) == Seq::<(String, Node)>::empty(),
    decreases nodes.len(),
{
    if nodes.len() > 0 {
        lemma_none_selected(nodes.drop_last());
    }
}

/// A graph with no tracked node yields no issue at all.
pub proof fn lemma_untracked_graph_is_clean(flake_lock: FlakeLock, config: Config, now: int)
    requires
        forall|k: int|
            0 <= k < flake_lock.nodes@.len() ==> !is_tracked_name(#[trigger] flake_lock.nodes@[k].0@),
    ensures
        all_issues(flake_lock, config, now) == Seq::<IssueView>::empty(),
{
    lemma_none_selected(flake_lock.nodes@);
    assert(all_issues(flake_lock, config, now) =~= Seq::<IssueView>::empty());
}

/// The reference check's output splits around each tracked node; a node whose
/// Git ref is allowed contributes nothing, and one whose ref is not allowed
/// contributes exactly one Disallowed issue naming the node and the ref.
pub proof fn lemma_ref_check_per_node(nodes: Seq<(String, Node)>, allowed: Seq<String>, i: int)
    requires
        0 <= i < nodes.len(),
        is_tracked_name(nodes[i].0@),
        nodes[i].1.original is Some,
        nodes[i].1.original->0.git_ref is Some,
    ensures
        ref_issues(selected(nodes), allowed) == ref_issues(selected(nodes.subrange(0, i)), allowed)
            + ref_issue_of(nodes[i], allowed) + ref_issues(
            selected(nodes.subrange(i + 1, nodes.len() as int)),
            allowed,
        ),
        ({
            let name = nodes[i].0@;
            let git_ref = nodes[i].1.original->0.git_ref->0@;
            &&& allows(allowed, git_ref) ==> ref_issue_of(nodes[i], allowed) == Seq::<IssueView>::empty()
            &&& !allows(allowed, git_ref) ==> {
                &&& ref_issue_of(nodes[i], allowed).len() == 1
                &&& ref_issue_of(nodes[i], allowed)[0].kind == IssueKind::Disallowed
                &&& contains_text(ref_issue_of(nodes[i], allowed)[0].message, name)
                &&& contains_text(ref_issue_of(nodes[i], allowed)[0].message, git_ref)
            }
        }),
{
    let pre = nodes.subrange(0, i);
    let post = nodes.subrange(i + 1, nodes.len() as int);
    lemma_selected_split(nodes, i);
    lemma_ref_issues_add(selected(pre) + seq![nodes[i]], selected(post), allowed);
    lemma_ref_issues_add(selected(pre), seq![nodes[i]], allowed);
    assert(seq![nodes[i]].drop_last() =~= Seq::<(String, Node)>::empty());
    assert(ref_issues(seq![nodes[i]].drop_last(), allowed) =~= Seq::<IssueView>::empty());
    assert(seq![nodes[i]].last() == nodes[i]);
    assert(ref_issues(seq![nodes[i]], allowed) =~= ref_issue_of(nodes[i], allowed));
    let name = nodes[i].0@;
    let git_ref = nodes[i].1.original->0.git_ref->0@;
    let m = disallowed_message(name, git_ref);
    let p = "dependency `"@;
    let q = "` has a Git ref of `"@;
    let at_name: int = p.len() as int;
    assert(m.subrange(at_name, at_name + name.len()) =~= name);
    let at_ref: int = at_name + name.len() + q.len();
    assert(m.subrange(at_ref, at_ref + git_ref.len()) =~= git_ref);
}

/// The age check's output splits around each tracked node; a node within the
/// maximum age contributes nothing, and one past it contributes exactly one
/// Outdated issue giving the day count and the maximum.
pub proof fn lemma_age_check_per_node(nodes: Seq<(String, Node)>, max_days: int, now: int, i: int)
    requires
        0 <= i < nodes.len(),
        is_tracked_name(nodes[i].0@),
        nodes[i].1.locked is Some,
    ensures
        age_issues(selected(nodes), max_days, now) == age_issues(selected(nodes.subrange(0, i)), max_days, now)
            + age_issue_of(nodes[i], max_days, now) + age_issues(
            selected(nodes.subrange(i + 1, nodes.len() as int)),
            max_days,
            now,
        ),
        ({
            let days = age_days(now, nodes[i].1.locked->0.last_modified as int);
            &&& days <= max_days ==> age_issue_of(nodes[i], max_days, now) == Seq::<IssueView>::empty()
            &&& days > max_days ==> {
                &&& age_issue_of(nodes[i], max_days, now).len() == 1
                &&& age_issue_of(nodes[i], max_days, now)[0].kind == IssueKind::Outdated
                &&& contains_text(age_issue_of(nodes[i], max_days, now)[0].message, nodes[i].0@)
                &&& contains_text(age_issue_of(nodes[i], max_days, now)[0].message, decimal(days))
                &&& contains_text(age_issue_of(nodes[i], max_days, now)[0].message, decimal(max_days))
            }
        }),
{
    let pre = nodes.subrange(0, i);
    let post = nodes.subrange(i + 1, nodes.len() as int);
    lemma_selected_split(nodes, i);
    lemma_age_issues_add(selected(pre) + seq![nodes[i]], selected(post), max_days, now);
    lemma_age_issues_add(selected(pre), seq![nodes[i]], max_days, now);
    assert(seq![nodes[i]].drop_last() =~= Seq::<(String, Node)>::empty());
    assert(age_issues(seq![nodes[i]].drop_last(), max_days, now) =~= Seq::<IssueView>::empty());
    assert(seq![nodes[i]].last() == nodes[i]);
    assert(age_issues(seq![nodes[i]], max_days, now) =~= age_issue_of(nodes[i], max_days, now));
    let name = nodes[i].0@;
    let days = age_days(now, nodes[i].1.locked->0.last_modified as int);
    let m = outdated_message(name, days, max_days);
    let p = "dependency `"@;
    let a = "` is **"@;
    let b = "** days old, which is over the max of **"@;
    let d = decimal(days);
    let e = decimal(max_days);
    let at_name: int = p.len() as int;
    assert(m.subrange(at_name, at_name + name.len()) =~= name);
    let at_days: int = at_name + name.len() + a.len();
    assert(m.subrange(at_days, at_days + d.len()) =~= d);
    let at_max: int = at_days + d.len() + b.len();
    assert(m.subrange(at_max, at_max + e.len()) =~= e);
}

proof fn lemma_age_issues_agree(deps: Seq<(String, Node)>, max_days: int, now1: int, now2: int)
    requires
        forall|k: int|
            0 <= k < deps.len() && (#[trigger] deps[k]).1.locked is Some ==> age_days(
                now1,
                deps[k].1.locked->0.last_modified as int,
            ) == age_days(now2, deps[k].1.locked->0.last_modified as int),
    ensures
        age_issues(deps, max_days, now1) == age_issues(deps, max_days, now2),
    decreases deps.len(),
{
    if deps.len() > 0 {
        let rest = deps.drop_last();
        assert forall|k: int|
            0 <= k < rest.len() && (#[trigger] rest[k]).1.locked is Some implies age_days(
                now1,
                rest[k].1.locked->0.last_modified as int,
            ) == age_days(now2, rest[k].1.locked->0.last_modified as int) by {
            assert(rest[k] == deps[k]);
        }
        lemma_age_issues_agree(rest, max_days, now1, now2);
        assert(deps.last() == deps[deps.len() - 1]);
    }
}

/// Two runs over the same graph and policy agree wherever the day counts of
/// the tracked, pinned nodes agree; the reference check does not depend on
/// the time at all.
pub proof fn lemma_runs_agree(flake_lock: FlakeLock, config: Config, now1: int, now2: int)
    requires
        forall|k: int|
            0 <= k < selected(flake_lock.nodes@).len() && (#[trigger] selected(
                flake_lock.nodes@,
            )[k]).1.locked is Some ==> age_days(
                now1,
                selected(flake_lock.nodes@)[k].1.locked->0.last_modified as int,
            ) == age_days(now2, selected(flake_lock.nodes@)[k].1.locked->0.last_modified as int),
    ensures
        all_issues(flake_lock, config, now1) == all_issues(flake_lock, config, now2),
{
    lemma_age_issues_agree(selected(flake_lock.nodes@), config.max_days as int, now1, now2);
}

proof fn lemma_age_issues_outdated(deps: Seq<(String, Node)>, max_days: int, now: int)
    ensures
        forall|k: int|
            0 <= k < age_issues(deps, max_days, now).len() ==> (#[trigger] age_issues(deps, max_days, now)[k]).kind
                == IssueKind::Outdated,
    decreases deps.len(),
{
    if deps.len() > 0 {
        lemma_age_issues_outdated(deps.drop_last(), max_days, now);
    }
}

proof fn lemma_ref_issues_disallowed(deps: Seq<(String, Node)>, allowed: Seq<String>)
    ensures
        forall|k: int|
            0 <= k < ref_issues(deps, allowed).len() ==> (#[trigger] ref_issues(deps, allowed)[k]).kind
                == IssueKind::Disallowed,
    decreases deps.len(),
{
    if deps.len() > 0 {
        lemma_ref_issues_disallowed(deps.drop_last(), allowed);
    }
}

/// Every Outdated issue comes before every Disallowed issue: the age check's
/// issues form a prefix, the reference check's the rest, each in the order of
/// the selection.
pub proof fn lemma_outdated_before_disallowed(flake_lock: FlakeLock, config: Config, now: int)
    ensures
        ({
            let all = all_issues(flake_lock, config, now);
            let ages = age_issues(selected(flake_lock.nodes@), config.max_days as int, now);
            &&& forall|k: int| 0 <= k < ages.len() ==> (#[trigger] all[k]).kind == IssueKind::Outdated
            &&& forall|k: int| ages.len() <= k < all.len() ==> (#[trigger] all[k]).kind == IssueKind::Disallowed
            &&& forall|j: int, k: int|
                0 <= j < k < all.len() && (#[trigger] all[j]).kind == IssueKind::Disallowed
                    ==> (#[trigger] all[k]).kind == IssueKind::Disallowed
        }),
{
    let sel = selected(flake_lock.nodes@);
    let ages = age_issues(sel, config.max_days as int, now);
    let refs = ref_issues(sel, config.allowed_refs@);
    let all = all_issues(flake_lock, config, now);
    lemma_age_issues_outdated(sel, config.max_days as int, now);
    lemma_ref_issues_disallowed(sel, config.allowed_refs@);
    assert forall|k: int| 0 <= k < ages.len() implies (#[trigger] all[k]).kind == IssueKind::Outdated by {
        assert(all[k] == ages[k]);
    }
    assert forall|k: int| ages.len() <= k < all.len() implies (#[trigger] all[k]).kind == IssueKind::Disallowed by {
        assert(all[k] == refs[k - ages.len()]);
    }
    assert forall|j: int, k: int|
        0 <= j < k < all.len() && (#[trigger] all[j]).kind == IssueKind::Disallowed implies (#[trigger] all[k]).kind
            == IssueKind::Disallowed by {
        if j < ages.len() {
            assert(all[j].kind == IssueKind::Outdated);
        }
    }
}

} // verus!
