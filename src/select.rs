use vstd::prelude::*;
use vstd::string::*;

use crate::model::Node;

verus! {

/// The name prefix that marks a dependency as tracked by policy.
pub const TRACKED_PREFIX: &'static str = "nixpkgs";

/// A dependency is tracked when its name starts with `nixpkgs`.
pub open spec fn is_tracked_name(name: Seq<char>) -> bool {
    TRACKED_PREFIX@.is_prefix_of(name)
}

/// The tracked entries of `nodes`, in their enumeration order.
pub open spec fn selected(nodes: Seq<(String, Node)>) -> Seq<(String, Node)>
    decreases nodes.len(),
{
    if nodes.len() == 0 {
        Seq::empty()
    } else {
        let rest = selected(nodes.drop_last());
        if is_tracked_name(nodes.last().0@) {
            rest.push(nodes.last())
        } else {
            rest
        }
    }
}

/// Whether `name` starts with the tracked prefix.
pub fn is_tracked(name: &str) -> (r: bool)
    ensures
        r == is_tracked_name(name@),
{
    let prefix = TRACKED_PREFIX;
    let plen = prefix.unicode_len();
    let nlen = name.unicode_len();
    if nlen < plen {
        return false;
    }
    let mut i: usize = 0;
    while i < plen
        invariant
            plen == prefix@.len(),
            prefix@ == TRACKED_PREFIX@,
            plen <= nlen == name@.len(),
            0 <= i <= plen,
            forall|k: int| 0 <= k < i ==> prefix@[k] == name@[k],
        decreases plen - i,
    {
        if prefix.get_char(i) != name.get_char(i) {
            return false;
        }
        i = i + 1;
    }
    assert(prefix@ =~= name@.subrange(0, plen as int));
    true
}

/// Selects the dependencies subject to policy: every entry whose name starts
/// with `nixpkgs`, in the order of `nodes`.
pub fn nixpkgs_deps(nodes: &Vec<(String, Node)>) -> (r: Vec<&(String, Node)>)
    ensures
        r@.len() == selected(nodes@).len(),
        forall|k: int| 0 <= k < r@.len() ==> *#[trigger] r@[k] == selected(nodes@)[k],
{
    let mut r: Vec<&(String, Node)> = Vec::new();
    let mut i: usize = 0;
    while i < nodes.len()
        invariant
            0 <= i <= nodes@.len(),
            r@.len() == selected(nodes@.subrange(0, i as int)).len(),
            forall|k: int|
                0 <= k < r@.len() ==> *#[trigger] r@[k] == selected(nodes@.subrange(0, i as int))[k],
        decreases nodes@.len() - i,
    {
        let entry = &nodes[i];
        assert(nodes@.subrange(0, i + 1).drop_last() =~= nodes@.subrange(0, i as int));
        if is_tracked(entry.0.as_str()) {
            r.push(entry);
        }
        i = i + 1;
    }
    assert(nodes@.subrange(0, nodes@.len() as int) =~= nodes@);
    r
}

} // verus!
