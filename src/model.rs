use vstd::prelude::*;

verus! {

/// How a dependency was originally specified.
pub struct Original {
    pub owner: Option<String>,
    pub repo: Option<String>,
    pub node_type: String,
    pub git_ref: Option<String>,
}

/// The resolved, pinned state of a dependency.
pub struct Locked {
    /// Unix timestamp, in seconds.
    pub last_modified: i64,
    pub nar_hash: String,
    pub owner: Option<String>,
    pub repo: Option<String>,
    pub rev: Option<String>,
    pub node_type: String,
}

/// One input edge of a node: a single node name or an ordered list of them.
pub enum Input {
    Single(String),
    List(Vec<String>),
}

/// One entry of the dependency graph.
pub struct Node {
    /// Input edges, by input name.
    pub inputs: Option<Vec<(String, Input)>>,
    pub locked: Option<Locked>,
    pub original: Option<Original>,
}

/// A parsed lock file: nodes keyed by name, in a fixed enumeration order.
pub struct FlakeLock {
    pub nodes: Vec<(String, Node)>,
    pub root: String,
    pub version: usize,
}

/// The names of `nodes` are pairwise distinct, as the keys of a mapping are.
pub open spec fn names_unique(nodes: Seq<(String, Node)>) -> bool {
    forall|i: int, j: int|
        0 <= i < nodes.len() && 0 <= j < nodes.len() && i != j ==> #[trigger] nodes[i].0@
            != #[trigger] nodes[j].0@
}

impl FlakeLock {
    pub open spec fn wf(&self) -> bool {
        names_unique(self.nodes@)
    }

    /// A lock file without nodes.
    pub fn new(root: String, version: usize) -> (r: FlakeLock)
        ensures
            r.wf(),
            r.nodes@.len() == 0,
            r.root == root,
            r.version == version,
    {
        FlakeLock { nodes: Vec::new(), root, version }
    }

    /// Binds `name` to `node`: an entry of that name is replaced in place,
    /// otherwise the entry is appended.
    pub fn insert_node(&mut self, name: String, node: Node)
        requires
            old(self).wf(),
        ensures
            final(self).wf(),
            final(self).root == old(self).root,
            final(self).version == old(self).version,
            (exists|i: int|
                0 <= i < old(self).nodes@.len() && #[trigger] old(self).nodes@[i].0@ == name@)
                ==> final(self).nodes@.len() == old(self).nodes@.len() && (forall|i: int|
                0 <= i < old(self).nodes@.len() ==> #[trigger] final(self).nodes@[i] == (if old(
                self).nodes@[i].0@ == name@ {
                (name, node)
            } else {
                old(self).nodes@[i]
            })),
            (forall|i: int|
                0 <= i < old(self).nodes@.len() ==> #[trigger] old(self).nodes@[i].0@ != name@)
                ==> final(self).nodes@ == old(self).nodes@.push((name, node)),
    {
        let n = self.nodes.len();
        let mut i: usize = 0;
        while i < n
            invariant
                n == self.nodes@.len(),
                self.nodes@ == old(self).nodes@,
                self.root == old(self).root,
                self.version == old(self).version,
                self.wf(),
                0 <= i <= n,
                forall|k: int| 0 <= k < i ==> #[trigger] self.nodes@[k].0@ != name@,
            decreases n - i,
        {
            if self.nodes[i].0 == name {
                let ghost before = self.nodes@;
                self.nodes.set(i, (name, node));
                assert forall|k: int| 0 <= k < before.len() implies #[trigger] self.nodes@[k]
                    == (if before[k].0@ == self.nodes@[i as int].0@ {
                    self.nodes@[i as int]
                } else {
                    before[k]
                }) by {
                    if k != i {
                        assert(before[k].0@ != before[i as int].0@);
                    }
                }
                return;
            }
            i = i + 1;
        }
        self.nodes.push((name, node));
    }
}

/// The policy: which Git refs a tracked dependency may pin, and how many
/// whole days old its pinned state may be.
pub struct Config {
    pub allowed_refs: Vec<String>,
    pub max_days: i64,
}

} // verus!
