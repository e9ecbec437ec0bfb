//! Scene-graph hierarchy: parent table and depth-first traversal order.
//!
//! `NodeTree` records one parent index per node; `DepthFirstNodes`
//! lists parent-child edges in an order that always visits a parent
//! before any of its children, which is what makes one linear pass of
//! forward kinematics correct.

use vstd::prelude::*;

use crate::document::NodeDef;
use crate::error::LoadError;
use crate::similarity::{spec_compose, Similarity};

verus! {

/// Per-node record: the local transform and the parent, if any.
pub struct NodeTree {
    pub inner: Vec<(Similarity, Option<usize>)>,
}

/// Whether `c` occurs in some node's child list.
pub open spec fn spec_listed_as_child(nodes: Seq<NodeDef>, c: int) -> bool {
    exists|p: int, j: int|
        0 <= p < nodes.len() && 0 <= j < nodes[p].children.len() && nodes[p].children[j] == c
}

/// Whether no node is listed as a child more than once across all
/// child lists: the hierarchy names each node at most one parent.
pub open spec fn spec_listed_at_most_once(nodes: Seq<NodeDef>) -> bool {
    forall|p1: int, j1: int, p2: int, j2: int|
        0 <= p1 < nodes.len() && 0 <= j1 < nodes[p1].children.len() && 0 <= p2 < nodes.len() && 0
            <= j2 < nodes[p2].children.len() && (#[trigger] nodes[p1].children[j1]) == (
        #[trigger] nodes[p2].children[j2]) ==> p1 == p2 && j1 == j2
}

/// Whether every child index of every node is inside the node table.
pub open spec fn spec_children_in_range(nodes: Seq<NodeDef>) -> bool {
    forall|p: int, j: int|
        0 <= p < nodes.len() && 0 <= j < nodes[p].children.len()
            ==> (#[trigger] nodes[p].children[j]) < nodes.len()
}

/// Whether the parent chain from `c` reaches a parentless node within
/// `fuel` steps: the hierarchy below `c` is acyclic.
pub open spec fn spec_reaches_root(
    tree: Seq<(Similarity, Option<usize>)>,
    c: int,
    fuel: nat,
) -> bool
    decreases fuel,
{
    0 <= c < tree.len() && match tree[c].1 {
        Option::None => true,
        Option::Some(p) => fuel > 0 && spec_reaches_root(tree, p as int, (fuel - 1) as nat),
    }
}

impl NodeTree {
    /// Whether the parent table is consistent with the node list it
    /// was built from: parents are in range, a recorded parent really
    /// lists the node as its child, and a parentless node is listed
    /// nowhere.
    pub open spec fn matches(self, nodes: Seq<NodeDef>) -> bool {
        &&& self.inner.len() == nodes.len()
        &&& forall|c: int|
            0 <= c < self.inner.len() ==> (#[trigger] self.inner[c].0) == nodes[c].local_transform
        &&& forall|c: int|
            0 <= c < self.inner.len() && (#[trigger] self.inner[c].1).is_some() ==> {
                let p = self.inner[c].1->0 as int;
                &&& 0 <= p < nodes.len()
                &&& exists|j: int| 0 <= j < nodes[p].children.len() && nodes[p].children[j] == c
            }
        &&& forall|c: int|
            0 <= c < self.inner.len() && (#[trigger] self.inner[c].1).is_none()
                ==> !spec_listed_as_child(nodes, c)
    }

    /// Record parent pointers for every node.  Fails exactly when some
    /// node lists a child index outside the node table; that aborts
    /// the asset's load as malformed.
    pub fn new(nodes: &Vec<NodeDef>) -> (r: Result<NodeTree, LoadError>)
        ensures
            r.is_ok() ==> r->Ok_0.matches(nodes@),
            r.is_ok() <==> spec_children_in_range(nodes@),
            r.is_err() ==> (r->Err_0 matches LoadError::ChildOutOfRange { child } && child
                >= nodes@.len() && spec_listed_as_child(nodes@, child as int)),
    {
        let n = nodes.len();
        let mut inner: Vec<(Similarity, Option<usize>)> = Vec::new();
        let mut k: usize = 0;
        while k < n
            invariant
                inner.len() == k <= n == nodes@.len(),
                forall|c: int| 0 <= c < k ==> (#[trigger] inner[c].0) == nodes@[c].local_transform,
                forall|c: int| 0 <= c < k ==> (#[trigger] inner[c].1).is_none(),
            decreases n - k,
        {
            inner.push((nodes[k].local_transform, None));
            k += 1;
        }
        let mut i: usize = 0;
        while i < n
            invariant
                inner.len() == n == nodes@.len(),
                forall|c: int| 0 <= c < n ==> (#[trigger] inner[c].0) == nodes@[c].local_transform,
                forall|c: int|
                    0 <= c < n && (#[trigger] inner[c].1).is_some() ==> {
                        let p = inner[c].1->0;
                        &&& 0 <= p < n
                        &&& exists|j: int|
                            0 <= j < nodes@[p as int].children.len() && nodes@[p as int].children[j]
                                == c
                    },
                forall|c: int|
                    0 <= c < n && (#[trigger] inner[c].1).is_none() ==> forall|p: int, j: int|
                        0 <= p < i && 0 <= j < nodes@[p].children.len()
                            ==> nodes@[p].children[j] != c,
                i <= n,
                forall|p: int, j: int|
                    0 <= p < i && 0 <= j < nodes@[p].children.len()
                        ==> (#[trigger] nodes@[p].children[j]) < n,
            decreases n - i,
        {
            let node = &nodes[i];
            let m = node.children.len();
            let mut j: usize = 0;
            while j < m
                invariant
                    inner.len() == n == nodes@.len(),
                    i < n,
                    *node == nodes@[i as int],
                    m == nodes@[i as int].children.len(),
                    forall|c: int|
                        0 <= c < n ==> (#[trigger] inner[c].0) == nodes@[c].local_transform,
                    forall|c: int|
                        0 <= c < n && (#[trigger] inner[c].1).is_some() ==> {
                            let p = inner[c].1->0;
                            &&& 0 <= p < n
                            &&& exists|jj: int|
                                0 <= jj < nodes@[p as int].children.len() && nodes@[p as int]
                                    .children[jj] == c
                        },
                    forall|c: int|
                        0 <= c < n && (#[trigger] inner[c].1).is_none() ==> forall|p: int, jj: int|
                            0 <= p < i && 0 <= jj < nodes@[p].children.len()
                                ==> nodes@[p].children[jj] != c,
                    forall|c: int|
                        0 <= c < n && (#[trigger] inner[c].1).is_none() ==> forall|jj: int|
                            0 <= jj < j ==> nodes@[i as int].children[jj] != c,
                    j <= m,
                    forall|p: int, jj: int|
                        0 <= p < i && 0 <= jj < nodes@[p].children.len()
                            ==> (#[trigger] nodes@[p].children[jj]) < n,
                    forall|jj: int|
                        0 <= jj < j ==> (#[trigger] nodes@[i as int].children[jj]) < n,
                decreases m - j,
            {
                let c = node.children[j];
                if c >= n {
                    proof {
                        assert(nodes@[i as int].children[j as int] == c);
                        assert(spec_listed_as_child(nodes@, c as int));
                        assert(!spec_children_in_range(nodes@));
                    }
                    return Err(LoadError::ChildOutOfRange { child: c });
                }
                let transform = inner[c].0;
                inner.set(c, (transform, Some(i)));
                j += 1;
            }
            i += 1;
        }
        Ok(NodeTree { inner })
    }
    /// Whether every recorded parent index lies inside the table.
    pub open spec fn parents_in_range(self) -> bool {
        forall|c: int|
            0 <= c < self.inner.len() && (#[trigger] self.inner[c].1).is_some() ==> (
            self.inner[c].1->0 as int) < self.inner.len()
    }

    /// A consistent parent table has its parents in range.
    pub proof fn lemma_matches_implies_parents_in_range(self, nodes: Seq<NodeDef>)
        requires
            self.matches(nodes),
        ensures
            self.parents_in_range(),
    {
    }

    /// The transform accumulated from `index` up its parent chain, at
    /// most `self.inner.len()` steps (a cyclic chain, which only a
    /// malformed asset produces, stops when the fuel runs out).
    pub fn transform_of(&self, index: usize) -> (r: Similarity)
        requires
            index < self.inner.len(),
            self.parents_in_range(),
        ensures
            r == spec_transform_of(self.inner@, index as int, self.inner@.len() as nat),
    {
        let ghost tree = self.inner@;
        let first = &self.inner[index];
        let mut sum: Similarity = first.0;
        let mut cur: Option<usize> = first.1;
        let mut fuel: usize = self.inner.len();
        while cur.is_some() && fuel > 0
            invariant
                tree == self.inner@,
                self.parents_in_range(),
                fuel <= tree.len(),
                cur.is_some() ==> (cur->0 as int) < tree.len(),
                spec_chain_acc(tree, cur, sum, fuel as nat) == spec_transform_of(
                    tree,
                    index as int,
                    tree.len() as nat,
                ),
            decreases fuel,
        {
            let p = cur.unwrap();
            let slot = &self.inner[p];
            sum = slot.0.compose(&sum);
            cur = slot.1;
            fuel -= 1;
        }
        sum
    }
}

/// Walk up the parent chain, composing each parent's transform onto
/// the accumulated one, for at most `fuel` steps.
pub open spec fn spec_chain_acc(
    tree: Seq<(Similarity, Option<usize>)>,
    cur: Option<usize>,
    acc: Similarity,
    fuel: nat,
) -> Similarity
    decreases fuel,
{
    match cur {
        None => acc,
        Some(p) => if fuel == 0 || p as int >= tree.len() {
            acc
        } else {
            spec_chain_acc(
                tree,
                tree[p as int].1,
                spec_compose(tree[p as int].0, acc),
                (fuel - 1) as nat,
            )
        },
    }
}

/// The accumulated root-to-node transform of `index`.
pub open spec fn spec_transform_of(
    tree: Seq<(Similarity, Option<usize>)>,
    index: int,
    fuel: nat,
) -> Similarity {
    if 0 <= index < tree.len() {
        spec_chain_acc(tree, tree[index].1, tree[index].0, fuel)
    } else {
        crate::similarity::spec_identity()
    }
}

/// Appending to a sequence adds exactly one element to what it holds.
proof fn lemma_push_contains(s: Seq<usize>, x: usize)
    ensures
        forall|y: usize| #[trigger] s.push(x).contains(y) <==> (s.contains(y) || y == x),
{
    assert forall|y: usize| #[trigger] s.push(x).contains(y) implies (s.contains(y) || y == x) by {
        if s.push(x).contains(y) {
            let i = choose|i: int| 0 <= i < s.push(x).len() && s.push(x)[i] == y;
            if i < s.len() {
                assert(s[i] == y);
            }
        }
    }
    assert forall|y: usize| (s.contains(y) || y == x) implies #[trigger] s.push(x).contains(y) by {
        if s.contains(y) {
            let i = choose|i: int| 0 <= i < s.len() && s[i] == y;
            assert(s.push(x)[i] == y);
        } else {
            assert(s.push(x)[s.len() as int] == y);
        }
    }
}

/// Removing the last element takes exactly it out of what a sequence
/// holds.
proof fn lemma_pop_contains(s: Seq<usize>, x: usize)
    requires
        s.len() > 0,
    ensures
        s.contains(x) <==> (s.subrange(0, s.len() - 1).contains(x) || s[s.len() - 1] == x),
{
    let front = s.subrange(0, s.len() - 1);
    if s.contains(x) {
        let i = choose|i: int| 0 <= i < s.len() && s[i] == x;
        if i < s.len() - 1 {
            assert(front[i] == x);
        }
    }
    if front.contains(x) {
        let i = choose|i: int| 0 <= i < front.len() && front[i] == x;
        assert(s[i] == x);
    }
}

/// One parent-child edge of the traversal.
#[derive(Clone, Copy, Debug, PartialEq, Eq, Structural)]
pub struct Child {
    pub index: usize,
    pub parent: usize,
}

/// Whether a traversal covers a node table: every node is a root or
/// an emitted edge's child.  With `wf` (distinct children, none a
/// root) this makes every non-root appear exactly once and
/// `roots.len() + children.len()` equal the node count.
pub open spec fn spec_traversal_covers(df: DepthFirstNodes, n: int) -> bool {
    forall|c: int|
        0 <= c < n ==> df.roots@.contains(#[trigger] (c as usize)) || exists|k: int|
            0 <= k < df.children.len() && (#[trigger] df.children@[k]).index == c as usize
}

/// The depth-first traversal of a node tree: the roots, then every
/// parent-child edge in an order where each edge's parent was emitted
/// (or is a root) strictly earlier.
pub struct DepthFirstNodes {
    pub roots: Vec<usize>,
    pub children: Vec<Child>,
    pub num_nodes: usize,
}

impl DepthFirstNodes {
    /// The traversal invariant: indices are in range, roots are
    /// distinct and never appear as edge children, every edge child
    /// appears exactly once, and each edge's parent is a root or the
    /// child of a strictly earlier edge.
    pub open spec fn wf(self) -> bool {
        &&& forall|k: int|
            0 <= k < self.children.len() ==> (#[trigger] self.children[k]).index
                < self.num_nodes && self.children[k].parent < self.num_nodes
        &&& forall|k: int|
            0 <= k < self.children.len() ==> !self.roots@.contains(
                (#[trigger] self.children[k]).index,
            )
        &&& forall|k1: int, k2: int|
            0 <= k1 < k2 < self.children.len() ==> (#[trigger] self.children[k1]).index != (
            #[trigger] self.children[k2]).index
        &&& forall|k: int|
            0 <= k < self.children.len() ==> self.roots@.contains(
                (#[trigger] self.children[k]).parent,
            ) || exists|k2: int| 0 <= k2 < k && (#[trigger] self.children[k2]).index
                == self.children[k].parent
        &&& forall|r: int| 0 <= r < self.roots.len() ==> (#[trigger] self.roots[r]) < self.num_nodes
        &&& forall|r1: int, r2: int|
            0 <= r1 < r2 < self.roots.len() ==> (#[trigger] self.roots[r1]) != (
            #[trigger] self.roots[r2])
    }

    /// Traverse the hierarchy from all roots with an explicit stack
    /// (never the call stack, so deep hierarchies cannot overflow it).
    /// Children are discovered in each node's listed order.  Fails on a
    /// child index outside the table, or when a node is discovered
    /// twice (a node with two parents, or a cycle through a root):
    /// either way the asset is malformed.  On a well-formed hierarchy
    /// — a parent table consistent with the child lists, children in
    /// range, and no node listed twice — it always succeeds.
    pub fn new(nodes: &Vec<NodeDef>, tree: &NodeTree) -> (r: Result<DepthFirstNodes, LoadError>)
        requires
            tree.inner.len() == nodes.len(),
        ensures
            r.is_ok() ==> {
                let df = r->Ok_0;
                &&& df.wf()
                &&& df.num_nodes == nodes@.len()
                &&& forall|i: int|
                    0 <= i < nodes@.len() ==> (df.roots@.contains(i as usize) <==> (
                    #[trigger] tree.inner[i].1).is_none())
                &&& forall|k: int|
                    0 <= k < df.children.len() ==> exists|j: int|
                        0 <= j < nodes@[(#[trigger] df.children[k]).parent as int].children.len()
                            && nodes@[df.children[k].parent as int].children[j]
                            == df.children[k].index
            },
            r.is_err() ==> (r->Err_0 matches LoadError::ChildOutOfRange { child } && child
                >= nodes@.len() && spec_listed_as_child(nodes@, child as int)) || r->Err_0
                == LoadError::NodeCycle,
            tree.matches(nodes@) && spec_children_in_range(nodes@) && spec_listed_at_most_once(
                nodes@,
            ) ==> r.is_ok(),
            tree.matches(nodes@) && spec_children_in_range(nodes@) && spec_listed_at_most_once(
                nodes@,
            ) && (forall|c: int|
                0 <= c < nodes@.len() ==> #[trigger] spec_reaches_root(
                    tree.inner@,
                    c,
                    nodes@.len() as nat,
                )) ==> r.is_ok() && spec_traversal_covers(r->Ok_0, nodes@.len() as int),
    {
        let n = nodes.len();
        let mut roots: Vec<usize> = Vec::new();
        let mut seen: Vec<bool> = Vec::new();
        let mut processed: Vec<bool> = Vec::new();
        let mut i: usize = 0;
        while i < n
            invariant
                seen.len() == i <= n,
                processed.len() == i,
                forall|c: int| 0 <= c < i ==> !(#[trigger] seen[c]),
                forall|c: int| 0 <= c < i ==> !(#[trigger] processed[c]),
            decreases n - i,
        {
            seen.push(false);
            processed.push(false);
            i += 1;
        }
        let mut i: usize = 0;
        while i < n
            invariant
                tree.inner.len() == n == nodes@.len(),
                seen.len() == n,
                processed.len() == n,
                i <= n,
                forall|c: int| 0 <= c < n ==> !(#[trigger] processed[c]),
                forall|r: int| 0 <= r < roots.len() ==> (#[trigger] roots[r]) < i,
                forall|r1: int, r2: int|
                    0 <= r1 < r2 < roots.len() ==> (#[trigger] roots[r1]) < (#[trigger] roots[r2]),
                forall|c: int|
                    0 <= c < n ==> ((#[trigger] seen[c]) <==> roots@.contains(c as usize)),
                forall|c: int|
                    0 <= c < i ==> (roots@.contains(c as usize) <==> (
                    #[trigger] tree.inner[c].1).is_none()),
                forall|c: int| i <= c < n ==> !roots@.contains(#[trigger] (c as usize)),
            decreases n - i,
        {
            if tree.inner[i].1.is_none() {
                let ghost old_roots = roots@;
                roots.push(i);
                seen.set(i, true);
                proof {
                    lemma_push_contains(old_roots, i);
                }
            }
            i += 1;
        }
        let mut children: Vec<Child> = Vec::new();
        let mut stack: Vec<usize> = Vec::new();
        let mut r: usize = 0;
        while r < roots.len()
            invariant
                stack.len() == r <= roots.len(),
                forall|s: int| 0 <= s < r ==> (#[trigger] stack[s]) == roots[s],
                forall|rr: int| 0 <= rr < roots.len() ==> (#[trigger] roots[rr]) < n,
                forall|r1: int, r2: int|
                    0 <= r1 < r2 < roots.len() ==> (#[trigger] roots[r1]) < (#[trigger] roots[r2]),
            decreases roots.len() - r,
        {
            stack.push(roots[r]);
            r += 1;
        }
        proof {
            assert forall|c: int| 0 <= c < n && seen[c] implies stack@.contains(c as usize) by {
                assert(roots@.contains(c as usize));
                let i = choose|i: int| 0 <= i < roots@.len() && roots@[i] == c as usize;
                assert(stack[i] == roots[i]);
                assert(stack@[i] == c as usize);
            }
        }
        while stack.len() > 0
            invariant
                tree.inner.len() == n == nodes@.len(),
                seen.len() == n,
                processed.len() == n,
                children.len() <= n,
                forall|c: int|
                    0 <= c < n ==> (roots@.contains(c as usize) <==> (
                    #[trigger] tree.inner[c].1).is_none()),
                forall|c: int| 0 <= c < n && (#[trigger] processed[c]) ==> seen[c],
                forall|c: int|
                    0 <= c < n && (#[trigger] seen[c]) ==> processed[c] || stack@.contains(
                        c as usize,
                    ),
                forall|q: int, j2: int|
                    0 <= q < n && (#[trigger] processed[q]) && 0 <= j2 < nodes@[q].children.len()
                        && (#[trigger] nodes@[q].children[j2]) < n ==> seen[
                        nodes@[q].children[j2] as int
                    ],
                forall|s: int| 0 <= s < stack.len() ==> (#[trigger] stack[s]) < n,
                forall|s: int| 0 <= s < stack.len() ==> !processed[(#[trigger] stack[s]) as int],
                forall|s: int| 0 <= s < stack.len() ==> seen[(#[trigger] stack[s]) as int],
                forall|s1: int, s2: int|
                    0 <= s1 < s2 < stack.len() ==> (#[trigger] stack[s1]) != (#[trigger] stack[s2]),
                forall|s: int|
                    0 <= s < stack.len() ==> roots@.contains(#[trigger] stack[s]) || exists|k: int|
                        0 <= k < children.len() && (#[trigger] children[k]).index == stack[s],
                forall|c: int|
                    0 <= c < n ==> ((#[trigger] seen[c]) <==> (roots@.contains(c as usize) || exists|
                        k: int,
                    | 0 <= k < children.len() && (#[trigger] children[k]).index == c as usize)),
                forall|k: int|
                    0 <= k < children.len() ==> (#[trigger] children[k]).index < n && children[
                        k
                    ].parent < n,
                forall|k: int|
                    0 <= k < children.len() ==> processed[(#[trigger] children[k]).parent as int],
                forall|k: int|
                    0 <= k < children.len() ==> !roots@.contains((#[trigger] children[k]).index),
                forall|k1: int, k2: int|
                    0 <= k1 < k2 < children.len() ==> (#[trigger] children[k1]).index != (
                    #[trigger] children[k2]).index,
                forall|k: int|
                    0 <= k < children.len() ==> roots@.contains((#[trigger] children[k]).parent)
                        || exists|k2: int| 0 <= k2 < k && (#[trigger] children[k2]).index
                        == children[k].parent,
                forall|k: int|
                    0 <= k < children.len() ==> exists|j: int|
                        0 <= j < nodes@[(#[trigger] children[k]).parent as int].children.len()
                            && nodes@[children[k].parent as int].children[j] == children[k].index,
            decreases n - children.len(), stack.len(),
        {
            let ghost children_at_entry = children@.len();
            let ghost stack_before_pop = stack@;
            let p = stack.pop().unwrap();
            let ghost stack_after_pop = stack@.len();
            proof {
                assert(!processed@[p as int]);
                assert(forall|k: int|
                    0 <= k < children@.len() ==> (#[trigger] children@[k]).parent != p);
            }
            let ghost old_processed = processed@;
            processed.set(p, true);
            proof {
                assert forall|x: int| 0 <= x < n && seen[x] implies processed[x]
                    || stack@.contains(x as usize) by {
                    if x != p as int && !processed[x] {
                        assert(processed@ == old_processed.update(p as int, true));
                        assert(!old_processed[x]);
                        assert(stack_before_pop.contains(x as usize));
                        lemma_pop_contains(stack_before_pop, x as usize);
                        assert(stack@ == stack_before_pop.subrange(
                            0,
                            stack_before_pop.len() - 1,
                        ));
                    }
                }
                assert forall|q: int, j2: int|
                    0 <= q < n && (#[trigger] processed[q]) && q != p as int && 0 <= j2 < nodes@[
                        q
                    ].children.len() && (#[trigger] nodes@[q].children[j2]) < n implies seen[
                    nodes@[q].children[j2] as int
                ] by {
                    assert(old_processed[q]);
                }
            }
            let node = &nodes[p];
            let m = node.children.len();
            let mut j: usize = 0;
            while j < m
                invariant
                    tree.inner.len() == n == nodes@.len(),
                    seen.len() == n,
                    processed.len() == n,
                    children.len() <= n,
                    p < n,
                    seen[p as int],
                    processed[p as int],
                    *node == nodes@[p as int],
                    m == nodes@[p as int].children.len(),
                    j <= m,
                    forall|c: int|
                        0 <= c < n ==> (roots@.contains(c as usize) <==> (
                        #[trigger] tree.inner[c].1).is_none()),
                    forall|c: int| 0 <= c < n && (#[trigger] processed[c]) ==> seen[c],
                    forall|c: int|
                        0 <= c < n && (#[trigger] seen[c]) ==> processed[c] || stack@.contains(
                            c as usize,
                        ),
                    forall|q: int, j2: int|
                        0 <= q < n && (#[trigger] processed[q]) && q != p as int && 0 <= j2
                            < nodes@[q].children.len() && (#[trigger] nodes@[q].children[j2]) < n
                            ==> seen[nodes@[q].children[j2] as int],
                    forall|j2: int|
                        0 <= j2 < j && (#[trigger] nodes@[p as int].children[j2]) < n ==> seen[
                            nodes@[p as int].children[j2] as int
                        ],
                    roots@.contains(p) || exists|k: int|
                        0 <= k < children_at_entry && (#[trigger] children[k]).index == p,
                    children.len() == children_at_entry + j,
                    stack.len() == stack_after_pop + j,
                    forall|k: int|
                        0 <= k < children_at_entry ==> (#[trigger] children[k]).parent != p,
                    forall|k: int|
                        children_at_entry <= k < children.len() ==> (
                        #[trigger] children[k]).parent == p,
                    forall|k: int|
                        children_at_entry <= k < children.len() ==> exists|jj: int|
                            0 <= jj < j && nodes@[p as int].children[jj] == (
                            #[trigger] children[k]).index,
                    forall|s: int| 0 <= s < stack.len() ==> (#[trigger] stack[s]) < n,
                    forall|s: int|
                        0 <= s < stack.len() ==> !processed[(#[trigger] stack[s]) as int],
                    forall|s: int| 0 <= s < stack.len() ==> seen[(#[trigger] stack[s]) as int],
                    forall|s1: int, s2: int|
                        0 <= s1 < s2 < stack.len() ==> (#[trigger] stack[s1]) != (
                        #[trigger] stack[s2]),
                    forall|s: int|
                        0 <= s < stack.len() ==> roots@.contains(#[trigger] stack[s]) || exists|
                            k: int,
                        | 0 <= k < children.len() && (#[trigger] children[k]).index == stack[s],
                    forall|c: int|
                        0 <= c < n ==> ((#[trigger] seen[c]) <==> (roots@.contains(c as usize)
                            || exists|k: int|
                            0 <= k < children.len() && (#[trigger] children[k]).index
                                == c as usize)),
                    forall|k: int|
                        0 <= k < children.len() ==> (#[trigger] children[k]).index < n && children[
                            k
                        ].parent < n,
                    forall|k: int|
                        0 <= k < children.len() ==> processed[(
                        #[trigger] children[k]).parent as int],
                    forall|k: int|
                        0 <= k < children.len() ==> !roots@.contains(
                            (#[trigger] children[k]).index,
                        ),
                    forall|k1: int, k2: int|
                        0 <= k1 < k2 < children.len() ==> (#[trigger] children[k1]).index != (
                        #[trigger] children[k2]).index,
                    forall|k: int|
                        0 <= k < children.len() ==> roots@.contains((#[trigger] children[k]).parent)
                            || exists|k2: int| 0 <= k2 < k && (#[trigger] children[k2]).index
                            == children[k].parent,
                    forall|k: int|
                        0 <= k < children.len() ==> exists|j2: int|
                            0 <= j2 < nodes@[(#[trigger] children[k]).parent as int].children.len()
                                && nodes@[children[k].parent as int].children[j2] == children[
                                k
                            ].index,
                decreases m - j,
            {
                let c = node.children[j];
                if c >= n {
                    proof {
                        assert(nodes@[p as int].children[j as int] == c);
                        assert(spec_listed_as_child(nodes@, c as int));
                        assert(!spec_children_in_range(nodes@));
                    }
                    return Err(LoadError::ChildOutOfRange { child: c });
                }
                if seen[c] {
                    proof {
                        // A well-formed forest never discovers a node
                        // twice: derive the contradiction under the
                        // three well-formedness assumptions.
                        if tree.matches(nodes@) && spec_children_in_range(nodes@)
                            && spec_listed_at_most_once(nodes@) {
                            assert(nodes@[p as int].children[j as int] == c);
                            if roots@.contains(c as usize) {
                                assert(tree.inner[c as int].1 is None);
                                assert(spec_listed_as_child(nodes@, c as int));
                                assert(false);
                            } else {
                                let k = choose|k: int|
                                    0 <= k < children@.len() && (#[trigger] children@[k]).index
                                        == c;
                                let j2 = choose|j2: int|
                                    0 <= j2 < nodes@[children@[k].parent as int].children.len()
                                        && nodes@[children@[k].parent as int].children[j2]
                                        == children@[k].index;
                                assert(nodes@[children@[k].parent as int].children[j2]
                                    == nodes@[p as int].children[j as int]);
                                assert(children@[k].parent == p && j2 == j);
                                if k < children_at_entry {
                                    assert(false);
                                } else {
                                    let jj = choose|jj: int|
                                        0 <= jj < j && nodes@[p as int].children[jj] == children@[
                                            k
                                        ].index;
                                    assert(nodes@[p as int].children[jj] == nodes@[
                                        p as int
                                    ].children[j as int]);
                                    assert(false);
                                }
                            }
                        }
                    }
                    return Err(LoadError::NodeCycle);
                }
                if children.len() >= n {
                    proof {
                        // All node indices would already be children,
                        // so this new unseen child cannot exist.
                        let idx = Seq::new(
                            children@.len(),
                            |k: int| children@[k].index as int,
                        );
                        assert(idx.no_duplicates()) by {
                            assert forall|k1: int, k2: int|
                                0 <= k1 < idx.len() && 0 <= k2 < idx.len() && k1 != k2 implies idx[
                                k1
                            ] != idx[k2] by {
                                if k1 < k2 {
                                    assert(children@[k1].index != children@[k2].index);
                                } else {
                                    assert(children@[k2].index != children@[k1].index);
                                }
                            }
                        }
                        idx.unique_seq_to_set();
                        vstd::seq_lib::seq_to_set_is_finite(idx);
                        let full = vstd::set_lib::set_int_range(0, n as int);
                        vstd::set_lib::lemma_int_range(0, n as int);
                        assert(!idx.to_set().contains(c as int)) by {
                            if idx.to_set().contains(c as int) {
                                let k = choose|k: int|
                                    0 <= k < idx.len() && #[trigger] idx[k] == c as int;
                                assert(children@[k].index == c);
                                assert(seen@[c as int]);
                            }
                        }
                        vstd::set::axiom_set_insert_len(idx.to_set(), c as int);
                        let grown = idx.to_set().insert(c as int);
                        assert(grown.subset_of(full)) by {
                            assert forall|x: int| grown.contains(x) implies full.contains(x) by {
                                if x != c as int {
                                    let k = choose|k: int|
                                        0 <= k < idx.len() && #[trigger] idx[k] == x;
                                    assert(children@[k].index < n);
                                }
                            }
                        }
                        vstd::set_lib::lemma_len_subset(grown, full);
                        assert(false);
                    }
                    return Err(LoadError::NodeCycle);
                }
                let ghost old_children = children@;
                let ghost old_stack = stack@;
                seen.set(c, true);
                children.push(Child { index: c, parent: p });
                stack.push(c);
                proof {
                    let newk = old_children.len() as int;
                    assert(children@[newk].index == c && children@[newk].parent == p);
                    assert(forall|k: int|
                        0 <= k < old_children.len() ==> children@[k] == old_children[k]);
                    assert forall|d: int| 0 <= d < n implies ((#[trigger] seen@[d]) <==> (
                    roots@.contains(d as usize) || exists|k: int|
                        0 <= k < children@.len() && (#[trigger] children@[k]).index
                            == d as usize)) by {
                        if d == c as int {
                            assert(children@[newk].index == d as usize);
                        } else {
                            if exists|k: int|
                                0 <= k < children@.len() && (#[trigger] children@[k]).index
                                    == d as usize {
                                let k = choose|k: int|
                                    0 <= k < children@.len() && (#[trigger] children@[k]).index
                                        == d as usize;
                                assert(k != newk);
                                assert(old_children[k].index == d as usize);
                            }
                        }
                    }
                    assert forall|s: int| 0 <= s < stack@.len() implies roots@.contains(
                        #[trigger] stack@[s],
                    ) || exists|k: int|
                        0 <= k < children@.len() && (#[trigger] children@[k]).index
                            == stack@[s] by {
                        if s < old_stack.len() {
                            assert(stack@[s] == old_stack[s]);
                        } else {
                            assert(stack@[s] == c);
                            assert(children@[newk].index == c);
                        }
                    }
                    assert forall|s1: int, s2: int| 0 <= s1 < s2 < stack@.len() implies (
                    #[trigger] stack@[s1]) != (#[trigger] stack@[s2]) by {
                        if s2 == stack@.len() - 1 {
                            assert(stack@[s1] == old_stack[s1]);
                            assert(seen@[old_stack[s1] as int]);
                        }
                    }
                    lemma_push_contains(old_stack, c);
                    assert(stack@ == old_stack.push(c));
                    assert forall|x: int| 0 <= x < n && seen[x] implies processed[x]
                        || stack@.contains(x as usize) by {
                        if x == c as int {
                            assert(stack@[stack@.len() - 1] == c);
                            assert(stack@.contains(c));
                        }
                    }
                }
                j += 1;
            }
        }
        proof {
            if tree.matches(nodes@) && spec_children_in_range(nodes@) && spec_listed_at_most_once(
                nodes@,
            ) && (forall|c: int|
                0 <= c < nodes@.len() ==> #[trigger] spec_reaches_root(
                    tree.inner@,
                    c,
                    nodes@.len() as nat,
                )) {
                assert(stack@.len() == 0);
                assert forall|x: int|
                    0 <= x < nodes@.len() && (#[trigger] seen@[x]) implies processed@[x] by {
                    assert(seen[x]);
                    if !processed[x] {
                        assert(stack@.contains(x as usize));
                        let i = choose|i: int| 0 <= i < stack@.len() && stack@[i] == x as usize;
                    }
                }
                assert forall|x: int|
                    0 <= x < nodes@.len() && (#[trigger] tree.inner@[x].1).is_none() implies
                    roots@.contains(x as usize) by {
                    assert(tree.inner[x].1 is None);
                }
                assert forall|x: int|
                    0 <= x < nodes@.len() && roots@.contains(#[trigger] (x as usize)) implies
                    seen@[x] by {
                    assert(seen[x]);
                }
                assert forall|q: int, j: int|
                    0 <= q < nodes@.len() && (#[trigger] processed@[q]) && 0 <= j < nodes@[
                        q
                    ].children.len() && (#[trigger] nodes@[q].children[j]) < nodes@.len() implies
                    seen@[nodes@[q].children[j] as int] by {
                    assert(processed[q]);
                    assert(seen[nodes@[q].children[j] as int]);
                }
                assert forall|x: int|
                    0 <= x < tree.inner@.len() && (#[trigger] tree.inner@[x].1).is_some() implies {
                    let pp = tree.inner@[x].1->0 as int;
                    &&& 0 <= pp < nodes@.len()
                    &&& exists|j: int|
                        0 <= j < nodes@[pp].children.len() && nodes@[pp].children[j] == x
                } by {
                    assert(tree.inner[x].1.is_some());
                }
                let df = DepthFirstNodes { roots, children, num_nodes: n };
                assert forall|c: int| 0 <= c < n implies df.roots@.contains(
                    #[trigger] (c as usize),
                ) || exists|k: int|
                    0 <= k < df.children.len() && (#[trigger] df.children@[k]).index
                        == c as usize by {
                    lemma_reachable_seen(
                        tree.inner@,
                        nodes@,
                        roots@,
                        seen@,
                        processed@,
                        c,
                        nodes@.len() as nat,
                    );
                    assert(seen@[c]);
                    assert(seen[c]);
                    if !roots@.contains(c as usize) {
                        let k = choose|k: int|
                            0 <= k < children.len() && (#[trigger] children[k]).index
                                == c as usize;
                        assert(df.children@[k].index == c as usize);
                    }
                }
                assert(spec_traversal_covers(df, n as int));
            }
        }
        Ok(DepthFirstNodes { roots, children, num_nodes: n })
    }
}

/// In the traversal's final state — everything seen has been
/// processed, every processed node's in-range children are seen, and
/// every parentless node is a seen root — any node whose parent chain
/// reaches a root is seen, by induction up that chain.
proof fn lemma_reachable_seen(
    tree: Seq<(Similarity, Option<usize>)>,
    nodes: Seq<NodeDef>,
    roots: Seq<usize>,
    seen: Seq<bool>,
    processed: Seq<bool>,
    c: int,
    fuel: nat,
)
    requires
        tree.len() == nodes.len(),
        seen.len() == nodes.len(),
        processed.len() == nodes.len(),
        spec_children_in_range(nodes),
        forall|x: int|
            0 <= x < tree.len() && (#[trigger] tree[x].1).is_some() ==> {
                let p = tree[x].1->0 as int;
                &&& 0 <= p < nodes.len()
                &&& exists|j: int| 0 <= j < nodes[p].children.len() && nodes[p].children[j] == x
            },
        forall|x: int|
            0 <= x < nodes.len() && (#[trigger] tree[x].1).is_none() ==> roots.contains(x as usize),
        forall|x: int|
            0 <= x < nodes.len() && roots.contains(#[trigger] (x as usize)) ==> seen[x],
        forall|x: int| 0 <= x < nodes.len() && (#[trigger] seen[x]) ==> processed[x],
        forall|q: int, j: int|
            0 <= q < nodes.len() && (#[trigger] processed[q]) && 0 <= j < nodes[q].children.len()
                && (#[trigger] nodes[q].children[j]) < nodes.len() ==> seen[
                nodes[q].children[j] as int
            ],
        spec_reaches_root(tree, c, fuel),
        0 <= c < nodes.len(),
    ensures
        seen[c],
    decreases fuel,
{
    if tree[c].1 is None {
        assert(roots.contains(c as usize));
    } else {
        let p = tree[c].1->0 as int;
        lemma_reachable_seen(tree, nodes, roots, seen, processed, p, (fuel - 1) as nat);
        assert(processed[p]);
        let j = choose|j: int| 0 <= j < nodes[p].children.len() && nodes[p].children[j] == c;
        assert(nodes[p].children[j] < nodes.len());
        assert(seen[nodes[p].children[j] as int]);
    }
}

/// Depth-first ordering: in a well-formed traversal every edge's
/// parent is a root or appears as the child of a strictly earlier
/// edge, so a single forward pass always sees a parent's data before
/// any of its children.
pub proof fn lemma_depth_first_ordering(df: DepthFirstNodes, k: int)
    requires
        df.wf(),
        0 <= k < df.children.len(),
    ensures
        df.roots@.contains(df.children[k].parent) || exists|k2: int|
            0 <= k2 < k && (#[trigger] df.children[k2]).index == df.children[k].parent,
{
}

} // verus!
