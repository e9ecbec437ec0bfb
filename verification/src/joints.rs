//! Skeletal pose evaluation: local and global transforms per node.
//!
//! `update` is the forward-kinematics pass: roots copy their local
//! transform, then every parent-child edge, in depth-first order,
//! composes the parent's global transform with the child's local one.
//! The animation sampler writes `local_transforms` only; `update` is
//! the sole writer of `global_transforms`.

use vstd::prelude::*;

use crate::nodes::{Child, DepthFirstNodes};
use crate::similarity::{spec_compose, spec_identity, Similarity};
use crate::vecmath::FxVec3;

verus! {

/// State of the roots pass after `k` roots: each processed root's
/// global transform is its local one.
pub open spec fn spec_apply_roots(
    g: Seq<Similarity>,
    local: Seq<Similarity>,
    roots: Seq<usize>,
    k: int,
) -> Seq<Similarity>
    decreases k,
{
    if k <= 0 || k > roots.len() {
        g
    } else {
        let prev = spec_apply_roots(g, local, roots, k - 1);
        prev.update(roots[k - 1] as int, local[roots[k - 1] as int])
    }
}

/// State of the edge pass after `k` edges: each processed child's
/// global transform is its parent's global (at that moment) composed
/// with the child's local.
pub open spec fn spec_apply_children(
    g: Seq<Similarity>,
    local: Seq<Similarity>,
    children: Seq<Child>,
    k: int,
) -> Seq<Similarity>
    decreases k,
{
    if k <= 0 || k > children.len() {
        g
    } else {
        let prev = spec_apply_children(g, local, children, k - 1);
        let c = children[k - 1];
        prev.update(c.index as int, spec_compose(prev[c.parent as int], local[c.index as int]))
    }
}

/// The full forward-kinematics pass over a traversal.
pub open spec fn spec_update(
    g: Seq<Similarity>,
    local: Seq<Similarity>,
    df: DepthFirstNodes,
) -> Seq<Similarity> {
    spec_apply_children(
        spec_apply_roots(g, local, df.roots@, df.roots@.len() as int),
        local,
        df.children@,
        df.children@.len() as int,
    )
}

/// Per-instance pose state: one local and one global transform per
/// node of the model's hierarchy.
#[derive(Clone, Debug)]
pub struct AnimationJoints {
    pub global_transforms: Vec<Similarity>,
    pub local_transforms: Vec<Similarity>,
}

impl AnimationJoints {
    /// Whether this pose state covers the same node table as `df`.
    pub open spec fn wf_for(self, df: DepthFirstNodes) -> bool {
        &&& self.global_transforms.len() == df.num_nodes
        &&& self.local_transforms.len() == df.num_nodes
    }

    /// Start a pose from per-node initial local transforms, with
    /// globals already propagated once.
    pub fn new(initial: &Vec<Similarity>, depth_first_nodes: &DepthFirstNodes) -> (r:
        AnimationJoints)
        requires
            depth_first_nodes.wf(),
            initial.len() == depth_first_nodes.num_nodes,
        ensures
            r.wf_for(*depth_first_nodes),
            r.local_transforms@ == initial@,
            r.global_transforms@ == spec_update(initial@, initial@, *depth_first_nodes),
    {
        let mut joints = AnimationJoints {
            global_transforms: initial.clone(),
            local_transforms: initial.clone(),
        };
        proof {
            assert(joints.global_transforms@ =~= initial@);
            assert(joints.local_transforms@ =~= initial@);
        }
        joints.update(depth_first_nodes);
        joints
    }

    /// The forward-kinematics pass: recompute every global transform
    /// from the local ones, in depth-first order.
    pub fn update(&mut self, depth_first_nodes: &DepthFirstNodes) -> (r: ())
        requires
            depth_first_nodes.wf(),
            old(self).wf_for(*depth_first_nodes),
        ensures
            final(self).wf_for(*depth_first_nodes),
            final(self).local_transforms@ == old(self).local_transforms@,
            final(self).global_transforms@ == spec_update(
                old(self).global_transforms@,
                old(self).local_transforms@,
                *depth_first_nodes,
            ),
    {
        let ghost g0 = self.global_transforms@;
        let ghost local = self.local_transforms@;
        let roots = &depth_first_nodes.roots;
        let children = &depth_first_nodes.children;
        let n = self.global_transforms.len();
        let mut r: usize = 0;
        while r < roots.len()
            invariant
                depth_first_nodes.wf(),
                r <= roots.len(),
                roots == depth_first_nodes.roots,
                n == depth_first_nodes.num_nodes,
                self.global_transforms.len() == n,
                self.local_transforms@ == local,
                local.len() == n,
                self.global_transforms@ == spec_apply_roots(g0, local, roots@, r as int),
            decreases roots.len() - r,
        {
            let idx = roots[r];
            let t = self.local_transforms[idx];
            self.global_transforms.set(idx, t);
            r += 1;
        }
        let mut k: usize = 0;
        while k < children.len()
            invariant
                depth_first_nodes.wf(),
                k <= children.len(),
                children == depth_first_nodes.children,
                roots == depth_first_nodes.roots,
                n == depth_first_nodes.num_nodes,
                self.global_transforms.len() == n,
                self.local_transforms@ == local,
                local.len() == n,
                self.global_transforms@ == spec_apply_children(
                    spec_apply_roots(g0, local, roots@, roots@.len() as int),
                    local,
                    children@,
                    k as int,
                ),
            decreases children.len() - k,
        {
            let edge = children[k];
            let parent_transform = self.global_transforms[edge.parent];
            let t = parent_transform.compose(&self.local_transforms[edge.index]);
            self.global_transforms.set(edge.index, t);
            k += 1;
        }
    }

    /// The per-joint skinning transforms, freshly propagated: each is
    /// the joint node's global transform composed with that joint's
    /// inverse bind transform, mapping bind pose to animated pose.
    pub fn iter(
        &mut self,
        joint_indices_to_node_indices: &Vec<usize>,
        inverse_bind_transforms: &Vec<Similarity>,
        depth_first_nodes: &DepthFirstNodes,
    ) -> (r: Vec<Similarity>)
        requires
            depth_first_nodes.wf(),
            old(self).wf_for(*depth_first_nodes),
            inverse_bind_transforms.len() == joint_indices_to_node_indices.len(),
            forall|j: int|
                0 <= j < joint_indices_to_node_indices.len()
                    ==> (#[trigger] joint_indices_to_node_indices[j]) < depth_first_nodes.num_nodes,
        ensures
            final(self).wf_for(*depth_first_nodes),
            final(self).local_transforms@ == old(self).local_transforms@,
            final(self).global_transforms@ == spec_update(
                old(self).global_transforms@,
                old(self).local_transforms@,
                *depth_first_nodes,
            ),
            r.len() == joint_indices_to_node_indices.len(),
            forall|j: int|
                0 <= j < r.len() ==> (#[trigger] r[j]) == spec_compose(
                    final(self).global_transforms@[joint_indices_to_node_indices[j] as int],
                    inverse_bind_transforms[j],
                ),
    {
        self.update(depth_first_nodes);
        let mut out: Vec<Similarity> = Vec::new();
        let mut j: usize = 0;
        while j < joint_indices_to_node_indices.len()
            invariant
                j <= joint_indices_to_node_indices.len(),
                inverse_bind_transforms.len() == joint_indices_to_node_indices.len(),
                forall|i: int|
                    0 <= i < joint_indices_to_node_indices.len()
                        ==> (#[trigger] joint_indices_to_node_indices[i])
                        < self.global_transforms.len(),
                out.len() == j,
                forall|i: int|
                    0 <= i < j ==> (#[trigger] out[i]) == spec_compose(
                        self.global_transforms@[joint_indices_to_node_indices[i] as int],
                        inverse_bind_transforms[i],
                    ),
            decreases joint_indices_to_node_indices.len() - j,
        {
            let node_index = joint_indices_to_node_indices[j];
            let m = self.global_transforms[node_index].compose(&inverse_bind_transforms[j]);
            out.push(m);
            j += 1;
        }
        out
    }

    /// The bone segments of the current pose: for every edge, the
    /// parent's and the child's global translation.
    pub fn iter_lines(&self, depth_first_nodes: &DepthFirstNodes) -> (r: Vec<(FxVec3, FxVec3)>)
        requires
            depth_first_nodes.wf(),
            self.wf_for(*depth_first_nodes),
        ensures
            r.len() == depth_first_nodes.children.len(),
            forall|k: int|
                0 <= k < r.len() ==> (#[trigger] r[k]).0
                    == self.global_transforms@[depth_first_nodes.children@[k].parent as int].translation
                    && r[k].1
                    == self.global_transforms@[depth_first_nodes.children@[k].index as int].translation,
    {
        let children = &depth_first_nodes.children;
        let mut out: Vec<(FxVec3, FxVec3)> = Vec::new();
        let mut k: usize = 0;
        while k < children.len()
            invariant
                depth_first_nodes.wf(),
                self.wf_for(*depth_first_nodes),
                children == depth_first_nodes.children,
                k <= children.len(),
                out.len() == k,
                forall|i: int|
                    0 <= i < k ==> (#[trigger] out[i]).0
                        == self.global_transforms@[children@[i].parent as int].translation && out[
                        i
                    ].1 == self.global_transforms@[children@[i].index as int].translation,
            decreases children.len() - k,
        {
            let edge = children[k];
            out.push(
                (
                    self.global_transforms[edge.parent].translation,
                    self.global_transforms[edge.index].translation,
                ),
            );
            k += 1;
        }
        out
    }

    /// Overwrite one joint's local transform, addressed through the
    /// joint-to-node table.  Globals are untouched until `update`.
    pub fn set_joint(
        &mut self,
        index: usize,
        joint_indices_to_node_indices: &Vec<usize>,
        transform: Similarity,
    )
        requires
            index < joint_indices_to_node_indices.len(),
            joint_indices_to_node_indices[index as int] < old(self).local_transforms.len(),
        ensures
            final(self).global_transforms@ == old(self).global_transforms@,
            final(self).local_transforms@ == old(self).local_transforms@.update(
                joint_indices_to_node_indices[index as int] as int,
                transform,
            ),
    {
        let node = joint_indices_to_node_indices[index];
        self.local_transforms.set(node, transform);
    }

    /// Read one joint's local transform through the joint-to-node
    /// table.
    pub fn get_joint(&self, index: usize, joint_indices_to_node_indices: &Vec<usize>) -> (r:
        Similarity)
        requires
            index < joint_indices_to_node_indices.len(),
            joint_indices_to_node_indices[index as int] < self.local_transforms.len(),
        ensures
            r == self.local_transforms@[joint_indices_to_node_indices[index as int] as int],
    {
        self.local_transforms[joint_indices_to_node_indices[index]]
    }
}

/// Both passes preserve the number of transforms.
proof fn lemma_apply_roots_len(g: Seq<Similarity>, local: Seq<Similarity>, roots: Seq<usize>, k: int)
    requires
        forall|r: int| 0 <= r < roots.len() ==> (#[trigger] roots[r]) < g.len(),
    ensures
        spec_apply_roots(g, local, roots, k).len() == g.len(),
    decreases k,
{
    if 0 < k <= roots.len() {
        lemma_apply_roots_len(g, local, roots, k - 1);
    }
}

/// Both passes preserve the number of transforms.
proof fn lemma_apply_children_len(
    g: Seq<Similarity>,
    local: Seq<Similarity>,
    children: Seq<Child>,
    k: int,
)
    requires
        forall|j: int| 0 <= j < children.len() ==> (#[trigger] children[j]).index < g.len(),
    ensures
        spec_apply_children(g, local, children, k).len() == g.len(),
    decreases k,
{
    if 0 < k <= children.len() {
        lemma_apply_children_len(g, local, children, k - 1);
    }
}

/// A position no processed edge writes keeps its value through the
/// edge pass.
proof fn lemma_children_preserve_unwritten(
    g: Seq<Similarity>,
    local: Seq<Similarity>,
    children: Seq<Child>,
    m: int,
    i: int,
)
    requires
        0 <= m <= children.len(),
        0 <= i < g.len(),
        forall|j: int| 0 <= j < children.len() ==> (#[trigger] children[j]).index < g.len(),
        forall|j: int| 0 <= j < m ==> (#[trigger] children[j]).index != i,
    ensures
        spec_apply_children(g, local, children, m)[i] == g[i],
    decreases m,
{
    if m > 0 {
        lemma_children_preserve_unwritten(g, local, children, m - 1, i);
        lemma_apply_children_len(g, local, children, m - 1);
    }
}

/// Once an edge has written its child's transform, later edges (which
/// all write other children) leave that value alone.
proof fn lemma_children_stable(
    g: Seq<Similarity>,
    local: Seq<Similarity>,
    children: Seq<Child>,
    j: int,
    m: int,
)
    requires
        0 <= j < m <= children.len(),
        forall|jj: int| 0 <= jj < children.len() ==> (#[trigger] children[jj]).index < g.len(),
        forall|k1: int, k2: int|
            0 <= k1 < k2 < children.len() ==> (#[trigger] children[k1]).index != (
            #[trigger] children[k2]).index,
    ensures
        spec_apply_children(g, local, children, m)[children[j].index as int] == spec_apply_children(
            g,
            local,
            children,
            j + 1,
        )[children[j].index as int],
    decreases m,
{
    if m > j + 1 {
        lemma_children_stable(g, local, children, j, m - 1);
        lemma_apply_children_len(g, local, children, m - 1);
    }
}

/// A processed root's global transform equals its local one right
/// after the roots pass.
proof fn lemma_roots_value(
    g: Seq<Similarity>,
    local: Seq<Similarity>,
    roots: Seq<usize>,
    m: int,
    r: int,
)
    requires
        0 <= r < m <= roots.len(),
        local.len() == g.len(),
        forall|rr: int| 0 <= rr < roots.len() ==> (#[trigger] roots[rr]) < g.len(),
        forall|r1: int, r2: int|
            0 <= r1 < r2 < roots.len() ==> (#[trigger] roots[r1]) != (#[trigger] roots[r2]),
    ensures
        spec_apply_roots(g, local, roots, m)[roots[r] as int] == local[roots[r] as int],
    decreases m,
{
    lemma_apply_roots_len(g, local, roots, m - 1);
    if m - 1 > r {
        lemma_roots_value(g, local, roots, m - 1, r);
    }
}

/// After the full pass the recurrence of forward kinematics holds of
/// the final state itself: every root's global transform is its local
/// one, and every edge child's global transform is its parent's final
/// global transform composed with the child's local one.
pub proof fn lemma_update_recurrence(df: DepthFirstNodes, g0: Seq<Similarity>, local: Seq<Similarity>)
    requires
        df.wf(),
        g0.len() == df.num_nodes,
        local.len() == df.num_nodes,
    ensures
        spec_update(g0, local, df).len() == df.num_nodes,
        forall|r: int|
            0 <= r < df.roots.len() ==> spec_update(g0, local, df)[(#[trigger] df.roots@[r]) as int]
                == local[df.roots@[r] as int],
        forall|k: int|
            0 <= k < df.children.len() ==> spec_update(g0, local, df)[(
            #[trigger] df.children@[k]).index as int] == spec_compose(
                spec_update(g0, local, df)[df.children@[k].parent as int],
                local[df.children@[k].index as int],
            ),
{
    let roots = df.roots@;
    let children = df.children@;
    let g1 = spec_apply_roots(g0, local, roots, roots.len() as int);
    let g = spec_update(g0, local, df);
    lemma_apply_roots_len(g0, local, roots, roots.len() as int);
    lemma_apply_children_len(g1, local, children, children.len() as int);
    assert forall|r: int| 0 <= r < roots.len() implies g[(#[trigger] roots[r]) as int] == local[(
    roots[r] as int)] by {
        lemma_roots_value(g0, local, roots, roots.len() as int, r);
        assert(roots.contains(roots[r]));
        assert(forall|j: int| 0 <= j < children.len() ==> (#[trigger] children[j]).index != roots[r]);
        lemma_children_preserve_unwritten(
            g1,
            local,
            children,
            children.len() as int,
            roots[r] as int,
        );
    }
    assert forall|k: int| 0 <= k < children.len() implies g[(#[trigger] children[k]).index as int]
        == spec_compose(g[children[k].parent as int], local[children[k].index as int]) by {
        let c = children[k].index as int;
        let p = children[k].parent as int;
        lemma_children_stable(g1, local, children, k, children.len() as int);
        lemma_apply_children_len(g1, local, children, k);
        assert(spec_apply_children(g1, local, children, k + 1)[c] == spec_compose(
            spec_apply_children(g1, local, children, k)[p],
            local[c],
        ));
        if roots.contains(children[k].parent) {
            assert(forall|j: int|
                0 <= j < children.len() ==> (#[trigger] children[j]).index != children[k].parent);
            lemma_children_preserve_unwritten(g1, local, children, children.len() as int, p);
            lemma_children_preserve_unwritten(g1, local, children, k, p);
        } else {
            let k2 = choose|k2: int|
                0 <= k2 < k && (#[trigger] children[k2]).index == children[k].parent;
            lemma_children_stable(g1, local, children, k2, children.len() as int);
            lemma_children_stable(g1, local, children, k2, k);
        }
    }
}

/// Pose propagation: when every edge child's local transform is the
/// identity, propagation hands each child exactly its parent's global
/// transform, so a whole subtree inherits its root's transform — a
/// root translated by some offset moves every descendant by that same
/// accumulated offset.
pub proof fn lemma_pose_propagation(df: DepthFirstNodes, g0: Seq<Similarity>, local: Seq<Similarity>)
    requires
        df.wf(),
        g0.len() == df.num_nodes,
        local.len() == df.num_nodes,
        forall|k: int|
            0 <= k < df.children.len() ==> local[(#[trigger] df.children@[k]).index as int]
                == spec_identity(),
    ensures
        forall|r: int|
            0 <= r < df.roots.len() ==> spec_update(g0, local, df)[(#[trigger] df.roots@[r]) as int]
                == local[df.roots@[r] as int],
        forall|k: int|
            0 <= k < df.children.len() ==> spec_update(g0, local, df)[(
            #[trigger] df.children@[k]).index as int] == spec_update(g0, local, df)[df.children@[
                k
            ].parent as int],
{
    lemma_update_recurrence(df, g0, local);
    let g = spec_update(g0, local, df);
    assert forall|k: int| 0 <= k < df.children.len() implies g[(
    #[trigger] df.children@[k]).index as int] == g[df.children@[k].parent as int] by {
        crate::similarity::lemma_compose_identity_right(g[df.children@[k].parent as int]);
    }
}

} // verus!
