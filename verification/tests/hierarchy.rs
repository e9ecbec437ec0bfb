//! Node hierarchy, depth-first traversal and pose propagation.

use scene_prep::document::NodeDef;
use scene_prep::error::LoadError;
use scene_prep::fixed::Fixed;
use scene_prep::joints::AnimationJoints;
use scene_prep::nodes::{DepthFirstNodes, NodeTree};
use scene_prep::similarity::Similarity;
use scene_prep::vecmath::{FxQuat, FxVec3};

const ONE: i32 = 65536;

fn node(children: Vec<usize>, transform: Similarity) -> NodeDef {
    NodeDef {
        local_transform: transform,
        children,
        mesh: None,
        lod_ids: Vec::new(),
        screen_coverages: Vec::new(),
    }
}

fn ident() -> Similarity {
    Similarity::identity()
}

fn translated(x: i32, y: i32, z: i32) -> Similarity {
    Similarity::new(
        FxVec3 { x: Fixed::from_raw(x), y: Fixed::from_raw(y), z: Fixed::from_raw(z) },
        Fixed::one(),
        FxQuat::identity(),
    )
}

/// A tree of depth six with branching:
/// 0 -> 1 -> 2 -> 3 -> 4 -> 5, plus 1 -> 6, 2 -> 7, and a second
/// root 8 -> 9.
fn deep_nodes() -> Vec<NodeDef> {
    vec![
        node(vec![1], ident()),
        node(vec![2, 6], ident()),
        node(vec![3, 7], ident()),
        node(vec![4], ident()),
        node(vec![5], ident()),
        node(vec![], ident()),
        node(vec![], ident()),
        node(vec![], ident()),
        node(vec![9], ident()),
        node(vec![], ident()),
    ]
}

#[test]
fn depth_first_parent_precedes_child() {
    let nodes = deep_nodes();
    let tree = NodeTree::new(&nodes).unwrap();
    let df = DepthFirstNodes::new(&nodes, &tree).unwrap();
    assert_eq!(df.roots, vec![0, 8]);
    // Every non-root appears exactly once.
    assert_eq!(df.children.len(), 8);
    for (k, edge) in df.children.iter().enumerate() {
        let parent_is_root = df.roots.contains(&edge.parent);
        let parent_emitted_earlier = df.children[..k].iter().any(|e| e.index == edge.parent);
        assert!(
            parent_is_root || parent_emitted_earlier,
            "edge {} has parent {} that was not seen yet",
            k,
            edge.parent
        );
    }
    let mut seen: Vec<usize> = df.children.iter().map(|e| e.index).collect();
    seen.sort();
    assert_eq!(seen, vec![1, 2, 3, 4, 5, 6, 7, 9]);
}

#[test]
fn child_out_of_range_fails_the_load() {
    let nodes = vec![node(vec![5], ident())];
    match NodeTree::new(&nodes) {
        Err(LoadError::ChildOutOfRange { child }) => assert_eq!(child, 5),
        other => panic!("expected a child-out-of-range error, got {:?}", other.is_ok()),
    }
}

#[test]
fn node_with_two_parents_fails_traversal() {
    let nodes = vec![node(vec![2], ident()), node(vec![2], ident()), node(vec![], ident())];
    let tree = NodeTree::new(&nodes).unwrap();
    match DepthFirstNodes::new(&nodes, &tree) {
        Err(LoadError::NodeCycle) => {},
        other => panic!("expected a cycle error, got {:?}", other.is_ok()),
    }
}

#[test]
fn transform_of_accumulates_the_chain() {
    let nodes = vec![
        node(vec![1], translated(ONE, 0, 0)),
        node(vec![2], translated(0, 2 * ONE, 0)),
        node(vec![], translated(0, 0, 3 * ONE)),
    ];
    let tree = NodeTree::new(&nodes).unwrap();
    let t = tree.transform_of(2);
    assert_eq!(t.translation.x.raw, ONE);
    assert_eq!(t.translation.y.raw, 2 * ONE);
    assert_eq!(t.translation.z.raw, 3 * ONE);
}

#[test]
fn pose_propagation_from_translated_root() {
    // Every local transform is the identity except root 0, which is
    // translated by (1,0,0): after update, every descendant's global
    // translation equals the accumulated chain sum (1,0,0).
    let mut nodes = deep_nodes();
    nodes[0].local_transform = translated(ONE, 0, 0);
    let tree = NodeTree::new(&nodes).unwrap();
    let df = DepthFirstNodes::new(&nodes, &tree).unwrap();
    let locals: Vec<Similarity> = nodes.iter().map(|n| n.local_transform).collect();
    let joints = AnimationJoints::new(&locals, &df);
    for descendant in [1usize, 2, 3, 4, 5, 6, 7] {
        let g = joints.global_transforms[descendant];
        assert_eq!(g.translation.x.raw, ONE, "node {}", descendant);
        assert_eq!(g.translation.y.raw, 0);
        assert_eq!(g.translation.z.raw, 0);
    }
    // The second tree's nodes are untouched by the first root.
    assert_eq!(joints.global_transforms[8].translation.x.raw, 0);
    assert_eq!(joints.global_transforms[9].translation.x.raw, 0);
}

#[test]
fn update_recomputes_after_local_edit() {
    let nodes = vec![node(vec![1], ident()), node(vec![], ident())];
    let tree = NodeTree::new(&nodes).unwrap();
    let df = DepthFirstNodes::new(&nodes, &tree).unwrap();
    let locals: Vec<Similarity> = nodes.iter().map(|n| n.local_transform).collect();
    let mut joints = AnimationJoints::new(&locals, &df);
    joints.local_transforms[0] = translated(0, 5 * ONE, 0);
    joints.update(&df);
    assert_eq!(joints.global_transforms[1].translation.y.raw, 5 * ONE);
}

#[test]
fn joint_matrices_compose_with_inverse_bind() {
    let nodes = vec![node(vec![], translated(3 * ONE, 0, 0))];
    let tree = NodeTree::new(&nodes).unwrap();
    let df = DepthFirstNodes::new(&nodes, &tree).unwrap();
    let locals: Vec<Similarity> = nodes.iter().map(|n| n.local_transform).collect();
    let mut joints = AnimationJoints::new(&locals, &df);
    let j2n = vec![0usize];
    let inverse_bind = vec![translated(-3 * ONE, 0, 0)];
    let mats = joints.iter(&j2n, &inverse_bind, &df);
    assert_eq!(mats.len(), 1);
    // global * inverse_bind: the bind-pose offset cancels.
    assert_eq!(mats[0].translation.x.raw, 0);
}

#[test]
fn bone_lines_connect_parent_and_child() {
    let nodes = vec![node(vec![1], translated(ONE, 0, 0)), node(vec![], translated(ONE, 0, 0))];
    let tree = NodeTree::new(&nodes).unwrap();
    let df = DepthFirstNodes::new(&nodes, &tree).unwrap();
    let locals: Vec<Similarity> = nodes.iter().map(|n| n.local_transform).collect();
    let joints = AnimationJoints::new(&locals, &df);
    let lines = joints.iter_lines(&df);
    assert_eq!(lines.len(), 1);
    assert_eq!(lines[0].0.x.raw, ONE);
    assert_eq!(lines[0].1.x.raw, 2 * ONE);
}

#[test]
fn set_joint_touches_only_locals() {
    let nodes = vec![node(vec![], ident()), node(vec![], ident())];
    let tree = NodeTree::new(&nodes).unwrap();
    let df = DepthFirstNodes::new(&nodes, &tree).unwrap();
    let locals: Vec<Similarity> = nodes.iter().map(|n| n.local_transform).collect();
    let mut joints = AnimationJoints::new(&locals, &df);
    let j2n = vec![1usize, 0usize];
    joints.set_joint(0, &j2n, translated(0, 0, 9 * ONE));
    assert_eq!(joints.local_transforms[1].translation.z.raw, 9 * ONE);
    assert_eq!(joints.get_joint(0, &j2n).translation.z.raw, 9 * ONE);
    assert_eq!(joints.global_transforms[1].translation.z.raw, 0);
}
