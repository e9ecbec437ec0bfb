//! Keyframe sampling and pose animation.

use scene_prep::document::{Interpolation, NodeDef};
use scene_prep::fixed::Fixed;
use scene_prep::joints::AnimationJoints;
use scene_prep::nodes::{DepthFirstNodes, NodeTree};
use scene_prep::sampler::{advance_animation_time, Animation, Channel};
use scene_prep::similarity::Similarity;
use scene_prep::vecmath::{FxQuat, FxVec3};

const ONE: i32 = 65536;

fn fx(raw: i32) -> Fixed {
    Fixed::from_raw(raw)
}

fn scalar_channel(mode: Interpolation, inputs: Vec<i32>, outputs: Vec<i32>) -> Channel<Fixed> {
    Channel {
        interpolation: mode,
        inputs: inputs.into_iter().map(fx).collect(),
        outputs: outputs.into_iter().map(fx).collect(),
        node_index: 0,
    }
}

#[test]
fn step_returns_keyframe_value_at_exact_timestamp() {
    let c = scalar_channel(Interpolation::Step, vec![0, ONE, 2 * ONE], vec![
        10 * ONE,
        20 * ONE,
        30 * ONE,
    ]);
    let (node, v) = c.sample(fx(ONE)).unwrap();
    assert_eq!(node, 0);
    assert_eq!(v.raw, 20 * ONE);
}

#[test]
fn step_holds_earlier_value_between_keyframes() {
    let c = scalar_channel(Interpolation::Step, vec![0, ONE, 2 * ONE], vec![
        10 * ONE,
        20 * ONE,
        30 * ONE,
    ]);
    let (_, v) = c.sample(fx(ONE + ONE / 2)).unwrap();
    assert_eq!(v.raw, 20 * ONE);
    let (_, v) = c.sample(fx(ONE / 2)).unwrap();
    assert_eq!(v.raw, 10 * ONE);
}

#[test]
fn linear_boundaries_return_first_and_last_values() {
    let c = scalar_channel(Interpolation::Linear, vec![ONE, 3 * ONE], vec![4 * ONE, 8 * ONE]);
    let (_, first) = c.sample(fx(ONE)).unwrap();
    assert_eq!(first.raw, 4 * ONE);
    let (_, last) = c.sample(fx(3 * ONE)).unwrap();
    assert_eq!(last.raw, 8 * ONE);
}

#[test]
fn linear_midpoint_of_zero_and_ten_is_five() {
    let c = scalar_channel(Interpolation::Linear, vec![0, 2 * ONE], vec![0, 10 * ONE]);
    let (_, v) = c.sample(fx(ONE)).unwrap();
    assert_eq!(v.raw, 5 * ONE);
}

#[test]
fn sampling_outside_the_span_produces_nothing() {
    let c = scalar_channel(Interpolation::Linear, vec![ONE, 2 * ONE], vec![0, ONE]);
    assert!(c.sample(fx(0)).is_none());
    assert!(c.sample(fx(3 * ONE)).is_none());
}

#[test]
fn cubic_at_keyframe_returns_stored_value() {
    // Cubic channels store in-tangent, value, out-tangent per
    // keyframe; an exact hit returns the middle element.
    let c = scalar_channel(
        Interpolation::CubicSpline,
        vec![0, ONE],
        vec![0, 7 * ONE, 0, 0, 11 * ONE, 0],
    );
    let (_, v) = c.sample(fx(0)).unwrap();
    assert_eq!(v.raw, 7 * ONE);
    let (_, v) = c.sample(fx(ONE)).unwrap();
    assert_eq!(v.raw, 11 * ONE);
}

#[test]
fn cubic_with_zero_tangents_interpolates_smoothly() {
    let c = scalar_channel(
        Interpolation::CubicSpline,
        vec![0, 2 * ONE],
        vec![0, 0, 0, 0, 10 * ONE, 0],
    );
    // At the midpoint the Hermite basis gives exactly half.
    let (_, v) = c.sample(fx(ONE)).unwrap();
    assert!((v.raw - 5 * ONE).abs() <= 8, "got {}", v.raw);
}

#[test]
fn rotation_blend_stays_normalized() {
    let a = FxQuat { x: fx(0), y: fx(0), z: fx(0), w: fx(ONE) };
    let b = FxQuat { x: fx(0), y: fx(0), z: fx(ONE), w: fx(0) };
    let mid = a.blend(b, fx(ONE / 2));
    let n2 = mid.dot(mid);
    assert!((n2.raw - ONE).abs() <= 64, "norm squared {}", n2.raw);
}

#[test]
fn total_time_is_largest_final_timestamp() {
    let t = scalar_channel(Interpolation::Linear, vec![0, 2 * ONE], vec![0, 0]);
    let anim = Animation::new(
        vec![Channel {
            interpolation: Interpolation::Linear,
            inputs: vec![fx(0), fx(3 * ONE)],
            outputs: vec![
                FxVec3 { x: fx(0), y: fx(0), z: fx(0) },
                FxVec3 { x: fx(0), y: fx(0), z: fx(0) },
            ],
            node_index: 0,
        }],
        Vec::new(),
        vec![t],
    );
    assert_eq!(anim.total_time().raw, 3 * ONE);
}

#[test]
fn animate_writes_sampled_translation() {
    let nodes = vec![NodeDef {
        local_transform: Similarity::identity(),
        children: Vec::new(),
        mesh: None,
        lod_ids: Vec::new(),
        screen_coverages: Vec::new(),
    }];
    let tree = NodeTree::new(&nodes).unwrap();
    let df = DepthFirstNodes::new(&nodes, &tree).unwrap();
    let locals: Vec<Similarity> = nodes.iter().map(|n| n.local_transform).collect();
    let mut joints = AnimationJoints::new(&locals, &df);
    let anim = Animation::new(
        vec![Channel {
            interpolation: Interpolation::Linear,
            inputs: vec![fx(0), fx(2 * ONE)],
            outputs: vec![
                FxVec3 { x: fx(0), y: fx(0), z: fx(0) },
                FxVec3 { x: fx(10 * ONE), y: fx(0), z: fx(0) },
            ],
            node_index: 0,
        }],
        Vec::new(),
        Vec::new(),
    );
    anim.animate(&mut joints, fx(ONE));
    assert_eq!(joints.local_transforms[0].translation.x.raw, 5 * ONE);
    // Globals stay untouched until the propagation pass.
    assert_eq!(joints.global_transforms[0].translation.x.raw, 0);
    joints.update(&df);
    assert_eq!(joints.global_transforms[0].translation.x.raw, 5 * ONE);
}

#[test]
fn later_channel_wins_on_the_same_node() {
    let nodes = vec![NodeDef {
        local_transform: Similarity::identity(),
        children: Vec::new(),
        mesh: None,
        lod_ids: Vec::new(),
        screen_coverages: Vec::new(),
    }];
    let tree = NodeTree::new(&nodes).unwrap();
    let df = DepthFirstNodes::new(&nodes, &tree).unwrap();
    let locals: Vec<Similarity> = nodes.iter().map(|n| n.local_transform).collect();
    let mut joints = AnimationJoints::new(&locals, &df);
    let mk = |x: i32| Channel {
        interpolation: Interpolation::Step,
        inputs: vec![fx(0), fx(ONE)],
        outputs: vec![
            FxVec3 { x: fx(x), y: fx(0), z: fx(0) },
            FxVec3 { x: fx(x), y: fx(0), z: fx(0) },
        ],
        node_index: 0,
    };
    let anim = Animation::new(vec![mk(ONE), mk(2 * ONE)], Vec::new(), Vec::new());
    anim.animate(&mut joints, fx(0));
    assert_eq!(joints.local_transforms[0].translation.x.raw, 2 * ONE);
}

#[test]
fn animation_time_wraps_by_the_modulo_rule() {
    let total = fx(2 * ONE);
    // 1.75 + 0.5 wraps to 0.25 of a 2-second loop.
    let r = advance_animation_time(fx(7 * ONE / 4), fx(ONE / 2), total);
    assert_eq!(r.raw, ONE / 4);
    // Inside the loop the step just advances the clock.
    let r = advance_animation_time(fx(ONE / 2), fx(ONE / 4), total);
    assert_eq!(r.raw, 3 * ONE / 4);
    // A zero-length animation stays at zero.
    let r = advance_animation_time(fx(ONE), fx(ONE / 4), fx(0));
    assert_eq!(r.raw, 0);
}
