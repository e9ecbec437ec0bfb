//! Level-of-detail selection, frustum culling and instance emission.

use scene_prep::culling::{
    lod_index, push_instances, push_instances_animated, screen_coverage, test_bounding_sphere,
    test_obb_visible, BoundingBox, BoundingSphere, BoundingSphereParams, CullingFrustum,
    CullingParams, Plane,
};
use scene_prep::fixed::Fixed;
use scene_prep::model::{Primitive, PrimitiveLod, RangeU32};
use scene_prep::similarity::Similarity;
use scene_prep::vecmath::{FxQuat, FxVec3};

const ONE: i32 = 65536;

fn fx(raw: i32) -> Fixed {
    Fixed::from_raw(raw)
}

fn v3(x: i32, y: i32, z: i32) -> FxVec3 {
    FxVec3 { x: fx(x), y: fx(y), z: fx(z) }
}

#[test]
fn lod_thresholds_select_buckets() {
    // Coverages [0.1, 0.5]: 0.05 selects level 0, 0.3 level 1, and
    // 0.9 level 2; an exact threshold hit selects that threshold's
    // own index.
    let ths = vec![fx(ONE / 10), fx(ONE / 2)];
    assert_eq!(lod_index(fx(ONE / 20), &ths), 0);
    assert_eq!(lod_index(fx(3 * ONE / 10), &ths), 1);
    assert_eq!(lod_index(fx(9 * ONE / 10), &ths), 2);
    assert_eq!(lod_index(fx(ONE / 2), &ths), 1);
    assert_eq!(lod_index(fx(ONE / 10), &ths), 0);
}

#[test]
fn bounding_box_spans_the_points() {
    let pts = vec![v3(ONE, 0, 0), v3(-ONE, 2 * ONE, 0), v3(0, -ONE, 3 * ONE)];
    let bb = BoundingBox::new(&pts);
    assert_eq!(bb.min.x.raw, -ONE);
    assert_eq!(bb.max.x.raw, ONE);
    assert_eq!(bb.min.y.raw, -ONE);
    assert_eq!(bb.max.y.raw, 2 * ONE);
    assert_eq!(bb.max.z.raw, 3 * ONE);
}

#[test]
fn bounding_sphere_contains_every_point() {
    let pts = vec![v3(2 * ONE, 0, 0), v3(-2 * ONE, 0, 0), v3(0, ONE, 0)];
    let bs = BoundingSphere::new(&pts);
    for p in &pts {
        let d2 = p.dist2(bs.center);
        assert!(
            (bs.radius.raw as i64) * (bs.radius.raw as i64) >= (d2.raw as i64) * 65536,
            "point outside the sphere"
        );
    }
}

/// A frustum with a single plane `x >= 1` (normal +x, d = -1).
fn half_space_frustum() -> CullingFrustum {
    CullingFrustum { planes: vec![Plane { normal: v3(ONE, 0, 0), d: fx(-ONE) }] }
}

#[test]
fn sphere_outside_a_plane_is_culled() {
    let frustum = half_space_frustum();
    let sphere = BoundingSphere { center: v3(0, 0, 0), radius: fx(ONE / 2) };
    // Centered at x = -2 with radius 1/2: entirely outside x >= 1.
    let outside = Similarity::new(v3(-2 * ONE, 0, 0), fx(ONE), FxQuat::identity());
    assert!(!test_bounding_sphere(&sphere, &outside, &frustum));
    // Centered at x = 3: entirely inside.
    let inside = Similarity::new(v3(3 * ONE, 0, 0), fx(ONE), FxQuat::identity());
    assert!(test_bounding_sphere(&sphere, &inside, &frustum));
    // Straddling the plane also survives (not entirely outside).
    let straddling = Similarity::new(v3(ONE, 0, 0), fx(ONE), FxQuat::identity());
    assert!(test_bounding_sphere(&sphere, &straddling, &frustum));
}

fn one_primitive(translation: FxVec3) -> Primitive {
    Primitive {
        lods: vec![PrimitiveLod {
            index_buffer_range: RangeU32 { start: 0, end: 3 },
            material_index: 7,
            is_lightmapped: false,
        }],
        bounding_box: BoundingBox { min: v3(0, 0, 0), max: v3(0, 0, 0) },
        bounding_sphere: BoundingSphere { center: v3(0, 0, 0), radius: fx(ONE / 2) },
        transform: Similarity::new(translation, fx(ONE), FxQuat::identity()),
        screen_coverages: Vec::new(),
    }
}

#[test]
fn culled_instance_is_excluded_and_visible_one_appears_once() {
    let params = CullingParams {
        bounding_sphere_params: BoundingSphereParams::SingleView(half_space_frustum()),
        frustum: None,
    };
    let camera = v3(0, 0, 0);
    let screen_area = fx(ONE / 3);
    let instance = Similarity::identity();
    // Entirely outside the plane: the emitted list is empty.
    let outside = vec![one_primitive(v3(-4 * ONE, 0, 0))];
    let records = push_instances(&instance, &outside, &params, camera, screen_area, 0);
    assert_eq!(records.len(), 0);
    // Moved fully inside: it appears exactly once.
    let inside = vec![one_primitive(v3(4 * ONE, 0, 0))];
    let records = push_instances(&instance, &inside, &params, camera, screen_area, 9);
    assert_eq!(records.len(), 1);
    assert_eq!(records[0].primitive_index, 0);
    assert_eq!(records[0].lod, 0);
    assert_eq!(records[0].instance.material_index, 7);
    assert_eq!(records[0].instance.joints_offset, 9);
    assert_eq!(records[0].instance.similarity.translation.x.raw, 4 * ONE);
    assert_eq!(
        records.iter().filter(|r| r.primitive_index == 0).count(),
        1,
        "a visible primitive is emitted exactly once"
    );
}

#[test]
fn stereo_culling_takes_either_view() {
    let left = half_space_frustum();
    // The right view accepts x <= -1 instead.
    let right = CullingFrustum { planes: vec![Plane { normal: v3(-ONE, 0, 0), d: fx(-ONE) }] };
    let params = CullingParams {
        bounding_sphere_params: BoundingSphereParams::Vr { left, right },
        frustum: None,
    };
    let prims = vec![one_primitive(v3(-4 * ONE, 0, 0))];
    let records = push_instances(
        &Similarity::identity(),
        &prims,
        &params,
        v3(0, 0, 0),
        fx(ONE / 3),
        0,
    );
    assert_eq!(records.len(), 1);
}

#[test]
fn animated_instances_skip_culling() {
    let prims = vec![one_primitive(v3(-100 * ONE, 0, 0)), one_primitive(v3(100 * ONE, 0, 0))];
    let records = push_instances_animated(&Similarity::identity(), &prims, 3);
    assert_eq!(records.len(), 2);
    assert_eq!(records[0].lod, 0);
    assert_eq!(records[1].primitive_index, 1);
    assert_eq!(records[0].instance.joints_offset, 3);
}

#[test]
fn coverage_shrinks_with_distance() {
    let radius = fx(ONE);
    let scale = fx(ONE);
    let screen_area = fx(ONE / 3);
    let near = screen_coverage(v3(0, 0, 2 * ONE), v3(0, 0, 0), radius, scale, screen_area);
    let far = screen_coverage(v3(0, 0, 20 * ONE), v3(0, 0, 0), radius, scale, screen_area);
    assert!(near.raw > far.raw);
    assert!(far.raw > 0);
    // A sphere at the camera's exact position covers everything.
    let on_camera = screen_coverage(v3(0, 0, 0), v3(0, 0, 0), radius, scale, screen_area);
    assert_eq!(on_camera.raw, i32::MAX);
}

#[test]
fn multi_lod_selection_feeds_the_record() {
    let mut p = one_primitive(v3(0, 0, 10 * ONE));
    p.lods = vec![
        PrimitiveLod {
            index_buffer_range: RangeU32 { start: 0, end: 3 },
            material_index: 1,
            is_lightmapped: false,
        },
        PrimitiveLod {
            index_buffer_range: RangeU32 { start: 3, end: 6 },
            material_index: 2,
            is_lightmapped: true,
        },
    ];
    // One threshold low enough that the coverage lands above it.
    p.screen_coverages = vec![fx(1)];
    let params = CullingParams {
        bounding_sphere_params: BoundingSphereParams::SingleView(
            CullingFrustum { planes: Vec::new() },
        ),
        frustum: None,
    };
    let records = push_instances(
        &Similarity::identity(),
        &vec![p],
        &params,
        v3(0, 0, 0),
        fx(ONE / 3),
        0,
    );
    assert_eq!(records.len(), 1);
    assert_eq!(records[0].lod, 1);
    assert_eq!(records[0].instance.material_index, 2);
    assert!(records[0].instance.is_lightmapped);
}

#[test]
fn box_separating_axis_test_culls_against_the_frustum() {
    // A unit-ish box centered on the instance: the frustum plane
    // x >= 1 separates it when the instance sits at the origin, and
    // stops separating it once the instance moves inside.
    let bb = BoundingBox {
        min: v3(-ONE / 2, -ONE / 2, -ONE / 2),
        max: v3(ONE / 2, ONE / 2, ONE / 2),
    };
    let frustum = half_space_frustum();
    let outside = Similarity::new(v3(-2 * ONE, 0, 0), fx(ONE), FxQuat::identity());
    assert!(!test_obb_visible(&bb, &outside, &frustum));
    let inside = Similarity::new(v3(2 * ONE, 0, 0), fx(ONE), FxQuat::identity());
    assert!(test_obb_visible(&bb, &inside, &frustum));
    // Straddling the plane is not separated.
    let straddling = Similarity::new(v3(ONE, 0, 0), fx(ONE), FxQuat::identity());
    assert!(test_obb_visible(&bb, &straddling, &frustum));
}

#[test]
fn frustum_conjunct_gates_the_emission() {
    // The sphere test alone passes (no planes), but the desktop
    // frustum's box test rejects the instance until it moves inside.
    let mut p = one_primitive(v3(-4 * ONE, 0, 0));
    p.bounding_box = BoundingBox {
        min: v3(-ONE / 2, -ONE / 2, -ONE / 2),
        max: v3(ONE / 2, ONE / 2, ONE / 2),
    };
    let params = CullingParams {
        bounding_sphere_params: BoundingSphereParams::SingleView(
            CullingFrustum { planes: Vec::new() },
        ),
        frustum: Some(half_space_frustum()),
    };
    let records = push_instances(
        &Similarity::identity(),
        &vec![p.clone()],
        &params,
        v3(0, 0, 0),
        fx(ONE / 3),
        0,
    );
    assert_eq!(records.len(), 0);
    p.transform = Similarity::new(v3(4 * ONE, 0, 0), fx(ONE), FxQuat::identity());
    let records = push_instances(
        &Similarity::identity(),
        &vec![p],
        &params,
        v3(0, 0, 0),
        fx(ONE / 3),
        0,
    );
    assert_eq!(records.len(), 1);
}
