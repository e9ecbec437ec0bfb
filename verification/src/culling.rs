//! Per-frame visibility: bounding volumes, frustum tests, screen
//! coverage and level-of-detail selection, and instance emission.

use vstd::prelude::*;

use crate::fixed::{fx_div, spec_isqrt, Fixed};
use crate::model::Primitive;
use crate::similarity::{spec_compose, Similarity};
use crate::vecmath::{spec_v3_dist2, spec_v3_dot, sfx_add, sfx_mul, sfx_sub, FxVec3};

verus! {

/// An axis-aligned box around a primitive's positions.
#[derive(Clone, Copy, Debug, PartialEq, Eq, Structural)]
pub struct BoundingBox {
    pub min: FxVec3,
    pub max: FxVec3,
}

/// The componentwise bounds of the first `k` points (zero for an
/// empty set).
pub open spec fn spec_bbox(positions: Seq<FxVec3>, k: int) -> BoundingBox
    decreases k,
{
    if k <= 0 || k > positions.len() {
        BoundingBox {
            min: FxVec3 { x: Fixed { raw: 0 }, y: Fixed { raw: 0 }, z: Fixed { raw: 0 } },
            max: FxVec3 { x: Fixed { raw: 0 }, y: Fixed { raw: 0 }, z: Fixed { raw: 0 } },
        }
    } else if k == 1 {
        BoundingBox { min: positions[0], max: positions[0] }
    } else {
        let prev = spec_bbox(positions, k - 1);
        let p = positions[k - 1];
        BoundingBox {
            min: FxVec3 {
                x: if prev.min.x.raw <= p.x.raw { prev.min.x } else { p.x },
                y: if prev.min.y.raw <= p.y.raw { prev.min.y } else { p.y },
                z: if prev.min.z.raw <= p.z.raw { prev.min.z } else { p.z },
            },
            max: FxVec3 {
                x: if prev.max.x.raw >= p.x.raw { prev.max.x } else { p.x },
                y: if prev.max.y.raw >= p.y.raw { prev.max.y } else { p.y },
                z: if prev.max.z.raw >= p.z.raw { prev.max.z } else { p.z },
            },
        }
    }
}

impl BoundingBox {
    /// The componentwise bounds of a point set (zero for an empty
    /// one): exactly the fold of componentwise minima and maxima,
    /// with every bound attained by some point.
    pub fn new(positions: &Vec<FxVec3>) -> (r: BoundingBox)
        ensures
            r == spec_bbox(positions@, positions.len() as int),
            forall|i: int|
                0 <= i < positions.len() ==> r.min.x.raw <= (#[trigger] positions[i]).x.raw
                    && r.min.y.raw <= positions[i].y.raw && r.min.z.raw <= positions[i].z.raw
                    && positions[i].x.raw <= r.max.x.raw && positions[i].y.raw <= r.max.y.raw
                    && positions[i].z.raw <= r.max.z.raw,
            positions.len() > 0 ==> (exists|i: int|
                0 <= i < positions.len() && (#[trigger] positions[i]).x.raw == r.min.x.raw)
                && (exists|i: int|
                0 <= i < positions.len() && (#[trigger] positions[i]).x.raw == r.max.x.raw)
                && (exists|i: int|
                0 <= i < positions.len() && (#[trigger] positions[i]).y.raw == r.min.y.raw)
                && (exists|i: int|
                0 <= i < positions.len() && (#[trigger] positions[i]).y.raw == r.max.y.raw)
                && (exists|i: int|
                0 <= i < positions.len() && (#[trigger] positions[i]).z.raw == r.min.z.raw)
                && (exists|i: int|
                0 <= i < positions.len() && (#[trigger] positions[i]).z.raw == r.max.z.raw),
    {
        if positions.len() == 0 {
            return BoundingBox { min: FxVec3::zero(), max: FxVec3::zero() };
        }
        let first = positions[0];
        let mut min = first;
        let mut max = first;
        let mut i: usize = 1;
        while i < positions.len()
            invariant
                1 <= i <= positions.len(),
                (BoundingBox { min, max }) == spec_bbox(positions@, i as int),
                forall|j: int|
                    0 <= j < i ==> min.x.raw <= (#[trigger] positions[j]).x.raw && min.y.raw
                        <= positions[j].y.raw && min.z.raw <= positions[j].z.raw && positions[
                        j
                    ].x.raw <= max.x.raw && positions[j].y.raw <= max.y.raw && positions[j].z.raw
                        <= max.z.raw,
                exists|j: int|
                    0 <= j < i && (#[trigger] positions[j]).x.raw == min.x.raw,
                exists|j: int|
                    0 <= j < i && (#[trigger] positions[j]).x.raw == max.x.raw,
                exists|j: int|
                    0 <= j < i && (#[trigger] positions[j]).y.raw == min.y.raw,
                exists|j: int|
                    0 <= j < i && (#[trigger] positions[j]).y.raw == max.y.raw,
                exists|j: int|
                    0 <= j < i && (#[trigger] positions[j]).z.raw == min.z.raw,
                exists|j: int|
                    0 <= j < i && (#[trigger] positions[j]).z.raw == max.z.raw,
            decreases positions.len() - i,
        {
            let p = positions[i];
            min = FxVec3 { x: min.x.min(p.x), y: min.y.min(p.y), z: min.z.min(p.z) };
            max = FxVec3 { x: max.x.max(p.x), y: max.y.max(p.y), z: max.z.max(p.z) };
            i += 1;
        }
        BoundingBox { min, max }
    }
}

/// A sphere around a primitive's positions.
#[derive(Clone, Copy, Debug, PartialEq, Eq, Structural)]
pub struct BoundingSphere {
    pub center: FxVec3,
    pub radius: Fixed,
}

/// The midpoint of a bounding box, componentwise.
pub open spec fn spec_bbox_center(bb: BoundingBox) -> FxVec3 {
    FxVec3 {
        x: sfx_mul(sfx_add(bb.min.x, bb.max.x), Fixed { raw: 32768 }),
        y: sfx_mul(sfx_add(bb.min.y, bb.max.y), Fixed { raw: 32768 }),
        z: sfx_mul(sfx_add(bb.min.z, bb.max.z), Fixed { raw: 32768 }),
    }
}

/// The largest squared distance from `center` among the first `k`
/// points (zero for an empty set; saturating, so never negative).
pub open spec fn spec_max_dist2(positions: Seq<FxVec3>, center: FxVec3, k: int) -> Fixed
    decreases k,
{
    if k <= 0 || k > positions.len() {
        Fixed { raw: 0 }
    } else {
        let prev = spec_max_dist2(positions, center, k - 1);
        let d2 = spec_v3_dist2(positions[k - 1], center);
        if prev.raw >= d2.raw {
            prev
        } else {
            d2
        }
    }
}

impl BoundingSphere {
    /// A sphere containing a point set: centered at the midpoint of
    /// the bounding box, with a radius that covers every point (in
    /// fixed-point semantics: the square of the radius's raw value
    /// dominates each scaled squared distance) and is tight to the
    /// farthest one — at most one raw unit above the square root of
    /// the largest scaled squared distance.
    pub fn new(positions: &Vec<FxVec3>) -> (r: BoundingSphere)
        ensures
            r.center == spec_bbox_center(spec_bbox(positions@, positions.len() as int)),
            r.radius.raw >= 0,
            forall|i: int|
                0 <= i < positions.len() ==> (r.radius.raw as int) * (r.radius.raw as int) >= (
                spec_v3_dist2(#[trigger] positions[i], r.center).raw as int) * 65536,
            r.radius.raw <= spec_isqrt(
                spec_max_dist2(positions@, r.center, positions.len() as int).raw as int * 65536,
            ) + 1,
    {
        let bb = BoundingBox::new(positions);
        let half = Fixed::from_raw(32768);
        let center = FxVec3 {
            x: bb.min.x.add(bb.max.x).mul(half),
            y: bb.min.y.add(bb.max.y).mul(half),
            z: bb.min.z.add(bb.max.z).mul(half),
        };
        let mut max_d2 = Fixed::zero();
        let mut i: usize = 0;
        while i < positions.len()
            invariant
                i <= positions.len(),
                max_d2.raw >= 0,
                max_d2 == spec_max_dist2(positions@, center, i as int),
                forall|j: int|
                    0 <= j < i ==> spec_v3_dist2(#[trigger] positions[j], center).raw
                        <= max_d2.raw,
            decreases positions.len() - i,
        {
            let d2 = positions[i].dist2(center);
            max_d2 = max_d2.max(d2);
            i += 1;
        }
        let root = max_d2.sqrt();
        proof {
            assert((root.raw as int) * (root.raw as int) <= 0x1000000000000) by (nonlinear_arith)
                requires
                    0 <= root.raw <= 0x1000000,
            ;
        }
        let rr: i64 = (root.raw as i64) * (root.raw as i64);
        let target: i64 = (max_d2.raw as i64) * 65536;
        let radius = if rr >= target {
            root
        } else {
            Fixed::from_raw(root.raw + 1)
        };
        proof {
            assert((radius.raw as int) * (radius.raw as int) >= (max_d2.raw as int) * 65536);
            assert forall|j: int| 0 <= j < positions.len() implies (radius.raw as int) * (
            radius.raw as int) >= (spec_v3_dist2(#[trigger] positions[j], center).raw as int)
                * 65536 by {
                assert((spec_v3_dist2(positions[j], center).raw as int) * 65536 <= (
                max_d2.raw as int) * 65536) by (nonlinear_arith)
                    requires
                        spec_v3_dist2(positions[j], center).raw <= max_d2.raw,
                ;
            }
        }
        BoundingSphere { center, radius }
    }
}

/// One frustum plane; a point `x` is on the inside when
/// `dot(normal, x) + d >= 0`.
#[derive(Clone, Copy, Debug, PartialEq, Eq, Structural)]
pub struct Plane {
    pub normal: FxVec3,
    pub d: Fixed,
}

/// A view frustum as a set of inward-facing planes.
#[derive(Clone, Debug)]
pub struct CullingFrustum {
    pub planes: Vec<Plane>,
}

/// The signed distance of a point from a plane.
pub open spec fn spec_plane_distance(p: Plane, x: FxVec3) -> Fixed {
    sfx_add(spec_v3_dot(p.normal, x), p.d)
}

/// Whether a sphere survives one plane: it is not entirely on the
/// outside, that is its center's signed distance is at least `-r`.
pub open spec fn spec_sphere_inside_plane(p: Plane, center: FxVec3, radius: Fixed) -> bool {
    spec_plane_distance(p, center).raw >= -(radius.raw as int)
}

/// Whether a sphere survives every plane of a frustum.
pub open spec fn spec_sphere_visible(f: CullingFrustum, center: FxVec3, radius: Fixed) -> bool {
    forall|i: int|
        0 <= i < f.planes.len() ==> spec_sphere_inside_plane(#[trigger] f.planes[i], center, radius)
}

/// The world-space center and radius of a primitive's bounding sphere
/// under a transform.
pub open spec fn spec_world_sphere(s: BoundingSphere, t: Similarity) -> (FxVec3, Fixed) {
    (crate::similarity::spec_apply(t, s.center), sfx_mul(s.radius, t.scale))
}

/// Test a transformed bounding sphere against a frustum: visible
/// exactly when no plane has the whole sphere on its outside.
pub fn test_bounding_sphere(sphere: &BoundingSphere, transform: &Similarity, frustum: &CullingFrustum) -> (r: bool)
    ensures
        r == spec_sphere_visible(
            *frustum,
            spec_world_sphere(*sphere, *transform).0,
            spec_world_sphere(*sphere, *transform).1,
        ),
{
    let center = transform.apply_to_point(sphere.center);
    let radius = sphere.radius.mul(transform.scale);
    let mut i: usize = 0;
    while i < frustum.planes.len()
        invariant
            i <= frustum.planes.len(),
            forall|j: int|
                0 <= j < i ==> spec_sphere_inside_plane(#[trigger] frustum.planes[j], center, radius),
            center == spec_world_sphere(*sphere, *transform).0,
            radius == spec_world_sphere(*sphere, *transform).1,
        decreases frustum.planes.len() - i,
    {
        let p = &frustum.planes[i];
        let dist = p.normal.dot(center).add(p.d);
        let neg_r: i64 = -(radius.raw as i64);
        if (dist.raw as i64) < neg_r {
            return false;
        }
        i += 1;
    }
    true
}

/// Spec-level saturating absolute value.
pub open spec fn sfx_abs(a: Fixed) -> Fixed {
    Fixed {
        raw: crate::fixed::fx_clip(
            if a.raw < 0 {
                -(a.raw as int)
            } else {
                a.raw as int
            },
        ) as i32,
    }
}

/// The projection radius of an oriented box onto a plane normal: the
/// sum over the three rotated, scaled box axes of the absolute
/// projection times the half extent.
pub open spec fn spec_obb_radius(p: Plane, bb: BoundingBox, t: Similarity) -> Fixed {
    let half = Fixed { raw: 32768 };
    let hx = sfx_mul(sfx_mul(sfx_sub(bb.max.x, bb.min.x), half), t.scale);
    let hy = sfx_mul(sfx_mul(sfx_sub(bb.max.y, bb.min.y), half), t.scale);
    let hz = sfx_mul(sfx_mul(sfx_sub(bb.max.z, bb.min.z), half), t.scale);
    let one = Fixed { raw: 65536 };
    let zero = Fixed { raw: 0 };
    let ax = crate::vecmath::spec_q_rotate(t.rotation, FxVec3 { x: one, y: zero, z: zero });
    let ay = crate::vecmath::spec_q_rotate(t.rotation, FxVec3 { x: zero, y: one, z: zero });
    let az = crate::vecmath::spec_q_rotate(t.rotation, FxVec3 { x: zero, y: zero, z: one });
    sfx_add(
        sfx_add(
            sfx_mul(sfx_abs(spec_v3_dot(p.normal, ax)), sfx_abs(hx)),
            sfx_mul(sfx_abs(spec_v3_dot(p.normal, ay)), sfx_abs(hy)),
        ),
        sfx_mul(sfx_abs(spec_v3_dot(p.normal, az)), sfx_abs(hz)),
    )
}

/// The world-space center of a transformed bounding box.
pub open spec fn spec_obb_center(bb: BoundingBox, t: Similarity) -> FxVec3 {
    let half = Fixed { raw: 32768 };
    crate::similarity::spec_apply(
        t,
        FxVec3 {
            x: sfx_mul(sfx_add(bb.min.x, bb.max.x), half),
            y: sfx_mul(sfx_add(bb.min.y, bb.max.y), half),
            z: sfx_mul(sfx_add(bb.min.z, bb.max.z), half),
        },
    )
}

/// Whether the transformed box survives one plane: the plane's normal
/// is a separating axis exactly when the box's projection interval
/// lies entirely on the outside, that is the center's signed distance
/// is below minus the projection radius.
pub open spec fn spec_obb_inside_plane(p: Plane, bb: BoundingBox, t: Similarity) -> bool {
    sfx_add(spec_v3_dot(p.normal, spec_obb_center(bb, t)), p.d).raw >= -(spec_obb_radius(
        p,
        bb,
        t,
    ).raw as int)
}

/// Whether the transformed box survives every plane of a frustum: no
/// plane normal separates it from the view volume.
pub open spec fn spec_obb_visible(f: CullingFrustum, bb: BoundingBox, t: Similarity) -> bool {
    forall|i: int|
        0 <= i < f.planes.len() ==> spec_obb_inside_plane((#[trigger] f.planes[i]), bb, t)
}

/// Test a transformed bounding box against a frustum by the
/// separating-axis rule over the frustum's plane normals.
#[verifier::rlimit(100)]
#[verifier::spinoff_prover]
pub fn test_obb_visible(bb: &BoundingBox, transform: &Similarity, frustum: &CullingFrustum) -> (r:
    bool)
    ensures
        r == spec_obb_visible(*frustum, *bb, *transform),
{
    let half = Fixed::from_raw(32768);
    let hx = bb.max.x.sub(bb.min.x).mul(half).mul(transform.scale);
    let hy = bb.max.y.sub(bb.min.y).mul(half).mul(transform.scale);
    let hz = bb.max.z.sub(bb.min.z).mul(half).mul(transform.scale);
    let one = Fixed::one();
    let zero = Fixed::zero();
    let ax = transform.rotation.rotate(FxVec3 { x: one, y: zero, z: zero });
    let ay = transform.rotation.rotate(FxVec3 { x: zero, y: one, z: zero });
    let az = transform.rotation.rotate(FxVec3 { x: zero, y: zero, z: one });
    let center = transform.apply_to_point(
        FxVec3 {
            x: bb.min.x.add(bb.max.x).mul(half),
            y: bb.min.y.add(bb.max.y).mul(half),
            z: bb.min.z.add(bb.max.z).mul(half),
        },
    );
    let mut i: usize = 0;
    while i < frustum.planes.len()
        invariant
            i <= frustum.planes.len(),
            hx == sfx_mul(sfx_mul(sfx_sub(bb.max.x, bb.min.x), Fixed { raw: 32768 }), transform.scale),
            hy == sfx_mul(sfx_mul(sfx_sub(bb.max.y, bb.min.y), Fixed { raw: 32768 }), transform.scale),
            hz == sfx_mul(sfx_mul(sfx_sub(bb.max.z, bb.min.z), Fixed { raw: 32768 }), transform.scale),
            ax == crate::vecmath::spec_q_rotate(
                transform.rotation,
                FxVec3 { x: Fixed { raw: 65536 }, y: Fixed { raw: 0 }, z: Fixed { raw: 0 } },
            ),
            ay == crate::vecmath::spec_q_rotate(
                transform.rotation,
                FxVec3 { x: Fixed { raw: 0 }, y: Fixed { raw: 65536 }, z: Fixed { raw: 0 } },
            ),
            az == crate::vecmath::spec_q_rotate(
                transform.rotation,
                FxVec3 { x: Fixed { raw: 0 }, y: Fixed { raw: 0 }, z: Fixed { raw: 65536 } },
            ),
            center == spec_obb_center(*bb, *transform),
            forall|j: int|
                0 <= j < i ==> spec_obb_inside_plane((#[trigger] frustum.planes[j]), *bb, *transform),
        decreases frustum.planes.len() - i,
    {
        let p = &frustum.planes[i];
        let radius = p.normal.dot(ax).abs().mul(hx.abs()).add(
            p.normal.dot(ay).abs().mul(hy.abs()),
        ).add(p.normal.dot(az).abs().mul(hz.abs()));
        let dist = p.normal.dot(center).add(p.d);
        let neg_r: i64 = -(radius.raw as i64);
        if (dist.raw as i64) < neg_r {
            return false;
        }
        i += 1;
    }
    true
}

/// The one or two (stereo) frustums a frame's sphere test runs
/// against.
#[derive(Clone, Debug)]
pub enum BoundingSphereParams {
    SingleView(CullingFrustum),
    Vr { left: CullingFrustum, right: CullingFrustum },
}

/// Per-frame culling input: the per-view sphere-test frustums and,
/// when a desktop view frustum is known, a second frustum for the
/// oriented-bounding-box separating-axis test.
#[derive(Clone, Debug)]
pub struct CullingParams {
    pub bounding_sphere_params: BoundingSphereParams,
    pub frustum: Option<CullingFrustum>,
}

/// Whether an instance survives culling: its sphere is visible in at
/// least one of the active views, and — when a frustum is available —
/// its oriented bounding box passes the separating-axis test too.
pub open spec fn spec_instance_visible(
    params: CullingParams,
    sphere: BoundingSphere,
    bb: BoundingBox,
    transform: Similarity,
) -> bool {
    let world = spec_world_sphere(sphere, transform);
    &&& match params.bounding_sphere_params {
        BoundingSphereParams::SingleView(f) => spec_sphere_visible(f, world.0, world.1),
        BoundingSphereParams::Vr { left, right } => spec_sphere_visible(left, world.0, world.1)
            || spec_sphere_visible(right, world.0, world.1),
    }
    &&& (params.frustum matches Some(f) ==> spec_obb_visible(f, bb, transform))
}

/// Run the per-view sphere tests and, when a frustum is available,
/// the box's separating-axis test.
pub fn test_instance_visible(
    params: &CullingParams,
    sphere: &BoundingSphere,
    bb: &BoundingBox,
    transform: &Similarity,
) -> (r: bool)
    ensures
        r == spec_instance_visible(*params, *sphere, *bb, *transform),
{
    let sphere_ok = match &params.bounding_sphere_params {
        BoundingSphereParams::SingleView(f) => test_bounding_sphere(sphere, transform, f),
        BoundingSphereParams::Vr { left, right } => {
            test_bounding_sphere(sphere, transform, left) || test_bounding_sphere(
                sphere,
                transform,
                right,
            )
        },
    };
    if !sphere_ok {
        return false;
    }
    match &params.frustum {
        Some(f) => test_obb_visible(bb, transform, f),
        None => true,
    }
}

/// How many coverage thresholds among the first `k` lie strictly
/// below the coverage value.
pub open spec fn spec_count_less(cov: Fixed, ths: Seq<Fixed>, k: int) -> int
    decreases k,
{
    if k <= 0 || k > ths.len() {
        0
    } else {
        spec_count_less(cov, ths, k - 1) + if ths[k - 1].raw < cov.raw {
            1int
        } else {
            0int
        }
    }
}

/// The level of detail a coverage value selects from an ascending
/// threshold list: the number of thresholds strictly below it (an
/// exact threshold hit selects that threshold's own index).
pub open spec fn spec_lod_index(cov: Fixed, ths: Seq<Fixed>) -> int {
    spec_count_less(cov, ths, ths.len() as int)
}

/// Thresholds at or above the coverage contribute nothing to the
/// count.
proof fn lemma_count_less_stops(cov: Fixed, ths: Seq<Fixed>, i: int, k: int)
    requires
        0 <= i <= k <= ths.len(),
        forall|j: int| i <= j < ths.len() ==> (#[trigger] ths[j]).raw >= cov.raw,
    ensures
        spec_count_less(cov, ths, k) == spec_count_less(cov, ths, i),
    decreases k - i,
{
    if k > i {
        lemma_count_less_stops(cov, ths, i, k - 1);
    }
}

/// Every threshold among the first `i` lying strictly below the
/// coverage makes the count exactly `i`.
proof fn lemma_count_less_full(cov: Fixed, ths: Seq<Fixed>, i: int)
    requires
        0 <= i <= ths.len(),
        forall|j: int| 0 <= j < i ==> (#[trigger] ths[j]).raw < cov.raw,
    ensures
        spec_count_less(cov, ths, i) == i,
    decreases i,
{
    if i > 0 {
        lemma_count_less_full(cov, ths, i - 1);
    }
}

/// Select the level of detail for a coverage value by scanning the
/// ascending thresholds.
pub fn lod_index(cov: Fixed, ths: &Vec<Fixed>) -> (r: usize)
    requires
        forall|i: int, j: int|
            0 <= i <= j < ths.len() ==> (#[trigger] ths[i]).raw <= (#[trigger] ths[j]).raw,
    ensures
        r == spec_lod_index(cov, ths@),
        r <= ths.len(),
{
    let mut i: usize = 0;
    while i < ths.len()
        invariant
            i <= ths.len(),
            forall|j: int| 0 <= j < i ==> (#[trigger] ths@[j]).raw < cov.raw,
            forall|a: int, b: int|
                0 <= a <= b < ths.len() ==> (#[trigger] ths@[a]).raw <= (#[trigger] ths@[b]).raw,
        decreases ths.len() - i,
    {
        if ths[i].raw >= cov.raw {
            proof {
                lemma_count_less_full(cov, ths@, i as int);
                lemma_count_less_stops(cov, ths@, i as int, ths@.len() as int);
            }
            return i;
        }
        i += 1;
    }
    proof {
        lemma_count_less_full(cov, ths@, ths@.len() as int);
    }
    i
}

/// The approximate fraction of the view a transformed bounding sphere
/// covers: the sphere's angular radius squared, times pi, over the
/// view's area constant.  A sphere at the camera's exact position
/// counts as covering everything.  Opaque so the per-frame scan's
/// callers reason through `screen_coverage`'s contract instead of the
/// formula's expansion.
#[verifier::opaque]
pub open spec fn spec_screen_coverage(
    translation: FxVec3,
    camera: FxVec3,
    radius: Fixed,
    scale: Fixed,
    screen_area: Fixed,
) -> Fixed {
    let d2 = spec_v3_dist2(translation, camera);
    let dist = Fixed { raw: spec_isqrt(d2.raw as int * 65536) as i32 };
    if dist.raw == 0 {
        Fixed { raw: i32::MAX }
    } else {
        let world_r = sfx_mul(radius, scale);
        let visible_r = Fixed { raw: fx_div(world_r.raw as int, dist.raw as int) as i32 };
        let mesh_area = sfx_mul(sfx_mul(visible_r, visible_r), Fixed { raw: 205887 });
        Fixed { raw: fx_div(mesh_area.raw as int, screen_area.raw as int) as i32 }
    }
}

/// Compute the screen coverage of a transformed bounding sphere.
pub fn screen_coverage(
    translation: FxVec3,
    camera: FxVec3,
    radius: Fixed,
    scale: Fixed,
    screen_area: Fixed,
) -> (r: Fixed)
    requires
        screen_area.raw > 0,
    ensures
        r == spec_screen_coverage(translation, camera, radius, scale, screen_area),
{
    proof {
        reveal(spec_screen_coverage);
    }
    let d2 = translation.dist2(camera);
    let dist = d2.sqrt();
    if dist.raw == 0 {
        Fixed::from_raw(i32::MAX)
    } else {
        let world_r = radius.mul(scale);
        let visible_r = world_r.div(dist);
        let mesh_area = visible_r.mul(visible_r).mul(Fixed::from_raw(205887));
        mesh_area.div(screen_area)
    }
}

/// One GPU-ready instance value: the world transform and the indices
/// the shaders need.  Built fresh every frame, never persisted.
#[derive(Clone, Copy, Debug, PartialEq, Eq, Structural)]
pub struct GpuInstance {
    pub similarity: Similarity,
    pub joints_offset: u32,
    pub material_index: usize,
    pub is_lightmapped: bool,
}

/// One emitted draw record: which primitive, at which level of
/// detail, with which instance value.
#[derive(Clone, Copy, Debug, PartialEq, Eq, Structural)]
pub struct InstanceRecord {
    pub primitive_index: usize,
    pub lod: usize,
    pub instance: GpuInstance,
}

/// Whether every primitive is ready for the per-frame scan.
pub open spec fn spec_prims_cullable(prims: Seq<Primitive>) -> bool {
    forall|j: int| 0 <= j < prims.len() ==> (#[trigger] prims[j]).wf()
}

/// The record the scan emits for primitive `k - 1` (when visible).
/// Opaque: the culling lemma needs only which primitive it names.
#[verifier::opaque]
pub open spec fn spec_emitted_record(
    prims: Seq<Primitive>,
    instance: Similarity,
    camera: FxVec3,
    screen_area: Fixed,
    joints_offset: u32,
    k: int,
) -> InstanceRecord {
    let p = prims[k - 1];
    let t = spec_compose(instance, p.transform);
    let cov = spec_screen_coverage(
        t.translation,
        camera,
        p.bounding_sphere.radius,
        t.scale,
        screen_area,
    );
    let lod = spec_lod_index(cov, p.screen_coverages@);
    InstanceRecord {
        primitive_index: (k - 1) as usize,
        lod: lod as usize,
        instance: GpuInstance {
            similarity: t,
            joints_offset,
            material_index: p.lods[lod].material_index,
            is_lightmapped: p.lods[lod].is_lightmapped,
        },
    }
}

/// The emitted record names its own primitive.
#[verifier::rlimit(100)]
proof fn lemma_emitted_record_index(
    prims: Seq<Primitive>,
    instance: Similarity,
    camera: FxVec3,
    screen_area: Fixed,
    joints_offset: u32,
    k: int,
)
    requires
        1 <= k <= prims.len(),
        k <= usize::MAX,
    ensures
        spec_emitted_record(prims, instance, camera, screen_area, joints_offset, k).primitive_index
            == k - 1,
{
    reveal(spec_emitted_record);
}

/// The records emitted for the first `k` primitives: each visible
/// primitive contributes exactly one record at its selected level of
/// detail.  Opaque: callers reason through `push_instances`'s
/// contract and the culling lemma.
#[verifier::opaque]
pub open spec fn spec_push_instances(
    prims: Seq<Primitive>,
    instance: Similarity,
    params: CullingParams,
    camera: FxVec3,
    screen_area: Fixed,
    joints_offset: u32,
    k: int,
) -> Seq<InstanceRecord>
    decreases k,
{
    if k <= 0 || k > prims.len() {
        Seq::empty()
    } else {
        let prev = spec_push_instances(prims, instance, params, camera, screen_area, joints_offset, k - 1);
        let p = prims[k - 1];
        let t = spec_compose(instance, p.transform);
        if spec_instance_visible(params, p.bounding_sphere, p.bounding_box, t) {
            prev.push(spec_emitted_record(prims, instance, camera, screen_area, joints_offset, k))
        } else {
            prev
        }
    }
}

/// The per-frame scan for one instance of a static model: compose the
/// instance transform with each primitive's own, select the level of
/// detail from the screen coverage, cull against the active views,
/// and emit one record per surviving primitive.
#[verifier::rlimit(100)]
pub fn push_instances(
    instance_transform: &Similarity,
    primitives: &Vec<Primitive>,
    params: &CullingParams,
    camera_position: FxVec3,
    screen_area: Fixed,
    joints_offset: u32,
) -> (r: Vec<InstanceRecord>)
    requires
        screen_area.raw > 0,
        spec_prims_cullable(primitives@),
    ensures
        r@ == spec_push_instances(
            primitives@,
            *instance_transform,
            *params,
            camera_position,
            screen_area,
            joints_offset,
            primitives@.len() as int,
        ),
{
    let mut out: Vec<InstanceRecord> = Vec::new();
    proof {
        reveal(spec_push_instances);
    }
    let mut k: usize = 0;
    while k < primitives.len()
        invariant
            k <= primitives.len(),
            screen_area.raw > 0,
            spec_prims_cullable(primitives@),
            out@ == spec_push_instances(
                primitives@,
                *instance_transform,
                *params,
                camera_position,
                screen_area,
                joints_offset,
                k as int,
            ),
        decreases primitives.len() - k,
    {
        proof {
            reveal(spec_push_instances);
            reveal(spec_emitted_record);
        }
        let p = &primitives[k];
        let t = instance_transform.compose(&p.transform);
        if test_instance_visible(params, &p.bounding_sphere, &p.bounding_box, &t) {
            let cov = screen_coverage(
                t.translation,
                camera_position,
                p.bounding_sphere.radius,
                t.scale,
                screen_area,
            );
            let lod = lod_index(cov, &p.screen_coverages);
            assert(lod < p.lods.len());
            out.push(
                InstanceRecord {
                    primitive_index: k,
                    lod,
                    instance: GpuInstance {
                        similarity: t,
                        joints_offset,
                        material_index: p.lods[lod].material_index,
                        is_lightmapped: p.lods[lod].is_lightmapped,
                    },
                },
            );
        }
        k += 1;
    }
    out
}

/// The per-frame scan for one instance of an animated model: bounding
/// volumes of a posed skeleton are not tracked, so no culling is
/// applied and every primitive is emitted once at the base level of
/// detail — a documented limitation, not a silent drop.
pub fn push_instances_animated(
    instance_transform: &Similarity,
    primitives: &Vec<Primitive>,
    joints_offset: u32,
) -> (r: Vec<InstanceRecord>)
    requires
        forall|j: int| 0 <= j < primitives.len() ==> (#[trigger] primitives[j]).lods.len() >= 1,
    ensures
        r.len() == primitives.len(),
        forall|k: int|
            0 <= k < primitives.len() ==> (#[trigger] r[k]) == (InstanceRecord {
                primitive_index: k as usize,
                lod: 0usize,
                instance: GpuInstance {
                    similarity: spec_compose(*instance_transform, primitives[k].transform),
                    joints_offset,
                    material_index: primitives[k].lods[0].material_index,
                    is_lightmapped: false,
                },
            }),
{
    let mut out: Vec<InstanceRecord> = Vec::new();
    let mut k: usize = 0;
    while k < primitives.len()
        invariant
            k <= primitives.len(),
            out.len() == k,
            forall|j: int| 0 <= j < primitives.len() ==> (#[trigger] primitives[j]).lods.len() >= 1,
            forall|j: int|
                0 <= j < k ==> (#[trigger] out[j]) == (InstanceRecord {
                    primitive_index: j as usize,
                    lod: 0usize,
                    instance: GpuInstance {
                        similarity: spec_compose(*instance_transform, primitives[j].transform),
                        joints_offset,
                        material_index: primitives[j].lods[0].material_index,
                        is_lightmapped: false,
                    },
                }),
        decreases primitives.len() - k,
    {
        let p = &primitives[k];
        let t = instance_transform.compose(&p.transform);
        out.push(
            InstanceRecord {
                primitive_index: k,
                lod: 0,
                instance: GpuInstance {
                    similarity: t,
                    joints_offset,
                    material_index: p.lods[0].material_index,
                    is_lightmapped: false,
                },
            },
        );
        k += 1;
    }
    out
}

/// How many emitted records name primitive `j`.
pub open spec fn spec_count_records(s: Seq<InstanceRecord>, j: int) -> int
    decreases s.len(),
{
    if s.len() == 0 {
        0
    } else {
        spec_count_records(s.drop_last(), j) + if s.last().primitive_index == j {
            1int
        } else {
            0int
        }
    }
}

/// Culling: a primitive whose transformed bounding sphere fails the
/// view tests contributes no record at all, and one that passes them
/// appears in the emitted list exactly once.
#[verifier::rlimit(100)]
pub proof fn lemma_culling_excludes_and_emits_once(
    prims: Seq<Primitive>,
    instance: Similarity,
    params: CullingParams,
    camera: FxVec3,
    screen_area: Fixed,
    joints_offset: u32,
    j: int,
    k: int,
)
    requires
        0 <= j < prims.len(),
        0 <= k <= prims.len(),
        prims.len() <= usize::MAX,
    ensures
        spec_count_records(
            spec_push_instances(prims, instance, params, camera, screen_area, joints_offset, k),
            j,
        ) == if j < k && spec_instance_visible(
            params,
            prims[j].bounding_sphere,
            prims[j].bounding_box,
            spec_compose(instance, prims[j].transform),
        ) {
            1int
        } else {
            0int
        },
    decreases k,
{
    reveal(spec_push_instances);
    if k > 0 {
        lemma_culling_excludes_and_emits_once(
            prims,
            instance,
            params,
            camera,
            screen_area,
            joints_offset,
            j,
            k - 1,
        );
        let prev = spec_push_instances(
            prims,
            instance,
            params,
            camera,
            screen_area,
            joints_offset,
            k - 1,
        );
        let cur = spec_push_instances(prims, instance, params, camera, screen_area, joints_offset, k);
        let p = prims[k - 1];
        let t = spec_compose(instance, p.transform);
        if spec_instance_visible(params, p.bounding_sphere, p.bounding_box, t) {
            let rec = spec_emitted_record(prims, instance, camera, screen_area, joints_offset, k);
            lemma_emitted_record_index(prims, instance, camera, screen_area, joints_offset, k);
            assert(cur == prev.push(rec));
            assert(cur.drop_last() =~= prev);
            assert(cur.last() == rec);
        }
    }
}

} // verus!
