//! Per-tile primitive shapes and exact ray intersection tests.
//!
//! A primitive lives in tile-local coordinates inside a unit tile (`FP`
//! units per side); a ray is tested against the primitive translated by the
//! tile's origin.  Hit parameters are fixed-point: a parameter of `FP`
//! means one tile of travel for a direction vector of length `FP`.

use vstd::prelude::*;
use crate::fixed::{
    FP,
    T_LIMIT,
    qdiv,
    qdiv2,
    sqrt_floor,
    clampf,
    clampf_spec,
    div_q,
    div_q2,
    isqrt,
    mul_wide,
};
use crate::vec2::{
    Vec2,
    Vec2i,
    Ray,
    vsub,
    vdot,
    vcross,
    vnorm,
    vorth,
    bounded,
    lemma_product_bounds,
    lemma_vnorm_bounds,
};

verus! {

/// A primitive as a level document gives it, before the normal is derived.
#[derive(Clone, Copy, Debug)]
pub enum RawPrimitive {
    Plane { p1: Vec2, p2: Vec2 },
    Cylinder { radius: i64 },
}

/// A renderable primitive inside a unit tile: a one-sided open segment
/// (visible only from the side its normal points to) or a circle centered
/// on the tile's center.
#[derive(Clone, Copy, Debug)]
pub enum PrimitiveGeometry {
    Plane { p1: Vec2, p2: Vec2, n: Vec2 },
    Cylinder { radius: i64 },
}

/// Both points of a plane lie inside the unit tile, the normal's components
/// are at most one tile long, and a cylinder's radius is at most half a tile.
pub open spec fn prim_wf(p: PrimitiveGeometry) -> bool {
    match p {
        PrimitiveGeometry::Plane { p1, p2, n } => 0 <= p1.x <= FP && 0 <= p1.y <= FP && 0 <= p2.x
            <= FP && 0 <= p2.y <= FP && -FP <= n.x <= FP && -FP <= n.y <= FP,
        PrimitiveGeometry::Cylinder { radius } => 0 <= radius <= FP / 2,
    }
}

/// Both components clamped into the unit tile.
pub open spec fn clamped_unit(v: Vec2i) -> Vec2i {
    Vec2i { x: clampf_spec(v.x, 0, FP as int), y: clampf_spec(v.y, 0, FP as int) }
}

/// A tile-local point translated to the world position of tile `(tx, ty)`.
pub open spec fn tile_point(v: Vec2i, tx: int, ty: int) -> Vec2i {
    Vec2i { x: v.x + tx * FP, y: v.y + ty * FP }
}

/// The world-space center of tile `(tx, ty)`.
pub open spec fn tile_center(tx: int, ty: int) -> Vec2i {
    Vec2i { x: tx * FP + FP / 2, y: ty * FP + FP / 2 }
}

/// Ray/one-sided-segment intersection, exactly as the executable code
/// computes it.  `None` when the ray approaches from the culled side, runs
/// parallel to the segment, or crosses the carrying line outside the
/// segment; otherwise the fixed-point parameter of the crossing, which may
/// be negative for a crossing behind the ray's origin.
pub open spec fn plane_hit(origin: Vec2i, dir: Vec2i, p1: Vec2i, p2: Vec2i, n: Vec2i) -> Option<
    int,
> {
    if vdot(n, dir) >= 0 {
        None
    } else {
        let s = vsub(p2, p1);
        let rxs = vcross(dir, s);
        if rxs == 0 {
            None
        } else {
            let qp = vsub(p1, origin);
            let u_num = vcross(qp, dir);
            let u_valid = if rxs > 0 {
                0 <= u_num <= rxs
            } else {
                rxs <= u_num <= 0
            };
            if u_valid {
                Some(qdiv2(vcross(qp, s) * FP, rxs))
            } else {
                None
            }
        }
    }
}

/// Ray/circle intersection, exactly as the executable code computes it:
/// the smaller root of the quadratic, with the discriminant's square root
/// rounded down, or `None` when the ray's carrying line misses the circle.
pub open spec fn circle_hit(origin: Vec2i, dir: Vec2i, center: Vec2i, radius: int) -> Option<int> {
    let co = vsub(origin, center);
    let a = vdot(dir, dir);
    let b = 2 * vdot(dir, co);
    let c = vdot(co, co) - radius * radius;
    let disc = b * b - 4 * (a * c);
    if disc < 0 {
        None
    } else {
        Some(qdiv((-b - sqrt_floor(disc)) * FP, 2 * a))
    }
}

/// The raw intersection parameter of a ray with a primitive placed on tile
/// `(tx, ty)`.
pub open spec fn prim_hit(p: PrimitiveGeometry, origin: Vec2i, dir: Vec2i, tx: int, ty: int) -> Option<int> {
    match p {
        PrimitiveGeometry::Plane { p1, p2, n } => plane_hit(
            origin,
            dir,
            tile_point(p1@, tx, ty),
            tile_point(p2@, tx, ty),
            n@,
        ),
        PrimitiveGeometry::Cylinder { radius } => circle_hit(
            origin,
            dir,
            tile_center(tx, ty),
            radius as int,
        ),
    }
}

/// The visible intersection parameter: a raw hit kept only when it lies in
/// front of the ray's origin and within the supported range.
pub open spec fn prim_visible_hit(
    p: PrimitiveGeometry,
    origin: Vec2i,
    dir: Vec2i,
    tx: int,
    ty: int,
) -> Option<int> {
    match prim_hit(p, origin, dir, tx, ty) {
        Some(t) => if 0 <= t <= T_LIMIT {
            Some(t)
        } else {
            None
        },
        None => None,
    }
}

/// How a renderable primitive relates to the raw description it was built
/// from: plane points clamped into the unit tile with the normal derived
/// from them, a cylinder radius clamped into a half tile.
pub open spec fn prim_from_raw(p: PrimitiveGeometry, raw: RawPrimitive) -> bool {
    match raw {
        RawPrimitive::Plane { p1, p2 } => p matches PrimitiveGeometry::Plane { p1: q1, p2: q2, n }
            && q1@ == clamped_unit(p1@) && q2@ == clamped_unit(p2@) && n@ == vorth(
            vnorm(vsub(clamped_unit(p2@), clamped_unit(p1@))),
            false,
        ),
        RawPrimitive::Cylinder { radius } => p matches PrimitiveGeometry::Cylinder { radius: cr }
            && cr == clampf_spec(radius as int, 0, FP as int / 2),
    }
}

/// A ray aimed straight at a circle's center hits its entry surface at
/// exactly the distance to the center minus the radius: for a unit ray
/// along the x axis and a center `k` tiles ahead, the quadratic's
/// discriminant is the perfect square `(2 * FP * radius)^2`, so no
/// rounding is lost.
pub proof fn lemma_circle_center_ray_exact(o: Vec2i, k: int, radius: int)
    requires
        k >= 1,
        0 <= radius < k * FP,
    ensures
        circle_hit(
            o,
            Vec2i { x: FP as int, y: 0 },
            Vec2i { x: o.x + k * FP, y: o.y },
            radius,
        ) == Some(k * FP - radius),
{
    let d = Vec2i { x: FP as int, y: 0 };
    let c = Vec2i { x: o.x + k * FP, y: o.y };
    let co = vsub(o, c);
    assert(co.x == -(k * FP) && co.y == 0);
    let a = vdot(d, d);
    let b = 2 * vdot(d, co);
    let cc = vdot(co, co) - radius * radius;
    let disc = b * b - 4 * (a * cc);
    assert(a == (FP as int) * (FP as int) && b == 2 * ((FP as int) * (-(k * FP))) && vdot(co, co)
        == (-(k * FP)) * (-(k * FP)));
    assert(disc == 4 * (((FP as int) * radius) * ((FP as int) * radius))) by (nonlinear_arith)
        requires
            a == (FP as int) * (FP as int),
            b == 2 * ((FP as int) * (-(k * FP))),
            cc == (-(k * FP)) * (-(k * FP)) - radius * radius,
            disc == b * b - 4 * (a * cc);
    let sq = 2 * ((FP as int) * radius);
    assert(sq >= 0 && sq * sq <= disc && disc < (sq + 1) * (sq + 1)) by (nonlinear_arith)
        requires
            disc == 4 * (((FP as int) * radius) * ((FP as int) * radius)),
            sq == 2 * ((FP as int) * radius),
            radius >= 0,
            FP == 0x1_0000;
    crate::fixed::lemma_sqrt_floor(disc);
    assert(sqrt_floor(disc) == sq);
    assert(disc >= 0);
    let num = -b - sq;
    assert(num * FP == (2 * (a)) * (k * FP - radius)) by (nonlinear_arith)
        requires
            num == 2 * ((FP as int) * (k * FP)) - 2 * ((FP as int) * radius),
            a == (FP as int) * (FP as int),
            FP == 0x1_0000;
    assert(2 * a > 0) by (nonlinear_arith)
        requires a == (FP as int) * (FP as int), FP == 0x1_0000;
    assert(qdiv(num * FP, 2 * a) == k * FP - radius) by {
        assert(num * FP >= 0) by (nonlinear_arith)
            requires
                num * FP == (2 * a) * (k * FP - radius),
                2 * a > 0,
                k * FP - radius > 0;
        vstd::arithmetic::div_mod::lemma_div_multiples_vanish(k * FP - radius, 2 * a);
    }
}

/// A plane facing away from the ray (normal and direction at a non-negative
/// dot product) never reports a hit.
pub proof fn lemma_backface_culled(
    p: PrimitiveGeometry,
    origin: Vec2i,
    dir: Vec2i,
    tx: int,
    ty: int,
)
    requires
        p matches PrimitiveGeometry::Plane { p1, p2, n } && vdot(n@, dir) >= 0,
    ensures
        prim_visible_hit(p, origin, dir, tx, ty) is None,
{
}

impl PrimitiveGeometry {
    /// Clamp both end points into the unit tile and derive the normal:
    /// the segment direction, normalized, rotated ninety degrees.
    fn create_one_sided_plane(p1: Vec2, p2: Vec2) -> (r: PrimitiveGeometry)
        ensures
            r matches PrimitiveGeometry::Plane { p1: q1, p2: q2, n } && q1@ == clamped_unit(p1@)
                && q2@ == clamped_unit(p2@) && n@ == vorth(
                vnorm(vsub(clamped_unit(p2@), clamped_unit(p1@))),
                false,
            ),
            prim_wf(r),
    {
        let p1 = Vec2 { x: clampf(p1.x, 0, FP), y: clampf(p1.y, 0, FP) };
        let p2 = Vec2 { x: clampf(p2.x, 0, FP), y: clampf(p2.y, 0, FP) };
        let mut p1p2 = p2.sub(p1);
        proof {
            lemma_vnorm_bounds(p1p2@);
        }
        p1p2.normalize();
        PrimitiveGeometry::Plane { p1, p2, n: p1p2.orthogonal(false) }
    }

    /// Build a renderable primitive from its raw description, clamping every
    /// coordinate into the unit tile and the radius into a half tile.
    pub fn new(raw_primitive: RawPrimitive) -> (r: PrimitiveGeometry)
        ensures
            prim_from_raw(r, raw_primitive),
            prim_wf(r),
    {
        match raw_primitive {
            RawPrimitive::Plane { p1, p2 } => Self::create_one_sided_plane(p1, p2),
            RawPrimitive::Cylinder { radius } => PrimitiveGeometry::Cylinder {
                radius: clampf(radius, 0, FP / 2),
            },
        }
    }

    /// Ray/one-sided-segment intersection in world coordinates.
    fn ray_osseg_intersection(ray: Ray, p1: Vec2, p2: Vec2, n: Vec2) -> (r: Option<i128>)
        requires
            bounded(ray.origin@, 0x1_0000_0000),
            bounded(ray.dir@, 0x20_0000),
            bounded(p1@, 0x4000_0000),
            bounded(p2@, 0x4000_0000),
            bounded(n@, 0x2_0000),
        ensures
            ((r is None) == (plane_hit(ray.origin@, ray.dir@, p1@, p2@, n@) is None)),
            r matches Some(t) ==> plane_hit(ray.origin@, ray.dir@, p1@, p2@, n@) == Some(t as int),
    {
        if n.dot(ray.dir) >= 0 {
            return None;
        }
        let p2p1 = p2.sub(p1);
        let rxs = ray.dir.cross(p2p1);
        if rxs != 0 {
            let qp = p1.sub(ray.origin);
            let u_num = qp.cross(ray.dir);
            let u_valid = if rxs > 0 {
                0 <= u_num && u_num <= rxs
            } else {
                rxs <= u_num && u_num <= 0
            };
            if u_valid {
                let tc = qp.cross(p2p1);
                proof {
                    lemma_product_bounds(ray.dir@, p2p1@, 0x20_0000, 0x8000_0000);
                    lemma_product_bounds(qp@, p2p1@, 0x1_4000_0000, 0x8000_0000);
                    assert(-0x8_0000_0000_0000_0000_0000int <= tc * FP
                        <= 0x8_0000_0000_0000_0000_0000int) by (nonlinear_arith)
                        requires
                            -0x2_8000_0000_0000_0000 <= tc <= 0x2_8000_0000_0000_0000,
                            FP == 0x1_0000;
                }
                let t = div_q2(tc * (FP as i128), rxs);
                return Some(t);
            }
        }
        None
    }

    /// Ray/circle intersection in world coordinates: the parameter of the
    /// nearer crossing of the ray's carrying line with the circle.
    fn ray_circle_intersection(ray: Ray, center: Vec2, radius: i64) -> (r: Option<i128>)
        requires
            bounded(ray.origin@, 0x1_0000_0000),
            bounded(ray.dir@, 0x20_0000),
            bounded(center@, 0x4000_0000),
            0 <= radius <= FP,
            ray.dir@ != (Vec2i { x: 0, y: 0 }),
        ensures
            ((r is None) == (circle_hit(ray.origin@, ray.dir@, center@, radius as int) is None)),
            r matches Some(t) ==> circle_hit(ray.origin@, ray.dir@, center@, radius as int)
                == Some(t as int),
    {
        let center_orig = ray.origin.sub(center);
        let a = ray.dir.dot(ray.dir);
        proof {
            lemma_product_bounds(ray.dir@, ray.dir@, 0x20_0000, 0x20_0000);
            lemma_product_bounds(ray.dir@, center_orig@, 0x20_0000, 0x1_4000_0000);
            lemma_product_bounds(center_orig@, center_orig@, 0x1_4000_0000, 0x1_4000_0000);
            assert(vdot(ray.dir@, ray.dir@) > 0) by (nonlinear_arith)
                requires !(ray.dir@.x == 0 && ray.dir@.y == 0);
        }
        let b = 2 * ray.dir.dot(center_orig);
        proof {
            assert(0 <= (radius as int) * (radius as int) <= 0x1_0000_0000int) by (nonlinear_arith)
                requires 0 <= radius <= 0x1_0000;
        }
        let c = center_orig.dot(center_orig) - mul_wide(radius, radius);
        proof {
            assert(-0x1_0000_0000_0000_0000_0000_0000_0000int <= b * b
                <= 0x1_0000_0000_0000_0000_0000_0000_0000int) by (nonlinear_arith)
                requires -0x100_0000_0000_0000 <= b <= 0x100_0000_0000_0000;
            assert(-0x1_0000_0000_0000_0000_0000_0000_0000int <= 4 * (a * c)
                <= 0x1_0000_0000_0000_0000_0000_0000_0000int) by (nonlinear_arith)
                requires
                    0 <= a <= 0x800_0000_0000,
                    -0x8_0000_0000_0000_0000 <= c <= 0x8_0000_0000_0000_0000;
        }
        let disc = b * b - 4 * (a * c);
        if disc < 0 {
            None
        } else {
            let sq = isqrt(disc as u128);
            proof {
                crate::fixed::lemma_sqrt_floor(disc as int);
                assert(sq as int <= 0x1000_0000_0000_0000int) by (nonlinear_arith)
                    requires
                        sq as int >= 0,
                        (sq as int) * (sq as int) <= disc as int,
                        disc as int <= 0x2_0000_0000_0000_0000_0000_0000_0000int;
                assert(-0x100_0000_0000_0000_0000_0000int <= (-(b as int) - (sq as int)) * FP
                    <= 0x100_0000_0000_0000_0000_0000int) by (nonlinear_arith)
                    requires
                        -0x100_0000_0000_0000 <= b <= 0x100_0000_0000_0000,
                        0 <= sq as int <= 0x1000_0000_0000_0000int,
                        FP == 0x1_0000;
            }
            let t = div_q((-b - (sq as i128)) * (FP as i128), 2 * a);
            Some(t)
        }
    }

    /// The visible intersection of a ray with this primitive placed on tile
    /// `(tile_x, tile_y)`: the raw parameter, kept only when it lies in
    /// front of the origin and within the supported range.
    pub fn ray_intersection(&self, ray: Ray, tile_x: usize, tile_y: usize) -> (r: Option<i64>)
        requires
            prim_wf(*self),
            bounded(ray.origin@, 0x1_0000_0000),
            bounded(ray.dir@, 0x20_0000),
            ray.dir@ != (Vec2i { x: 0, y: 0 }),
            tile_x < 0x1000,
            tile_y < 0x1000,
        ensures
            ((r is None) == (prim_visible_hit(
                *self,
                ray.origin@,
                ray.dir@,
                tile_x as int,
                tile_y as int,
            ) is None)),
            r matches Some(t) ==> prim_visible_hit(
                *self,
                ray.origin@,
                ray.dir@,
                tile_x as int,
                tile_y as int,
            ) == Some(t as int) && 0 <= t <= T_LIMIT,
    {
        let t: Option<i128> = match *self {
            PrimitiveGeometry::Plane { p1, p2, n } => {
                let tile = Vec2 { x: (tile_x as i64) * FP, y: (tile_y as i64) * FP };
                Self::ray_osseg_intersection(ray, p1.add(tile), p2.add(tile), n)
            },
            PrimitiveGeometry::Cylinder { radius } => {
                let center = Vec2 {
                    x: (tile_x as i64) * FP + FP / 2,
                    y: (tile_y as i64) * FP + FP / 2,
                };
                Self::ray_circle_intersection(ray, center, radius)
            },
        };
        match t {
            Some(t) => if 0 <= t && t <= T_LIMIT as i128 {
                Some(t as i64)
            } else {
                None
            },
            None => None,
        }
    }
}

} // verus!
