//! Two-dimensional fixed-point vectors and matrices.
//!
//! The executable types hold `i64` fixed-point components (`FP` units per
//! tile); their mathematical view is `Vec2i`, a pair of unbounded integers,
//! and every operation's contract states its result exactly over that view.

use vstd::prelude::*;
use crate::fixed::{
    FP,
    qdiv,
    sqrt_floor,
    lemma_sqrt_floor,
    lemma_qdiv_scaled_bound,
    lemma_pair_product_fits,
    div_q,
    isqrt,
    mul_wide,
};

verus! {

/// The mathematical value of a `Vec2`: a pair of unbounded integers.
pub ghost struct Vec2i {
    pub x: int,
    pub y: int,
}

/// A fixed-point 2D vector; one world tile spans `FP` units per axis.
#[derive(Clone, Copy, Debug, PartialEq, Eq, Structural)]
pub struct Vec2 {
    pub x: i64,
    pub y: i64,
}

impl View for Vec2 {
    type V = Vec2i;

    open spec fn view(&self) -> Vec2i {
        Vec2i { x: self.x as int, y: self.y as int }
    }
}

pub open spec fn vadd(a: Vec2i, b: Vec2i) -> Vec2i {
    Vec2i { x: a.x + b.x, y: a.y + b.y }
}

pub open spec fn vsub(a: Vec2i, b: Vec2i) -> Vec2i {
    Vec2i { x: a.x - b.x, y: a.y - b.y }
}

pub open spec fn vdot(a: Vec2i, b: Vec2i) -> int {
    a.x * b.x + a.y * b.y
}

pub open spec fn vcross(a: Vec2i, b: Vec2i) -> int {
    a.x * b.y - a.y * b.x
}

/// 90-degree rotation for a 2D coordinate system with an inverted y axis.
pub open spec fn vorth(a: Vec2i, clockwise: bool) -> Vec2i {
    if clockwise {
        Vec2i { x: -a.y, y: a.x }
    } else {
        Vec2i { x: a.y, y: -a.x }
    }
}

/// Fixed-point scaling: each component is multiplied by `s` and rescaled.
pub open spec fn vscale(a: Vec2i, s: int) -> Vec2i {
    Vec2i { x: qdiv(a.x * s, FP as int), y: qdiv(a.y * s, FP as int) }
}

/// The Euclidean length rounded down to a whole number of fixed-point units.
pub open spec fn vlen(a: Vec2i) -> int {
    sqrt_floor(a.x * a.x + a.y * a.y)
}

/// Fixed-point normalization: the zero vector is left unchanged, any other
/// vector is rescaled so that its length is close to `FP` (one tile).
pub open spec fn vnorm(a: Vec2i) -> Vec2i {
    let len = vlen(a);
    if len == 0 {
        a
    } else {
        Vec2i { x: qdiv(a.x * FP, len), y: qdiv(a.y * FP, len) }
    }
}

/// Both components lie within `[-b, b]`.
pub open spec fn bounded(v: Vec2i, b: int) -> bool {
    -b <= v.x <= b && -b <= v.y <= b
}

/// Componentwise bounds give bounds on dot and cross products.
pub proof fn lemma_product_bounds(a: Vec2i, b: Vec2i, ba: int, bb: int)
    requires
        ba >= 0,
        bb >= 0,
        bounded(a, ba),
        bounded(b, bb),
    ensures
        -2 * (ba * bb) <= vdot(a, b) <= 2 * (ba * bb),
        -2 * (ba * bb) <= vcross(a, b) <= 2 * (ba * bb),
{
    assert(-(ba * bb) <= a.x * b.x <= ba * bb && -(ba * bb) <= a.y * b.y <= ba * bb && -(ba * bb)
        <= a.x * b.y <= ba * bb && -(ba * bb) <= a.y * b.x <= ba * bb) by (nonlinear_arith)
        requires
            ba >= 0,
            bb >= 0,
            -ba <= a.x <= ba,
            -ba <= a.y <= ba,
            -bb <= b.x <= bb,
            -bb <= b.y <= bb;
}

/// Each component of a vector is bounded by the vector's rounded length.
pub proof fn lemma_component_le_len(a: Vec2i)
    ensures
        -vlen(a) <= a.x <= vlen(a),
        -vlen(a) <= a.y <= vlen(a),
        vlen(a) >= 0,
{
    let n = a.x * a.x + a.y * a.y;
    assert(a.x * a.x >= 0 && a.y * a.y >= 0) by (nonlinear_arith);
    lemma_sqrt_floor(n);
    let len = sqrt_floor(n);
    assert(n < (len + 1) * (len + 1));
    if a.x > len {
        assert((len + 1) * (len + 1) <= a.x * a.x) by (nonlinear_arith)
            requires len + 1 <= a.x, len >= 0;
    }
    if a.x < -len {
        assert((len + 1) * (len + 1) <= a.x * a.x) by (nonlinear_arith)
            requires a.x < -len, len >= 0;
    }
    if a.y > len {
        assert((len + 1) * (len + 1) <= a.y * a.y) by (nonlinear_arith)
            requires len + 1 <= a.y, len >= 0;
    }
    if a.y < -len {
        assert((len + 1) * (len + 1) <= a.y * a.y) by (nonlinear_arith)
            requires a.y < -len, len >= 0;
    }
}

/// Only the zero vector has rounded length zero.
pub proof fn lemma_vlen_zero(a: Vec2i)
    ensures
        vlen(a) == 0 ==> a.x == 0 && a.y == 0,
{
    let n = a.x * a.x + a.y * a.y;
    assert(a.x * a.x >= 0 && a.y * a.y >= 0) by (nonlinear_arith);
    lemma_sqrt_floor(n);
    if vlen(a) == 0 {
        assert((sqrt_floor(n) + 1) * (sqrt_floor(n) + 1) == 1) by (nonlinear_arith)
            requires sqrt_floor(n) == 0;
        assert(n < 1);
        assert(a.x * a.x == 0 && a.y * a.y == 0);
        assert(a.x == 0) by (nonlinear_arith)
            requires a.x * a.x == 0;
        assert(a.y == 0) by (nonlinear_arith)
            requires a.y * a.y == 0;
    }
}

/// A normalized vector's components lie within `[-FP, FP]`.
pub proof fn lemma_vnorm_bounds(a: Vec2i)
    ensures
        vlen(a) != 0 ==> -(FP as int) <= vnorm(a).x <= FP as int && -(FP as int) <= vnorm(a).y
            <= FP as int,
{
    lemma_component_le_len(a);
    let len = vlen(a);
    if len != 0 {
        assert(-(len * FP) <= a.x * FP <= len * FP) by (nonlinear_arith)
            requires -len <= a.x <= len, FP > 0;
        assert(-(len * FP) <= a.y * FP <= len * FP) by (nonlinear_arith)
            requires -len <= a.y <= len, FP > 0;
        assert(len * FP == (FP as int) * len) by (nonlinear_arith);
        lemma_qdiv_scaled_bound(a.x * FP, len, FP as int);
        lemma_qdiv_scaled_bound(a.y * FP, len, FP as int);
    }
}

impl Vec2 {
    /// Component-wise vector addition.
    pub fn add(self, rhs: Vec2) -> (r: Vec2)
        requires
            i64::MIN <= self.x + rhs.x <= i64::MAX,
            i64::MIN <= self.y + rhs.y <= i64::MAX,
        ensures
            r@ == vadd(self@, rhs@),
    {
        Vec2 { x: self.x + rhs.x, y: self.y + rhs.y }
    }

    /// Component-wise vector subtraction.
    pub fn sub(self, rhs: Vec2) -> (r: Vec2)
        requires
            i64::MIN <= self.x - rhs.x <= i64::MAX,
            i64::MIN <= self.y - rhs.y <= i64::MAX,
        ensures
            r@ == vsub(self@, rhs@),
    {
        Vec2 { x: self.x - rhs.x, y: self.y - rhs.y }
    }

    /// Dot product, computed exactly in a wide integer.
    pub fn dot(&self, other: Vec2) -> (r: i128)
        requires
            self.x > i64::MIN,
            self.y > i64::MIN,
        ensures
            r == vdot(self@, other@),
    {
        proof {
            lemma_pair_product_fits(
                self.x as int,
                self.y as int,
                other.x as int,
                other.y as int,
            );
        }
        mul_wide(self.x, other.x) + mul_wide(self.y, other.y)
    }

    /// 2D cross product: the z coordinate of the 3D cross product, zero for
    /// collinear vectors.
    pub fn cross(&self, other: Vec2) -> (r: i128)
        requires
            self.x > i64::MIN,
            self.y > i64::MIN,
        ensures
            r == vcross(self@, other@),
    {
        proof {
            lemma_pair_product_fits(
                self.x as int,
                self.y as int,
                other.x as int,
                other.y as int,
            );
        }
        mul_wide(self.x, other.y) - mul_wide(self.y, other.x)
    }

    /// 90-degree rotation for a 2D coordinate system with an inverted y axis.
    pub fn orthogonal(&self, clockwise: bool) -> (r: Vec2)
        requires
            self.x > i64::MIN,
            self.y > i64::MIN,
        ensures
            r@ == vorth(self@, clockwise),
    {
        if clockwise {
            Vec2 { x: -self.y, y: self.x }
        } else {
            Vec2 { x: self.y, y: -self.x }
        }
    }

    /// The Euclidean length rounded down to whole fixed-point units.
    pub fn length(&self) -> (r: i64)
        requires
            -0x1000_0000_0000_0000 <= self.x <= 0x1000_0000_0000_0000,
            -0x1000_0000_0000_0000 <= self.y <= 0x1000_0000_0000_0000,
        ensures
            r == vlen(self@),
            r >= 0,
    {
        proof {
            assert(0 <= (self.x as int) * (self.x as int)
                <= 0x100_0000_0000_0000_0000_0000_0000_0000int) by (nonlinear_arith)
                requires
                    -0x1000_0000_0000_0000 <= (self.x as int) <= 0x1000_0000_0000_0000;
            assert(0 <= (self.y as int) * (self.y as int)
                <= 0x100_0000_0000_0000_0000_0000_0000_0000int) by (nonlinear_arith)
                requires
                    -0x1000_0000_0000_0000 <= (self.y as int) <= 0x1000_0000_0000_0000;
        }
        let n: i128 = mul_wide(self.x, self.x) + mul_wide(self.y, self.y);
        let r = isqrt(n as u128);
        proof {
            lemma_sqrt_floor(n as int);
            let s = sqrt_floor(n as int);
            assert(s < 0x2000_0000_0000_0000int) by (nonlinear_arith)
                requires
                    s >= 0,
                    s * s <= n as int,
                    n as int <= 0x200_0000_0000_0000_0000_0000_0000_0000int;
        }
        r as i64
    }

    /// Rescale so that the length is close to one tile (`FP` units); the
    /// zero vector is left unchanged.
    pub fn normalize(&mut self)
        requires
            -0x1000_0000_0000_0000 <= old(self).x <= 0x1000_0000_0000_0000,
            -0x1000_0000_0000_0000 <= old(self).y <= 0x1000_0000_0000_0000,
        ensures
            final(self)@ == vnorm(old(self)@),
            -(FP as int) <= final(self).x <= FP as int || final(self)@ == old(self)@,
            -(FP as int) <= final(self).y <= FP as int || final(self)@ == old(self)@,
    {
        let n = self.length();
        if n != 0 {
            proof {
                lemma_vnorm_bounds(self@);
            }
            let x = div_q(mul_wide(self.x, FP), n as i128);
            let y = div_q(mul_wide(self.y, FP), n as i128);
            self.x = x as i64;
            self.y = y as i64;
        }
    }

    /// Fixed-point scalar multiplication, in place.
    pub fn scale(&mut self, s: i64)
        requires
            -0x100_0000_0000_0000 <= old(self).x * s <= 0x100_0000_0000_0000,
            -0x100_0000_0000_0000 <= old(self).y * s <= 0x100_0000_0000_0000,
        ensures
            final(self)@ == vscale(old(self)@, s as int),
    {
        let r = self.scaled(s);
        self.x = r.x;
        self.y = r.y;
    }

    /// Fixed-point scalar multiplication, returning the scaled vector.
    pub fn scaled(&self, s: i64) -> (r: Vec2)
        requires
            -0x100_0000_0000_0000 <= self.x * s <= 0x100_0000_0000_0000,
            -0x100_0000_0000_0000 <= self.y * s <= 0x100_0000_0000_0000,
        ensures
            r@ == vscale(self@, s as int),
    {
        proof {
            lemma_qdiv_scaled_bound((self.x as int) * (s as int), FP as int, 0x100_0000_0000_0000int);
            lemma_qdiv_scaled_bound((self.y as int) * (s as int), FP as int, 0x100_0000_0000_0000int);
        }
        let x = div_q(mul_wide(self.x, s), FP as i128);
        let y = div_q(mul_wide(self.y, s), FP as i128);
        Vec2 { x: x as i64, y: y as i64 }
    }
}

/// A point in the plane; subtracting two points yields the vector
/// between them.
#[derive(Clone, Copy, Debug, PartialEq, Eq, Structural)]
pub struct Point {
    pub x: i64,
    pub y: i64,
}

impl Point {
    /// The vector from `other` to `self`.
    pub fn sub(self, other: Point) -> (r: Vec2)
        requires
            i64::MIN <= self.x - other.x <= i64::MAX,
            i64::MIN <= self.y - other.y <= i64::MAX,
        ensures
            r.x == self.x - other.x,
            r.y == self.y - other.y,
    {
        Vec2 { x: self.x - other.x, y: self.y - other.y }
    }
}

/// What `Mat2::apply` returns: a matrix-vector product where the matrix
/// entries are fixed-point fractions.
pub open spec fn mat_apply(m: Mat2, v: Vec2i) -> Vec2i {
    Vec2i {
        x: qdiv(v.x * m.m00 + v.y * m.m01, FP as int),
        y: qdiv(v.x * m.m10 + v.y * m.m11, FP as int),
    }
}

/// A 2x2 matrix with fixed-point entries (an entry of `FP` means one).
#[derive(Clone, Copy, Debug, PartialEq, Eq, Structural)]
pub struct Mat2 {
    pub m00: i64,
    pub m01: i64,
    pub m10: i64,
    pub m11: i64,
}

impl Mat2 {
    /// The identity matrix.
    pub fn new() -> (r: Mat2)
        ensures
            r == (Mat2 { m00: FP, m01: 0i64, m10: 0i64, m11: FP }),
    {
        Mat2 { m00: FP, m01: 0, m10: 0, m11: FP }
    }

    /// The rotation matrix with the given fixed-point cosine and sine.
    pub fn rotation(cos: i64, sin: i64) -> (r: Mat2)
        requires
            sin > i64::MIN,
        ensures
            r.m00 == cos && r.m01 == -(sin as int) && r.m10 == sin && r.m11 == cos,
    {
        Mat2 { m00: cos, m01: -sin, m10: sin, m11: cos }
    }

    /// Matrix-vector product with fixed-point rescaling.
    pub fn apply(&self, v: Vec2) -> (r: Vec2)
        requires
            v.x > i64::MIN,
            v.y > i64::MIN,
            -0x1000_0000_0000_0000_0000 <= v.x * self.m00 + v.y * self.m01
                <= 0x1000_0000_0000_0000_0000,
            -0x1000_0000_0000_0000_0000 <= v.x * self.m10 + v.y * self.m11
                <= 0x1000_0000_0000_0000_0000,
        ensures
            r@ == mat_apply(*self, v@),
    {
        proof {
            lemma_pair_product_fits(v.x as int, v.y as int, self.m00 as int, self.m01 as int);
            lemma_pair_product_fits(v.x as int, v.y as int, self.m10 as int, self.m11 as int);
            assert(0x1000_0000_0000_0000int * (FP as int) == 0x1000_0000_0000_0000_0000int)
                by (nonlinear_arith)
                requires FP == 0x1_0000;
            lemma_qdiv_scaled_bound(
                (v.x as int) * (self.m00 as int) + (v.y as int) * (self.m01 as int),
                FP as int,
                0x1000_0000_0000_0000int,
            );
            lemma_qdiv_scaled_bound(
                (v.x as int) * (self.m10 as int) + (v.y as int) * (self.m11 as int),
                FP as int,
                0x1000_0000_0000_0000int,
            );
        }
        let x = div_q(mul_wide(v.x, self.m00) + mul_wide(v.y, self.m01), FP as i128);
        let y = div_q(mul_wide(v.x, self.m10) + mul_wide(v.y, self.m11), FP as i128);
        Vec2 { x: x as i64, y: y as i64 }
    }
}

/// A ray: an origin and a direction, both in fixed-point world units.  The
/// direction need not have unit length; its magnitude is used to undo the
/// fisheye distortion of oblique per-column rays.
#[derive(Clone, Copy, Debug)]
pub struct Ray {
    pub origin: Vec2,
    pub dir: Vec2,
}

impl Ray {
    pub fn new(origin: Vec2, dir: Vec2) -> (r: Ray)
        ensures
            r.origin == origin,
            r.dir == dir,
    {
        Ray { origin, dir }
    }
}

} // verus!
