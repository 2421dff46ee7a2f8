//! Three-component fixed-point vectors, used for points, directions and
//! colors alike.

use crate::fixed::{
    clip, fadd, fdiv, fdot3, fmul, fneg, fsqrt, fsub, iabs, isqrt, lemma_floor_div_square_bounds,
    lemma_isqrt_props, tdiv, Fx, SCALE,
};
use vstd::arithmetic::div_mod::{
    lemma_div_is_ordered, lemma_div_is_ordered_by_denominator, lemma_div_multiples_vanish,
    lemma_div_pos_is_pos, lemma_fundamental_div_mod,
};
use vstd::prelude::*;

verus! {

/// The mathematical model of a vector: its three raw components.
pub ghost struct V3i {
    pub x: int,
    pub y: int,
    pub z: int,
}

/// Component-wise sum.
pub open spec fn vadd(a: V3i, b: V3i) -> V3i {
    V3i { x: fadd(a.x, b.x), y: fadd(a.y, b.y), z: fadd(a.z, b.z) }
}

/// Component-wise difference.
pub open spec fn vsub(a: V3i, b: V3i) -> V3i {
    V3i { x: fsub(a.x, b.x), y: fsub(a.y, b.y), z: fsub(a.z, b.z) }
}

/// Component-wise negation.
pub open spec fn vneg(a: V3i) -> V3i {
    V3i { x: fneg(a.x), y: fneg(a.y), z: fneg(a.z) }
}

/// Component-wise product.
pub open spec fn vmul_each(a: V3i, b: V3i) -> V3i {
    V3i { x: fmul(a.x, b.x), y: fmul(a.y, b.y), z: fmul(a.z, b.z) }
}

/// Every component scaled by `s`.
pub open spec fn vscale(a: V3i, s: int) -> V3i {
    V3i { x: fmul(a.x, s), y: fmul(a.y, s), z: fmul(a.z, s) }
}

/// Every component divided by `s`.
pub open spec fn vdiv_scalar(a: V3i, s: int) -> V3i {
    V3i { x: fdiv(a.x, s), y: fdiv(a.y, s), z: fdiv(a.z, s) }
}

/// Component-wise quotient.
pub open spec fn vdiv_each(a: V3i, b: V3i) -> V3i {
    V3i { x: fdiv(a.x, b.x), y: fdiv(a.y, b.y), z: fdiv(a.z, b.z) }
}

/// Dot product, with a single rounding step over the summed products.
pub open spec fn vdot(a: V3i, b: V3i) -> int {
    fdot3(a.x, a.y, a.z, b.x, b.y, b.z)
}

/// Cross product, each component a difference of two rounded products.
pub open spec fn vcross(a: V3i, b: V3i) -> V3i {
    V3i {
        x: fsub(fmul(a.y, b.z), fmul(a.z, b.y)),
        y: fsub(fmul(a.z, b.x), fmul(a.x, b.z)),
        z: fsub(fmul(a.x, b.y), fmul(a.y, b.x)),
    }
}

/// Squared length: the dot product of a vector with itself.
pub open spec fn vlen_sq(a: V3i) -> int {
    vdot(a, a)
}

/// Length: square root of the squared length.
pub open spec fn vlen(a: V3i) -> int {
    fsqrt(vlen_sq(a))
}

/// The unit vector: the vector divided by its length. A zero length
/// saturates each nonzero component, as fixed-point division does.
pub open spec fn vunit(a: V3i) -> V3i {
    vdiv_scalar(a, vlen(a))
}

/// The zero vector.
pub open spec fn v3zero() -> V3i {
    V3i { x: 0, y: 0, z: 0 }
}

/// One component of a unit vector: the truncated quotient keeps the
/// magnitude `qc` of the exact floored quotient, and its square loses
/// at most `2 a el` against the square of `a` over `el * el`.
proof fn lemma_unit_component(xc: int, el: int, a: int, qc: int)
    requires
        el >= SCALE as int,
        iabs(xc) <= 1000000000000,
        a == iabs(xc) * (SCALE as int),
        qc == a / el,
    ensures
        clip(tdiv(xc * (SCALE as int), el)) == tdiv(xc * (SCALE as int), el),
        tdiv(xc * (SCALE as int), el) * tdiv(xc * (SCALE as int), el) == qc * qc,
        qc >= 0,
        qc * qc * (el * el) <= a * a,
        a * a - 2 * a * el <= qc * qc * (el * el),
        a * a == (xc * xc) * ((SCALE as int) * (SCALE as int)),
{
    let s = SCALE as int;
    assert(iabs(xc * s) == iabs(xc) * s) by (nonlinear_arith)
        requires
            s > 0,
    ;
    assert(a >= 0) by (nonlinear_arith)
        requires
            iabs(xc) >= 0,
            s > 0,
            a == iabs(xc) * s,
    ;
    lemma_floor_div_square_bounds(a, el);
    lemma_div_pos_is_pos(a, el);
    lemma_div_is_ordered_by_denominator(a, s, el);
    lemma_div_multiples_vanish(iabs(xc), s);
    assert(s * iabs(xc) == iabs(xc) * s) by (nonlinear_arith);
    assert(a / s == iabs(xc));
    assert(qc <= iabs(xc) <= 1000000000000);
    let t = tdiv(xc * s, el);
    if xc >= 0 {
        assert(xc * s >= 0) by (nonlinear_arith)
            requires
                xc >= 0,
                s > 0,
        ;
        assert(t == qc);
    } else {
        assert(xc * s < 0) by (nonlinear_arith)
            requires
                xc < 0,
                s > 0,
        ;
        assert(t == -qc);
        assert((-qc) * (-qc) == qc * qc) by (nonlinear_arith);
    }
    assert(clip(t) == t);
    assert(a * a == (xc * xc) * (s * s)) by (nonlinear_arith)
        requires
            a == iabs(xc) * s,
    ;
}

/// The unit vector of a vector of length at least one has length one to
/// within three millionths, provided no component magnitude exceeds a
/// million whole units. Shorter vectors lose too much of their value to
/// the fixed-point grid for a bound like this to hold.
pub proof fn lemma_unit_vector_length(v: V3i)
    requires
        iabs(v.x) <= 1000000000000,
        iabs(v.y) <= 1000000000000,
        iabs(v.z) <= 1000000000000,
        vlen(v) >= SCALE as int,
    ensures
        (SCALE as int) - 3 <= vlen(vunit(v)),
        vlen(vunit(v)) <= (SCALE as int) + 1,
{
    let s = SCALE as int;
    let x = v.x;
    let y = v.y;
    let z = v.z;
    let q = x * x + y * y + z * z;
    assert(x * x >= 0 && y * y >= 0 && z * z >= 0) by (nonlinear_arith);
    assert(q <= 3000000000000000000000000int) by (nonlinear_arith)
        requires
            iabs(x) <= 1000000000000,
            iabs(y) <= 1000000000000,
            iabs(z) <= 1000000000000,
            q == x * x + y * y + z * z,
    ;
    // The squared length is the floored quotient of q by the scale.
    assert(tdiv(q, s) == q / s);
    lemma_div_is_ordered(q, 3000000000000000000000000int, s);
    lemma_div_pos_is_pos(q, s);
    let d = q / s;
    assert(d <= 3000000000000000000int);
    assert(vlen_sq(v) == d);
    // The length el brackets d * s between consecutive squares.
    assert(d * s >= 0) by (nonlinear_arith)
        requires
            d >= 0,
            s > 0,
    ;
    lemma_isqrt_props(d * s);
    let el = isqrt(d * s);
    assert(vlen(v) == el);
    assert(el >= s);
    lemma_fundamental_div_mod(q, s);
    assert(s * d == d * s) by (nonlinear_arith);
    assert(d * s <= q < d * s + s);
    // Per-component bounds for the unit vector.
    let ax = iabs(x) * s;
    let ay = iabs(y) * s;
    let az = iabs(z) * s;
    let qx = ax / el;
    let qy = ay / el;
    let qz = az / el;
    lemma_unit_component(x, el, ax, qx);
    lemma_unit_component(y, el, ay, qy);
    lemma_unit_component(z, el, az, qz);
    let tx = tdiv(x * s, el);
    let ty = tdiv(y * s, el);
    let tz = tdiv(z * s, el);
    assert(vunit(v) == (V3i { x: tx, y: ty, z: tz }));
    let u = qx * qx + qy * qy + qz * qz;
    assert(tx * tx + ty * ty + tz * tz == u);
    // Upper bound: u el^2 is at most s^2 q, and q is small against el^2.
    assert(u * (el * el) == qx * qx * (el * el) + qy * qy * (el * el) + qz * qz * (el * el))
        by (nonlinear_arith)
        requires
            u == qx * qx + qy * qy + qz * qz,
    ;
    assert(ax * ax + ay * ay + az * az == (s * s) * q) by (nonlinear_arith)
        requires
            ax * ax == (x * x) * (s * s),
            ay * ay == (y * y) * (s * s),
            az * az == (z * z) * (s * s),
            q == x * x + y * y + z * z,
    ;
    assert(u * (el * el) <= (s * s) * q);
    assert(q < el * el + 2 * el + 1 + s) by (nonlinear_arith)
        requires
            q < d * s + s,
            d * s < (el + 1) * (el + 1),
    ;
    assert((s * s) * q < (s * s + 4 * s) * (el * el)) by (nonlinear_arith)
        requires
            q < el * el + 2 * el + 1 + s,
            el >= s,
            s == 1000000int,
            (s * s) * q >= 0,
    ;
    assert(u < s * s + 4 * s) by (nonlinear_arith)
        requires
            u * (el * el) < (s * s + 4 * s) * (el * el),
            el > 0,
    ;
    // Lower bound: the truncations cost at most 2 el s t, with t the
    // sum of the component magnitudes, itself below 2 el + 3.
    let t = iabs(x) + iabs(y) + iabs(z);
    assert(ax + ay + az == s * t) by (nonlinear_arith)
        requires
            ax == iabs(x) * s,
            ay == iabs(y) * s,
            az == iabs(z) * s,
            t == iabs(x) + iabs(y) + iabs(z),
    ;
    assert(t * t <= 3 * q) by (nonlinear_arith)
        requires
            t == iabs(x) + iabs(y) + iabs(z),
            q == x * x + y * y + z * z,
    ;
    assert(t <= 2 * el + 2) by (nonlinear_arith)
        requires
            t >= 0,
            t * t <= 3 * q,
            q < el * el + 2 * el + 1 + s,
            el >= s,
            s == 1000000int,
    ;
    assert(u * (el * el) >= (s * s) * q - 2 * el * (ax + ay + az)) by (nonlinear_arith)
        requires
            qx * qx * (el * el) >= ax * ax - 2 * ax * el,
            qy * qy * (el * el) >= ay * ay - 2 * ay * el,
            qz * qz * (el * el) >= az * az - 2 * az * el,
            u == qx * qx + qy * qy + qz * qz,
            ax * ax + ay * ay + az * az == (s * s) * q,
            u * (el * el) == qx * qx * (el * el) + qy * qy * (el * el) + qz * qz * (el * el),
    ;
    assert(u * (el * el) >= (s * s - 4 * s - 4) * (el * el)) by (nonlinear_arith)
        requires
            u * (el * el) >= (s * s) * q - 2 * el * (s * t),
            ax + ay + az == s * t,
            t <= 2 * el + 2,
            t >= 0,
            q >= d * s,
            d * s >= el * el,
            el >= s,
            s == 1000000int,
    ;
    assert(u >= s * s - 4 * s - 4) by (nonlinear_arith)
        requires
            u * (el * el) >= (s * s - 4 * s - 4) * (el * el),
            el > 0,
    ;
    // The squared length of the unit vector, floored by the scale.
    assert(u >= 0) by (nonlinear_arith)
        requires
            qx >= 0,
            qy >= 0,
            qz >= 0,
            u == qx * qx + qy * qy + qz * qz,
    ;
    assert(tdiv(u, s) == u / s);
    let duu = u / s;
    lemma_div_is_ordered(s * s - 4 * s - 4, u, s);
    lemma_div_is_ordered(u, s * s + 4 * s - 1, s);
    assert((1000000000000int - 4000000int - 4int) / 1000000int == 999995int);
    assert((1000000000000int + 4000000int - 1int) / 1000000int == 1000003int);
    assert(s - 5 <= duu <= s + 3);
    lemma_div_pos_is_pos(u, s);
    assert(vlen_sq(vunit(v)) == duu);
    // Bracket the final square root between s - 3 and s + 1.
    assert(duu * s >= 0) by (nonlinear_arith)
        requires
            duu >= 0,
            s > 0,
    ;
    lemma_isqrt_props(duu * s);
    let lu = isqrt(duu * s);
    assert(vlen(vunit(v)) == lu);
    assert((s - 3) * (s - 3) <= (s - 5) * s) by (nonlinear_arith)
        requires
            s == 1000000int,
    ;
    assert((s - 5) * s <= duu * s) by (nonlinear_arith)
        requires
            duu >= s - 5,
            s > 0,
    ;
    assert(lu >= s - 3) by (nonlinear_arith)
        requires
            (lu + 1) * (lu + 1) > duu * s,
            duu * s >= (s - 3) * (s - 3),
            lu >= 0,
            s - 3 >= 0,
    ;
    assert(duu * s <= (s + 3) * s) by (nonlinear_arith)
        requires
            duu <= s + 3,
            s > 0,
    ;
    assert((s + 3) * s < (s + 2) * (s + 2)) by (nonlinear_arith)
        requires
            s > 0,
    ;
    assert(lu <= s + 1) by (nonlinear_arith)
        requires
            lu * lu <= duu * s,
            duu * s < (s + 2) * (s + 2),
            lu >= 0,
            s > 0,
    ;
}

/// A vector of three fixed-point components.
#[derive(Clone, Copy, Debug, PartialEq, Eq, Structural)]
pub struct Vec3 {
    e0: Fx,
    e1: Fx,
    e2: Fx,
}

impl View for Vec3 {
    type V = V3i;

    closed spec fn view(&self) -> V3i {
        V3i { x: self.e0@, y: self.e1@, z: self.e2@ }
    }
}

impl Default for Vec3 {
    /// The zero vector.
    fn default() -> (r: Vec3)
        ensures
            r@ == v3zero(),
    {
        Vec3 { e0: Fx::zero(), e1: Fx::zero(), e2: Fx::zero() }
    }
}

impl Vec3 {
    /// Build a vector from its components.
    pub fn new(e0: Fx, e1: Fx, e2: Fx) -> (r: Vec3)
        ensures
            r@ == (V3i { x: e0@, y: e1@, z: e2@ }),
    {
        Vec3 { e0, e1, e2 }
    }

    /// First component.
    pub fn x(&self) -> (r: Fx)
        ensures
            r@ == self@.x,
    {
        self.e0
    }

    /// Second component.
    pub fn y(&self) -> (r: Fx)
        ensures
            r@ == self@.y,
    {
        self.e1
    }

    /// Third component.
    pub fn z(&self) -> (r: Fx)
        ensures
            r@ == self@.z,
    {
        self.e2
    }

    /// The component at `index` (0, 1 or 2).
    pub fn index(&self, index: usize) -> (r: Fx)
        requires
            index < 3,
        ensures
            index == 0 ==> r@ == self@.x,
            index == 1 ==> r@ == self@.y,
            index == 2 ==> r@ == self@.z,
    {
        if index == 0 {
            self.e0
        } else if index == 1 {
            self.e1
        } else {
            self.e2
        }
    }

    /// Replace the component at `index` (0, 1 or 2).
    pub fn index_mut(&mut self, index: usize, value: Fx)
        requires
            index < 3,
        ensures
            index == 0 ==> final(self)@ == (V3i { x: value@, ..old(self)@ }),
            index == 1 ==> final(self)@ == (V3i { y: value@, ..old(self)@ }),
            index == 2 ==> final(self)@ == (V3i { z: value@, ..old(self)@ }),
    {
        if index == 0 {
            self.e0 = value;
        } else if index == 1 {
            self.e1 = value;
        } else {
            self.e2 = value;
        }
    }

    /// Squared length.
    pub fn length_squared(&self) -> (r: Fx)
        ensures
            r@ == vlen_sq(self@),
    {
        crate::fixed::dot3(self.e0, self.e1, self.e2, self.e0, self.e1, self.e2)
    }

    /// Length.
    pub fn length(&self) -> (r: Fx)
        ensures
            r@ == vlen(self@),
    {
        let sq = self.length_squared();
        proof {
            crate::fixed::lemma_fdot3_self_nonneg(self@.x, self@.y, self@.z);
        }
        sq.sqrt()
    }

    /// The vector scaled to unit length; a zero-length input saturates.
    pub fn unit_vector(&self) -> (r: Vec3)
        ensures
            r@ == vunit(self@),
    {
        let len = self.length();
        self.div(len)
    }

    /// Component-wise sum, by reference.
    pub fn const_add(&self, other: &Vec3) -> (r: Vec3)
        ensures
            r@ == vadd(self@, other@),
    {
        Vec3 { e0: self.e0.add(other.e0), e1: self.e1.add(other.e1), e2: self.e2.add(other.e2) }
    }

    /// Component-wise difference, by reference.
    pub fn const_sub(&self, other: &Vec3) -> (r: Vec3)
        ensures
            r@ == vsub(self@, other@),
    {
        Vec3 { e0: self.e0.sub(other.e0), e1: self.e1.sub(other.e1), e2: self.e2.sub(other.e2) }
    }

    /// Component-wise product, by reference.
    pub fn const_mul(&self, other: &Vec3) -> (r: Vec3)
        ensures
            r@ == vmul_each(self@, other@),
    {
        Vec3 { e0: self.e0.mul(other.e0), e1: self.e1.mul(other.e1), e2: self.e2.mul(other.e2) }
    }

    /// Every component divided by a scalar, by reference.
    pub fn const_div(&self, other: Fx) -> (r: Vec3)
        ensures
            r@ == vdiv_scalar(self@, other@),
    {
        Vec3 { e0: self.e0.div(other), e1: self.e1.div(other), e2: self.e2.div(other) }
    }

    /// Component-wise sum.
    pub fn add(self, other: Vec3) -> (r: Vec3)
        ensures
            r@ == vadd(self@, other@),
    {
        self.const_add(&other)
    }

    /// Component-wise difference.
    pub fn sub(self, other: Vec3) -> (r: Vec3)
        ensures
            r@ == vsub(self@, other@),
    {
        self.const_sub(&other)
    }

    /// Every component scaled by a scalar.
    pub fn mul(self, other: Fx) -> (r: Vec3)
        ensures
            r@ == vscale(self@, other@),
    {
        Vec3 { e0: self.e0.mul(other), e1: self.e1.mul(other), e2: self.e2.mul(other) }
    }

    /// Every component divided by a scalar.
    pub fn div(self, other: Fx) -> (r: Vec3)
        ensures
            r@ == vdiv_scalar(self@, other@),
    {
        self.const_div(other)
    }

    /// Component-wise quotient.
    pub fn div_vec(self, other: Vec3) -> (r: Vec3)
        ensures
            r@ == vdiv_each(self@, other@),
    {
        Vec3 { e0: self.e0.div(other.e0), e1: self.e1.div(other.e1), e2: self.e2.div(other.e2) }
    }

    /// Component-wise negation.
    pub fn neg(self) -> (r: Vec3)
        ensures
            r@ == vneg(self@),
    {
        Vec3 { e0: self.e0.neg(), e1: self.e1.neg(), e2: self.e2.neg() }
    }

    /// Dot product.
    pub fn dot(a: &Vec3, b: &Vec3) -> (r: Fx)
        ensures
            r@ == vdot(a@, b@),
    {
        crate::fixed::dot3(a.e0, a.e1, a.e2, b.e0, b.e1, b.e2)
    }

    /// Cross product.
    pub fn cross(a: &Vec3, b: &Vec3) -> (r: Vec3)
        ensures
            r@ == vcross(a@, b@),
    {
        Vec3 {
            e0: a.e1.mul(b.e2).sub(a.e2.mul(b.e1)),
            e1: a.e2.mul(b.e0).sub(a.e0.mul(b.e2)),
            e2: a.e0.mul(b.e1).sub(a.e1.mul(b.e0)),
        }
    }
}

} // verus!
