//! Fixed-point real numbers: an `i64` count of millionths.
//!
//! Every arithmetic operation saturates at `MAX_RAW` instead of wrapping,
//! the way floating point saturates at its infinities, so all operations
//! are total and their results are pinned down exactly by the spec
//! functions in this module.

use vstd::arithmetic::div_mod::{lemma_div_nonincreasing, lemma_div_pos_is_pos};
use vstd::prelude::*;

verus! {

/// Raw units per 1.0: one raw unit is one millionth.
pub const SCALE: i64 = 1_000_000;

/// Largest raw magnitude a number may carry; arithmetic saturates here.
pub const MAX_RAW: i64 = 4_611_686_018_427_387_903;

/// Magnitude of an integer.
pub open spec fn iabs(x: int) -> int {
    if x < 0 {
        -x
    } else {
        x
    }
}

/// Saturation: results are pinned to [-MAX_RAW, MAX_RAW].
pub open spec fn clip(x: int) -> int {
    if x > MAX_RAW as int {
        MAX_RAW as int
    } else if x < -(MAX_RAW as int) {
        -(MAX_RAW as int)
    } else {
        x
    }
}

/// Division truncating toward zero, as the machine divides
/// (`/` on `int` is euclidean, so it is routed through magnitudes).
pub open spec fn tdiv(a: int, b: int) -> int {
    if (a < 0) != (b < 0) {
        -(iabs(a) / iabs(b))
    } else {
        iabs(a) / iabs(b)
    }
}

/// `r` is the integer square root of `n`.
pub open spec fn is_isqrt(n: int, r: int) -> bool {
    0 <= r && r * r <= n && n < ((r + 1) * (r + 1))
}

/// Integer square root, rounded down; meaningful for `n >= 0`.
pub open spec fn isqrt(n: int) -> int {
    choose|r: int| #[trigger] is_isqrt(n, r)
}

/// Fixed-point addition of raw values.
pub open spec fn fadd(a: int, b: int) -> int {
    clip(a + b)
}

/// Fixed-point subtraction of raw values.
pub open spec fn fsub(a: int, b: int) -> int {
    clip(a - b)
}

/// Fixed-point negation of a raw value.
pub open spec fn fneg(a: int) -> int {
    clip(-a)
}

/// Fixed-point product of raw values: the exact product rescaled,
/// rounded toward zero.
pub open spec fn fmul(a: int, b: int) -> int {
    clip(tdiv(a * b, SCALE as int))
}

/// Fixed-point quotient of raw values, rounded toward zero. Division by
/// zero saturates with the sign of the numerator (0/0 is 0), the way a
/// float quotient runs to a signed infinity.
pub open spec fn fdiv(a: int, b: int) -> int {
    if b == 0 {
        if a > 0 {
            MAX_RAW as int
        } else if a < 0 {
            -(MAX_RAW as int)
        } else {
            0
        }
    } else {
        clip(tdiv(a * (SCALE as int), b))
    }
}

/// Fixed-point square root of a raw value; meaningful for `a >= 0`.
pub open spec fn fsqrt(a: int) -> int {
    isqrt(a * (SCALE as int))
}

/// Fixed-point dot product of two component triples: the three exact
/// products are summed before the single rescaling step.
pub open spec fn fdot3(x0: int, y0: int, z0: int, x1: int, y1: int, z1: int) -> int {
    clip(tdiv(x0 * x1 + y0 * y1 + z0 * z1, SCALE as int))
}

/// A fixed-point real number.
#[derive(Clone, Copy, Debug, PartialEq, Eq, Structural)]
pub struct Fx {
    raw: i64,
}

impl View for Fx {
    type V = int;

    /// A number is modeled by its raw value: the real it stands for
    /// times `SCALE`.
    closed spec fn view(&self) -> int {
        self.raw as int
    }
}

/// Every integer square root exists.
pub proof fn lemma_isqrt_exists(n: int)
    requires
        n >= 0,
    ensures
        exists|r: int| #[trigger] is_isqrt(n, r),
    decreases n,
{
    if n == 0 {
        assert(is_isqrt(0, 0));
    } else {
        lemma_isqrt_exists(n - 1);
        let r = choose|r: int| #[trigger] is_isqrt(n - 1, r);
        if (r + 1) * (r + 1) == n {
            assert(is_isqrt(n, r + 1)) by (nonlinear_arith)
                requires
                    is_isqrt(n - 1, r),
                    (r + 1) * (r + 1) == n,
            ;
        } else {
            assert(is_isqrt(n, r));
        }
    }
}

/// The integer square root is unique, so any witness equals `isqrt`.
pub proof fn lemma_isqrt_unique(n: int, r: int)
    requires
        is_isqrt(n, r),
    ensures
        r == isqrt(n),
{
    let r2 = isqrt(n);
    assert(is_isqrt(n, r2));
    assert(r == r2) by (nonlinear_arith)
        requires
            is_isqrt(n, r),
            is_isqrt(n, r2),
    ;
}

/// The integer square root of a non-negative number is non-negative and
/// correct.
pub proof fn lemma_isqrt_props(n: int)
    requires
        n >= 0,
    ensures
        isqrt(n) >= 0,
        isqrt(n) * isqrt(n) <= n,
        n < ((isqrt(n) + 1) * (isqrt(n) + 1)),
{
    lemma_isqrt_exists(n);
    assert(is_isqrt(n, isqrt(n)));
}

/// A product of non-negative numbers stays non-negative through fmul.
pub proof fn lemma_fmul_nonneg(a: int, b: int)
    requires
        a >= 0,
        b >= 0,
    ensures
        fmul(a, b) >= 0,
{
    assert(a * b >= 0) by (nonlinear_arith)
        requires
            a >= 0,
            b >= 0,
    ;
    lemma_div_pos_is_pos(a * b, SCALE as int);
}

/// Dividing an exact multiple of a positive number truncates nothing.
pub proof fn lemma_tdiv_multiple(a: int, b: int)
    requires
        b > 0,
    ensures
        tdiv(a * b, b) == a,
{
    assert(iabs(a * b) == iabs(a) * b) by (nonlinear_arith)
        requires
            b > 0,
    ;
    vstd::arithmetic::div_mod::lemma_div_multiples_vanish(iabs(a), b);
    assert(b * iabs(a) == iabs(a) * b) by (nonlinear_arith);
    if a < 0 {
        assert(a * b < 0) by (nonlinear_arith)
            requires
                a < 0,
                b > 0,
        ;
    } else {
        assert(a * b >= 0) by (nonlinear_arith)
            requires
                a >= 0,
                b > 0,
        ;
    }
}

/// Any product with zero vanishes, whatever the other factor.
pub proof fn lemma_fmul_zero(a: int)
    ensures
        fmul(a, 0) == 0,
        fmul(0, a) == 0,
{
    assert(a * 0 == 0 && 0 * a == 0) by (nonlinear_arith);
    vstd::arithmetic::div_mod::lemma_div_of0(SCALE as int);
}

/// Multiplying by exactly one, minus one or zero is exact.
pub proof fn lemma_fmul_units(a: int)
    requires
        -(MAX_RAW as int) <= a <= MAX_RAW as int,
    ensures
        fmul(a, SCALE as int) == a,
        fmul(SCALE as int, a) == a,
        fmul(a, -(SCALE as int)) == -a,
        fmul(a, 0) == 0,
        fmul(0, a) == 0,
{
    lemma_tdiv_multiple(a, SCALE as int);
    assert(a * (SCALE as int) == (SCALE as int) * a) by (nonlinear_arith);
    assert(a * (-(SCALE as int)) == (-a) * (SCALE as int)) by (nonlinear_arith);
    lemma_tdiv_multiple(-a, SCALE as int);
    assert(a * 0 == 0 && 0 * a == 0) by (nonlinear_arith);
}

/// Truncating division is monotone in the numerator.
pub proof fn lemma_tdiv_monotone(n1: int, n2: int, b: int)
    requires
        n1 <= n2,
        b > 0,
    ensures
        tdiv(n1, b) <= tdiv(n2, b),
{
    if n1 >= 0 {
        vstd::arithmetic::div_mod::lemma_div_is_ordered(n1, n2, b);
    } else if n2 < 0 {
        vstd::arithmetic::div_mod::lemma_div_is_ordered(-n2, -n1, b);
    } else {
        lemma_div_pos_is_pos(-n1, b);
        lemma_div_pos_is_pos(n2, b);
    }
}

/// Saturation keeps order.
pub proof fn lemma_clip_monotone(a: int, b: int)
    requires
        a <= b,
    ensures
        clip(a) <= clip(b),
{
}

/// Fixed-point division by a positive number is monotone in the
/// numerator.
pub proof fn lemma_fdiv_monotone(n1: int, n2: int, b: int)
    requires
        n1 <= n2,
        b > 0,
    ensures
        fdiv(n1, b) <= fdiv(n2, b),
{
    assert(n1 * (SCALE as int) <= n2 * (SCALE as int)) by (nonlinear_arith)
        requires
            n1 <= n2,
    ;
    lemma_tdiv_monotone(n1 * (SCALE as int), n2 * (SCALE as int), b);
}

/// Squaring the floored quotient (a / l) l loses at most 2 a l against
/// the square of `a`.
pub proof fn lemma_floor_div_square_bounds(a: int, l: int)
    requires
        a >= 0,
        l > 0,
    ensures
        (a / l) * (a / l) * (l * l) <= a * a,
        a * a - 2 * a * l <= (a / l) * (a / l) * (l * l),
{
    vstd::arithmetic::div_mod::lemma_fundamental_div_mod(a, l);
    let q = a / l;
    lemma_div_pos_is_pos(a, l);
    assert(l * q == q * l) by (nonlinear_arith);
    assert(0 <= a % l < l);
    assert(q * l <= a);
    assert(a < q * l + l);
    assert(q * q * (l * l) == (q * l) * (q * l)) by (nonlinear_arith);
    assert((q * l) * (q * l) <= a * a) by (nonlinear_arith)
        requires
            0 <= q * l <= a,
    ;
    if a >= l {
        assert(q * l > a - l >= 0);
        assert((q * l) * (q * l) >= (a - l) * (a - l)) by (nonlinear_arith)
            requires
                q * l >= a - l >= 0,
        ;
        assert((a - l) * (a - l) >= a * a - 2 * a * l) by (nonlinear_arith)
            requires
                l * l >= 0,
        ;
    } else {
        assert(q == 0) by {
            vstd::arithmetic::div_mod::lemma_basic_div(a, l);
        }
        assert(a * a - 2 * a * l <= 0) by (nonlinear_arith)
            requires
                0 <= a < l,
        ;
    }
}

/// Clamp a wide intermediate back into the raw range.
fn clip64(x: i128) -> (r: i64)
    ensures
        r as int == clip(x as int),
{
    if x > MAX_RAW as i128 {
        MAX_RAW
    } else if x < -(MAX_RAW as i128) {
        -MAX_RAW
    } else {
        x as i64
    }
}

/// Division of wide intermediates, truncating toward zero.
fn tdiv128(a: i128, b: i128) -> (q: i128)
    requires
        b != 0,
        -(i128::MAX as int) <= a,
        -(i128::MAX as int) <= b,
    ensures
        q == tdiv(a as int, b as int),
{
    let ua: u128 = if a < 0 {
        (-a) as u128
    } else {
        a as u128
    };
    let ub: u128 = if b < 0 {
        (-b) as u128
    } else {
        b as u128
    };
    assert(ua as int == iabs(a as int));
    assert(ub as int == iabs(b as int));
    let uq: u128 = ua / ub;
    proof {
        lemma_div_nonincreasing(ua as int, ub as int);
        lemma_div_pos_is_pos(ua as int, ub as int);
    }
    if (a < 0) != (b < 0) {
        -(uq as i128)
    } else {
        uq as i128
    }
}

impl Fx {
    /// Build a number from a raw count of millionths.
    pub fn from_raw(raw: i64) -> (r: Fx)
        ensures
            r@ == clip(raw as int),
    {
        if raw > MAX_RAW {
            Fx { raw: MAX_RAW }
        } else if raw < -MAX_RAW {
            Fx { raw: -MAX_RAW }
        } else {
            Fx { raw }
        }
    }

    /// Build a number from whole units.
    pub fn from_units(n: i64) -> (r: Fx)
        ensures
            r@ == clip(n * SCALE),
    {
        assert((n as int) * (SCALE as int) <= ((i64::MAX as int) * (SCALE as int))
            && (((i64::MIN as int) * (SCALE as int)) <= (n as int) * (SCALE as int)))
            by (nonlinear_arith)
            requires
                (i64::MIN as int) <= (n as int) <= (i64::MAX as int),
        ;
        let wide: i128 = (n as i128) * (SCALE as i128);
        Fx { raw: clip64(wide) }
    }

    /// The raw count of millionths this number carries.
    pub fn raw(self) -> (r: i64)
        ensures
            r as int == self@,
    {
        self.raw
    }

    /// Zero.
    pub fn zero() -> (r: Fx)
        ensures
            r@ == 0,
    {
        Fx { raw: 0 }
    }

    /// One.
    pub fn one() -> (r: Fx)
        ensures
            r@ == SCALE as int,
    {
        Fx { raw: SCALE }
    }

    /// The greatest representable number, the stand-in for infinity.
    pub fn max_value() -> (r: Fx)
        ensures
            r@ == MAX_RAW as int,
    {
        Fx { raw: MAX_RAW }
    }

    #[verifier::type_invariant]
    spec fn inv(self) -> bool {
        -(MAX_RAW as int) <= self.raw as int <= MAX_RAW as int
    }

    /// Saturating addition.
    pub fn add(self, o: Fx) -> (r: Fx)
        ensures
            r@ == fadd(self@, o@),
    {
        let wide: i128 = (self.raw as i128) + (o.raw as i128);
        Fx { raw: clip64(wide) }
    }

    /// Saturating subtraction.
    pub fn sub(self, o: Fx) -> (r: Fx)
        ensures
            r@ == fsub(self@, o@),
    {
        let wide: i128 = (self.raw as i128) - (o.raw as i128);
        Fx { raw: clip64(wide) }
    }

    /// Negation.
    pub fn neg(self) -> (r: Fx)
        ensures
            r@ == fneg(self@),
    {
        let wide: i128 = -(self.raw as i128);
        Fx { raw: clip64(wide) }
    }

    /// Saturating product, rounded toward zero.
    pub fn mul(self, o: Fx) -> (r: Fx)
        ensures
            r@ == fmul(self@, o@),
    {
        proof {
            use_type_invariant(&self);
            use_type_invariant(&o);
        }
        assert((self.raw as int) * (o.raw as int) <= (MAX_RAW as int) * (MAX_RAW as int)
            && -((MAX_RAW as int) * (MAX_RAW as int)) <= (self.raw as int) * (o.raw as int))
            by (nonlinear_arith)
            requires
                -(MAX_RAW as int) <= self.raw as int <= MAX_RAW as int,
                -(MAX_RAW as int) <= o.raw as int <= MAX_RAW as int,
        ;
        let wide: i128 = (self.raw as i128) * (o.raw as i128);
        let q: i128 = tdiv128(wide, SCALE as i128);
        Fx { raw: clip64(q) }
    }

    /// Saturating quotient, rounded toward zero; division by zero
    /// saturates with the sign of the numerator.
    pub fn div(self, o: Fx) -> (r: Fx)
        ensures
            r@ == fdiv(self@, o@),
    {
        proof {
            use_type_invariant(&self);
        }
        if o.raw == 0 {
            if self.raw > 0 {
                Fx { raw: MAX_RAW }
            } else if self.raw < 0 {
                Fx { raw: -MAX_RAW }
            } else {
                Fx { raw: 0 }
            }
        } else {
            assert((self.raw as int) * (SCALE as int) <= ((MAX_RAW as int) * (SCALE as int))
                && ((-(MAX_RAW as int) * (SCALE as int)) <= (self.raw as int) * (SCALE as int)))
                by (nonlinear_arith)
                requires
                    -(MAX_RAW as int) <= (self.raw as int) <= MAX_RAW as int,
            ;
            let wide: i128 = (self.raw as i128) * (SCALE as i128);
            let q: i128 = tdiv128(wide, o.raw as i128);
            Fx { raw: clip64(q) }
        }
    }

    /// Square root, rounded down to the nearest representable number.
    pub fn sqrt(self) -> (r: Fx)
        requires
            self@ >= 0,
        ensures
            r@ == fsqrt(self@),
    {
        proof {
            use_type_invariant(&self);
        }
        let n: u128 = (self.raw as u128) * (SCALE as u128);
        let s: u128 = isqrt_u128(n);
        proof {
            lemma_isqrt_unique(n as int, s as int);
            assert((s as int) * (s as int) <= n as int);
            assert((n as int) < ((MAX_RAW as int) * (MAX_RAW as int)));
            assert((s as int) <= MAX_RAW as int) by (nonlinear_arith)
                requires
                    0 <= (s as int),
                    (s as int) * (s as int) < ((MAX_RAW as int) * (MAX_RAW as int)),
            ;
        }
        Fx { raw: s as i64 }
    }

    /// Strict order on the reals the numbers stand for.
    pub fn lt(self, o: Fx) -> (r: bool)
        ensures
            r == (self@ < o@),
    {
        self.raw < o.raw
    }

    /// Non-strict order on the reals the numbers stand for.
    pub fn le(self, o: Fx) -> (r: bool)
        ensures
            r == (self@ <= o@),
    {
        self.raw <= o.raw
    }
}

/// Dot product of two component triples, rounded once.
pub fn dot3(x0: Fx, y0: Fx, z0: Fx, x1: Fx, y1: Fx, z1: Fx) -> (r: Fx)
    ensures
        r@ == fdot3(x0@, y0@, z0@, x1@, y1@, z1@),
{
    proof {
        use_type_invariant(&x0);
        use_type_invariant(&y0);
        use_type_invariant(&z0);
        use_type_invariant(&x1);
        use_type_invariant(&y1);
        use_type_invariant(&z1);
        lemma_product_in_square_range(x0@, x1@);
        lemma_product_in_square_range(y0@, y1@);
        lemma_product_in_square_range(z0@, z1@);
    }
    let px: i128 = (x0.raw as i128) * (x1.raw as i128);
    let py: i128 = (y0.raw as i128) * (y1.raw as i128);
    let pz: i128 = (z0.raw as i128) * (z1.raw as i128);
    let sum: i128 = px + py + pz;
    let q: i128 = tdiv128(sum, SCALE as i128);
    Fx { raw: clip64(q) }
}

/// The product of two raw values stays within the square of the range.
proof fn lemma_product_in_square_range(a: int, b: int)
    requires
        -(MAX_RAW as int) <= a <= MAX_RAW as int,
        -(MAX_RAW as int) <= b <= MAX_RAW as int,
    ensures
        -((MAX_RAW as int) * (MAX_RAW as int)) <= a * b,
        a * b <= ((MAX_RAW as int) * (MAX_RAW as int)),
{
    assert(-((MAX_RAW as int) * (MAX_RAW as int)) <= a * b && a * b <= ((MAX_RAW as int)
        * (MAX_RAW as int))) by (nonlinear_arith)
        requires
            -(MAX_RAW as int) <= a <= MAX_RAW as int,
            -(MAX_RAW as int) <= b <= MAX_RAW as int,
    ;
}

/// The dot product of a triple with itself is never negative.
pub proof fn lemma_fdot3_self_nonneg(x: int, y: int, z: int)
    ensures
        fdot3(x, y, z, x, y, z) >= 0,
{
    assert(x * x >= 0 && y * y >= 0 && z * z >= 0) by (nonlinear_arith);
    assert(tdiv(x * x + y * y + z * z, SCALE as int) >= 0) by {
        lemma_div_pos_is_pos(x * x + y * y + z * z, SCALE as int);
    }
}

/// Integer square root of a wide intermediate, by bisection.
fn isqrt_u128(n: u128) -> (r: u128)
    requires
        n < 0x4000_0000_0000_0000_0000_0000_0000_0000u128 as int,
    ensures
        is_isqrt(n as int, r as int),
{
    if n == 0 {
        return 0;
    }
    let mut lo: u128 = 0;
    let mut hi: u128 = 9_223_372_036_854_775_808u128;
    assert((hi as int) * (hi as int) == 0x4000_0000_0000_0000_0000_0000_0000_0000u128 as int);
    while hi - lo > 1
        invariant
            0 <= lo < hi,
            hi <= 9_223_372_036_854_775_808u128,
            (lo as int) * (lo as int) <= n as int,
            (n as int) < ((hi as int) * (hi as int)),
        decreases hi - lo,
    {
        let mid: u128 = lo + (hi - lo) / 2;
        assert(lo < mid < hi);
        assert((mid as int) * (mid as int) <= u128::MAX as int) by (nonlinear_arith)
            requires
                0 <= (mid as int) <= 9_223_372_036_854_775_808int,
        ;
        if mid * mid <= n {
            lo = mid;
        } else {
            hi = mid;
        }
    }
    assert(hi - lo == 1);
    lo
}

} // verus!
