//! Fixed-point scalars: 64-bit raw counts of 1/65536.
//!
//! Every coordinate, colour channel and ray parameter in this crate is an
//! `Fx`.  Products and quotients truncate toward zero; the spec functions
//! `mul_raw` and `div_raw` state the exact raw value of each operation, so
//! callers reason about rounding explicitly.

use vstd::prelude::*;

verus! {

/// Number of raw units in 1.0: the fixed-point scale.
pub const SCALE: i64 = 65536;

/// Raw magnitude bound for scene coordinates (points, box corners, radii).
pub const COORD_MAX: i64 = 536870912;

/// Raw magnitude bound for ray directions.
pub const DIR_MAX: i64 = 2097152;

/// Raw magnitude bound for sphere centres; wider than `COORD_MAX` so a
/// moving sphere's interpolated centre always qualifies.
pub const CENTER_MAX: i64 = 3221225472;

/// Raw magnitude bound for ray-parameter (`t`) windows.
pub const T_MAX: i64 = 1073741824;

/// A fixed-point scalar; `raw` counts units of 1/65536.
#[derive(Clone, Copy, Debug, PartialEq, Eq, Structural)]
pub struct Fx {
    pub raw: i64,
}

/// Integer division truncating toward zero, the rounding of every
/// fixed-point product and quotient in this crate.
pub open spec fn div_trunc(a: int, b: int) -> int
    recommends
        b != 0,
{
    if a >= 0 {
        if b >= 0 {
            a / b
        } else {
            -(a / (-b))
        }
    } else {
        if b >= 0 {
            -((-a) / b)
        } else {
            (-a) / (-b)
        }
    }
}

/// Raw value of the fixed-point product of raw values `a` and `b`.
pub open spec fn mul_raw(a: int, b: int) -> int {
    div_trunc(a * b, SCALE as int)
}

/// Raw value of the fixed-point quotient of raw values `a` and `b`.
pub open spec fn div_raw(a: int, b: int) -> int
    recommends
        b != 0,
{
    div_trunc(a * (SCALE as int), b)
}

/// Floor of the square root of a nonnegative integer.
pub closed spec fn isqrt(n: int) -> int {
    choose|r: int| 0 <= r && #[trigger] (r * r) <= n && n < (r + 1) * (r + 1)
}

/// A floor square root exists for every nonnegative integer.
pub proof fn lemma_isqrt_exists(n: int) -> (r: int)
    requires
        0 <= n,
    ensures
        0 <= r && r * r <= n && n < (r + 1) * (r + 1),
    decreases n,
{
    if n == 0 {
        0
    } else {
        let p = lemma_isqrt_exists(n - 1);
        if (p + 1) * (p + 1) <= n {
            assert(n <= p * p + 2 * p + 1) by (nonlinear_arith)
                requires
                    n - 1 < (p + 1) * (p + 1),
            ;
            assert(n < (p + 2) * (p + 2)) by (nonlinear_arith)
                requires
                    n <= p * p + 2 * p + 1,
                    0 <= p,
            ;
            p + 1
        } else {
            p
        }
    }
}

/// The floor square root is unique, so `isqrt` picks exactly it.
pub proof fn lemma_isqrt_is(n: int, r: int)
    requires
        0 <= r,
        r * r <= n,
        n < (r + 1) * (r + 1),
    ensures
        isqrt(n) == r,
{
    let s = isqrt(n);
    assert(0 <= s && s * s <= n && n < (s + 1) * (s + 1)) by {
        let w = lemma_isqrt_exists(n);
        assert(0 <= w && w * w <= n && n < (w + 1) * (w + 1));
    }
    assert(s == r) by (nonlinear_arith)
        requires
            0 <= r,
            0 <= s,
            r * r <= n,
            n < (r + 1) * (r + 1),
            s * s <= n,
            n < (s + 1) * (s + 1),
    ;
}

/// The two defining inequalities of the floor square root.
pub proof fn lemma_isqrt_bounds(n: int)
    requires
        0 <= n,
    ensures
        0 <= isqrt(n),
        isqrt(n) * isqrt(n) <= n,
        n < (isqrt(n) + 1) * (isqrt(n) + 1),
{
    let w = lemma_isqrt_exists(n);
    lemma_isqrt_is(n, w);
}

/// Negating one factor negates a fixed-point product.
pub proof fn lemma_mul_raw_neg(a: int, b: int)
    ensures
        mul_raw(-a, b) == -mul_raw(a, b),
        mul_raw(-a, -b) == mul_raw(a, b),
{
    assert((-a) * b == -(a * b)) by (nonlinear_arith);
    assert((-a) * (-b) == a * b) by (nonlinear_arith);
}

/// A fixed-point quotient of `a` by a larger-magnitude `b` stays within 1.0.
pub proof fn lemma_div_raw_ratio(a: int, b: int)
    requires
        -b <= a <= b,
        1 <= b,
    ensures
        -(SCALE as int) <= div_raw(a, b) <= SCALE as int,
{
    let s = SCALE as int;
    assert(a * s <= b * s && -(b * s) <= a * s) by (nonlinear_arith)
        requires
            -b <= a <= b,
            0 < s,
    ;
    lemma_div_trunc_bound(a * s, b * s, b);
    vstd::arithmetic::div_mod::lemma_div_multiples_vanish(s, b);
}

/// Bound a product from bounds on its factors.
pub proof fn lemma_mul_bound(a: int, b: int, aa: int, bb: int)
    by (nonlinear_arith)
    requires
        -aa <= a <= aa,
        -bb <= b <= bb,
        0 <= aa,
        0 <= bb,
    ensures
        -(aa * bb) <= a * b <= aa * bb,
{
}

/// Truncating division by a positive divisor shrinks magnitudes.
pub proof fn lemma_div_trunc_bound(x: int, m: int, d: int)
    requires
        -m <= x <= m,
        1 <= d,
        0 <= m,
    ensures
        -(m / d) <= div_trunc(x, d) <= m / d,
{
    if x >= 0 {
        vstd::arithmetic::div_mod::lemma_div_is_ordered(x, m, d);
        vstd::arithmetic::div_mod::lemma_div_pos_is_pos(x, d);
    } else {
        vstd::arithmetic::div_mod::lemma_div_is_ordered(-x, m, d);
        vstd::arithmetic::div_mod::lemma_div_pos_is_pos(-x, d);
    }
}

/// Bound a fixed-point product from bounds on its factors.
pub proof fn lemma_mul_raw_bound(a: int, b: int, aa: int, bb: int)
    requires
        -aa <= a <= aa,
        -bb <= b <= bb,
        0 <= aa,
        0 <= bb,
    ensures
        -((aa * bb) / (SCALE as int)) <= mul_raw(a, b) <= (aa * bb) / (SCALE as int),
{
    lemma_mul_bound(a, b, aa, bb);
    lemma_div_trunc_bound(a * b, aa * bb, SCALE as int);
}

/// Bound a fixed-point quotient: dividing by a nonzero raw value can scale
/// the dividend by at most `SCALE`.
pub proof fn lemma_div_raw_bound(a: int, b: int, aa: int)
    requires
        -aa <= a <= aa,
        0 <= aa,
        b != 0,
    ensures
        -(aa * (SCALE as int)) <= div_raw(a, b) <= aa * (SCALE as int),
{
    let s = SCALE as int;
    lemma_mul_bound(a, s, aa, s);
    let d = if b >= 0 { b } else { -b };
    assert(1 <= d);
    lemma_div_trunc_bound(a * s, aa * s, d);
    vstd::arithmetic::div_mod::lemma_div_nonincreasing(aa * s, d);
    if b < 0 {
        assert(div_trunc(a * s, b) == -div_trunc(a * s, d));
    }
}

impl Fx {
    /// The scalar 0.
    pub fn zero() -> (r: Fx)
        ensures
            r.raw == 0,
    {
        Fx { raw: 0 }
    }

    /// The scalar 1.
    pub fn one() -> (r: Fx)
        ensures
            r.raw == SCALE,
    {
        Fx { raw: SCALE }
    }

    /// The scalar with the given raw count of 1/65536 units.
    pub fn from_raw(raw: i64) -> (r: Fx)
        ensures
            r.raw == raw,
    {
        Fx { raw }
    }

    /// The scalar equal to the integer `n`.
    pub fn from_int(n: i64) -> (r: Fx)
        requires
            -140737488355328 <= n <= 140737488355327,
        ensures
            r.raw == n * (SCALE as int),
    {
        Fx { raw: n * SCALE }
    }

    pub fn add(self, o: Fx) -> (r: Fx)
        requires
            i64::MIN <= self.raw + o.raw <= i64::MAX,
        ensures
            r.raw == self.raw + o.raw,
    {
        Fx { raw: self.raw + o.raw }
    }

    pub fn sub(self, o: Fx) -> (r: Fx)
        requires
            i64::MIN <= self.raw - o.raw <= i64::MAX,
        ensures
            r.raw == self.raw - o.raw,
    {
        Fx { raw: self.raw - o.raw }
    }

    pub fn neg(self) -> (r: Fx)
        requires
            self.raw != i64::MIN,
        ensures
            r.raw == -self.raw,
    {
        Fx { raw: -self.raw }
    }

    pub fn abs(self) -> (r: Fx)
        requires
            self.raw != i64::MIN,
        ensures
            r.raw == if self.raw >= 0 { self.raw as int } else { -(self.raw as int) },
    {
        if self.raw >= 0 {
            self
        } else {
            Fx { raw: -self.raw }
        }
    }

    pub fn min(self, o: Fx) -> (r: Fx)
        ensures
            r.raw == if self.raw <= o.raw { self.raw } else { o.raw },
    {
        if self.raw <= o.raw {
            self
        } else {
            o
        }
    }

    pub fn max(self, o: Fx) -> (r: Fx)
        ensures
            r.raw == if self.raw >= o.raw { self.raw } else { o.raw },
    {
        if self.raw >= o.raw {
            self
        } else {
            o
        }
    }

    /// Fixed-point product, truncating toward zero.
    pub fn mul(self, o: Fx) -> (r: Fx)
        requires
            -0x7fffffffffffffff * (SCALE as int) <= (self.raw as int) * (o.raw as int) <= 0x7fffffffffffffff * (SCALE as int),
        ensures
            r.raw == mul_raw(self.raw as int, o.raw as int),
    {
        let p: i128 = (self.raw as i128) * (o.raw as i128);
        let neg: bool = p < 0;
        let m: u128 = if neg {
            (-p) as u128
        } else {
            p as u128
        };
        let q: u128 = m / 65536;
        proof {
            lemma_div_trunc_bound(p as int, 0x7fffffffffffffff * (SCALE as int), SCALE as int);
        }
        if neg {
            Fx { raw: -((q as i64)) }
        } else {
            Fx { raw: q as i64 }
        }
    }

    /// Fixed-point quotient, truncating toward zero.
    pub fn div(self, o: Fx) -> (r: Fx)
        requires
            o.raw != 0,
            -0x400000000000 <= self.raw <= 0x400000000000,
        ensures
            r.raw == div_raw(self.raw as int, o.raw as int),
    {
        let n: i128 = (self.raw as i128) * 65536;
        let nneg: bool = n < 0;
        let mn: u128 = if nneg {
            (-n) as u128
        } else {
            n as u128
        };
        let bneg: bool = o.raw < 0;
        let mb: u128 = if bneg {
            (-(o.raw as i128)) as u128
        } else {
            o.raw as u128
        };
        let q: u128 = mn / mb;
        proof {
            let d = if o.raw >= 0 { o.raw as int } else { -(o.raw as int) };
            lemma_div_trunc_bound(n as int, 0x400000000000 * (SCALE as int), d);
            vstd::arithmetic::div_mod::lemma_div_nonincreasing(
                0x400000000000 * (SCALE as int), d);
        }
        if nneg != bneg {
            Fx { raw: -((q as i64)) }
        } else {
            Fx { raw: q as i64 }
        }
    }

    /// Fixed-point square root: the floor square root of `self * SCALE`,
    /// so that the result squares back to at most `self`.
    pub fn sqrt(self) -> (r: Fx)
        requires
            self.raw >= 0,
        ensures
            r.raw >= 0,
            r.raw == isqrt((self.raw as int) * (SCALE as int)),
            (r.raw as int) * (r.raw as int) <= (self.raw as int) * (SCALE as int),
            (self.raw as int) * (SCALE as int) < (r.raw + 1) * (r.raw + 1),
    {
        let n: u128 = (self.raw as u128) * 65536;
        let mut lo: u128 = 0;
        let mut hi: u128 = 1099511627776;
        proof {
            assert(n < 1099511627776 * 1099511627776) by (nonlinear_arith)
                requires
                    n <= 0x7fffffffffffffff * 65536,
            ;
        }
        while lo < hi
            invariant
                lo <= hi,
                hi <= 1099511627776,
                (lo as int) * (lo as int) <= n as int,
                (n as int) < (hi + 1) * (hi + 1),
            decreases hi - lo,
        {
            let mid: u128 = lo + (hi - lo + 1) / 2;
            proof {
                assert((mid as int) * (mid as int) <= 1099511627776 * 1099511627776)
                    by (nonlinear_arith)
                    requires
                        0 <= mid <= 1099511627776,
                ;
            }
            let sq: u128 = mid * mid;
            if sq <= n {
                lo = mid;
            } else {
                hi = mid - 1;
            }
        }
        proof {
            lemma_isqrt_is((self.raw as int) * (SCALE as int), lo as int);
        }
        Fx { raw: lo as i64 }
    }
}

} // verus!
