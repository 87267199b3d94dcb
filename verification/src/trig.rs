//! Fixed-point circular functions: a quadratic sine approximation, a
//! two-coefficient arctangent, and a binary logarithm for sampling.
//!
//! Each function mirrors its own spec function exactly; the approximations
//! are stated, not hidden, and their ranges are part of the contracts.

use vstd::prelude::*;
use crate::fixed::{
    Fx, SCALE, mul_raw, div_raw, lemma_mul_raw_bound, lemma_div_raw_ratio,
};
use crate::vec3::fits1;

verus! {

/// pi/4 in raw units.
pub const PI_4: i64 = 51472;

/// pi/2 in raw units.
pub const PI_2: i64 = 102944;

/// pi in raw units.
pub const PI_FX: i64 = 205887;

/// 2 pi in raw units.
pub const TWO_PI: i64 = 411775;

/// The second arctangent coefficient, 0.273 in raw units.
pub const ATAN_C: i64 = 17891;

/// pi squared in raw units, the sine parabola's denominator.
pub const PI_SQ: i64 = 646814;

/// ln 2 in raw units.
pub const LN_2: i64 = 45426;

/// Offset that makes any argument of `sin` nonnegative before reduction
/// modulo 2 pi; equal to `TWO_PI << 22`, so it leaves the angle unchanged.
pub const SIN_OFFSET: i64 = 1727109529600;

/// Arctangent of a ratio `q` in `[0, 1]`: `q (pi/4) + 0.273 q (1 - q)`.
pub open spec fn atan_unit_raw(q: int) -> int {
    mul_raw(q, PI_4 as int) + mul_raw(mul_raw(q, SCALE - q), ATAN_C as int)
}

/// The magnitude of the angle between `(x, y)` and the positive x axis,
/// reduced to a single octant.
pub open spec fn atan2_mag_raw(ay: int, ax: int) -> int {
    if ax >= ay {
        atan_unit_raw(div_raw(ay, ax))
    } else {
        PI_2 - atan_unit_raw(div_raw(ax, ay))
    }
}

/// Full-plane arctangent in `[-pi, pi]`; zero at the origin.
pub open spec fn atan2_raw(y: int, x: int) -> int {
    if y == 0 && x == 0 {
        0
    } else {
        let ay = if y >= 0 { y } else { -y };
        let ax = if x >= 0 { x } else { -x };
        let m = atan2_mag_raw(ay, ax);
        let half = if x >= 0 { m } else { PI_FX - m };
        if y >= 0 {
            half
        } else {
            -half
        }
    }
}

/// The sine parabola on `[0, pi]`: `4 m (pi - m) / pi^2`, clamped to 1.
pub open spec fn sin_half_raw(m: int) -> int {
    let q = div_raw(4 * mul_raw(m, (PI_FX as int) - m), PI_SQ as int);
    if q >= SCALE {
        SCALE as int
    } else {
        q
    }
}

/// Sine of a raw angle: reduce modulo 2 pi, apply the parabola on each
/// half-turn.
pub open spec fn sin_raw(x: int) -> int {
    let m = (x + SIN_OFFSET) % (TWO_PI as int);
    if m < PI_FX {
        sin_half_raw(m)
    } else {
        -sin_half_raw(m - PI_FX)
    }
}

/// The one-octant arctangent stays within `[0, pi/4]`.
proof fn lemma_atan_unit_range(q: int)
    requires
        0 <= q <= SCALE,
    ensures
        0 <= atan_unit_raw(q) <= PI_4 as int,
{
    let s = SCALE as int;
    let p = PI_4 as int;
    let c = ATAN_C as int;
    let qp = q * p;
    let qs = q * (s - q);
    assert(q * p >= 0 && q * (s - q) >= 0) by (nonlinear_arith)
        requires
            0 <= q <= s,
            p == 51472,
    ;
    let a = mul_raw(q, p);
    let w = mul_raw(q, s - q);
    vstd::arithmetic::div_mod::lemma_div_pos_is_pos(qp, s);
    vstd::arithmetic::div_mod::lemma_div_pos_is_pos(qs, s);
    let wc = w * c;
    assert(w * c >= 0) by (nonlinear_arith)
        requires
            w >= 0,
            c == 17891,
    ;
    let b = mul_raw(w, c);
    vstd::arithmetic::div_mod::lemma_div_pos_is_pos(wc, s);
    vstd::arithmetic::div_mod::lemma_fundamental_div_mod(qp, s);
    vstd::arithmetic::div_mod::lemma_mod_division_less_than_divisor(qp, s);
    vstd::arithmetic::div_mod::lemma_fundamental_div_mod(qs, s);
    vstd::arithmetic::div_mod::lemma_mod_division_less_than_divisor(qs, s);
    vstd::arithmetic::div_mod::lemma_fundamental_div_mod(wc, s);
    vstd::arithmetic::div_mod::lemma_mod_division_less_than_divisor(wc, s);
    assert(s * a <= qp);
    assert(s * w <= qs);
    assert(s * b <= wc);
    // Mathematically: s^2 (a + b) <= s q p + q (s - q) c <= s^2 p, because
    // q c <= s p on the whole interval.
    assert(a + b <= p) by (nonlinear_arith)
        requires
            s == 65536,
            p == 51472,
            c == 17891,
            s * a <= q * p,
            s * w <= q * (s - q),
            s * b <= w * c,
            0 <= q <= s,
            0 <= a,
            0 <= w,
            0 <= b,
    ;
}

/// One-octant arctangent: `q (pi/4) + 0.273 q (1 - q)` for `q` in `[0, 1]`.
fn atan_unit(q: Fx) -> (r: Fx)
    requires
        0 <= q.raw <= SCALE,
    ensures
        r.raw == atan_unit_raw(q.raw as int),
        0 <= r.raw <= PI_4,
{
    proof {
        lemma_mul_raw_bound(q.raw as int, PI_4 as int, SCALE as int, PI_4 as int);
        lemma_mul_raw_bound(q.raw as int, SCALE - q.raw, SCALE as int, SCALE as int);
        lemma_mul_raw_bound(
            mul_raw(q.raw as int, SCALE - q.raw),
            ATAN_C as int,
            SCALE as int,
            ATAN_C as int,
        );
        lemma_atan_unit_range(q.raw as int);
    }
    let a = q.mul(Fx::from_raw(PI_4));
    let w = q.mul(Fx::one().sub(q));
    let b = w.mul(Fx::from_raw(ATAN_C));
    a.add(b)
}

/// Full-plane arctangent of `y / x`, in `[-pi, pi]`; zero at the origin.
pub fn atan2(y: Fx, x: Fx) -> (r: Fx)
    requires
        fits1(y.raw as int, 0x400000000000),
        fits1(x.raw as int, 0x400000000000),
    ensures
        r.raw == atan2_raw(y.raw as int, x.raw as int),
        -PI_FX <= r.raw <= PI_FX,
        y.raw >= 0 ==> r.raw >= 0,
{
    if y.raw == 0 && x.raw == 0 {
        return Fx::zero();
    }
    let ay = y.abs();
    let ax = x.abs();
    let m: Fx;
    if ax.raw >= ay.raw {
        proof {
            lemma_div_raw_ratio(ay.raw as int, ax.raw as int);
            vstd::arithmetic::div_mod::lemma_div_pos_is_pos(
                (ay.raw as int) * (SCALE as int),
                ax.raw as int,
            );
        }
        let q = ay.div(ax);
        m = atan_unit(q);
    } else {
        proof {
            lemma_div_raw_ratio(ax.raw as int, ay.raw as int);
            vstd::arithmetic::div_mod::lemma_div_pos_is_pos(
                (ax.raw as int) * (SCALE as int),
                ay.raw as int,
            );
        }
        let q = ax.div(ay);
        m = Fx::from_raw(PI_2).sub(atan_unit(q));
    }
    let half = if x.raw >= 0 {
        m
    } else {
        Fx::from_raw(PI_FX).sub(m)
    };
    if y.raw >= 0 {
        half
    } else {
        half.neg()
    }
}

/// Sine of a raw angle via the parabola approximation; result in `[-1, 1]`.
pub fn sin(x: Fx) -> (r: Fx)
    requires
        fits1(x.raw as int, 1099511627776),
    ensures
        r.raw == sin_raw(x.raw as int),
        -SCALE <= r.raw <= SCALE,
{
    let shifted: u64 = (x.raw + SIN_OFFSET) as u64;
    let m: i64 = (shifted % (TWO_PI as u64)) as i64;
    let half: Fx;
    let neg: bool;
    if m < PI_FX {
        half = sin_half(Fx::from_raw(m));
        neg = false;
    } else {
        half = sin_half(Fx::from_raw(m - PI_FX));
        neg = true;
    }
    if neg {
        half.neg()
    } else {
        half
    }
}

/// The sine parabola on `[0, pi]`, clamped to 1; nonnegative there.
fn sin_half(m: Fx) -> (r: Fx)
    requires
        0 <= m.raw <= PI_FX,
    ensures
        r.raw == sin_half_raw(m.raw as int),
        0 <= r.raw <= SCALE,
{
    proof {
        lemma_mul_raw_bound(m.raw as int, (PI_FX as int) - m.raw, PI_FX as int, PI_FX as int);
        assert((m.raw as int) * ((PI_FX as int) - m.raw) >= 0) by (nonlinear_arith)
            requires
                0 <= m.raw <= PI_FX,
        ;
        vstd::arithmetic::div_mod::lemma_div_pos_is_pos(
            (m.raw as int) * ((PI_FX as int) - m.raw),
            SCALE as int,
        );
    }
    let prod = m.mul(Fx::from_raw(PI_FX).sub(m));
    let quad = Fx::from_raw(4 * prod.raw);
    proof {
        vstd::arithmetic::div_mod::lemma_div_pos_is_pos(
            (quad.raw as int) * (SCALE as int),
            PI_SQ as int,
        );
        crate::fixed::lemma_div_raw_bound(quad.raw as int, PI_SQ as int, 0x400000000000);
    }
    let q = quad.div(Fx::from_raw(PI_SQ));
    if q.raw >= SCALE {
        Fx::one()
    } else {
        q
    }
}

/// How many doublings bring a positive raw value up to one.
pub open spec fn log2_shift(m: int) -> int
    recommends
        1 <= m,
    decreases 2 * SCALE - m
        when 1 <= m
{
    if m >= SCALE {
        0
    } else {
        1 + log2_shift(2 * m)
    }
}

/// The normalised mantissa: the value doubled until it reaches one.
pub open spec fn log2_mant(m: int) -> int
    recommends
        1 <= m,
    decreases 2 * SCALE - m
        when 1 <= m
{
    if m >= SCALE {
        m
    } else {
        log2_mant(2 * m)
    }
}

/// The fractional bits of the binary logarithm of a mantissa in `[1, 2)`:
/// square, take the integer bit, repeat, from bit 15 down to bit 0.
pub open spec fn log2_frac(m: int, i: int) -> int
    recommends
        SCALE <= m < 2 * SCALE,
        0 <= i <= 16,
    decreases 16 - i,
{
    if i >= 16 {
        0
    } else {
        let sq = (m * m) / (SCALE as int);
        if sq >= 2 * SCALE {
            vstd::arithmetic::power2::pow2((15 - i) as nat) + log2_frac(sq / 2, i + 1)
        } else {
            log2_frac(sq, i + 1)
        }
    }
}

/// The binary logarithm of a raw value in `(0, 1]`: the (negated) shift
/// count plus the mantissa's fractional bits.
pub open spec fn log2_unit_spec(x: int) -> int {
    -log2_shift(x) * (SCALE as int) + log2_frac(log2_mant(x), 0)
}

/// Binary logarithm of a scalar in `(0, 1]`: exactly `log2_unit_spec`,
/// nonpositive, zero exactly at 1, never below -17.  Used for free-flight
/// sampling in constant media.
pub fn log2_unit(x: Fx) -> (r: Fx)
    requires
        1 <= x.raw <= SCALE,
    ensures
        r.raw == log2_unit_spec(x.raw as int),
        -17 * SCALE <= r.raw <= 0,
        x.raw == SCALE ==> r.raw == 0,
{
    let mut m: i64 = x.raw;
    let mut k: i64 = 0;
    proof {
        vstd::arithmetic::power2::lemma2_to64();
    }
    while m < SCALE
        invariant
            1 <= m < 2 * SCALE,
            0 <= k <= 16,
            m as int >= vstd::arithmetic::power2::pow2(k as nat),
            k == 0 ==> m == x.raw,
            x.raw == SCALE ==> k == 0,
            log2_shift(x.raw as int) == k + log2_shift(m as int),
            log2_mant(x.raw as int) == log2_mant(m as int),
        decreases 2 * SCALE - m,
    {
        proof {
            vstd::arithmetic::power2::lemma2_to64();
            assert(k < 16);
            vstd::arithmetic::power2::lemma_pow2_unfold((k + 1) as nat);
        }
        m = 2 * m;
        k = k + 1;
    }
    proof {
        assert(log2_shift(m as int) == 0);
        assert(log2_mant(m as int) == m);
        assert(log2_shift(x.raw as int) == k);
    }
    let ghost m0 = m as int;
    let mut frac: i64 = 0;
    let mut i: i64 = 0;
    proof {
        vstd::arithmetic::power2::lemma2_to64();
    }
    while i < 16
        invariant
            SCALE <= m < 2 * SCALE,
            0 <= i <= 16,
            0 <= frac,
            (frac as int) < vstd::arithmetic::power2::pow2(i as nat),
            k == 0 ==> (m == SCALE && frac == 0),
            x.raw == SCALE ==> k == 0,
            log2_frac(m0, 0) == frac * vstd::arithmetic::power2::pow2((16 - i) as nat)
                + log2_frac(m as int, i as int),
        decreases 16 - i,
    {
        proof {
            assert(4294967296 <= (m as int) * (m as int) <= 17179607041) by (nonlinear_arith)
                requires
                    65536 <= m as int <= 131071,
            ;
            vstd::arithmetic::power2::lemma_pow2_unfold((i + 1) as nat);
            vstd::arithmetic::power2::lemma_pow2_unfold((16 - i) as nat);
            vstd::arithmetic::power2::lemma2_to64();
            if (i as nat) < 15 {
                vstd::arithmetic::power2::lemma_pow2_strictly_increases(i as nat, 15);
            }
        }
        let squ: u64 = ((m as u64) * (m as u64)) / 65536;
        proof {
            vstd::arithmetic::div_mod::lemma_div_is_ordered(
                4294967296,
                (m as int) * (m as int),
                65536,
            );
            vstd::arithmetic::div_mod::lemma_div_is_ordered(
                (m as int) * (m as int),
                17179607041,
                65536,
            );
            if k == 0 {
                assert((m as int) * (m as int) == 4294967296) by (nonlinear_arith)
                    requires
                        m as int == 65536,
                ;
            }
            let p15 = vstd::arithmetic::power2::pow2((15 - i) as nat) as int;
            let p16 = vstd::arithmetic::power2::pow2((16 - i) as nat) as int;
            let rest_hi = log2_frac((squ as int) / 2, i as int + 1);
            let rest_lo = log2_frac(squ as int, i as int + 1);
            assert(p16 == 2 * p15);
            assert((2 * frac + 1) * p15 == frac * p16 + p15) by (nonlinear_arith)
                requires
                    p16 == 2 * p15,
            ;
            assert((2 * frac) * p15 == frac * p16) by (nonlinear_arith)
                requires
                    p16 == 2 * p15,
            ;
            if squ >= 131072 {
                assert(log2_frac(m as int, i as int) == p15 + rest_hi);
            } else {
                assert(log2_frac(m as int, i as int) == rest_lo);
            }
        }
        if squ >= 131072 {
            m = (squ / 2) as i64;
            frac = 2 * frac + 1;
        } else {
            m = squ as i64;
            frac = 2 * frac;
        }
        i = i + 1;
    }
    proof {
        vstd::arithmetic::power2::lemma2_to64();
        assert(i == 16);
        assert(vstd::arithmetic::power2::pow2((16 - i) as nat) == 1);
        assert(log2_frac(m as int, 16) == 0);
        assert(log2_frac(m0, 0) == frac * 1 + 0);
        assert(frac * 1 == frac) by (nonlinear_arith);
        assert(log2_frac(m0, 0) == frac);
    }
    Fx::from_raw(-k * SCALE + frac)
}

} // verus!
