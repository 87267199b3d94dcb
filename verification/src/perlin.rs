//! Gradient (Perlin) noise: 256 random unit-ish gradients and three random
//! permutation tables, fixed at construction; lookups interpolate the
//! gradients at the eight lattice corners around a point.

use vstd::prelude::*;
use crate::fixed::{
    Fx, SCALE, mul_raw, lemma_mul_bound, lemma_mul_raw_bound,
};
use crate::vec3::{Vec3, fits, fits1, clamp1, dot_raw};
use crate::rng::rand_below;

verus! {

/// Offset making shifted coordinates nonnegative before cell and fraction
/// extraction; a multiple of both the scale and the table size.
pub const CELL_OFFSET: i64 = 1099511627776;

/// Raw magnitude bound of every noise value: three units plus rounding
/// slack, from three products of a unit-bounded gradient component with a
/// one-unit offset.
pub const NOISE_MAX: i64 = 196656;

/// The lattice cell index of a raw coordinate, reduced modulo the table.
pub open spec fn cell(x: int) -> int {
    ((x + CELL_OFFSET) / (SCALE as int)) % 256
}

/// The fractional position of a raw coordinate inside its cell.
pub open spec fn frac(x: int) -> int {
    (x + CELL_OFFSET) % (SCALE as int)
}

/// The Hermite smoothing `u^2 (3 - 2u)` of a fraction.
pub open spec fn hermite(u: int) -> int {
    mul_raw(mul_raw(u, u), 3 * (SCALE as int) - 2 * u)
}

/// Linear interpolation `a + t (b - a)`.
pub open spec fn lerp_raw(t: int, a: int, b: int) -> int {
    a + mul_raw(t, b - a)
}

/// A permutation table: 256 entries, each below 256.
pub open spec fn perm_wf(p: Seq<usize>) -> bool {
    p.len() == 256 && forall|i: int| 0 <= i < 256 ==> (#[trigger] p[i]) < 256
}

/// The identity table 0, 1, ..., 255.
pub open spec fn ident_table() -> Seq<usize> {
    Seq::new(256, |i: int| i as usize)
}

/// A gradient lattice with three independent permutation tables.
pub struct Perlin {
    pub ranvec: Vec<Vec3>,
    pub perm_x: Vec<usize>,
    pub perm_y: Vec<usize>,
    pub perm_z: Vec<usize>,
}

/// The gradient at lattice corner `(i, j, k)`.
pub open spec fn grad_at(pl: Perlin, i: int, j: int, k: int) -> Vec3 {
    pl.ranvec@[(pl.perm_x@[i] ^ pl.perm_y@[j] ^ pl.perm_z@[k]) as int]
}

/// The gradient-dot-offset value at the corner `(di, dj, dk)` of the cell
/// holding the point with the given cells and fractions.
pub open spec fn corner_dot(pl: Perlin, cx: int, cy: int, cz: int, ux: int, vy: int, wz: int,
    di: int, dj: int, dk: int) -> int {
    let g = grad_at(pl, (cx + di) % 256, (cy + dj) % 256, (cz + dk) % 256);
    dot_raw(
        g,
        Vec3 {
            x: Fx { raw: (ux - di * (SCALE as int)) as i64 },
            y: Fx { raw: (vy - dj * (SCALE as int)) as i64 },
            z: Fx { raw: (wz - dk * (SCALE as int)) as i64 },
        },
    )
}

/// The noise value: trilinear Hermite-smoothed interpolation of the eight
/// corner values around the point.
pub open spec fn noise_spec(pl: Perlin, p: Vec3) -> int {
    let cx = cell(p.x.raw as int);
    let cy = cell(p.y.raw as int);
    let cz = cell(p.z.raw as int);
    let ux = frac(p.x.raw as int);
    let vy = frac(p.y.raw as int);
    let wz = frac(p.z.raw as int);
    let hu = hermite(ux);
    let hv = hermite(vy);
    let hw = hermite(wz);
    let b00 = lerp_raw(hw, corner_dot(pl, cx, cy, cz, ux, vy, wz, 0, 0, 0),
        corner_dot(pl, cx, cy, cz, ux, vy, wz, 0, 0, 1));
    let b01 = lerp_raw(hw, corner_dot(pl, cx, cy, cz, ux, vy, wz, 0, 1, 0),
        corner_dot(pl, cx, cy, cz, ux, vy, wz, 0, 1, 1));
    let b10 = lerp_raw(hw, corner_dot(pl, cx, cy, cz, ux, vy, wz, 1, 0, 0),
        corner_dot(pl, cx, cy, cz, ux, vy, wz, 1, 0, 1));
    let b11 = lerp_raw(hw, corner_dot(pl, cx, cy, cz, ux, vy, wz, 1, 1, 0),
        corner_dot(pl, cx, cy, cz, ux, vy, wz, 1, 1, 1));
    lerp_raw(hu, lerp_raw(hv, b00, b01), lerp_raw(hv, b10, b11))
}

/// Interpolating between two bounded values stays within their bound.
proof fn lemma_lerp_bound(t: int, a: int, b: int, m: int)
    requires
        0 <= t <= SCALE,
        -m <= a <= m,
        -m <= b <= m,
        0 <= m,
    ensures
        -m <= lerp_raw(t, a, b) <= m,
{
    let s = SCALE as int;
    let d = b - a;
    if d >= 0 {
        assert(0 <= t * d <= s * d) by (nonlinear_arith)
            requires
                0 <= t <= s,
                0 <= d,
        ;
        vstd::arithmetic::div_mod::lemma_div_pos_is_pos(t * d, s);
        vstd::arithmetic::div_mod::lemma_div_is_ordered(t * d, s * d, s);
        vstd::arithmetic::div_mod::lemma_div_multiples_vanish(d, s);
    } else {
        assert(0 <= t * (-d) <= s * (-d)) by (nonlinear_arith)
            requires
                0 <= t <= s,
                d < 0,
        ;
        assert(t * (-d) == -(t * d)) by (nonlinear_arith);
        vstd::arithmetic::div_mod::lemma_div_pos_is_pos(t * (-d), s);
        vstd::arithmetic::div_mod::lemma_div_is_ordered(t * (-d), s * (-d), s);
        vstd::arithmetic::div_mod::lemma_div_multiples_vanish(-d, s);
    }
}

/// The Hermite factor of a fraction lies in `[0, 1]`.
proof fn lemma_hermite_bound(u: int)
    requires
        0 <= u <= SCALE,
    ensures
        0 <= hermite(u) <= SCALE,
{
    let s = SCALE as int;
    let c = 3 * s - 2 * u;
    assert(u * u >= 0) by (nonlinear_arith);
    vstd::arithmetic::div_mod::lemma_div_pos_is_pos(u * u, s);
    let q = (u * u) / s;
    assert(q * c >= 0) by (nonlinear_arith)
        requires
            q >= 0,
            c >= 0,
    ;
    vstd::arithmetic::div_mod::lemma_div_pos_is_pos(q * c, s);
    // Cubic upper bound: u^2 (3s - 2u) = s^3 - (s - u)^2 (s + 2u) <= s^3.
    assert((s - u) * (s - u) * (s + 2 * u) >= 0) by (nonlinear_arith)
        requires
            0 <= u <= s,
    ;
    assert(u * u * c == s * s * s - (s - u) * (s - u) * (s + 2 * u)) by (nonlinear_arith)
        requires
            c == 3 * s - 2 * u,
    ;
    vstd::arithmetic::div_mod::lemma_fundamental_div_mod(u * u, s);
    vstd::arithmetic::div_mod::lemma_mod_division_less_than_divisor(u * u, s);
    assert(q * s * c <= u * u * c) by (nonlinear_arith)
        requires
            q * s <= u * u,
            c >= 0,
    ;
    assert(q * s * c == (q * c) * s) by (nonlinear_arith);
    assert((q * c) * s <= s * s * s);
    vstd::arithmetic::div_mod::lemma_div_is_ordered((q * c) * s, s * s * s, s);
    vstd::arithmetic::div_mod::lemma_div_multiples_vanish(q * c, s);
    vstd::arithmetic::div_mod::lemma_div_multiples_vanish(s * s, s);
    assert((q * c) * s == s * (q * c)) by (nonlinear_arith);
    assert(s * s * s == s * (s * s)) by (nonlinear_arith);
}

/// A point clamped componentwise into half the lattice offset, so one
/// doubling stays inside the range `noise` accepts.
pub open spec fn turb_clamp(p: Vec3) -> Vec3 {
    Vec3 {
        x: Fx { raw: clamp1(p.x.raw as int, (CELL_OFFSET / 2) as int) as i64 },
        y: Fx { raw: clamp1(p.y.raw as int, (CELL_OFFSET / 2) as int) as i64 },
        z: Fx { raw: clamp1(p.z.raw as int, (CELL_OFFSET / 2) as int) as i64 },
    }
}

/// Truncating halving toward zero, as the octave weights decay.
pub open spec fn half_trunc(a: int) -> int {
    if a >= 0 {
        a / 2
    } else {
        -((-a) / 2)
    }
}

/// The octave sum of turbulence: this octave's noise plus half the sum at
/// doubled frequency, each octave's point clamped into the lattice range.
pub open spec fn turb_sum_spec(pl: Perlin, p: Vec3, depth: int) -> int
    decreases depth,
{
    if depth <= 0 {
        0
    } else {
        let q = turb_clamp(p);
        let d2 = Vec3 {
            x: Fx { raw: (2 * q.x.raw) as i64 },
            y: Fx { raw: (2 * q.y.raw) as i64 },
            z: Fx { raw: (2 * q.z.raw) as i64 },
        };
        noise_spec(pl, q) + half_trunc(turb_sum_spec(pl, d2, depth - 1))
    }
}

/// Turbulence: the absolute value of the octave sum.
pub open spec fn turb_spec(pl: Perlin, p: Vec3, depth: int) -> int {
    let a = turb_sum_spec(pl, p, depth);
    if a >= 0 {
        a
    } else {
        -a
    }
}

impl Perlin {
    /// Tables full, every index in range, every gradient within two units.
    pub open spec fn wf(self) -> bool {
        &&& self.ranvec@.len() == 256
        &&& forall|i: int|
            0 <= i < 256 ==> fits(#[trigger] self.ranvec@[i], 65552)
        &&& perm_wf(self.perm_x@)
        &&& perm_wf(self.perm_y@)
        &&& perm_wf(self.perm_z@)
    }

    /// A random permutation of 0..=255, by the Fisher-Yates shuffle: the
    /// result holds exactly the values of the identity table, rearranged.
    fn perlin_generate_perm(rng: &mut rand::rngs::StdRng) -> (p: Vec<usize>)
        ensures
            perm_wf(p@),
            p@.to_multiset() == ident_table().to_multiset(),
    {
        let mut p: Vec<usize> = Vec::new();
        let mut i: usize = 0;
        while i < 256
            invariant
                0 <= i <= 256,
                p@ == Seq::new(i as nat, |j: int| j as usize),
            decreases 256 - i,
        {
            p.push(i);
            proof {
                assert(p@ =~= Seq::new((i + 1) as nat, |j: int| j as usize));
            }
            i = i + 1;
        }
        proof {
            assert(p@ == ident_table());
        }
        let mut k: usize = 255;
        while k >= 1
            invariant
                0 <= k <= 255,
                p@.len() == 256,
                forall|j: int| 0 <= j < 256 ==> (#[trigger] p@[j]) < 256,
                p@.to_multiset() == ident_table().to_multiset(),
            decreases k,
        {
            let target = rand_below(rng, (k as u64) + 1) as usize;
            let tmp = p[k];
            let tv = p[target];
            let ghost before = p@;
            p.set(k, tv);
            let ghost mid = p@;
            p.set(target, tmp);
            proof {
                broadcast use vstd::seq_lib::to_multiset_update;
                broadcast use vstd::seq_lib::group_to_multiset_ensures;
                assert(mid == before.update(k as int, tv));
                assert(p@ == mid.update(target as int, tmp));
                assert(mid[target as int] == tv);
                assert(p@.to_multiset() =~= before.to_multiset());
            }
            k = k - 1;
        }
        p
    }

    /// Build the gradient lattice and the three permutation tables.
    pub fn new(rng: &mut rand::rngs::StdRng) -> (pl: Self)
        ensures
            pl.wf(),
            pl.perm_x@.to_multiset() == ident_table().to_multiset(),
            pl.perm_y@.to_multiset() == ident_table().to_multiset(),
            pl.perm_z@.to_multiset() == ident_table().to_multiset(),
    {
        let mut ranvec: Vec<Vec3> = Vec::new();
        let mut i: usize = 0;
        while i < 256
            invariant
                0 <= i <= 256,
                ranvec@.len() == i,
                forall|j: int|
                    0 <= j < i ==> fits(#[trigger] ranvec@[j], 65552),
            decreases 256 - i,
        {
            ranvec.push(Vec3::random_unit_vector(rng));
            i = i + 1;
        }
        let perm_x = Self::perlin_generate_perm(rng);
        let perm_y = Self::perlin_generate_perm(rng);
        let perm_z = Self::perlin_generate_perm(rng);
        Perlin { ranvec, perm_x, perm_y, perm_z }
    }

    /// The gradient-dot-offset value of one cell corner.
    fn corner(&self, cx: usize, cy: usize, cz: usize, u: Fx, v: Fx, w: Fx, di: usize, dj: usize,
        dk: usize) -> (d: Fx)
        requires
            self.wf(),
            cx < 256,
            cy < 256,
            cz < 256,
            di <= 1,
            dj <= 1,
            dk <= 1,
            0 <= u.raw < SCALE,
            0 <= v.raw < SCALE,
            0 <= w.raw < SCALE,
        ensures
            d.raw == corner_dot(*self, cx as int, cy as int, cz as int, u.raw as int,
                v.raw as int, w.raw as int, di as int, dj as int, dk as int),
            fits1(d.raw as int, NOISE_MAX as int),
    {
        let gi = self.perm_x[(cx + di) % 256] ^ self.perm_y[(cy + dj) % 256] ^ self.perm_z[(cz
            + dk) % 256];
        proof {
            let a = self.perm_x@[((cx + di) % 256) as int];
            let b = self.perm_y@[((cy + dj) % 256) as int];
            let c = self.perm_z@[((cz + dk) % 256) as int];
            assert((a ^ b) < 256 && ((a ^ b) ^ c) < 256) by (bit_vector)
                requires
                    a < 256,
                    b < 256,
                    c < 256,
            ;
        }
        let g = self.ranvec[gi];
        let wv = Vec3::new(
            u.sub(Fx::from_raw((di as i64) * SCALE)),
            v.sub(Fx::from_raw((dj as i64) * SCALE)),
            w.sub(Fx::from_raw((dk as i64) * SCALE)),
        );
        proof {
            lemma_mul_raw_bound(g.x.raw as int, wv.x.raw as int, 65552, SCALE as int);
            lemma_mul_raw_bound(g.y.raw as int, wv.y.raw as int, 65552, SCALE as int);
            lemma_mul_raw_bound(g.z.raw as int, wv.z.raw as int, 65552, SCALE as int);
        }
        Vec3::dot(g, wv)
    }

    /// Linear interpolation of two bounded noise values.
    fn lerp(t: Fx, a: Fx, b: Fx) -> (r: Fx)
        requires
            0 <= t.raw <= SCALE,
            fits1(a.raw as int, NOISE_MAX as int),
            fits1(b.raw as int, NOISE_MAX as int),
        ensures
            r.raw == lerp_raw(t.raw as int, a.raw as int, b.raw as int),
            fits1(r.raw as int, NOISE_MAX as int),
    {
        proof {
            lemma_mul_bound(t.raw as int, b.raw - a.raw, SCALE as int, 2 * (NOISE_MAX as int));
            lemma_mul_raw_bound(t.raw as int, b.raw - a.raw, SCALE as int, 2 * (NOISE_MAX as int));
            lemma_lerp_bound(t.raw as int, a.raw as int, b.raw as int, NOISE_MAX as int);
        }
        a.add(t.mul(b.sub(a)))
    }

    /// The Hermite smoothing of a fraction.
    fn smooth(u: Fx) -> (h: Fx)
        requires
            0 <= u.raw < SCALE,
        ensures
            h.raw == hermite(u.raw as int),
            0 <= h.raw <= SCALE,
    {
        proof {
            lemma_mul_bound(u.raw as int, u.raw as int, SCALE as int, SCALE as int);
            lemma_mul_raw_bound(u.raw as int, u.raw as int, SCALE as int, SCALE as int);
            lemma_mul_bound(mul_raw(u.raw as int, u.raw as int), 3 * (SCALE as int) - 2 * u.raw,
                SCALE as int, 3 * (SCALE as int));
            lemma_mul_raw_bound(mul_raw(u.raw as int, u.raw as int), 3 * (SCALE as int) - 2
                * u.raw, SCALE as int, 3 * (SCALE as int));
            lemma_hermite_bound(u.raw as int);
        }
        u.mul(u).mul(Fx::from_raw(3 * SCALE - 2 * u.raw))
    }

    /// The noise value at a point: deterministic in the tables and the
    /// point, and bounded by `NOISE_MAX`.
    pub fn noise(&self, p: &Vec3) -> (r: Fx)
        requires
            self.wf(),
            fits(*p, CELL_OFFSET as int),
        ensures
            r.raw == noise_spec(*self, *p),
            fits1(r.raw as int, NOISE_MAX as int),
    {
        let sx: u64 = (p.x.raw + CELL_OFFSET) as u64;
        let sy: u64 = (p.y.raw + CELL_OFFSET) as u64;
        let sz: u64 = (p.z.raw + CELL_OFFSET) as u64;
        let u = Fx::from_raw((sx % 65536) as i64);
        let v = Fx::from_raw((sy % 65536) as i64);
        let w = Fx::from_raw((sz % 65536) as i64);
        let cx = ((sx / 65536) % 256) as usize;
        let cy = ((sy / 65536) % 256) as usize;
        let cz = ((sz / 65536) % 256) as usize;
        let hu = Self::smooth(u);
        let hv = Self::smooth(v);
        let hw = Self::smooth(w);
        let d000 = self.corner(cx, cy, cz, u, v, w, 0, 0, 0);
        let d001 = self.corner(cx, cy, cz, u, v, w, 0, 0, 1);
        let d010 = self.corner(cx, cy, cz, u, v, w, 0, 1, 0);
        let d011 = self.corner(cx, cy, cz, u, v, w, 0, 1, 1);
        let d100 = self.corner(cx, cy, cz, u, v, w, 1, 0, 0);
        let d101 = self.corner(cx, cy, cz, u, v, w, 1, 0, 1);
        let d110 = self.corner(cx, cy, cz, u, v, w, 1, 1, 0);
        let d111 = self.corner(cx, cy, cz, u, v, w, 1, 1, 1);
        let b00 = Self::lerp(hw, d000, d001);
        let b01 = Self::lerp(hw, d010, d011);
        let b10 = Self::lerp(hw, d100, d101);
        let b11 = Self::lerp(hw, d110, d111);
        Self::lerp(hu, Self::lerp(hv, b00, b01), Self::lerp(hv, b10, b11))
    }

    /// Octaves of noise at doubling frequencies and halving weights; the
    /// absolute value of the sum.  Nonnegative by construction.
    pub fn turb(&self, p: &Vec3, depth: i32) -> (r: Fx)
        requires
            self.wf(),
            fits(*p, crate::fixed::COORD_MAX as int),
            0 <= depth <= 8,
        ensures
            r.raw == turb_spec(*self, *p, depth as int),
            0 <= r.raw <= 2 * NOISE_MAX,
    {
        let acc = self.turb_sum(p, depth);
        acc.abs()
    }

    /// The octave sum itself: `noise(p) + turb_sum(2p, depth - 1) / 2`,
    /// with each octave's point clamped into the noise lattice's range.
    fn turb_sum(&self, p: &Vec3, depth: i32) -> (r: Fx)
        requires
            self.wf(),
            fits(*p, 0x100000000000),
            0 <= depth <= 8,
        ensures
            r.raw == turb_sum_spec(*self, *p, depth as int),
            fits1(r.raw as int, 2 * (NOISE_MAX as int)),
        decreases depth,
    {
        if depth <= 0 {
            return Fx::zero();
        }
        let q = p.clamp_sym(Fx::from_raw(CELL_OFFSET / 2));
        let n = self.noise(&q);
        let doubled = Vec3::new(
            Fx::from_raw(2 * q.x.raw),
            Fx::from_raw(2 * q.y.raw),
            Fx::from_raw(2 * q.z.raw),
        );
        let rest = self.turb_sum(&doubled, depth - 1);
        let half_rest = if rest.raw >= 0 {
            Fx::from_raw((((rest.raw as u64)) / 2) as i64)
        } else {
            Fx::from_raw(-((((-rest.raw) as u64) / 2) as i64))
        };
        n.add(half_rest)
    }
}

} // verus!
