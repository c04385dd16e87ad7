use vstd::prelude::*;

verus! {

use crate::{SCALE, NEAR_ZERO_EPS, NORMAL_BOUND, VEC_OP_BOUND};
use crate::fixed::{tdiv, sqrt_floor, lemma_sqrt_floor_bounds, lemma_mul_bound, lemma_tdiv_bound,
    div64, div128, isqrt};
use crate::rng::{Lcg, spec_signed};

/// A three-component vector on the fixed-point grid.
#[derive(Clone, Copy, PartialEq, Eq, Structural, Debug)]
pub struct Vec3D {
    pub x: i64,
    pub y: i64,
    pub z: i64,
}

/// Points share the vector representation.
pub type Point3D = Vec3D;

/// All three components lie within `b` of zero.
pub open spec fn in_range(v: Vec3D, b: int) -> bool {
    &&& -b <= v.x <= b
    &&& -b <= v.y <= b
    &&& -b <= v.z <= b
}

/// Each component of `a` lies within `d` of the matching component of `b`.
pub open spec fn within(a: Vec3D, b: Vec3D, d: int) -> bool {
    &&& -d <= a.x - b.x <= d
    &&& -d <= a.y - b.y <= d
    &&& -d <= a.z - b.z <= d
}

/// Sum of the products of the raw components; the result carries two
/// factors of `SCALE`.
pub open spec fn dot3(a: Vec3D, b: Vec3D) -> int {
    a.x * b.x + a.y * b.y + a.z * b.z
}

/// Componentwise sum.
pub open spec fn vadd(a: Vec3D, b: Vec3D) -> Vec3D {
    Vec3D { x: (a.x + b.x) as i64, y: (a.y + b.y) as i64, z: (a.z + b.z) as i64 }
}

/// Componentwise difference.
pub open spec fn vsub(a: Vec3D, b: Vec3D) -> Vec3D {
    Vec3D { x: (a.x - b.x) as i64, y: (a.y - b.y) as i64, z: (a.z - b.z) as i64 }
}

/// Scaling by the fixed-point factor `s`, each component rounded toward
/// zero.
pub open spec fn spec_scale(v: Vec3D, s: int) -> Vec3D {
    Vec3D {
        x: tdiv(v.x * s, SCALE as int) as i64,
        y: tdiv(v.y * s, SCALE as int) as i64,
        z: tdiv(v.z * s, SCALE as int) as i64,
    }
}

/// The unit-length direction of `v` on the grid; zero is kept as zero.
pub open spec fn spec_normalize(v: Vec3D) -> Vec3D {
    if dot3(v, v) == 0 {
        Vec3D { x: 0, y: 0, z: 0 }
    } else {
        let len = sqrt_floor(dot3(v, v) as nat) as int;
        Vec3D {
            x: tdiv(v.x * SCALE, len) as i64,
            y: tdiv(v.y * SCALE, len) as i64,
            z: tdiv(v.z * SCALE, len) as i64,
        }
    }
}

/// Exact numerator of one reflected component, before the single
/// rounding that maps it back to the grid.
pub open spec fn reflect_num_x(d: Vec3D, n: Vec3D) -> int {
    d.x * SCALE * SCALE - 2 * dot3(d, n) * n.x
}

/// Exact numerator of one reflected component, before the single
/// rounding that maps it back to the grid.
pub open spec fn reflect_num_y(d: Vec3D, n: Vec3D) -> int {
    d.y * SCALE * SCALE - 2 * dot3(d, n) * n.y
}

/// Exact numerator of one reflected component, before the single
/// rounding that maps it back to the grid.
pub open spec fn reflect_num_z(d: Vec3D, n: Vec3D) -> int {
    d.z * SCALE * SCALE - 2 * dot3(d, n) * n.z
}

/// Componentwise negation.
pub open spec fn vneg(a: Vec3D) -> Vec3D {
    Vec3D { x: (-a.x) as i64, y: (-a.y) as i64, z: (-a.z) as i64 }
}

/// Attempts the rejection sampler makes before settling for the center
/// of the ball; the ball fills over half the sampled cube, so the last
/// attempts are never reached in practice.
pub const SAMPLE_TRIES: u32 = 10000;

/// One attempt of the rejection sampler at state `s`: three signed
/// draws, the candidate when it falls inside the ball, and the state
/// after the draws.
#[verifier::opaque]
pub open spec fn spec_attempt(s: u64) -> (Option<Vec3D>, u64) {
    let x = spec_signed(s, 65536).0;
    let s1 = spec_signed(s, 65536).1;
    let y = spec_signed(s1, 65536).0;
    let s2 = spec_signed(s1, 65536).1;
    let z = spec_signed(s2, 65536).0;
    let s3 = spec_signed(s2, 65536).1;
    let v = Vec3D { x, y, z };
    (
        if dot3(v, v) < SCALE as int * SCALE as int {
            Some(v)
        } else {
            None
        },
        s3,
    )
}

/// The unit-ball draw the rejection sampler takes from state `s` with
/// `tries` attempts left, and the state after it: the first accepted
/// attempt; exhausting every attempt yields the center.
pub open spec fn spec_ball(s: u64, tries: nat) -> (Vec3D, u64)
    decreases tries,
{
    if tries == 0 {
        (Vec3D { x: 0, y: 0, z: 0 }, s)
    } else {
        match spec_attempt(s).0 {
            Some(v) => (v, spec_attempt(s).1),
            None => spec_ball(spec_attempt(s).1, (tries - 1) as nat),
        }
    }
}

/// Makes one rejection-sampling attempt on the generator.
fn ball_attempt(rng: &mut Lcg) -> (r: Option<Vec3D>)
    ensures
        r == spec_attempt(old(rng).state).0,
        final(rng).state == spec_attempt(old(rng).state).1,
        match r {
            Some(v) => dot3(v, v) < SCALE as int * SCALE as int && in_range(v, SCALE as int),
            None => true,
        },
{
    proof {
        reveal(spec_attempt);
    }
    let x = rng.next_signed(65536);
    let y = rng.next_signed(65536);
    let z = rng.next_signed(65536);
    let v = Vec3D { x, y, z };
    let ls = v.length_squared();
    if ls < SCALE * SCALE {
        Some(v)
    } else {
        None
    }
}

/// The hemisphere draw taken from state `s`: the unit-ball draw, kept
/// when it lies on the normal's side and flipped when it points against
/// it.
pub open spec fn spec_hemi(s: u64, normal: Vec3D) -> (Vec3D, u64) {
    let u = spec_ball(s, SAMPLE_TRIES as nat).0;
    let s1 = spec_ball(s, SAMPLE_TRIES as nat).1;
    if dot3(u, normal) >= 0 {
        (u, s1)
    } else {
        (vneg(u), s1)
    }
}

/// Whether every component is within the near-zero threshold.
pub open spec fn spec_near_zero(v: Vec3D) -> bool {
    &&& -NEAR_ZERO_EPS < v.x < NEAR_ZERO_EPS
    &&& -NEAR_ZERO_EPS < v.y < NEAR_ZERO_EPS
    &&& -NEAR_ZERO_EPS < v.z < NEAR_ZERO_EPS
}

/// Mirror image of `d` about the plane orthogonal to `n`.
pub open spec fn spec_reflect(d: Vec3D, n: Vec3D) -> Vec3D {
    Vec3D {
        x: tdiv(reflect_num_x(d, n), SCALE as int * SCALE as int) as i64,
        y: tdiv(reflect_num_y(d, n), SCALE as int * SCALE as int) as i64,
        z: tdiv(reflect_num_z(d, n), SCALE as int * SCALE as int) as i64,
    }
}

/// Multiplication commutes.
proof fn lemma_mul_comm(a: int, b: int)
    ensures
        a * b == b * a,
{
    assert(a * b == b * a) by (nonlinear_arith);
}

/// Negation moves out of a product.
proof fn lemma_neg_mul(a: int, b: int)
    ensures
        -a * b == -(a * b),
{
    assert(-a * b == -(a * b)) by (nonlinear_arith);
}

/// Multiplication distributes over a three-part sum.
proof fn lemma_mul_dist3(c: int, a1: int, a2: int, a3: int)
    ensures
        c * (a1 + a2 + a3) == c * a1 + c * a2 + c * a3,
{
    assert(c * (a1 + a2 + a3) == c * a1 + c * a2 + c * a3) by (nonlinear_arith);
}

/// One reflected numerator times its own normal component, as a ring
/// identity over abstract scalars.
proof fn lemma_refl_dot_step(p: int, q: int, s2: int, dd: int)
    ensures
        (p * s2 - 2 * dd * q) * q == s2 * (p * q) - 2 * (dd * (q * q)),
{
    assert((p * s2 - 2 * dd * q) * q == s2 * (p * q) - 2 * (dd * (q * q))) by (nonlinear_arith);
}

/// Square of a difference.
proof fn lemma_sq_sub(a: int, b: int)
    ensures
        (a - b) * (a - b) == a * a - 2 * (a * b) + b * b,
{
    assert((a - b) * (a - b) == a * a - 2 * (a * b) + b * b) by (nonlinear_arith);
}

/// Square of one reflected numerator, as a ring identity over abstract
/// scalars.
#[verifier::rlimit(100)]
proof fn lemma_refl_sq_step(p: int, q: int, s2: int, dd: int)
    ensures
        (p * s2 - 2 * dd * q) * (p * s2 - 2 * dd * q) == (s2 * s2) * (p * p) - 4 * (s2 * (dd * (
        p * q))) + 4 * ((dd * dd) * (q * q)),
{
    lemma_sq_sub(p * s2, 2 * dd * q);
    assert((p * s2) * (p * s2) == (s2 * s2) * (p * p)) by (nonlinear_arith);
    assert((p * s2) * (2 * dd * q) == 2 * (s2 * (dd * (p * q)))) by (nonlinear_arith);
    assert((2 * dd * q) * (2 * dd * q) == 4 * ((dd * dd) * (q * q))) by (nonlinear_arith);
}

/// Reflection law: about a normal of exact unit grid length, reflection
/// negates the component along the normal and preserves squared length.
/// Both equalities are exact of the reflected components before their
/// single rounding back to the grid.
pub proof fn lemma_reflect_law(d: Vec3D, n: Vec3D)
    requires
        dot3(n, n) == SCALE as int * SCALE as int,
    ensures
        reflect_num_x(d, n) * n.x + reflect_num_y(d, n) * n.y + reflect_num_z(d, n) * n.z
            == -(SCALE as int * SCALE as int) * dot3(d, n),
        reflect_num_x(d, n) * reflect_num_x(d, n) + reflect_num_y(d, n) * reflect_num_y(d, n)
            + reflect_num_z(d, n) * reflect_num_z(d, n) == ((SCALE as int * SCALE as int) * (
        SCALE as int * SCALE as int)) * dot3(d, d),
{
    assert(reflect_num_x(d, n) == d.x * (SCALE as int * SCALE as int) - 2 * dot3(d, n) * n.x)
        by (nonlinear_arith)
        requires
            reflect_num_x(d, n) == d.x * SCALE * SCALE - 2 * dot3(d, n) * n.x,
    ;
    assert(reflect_num_y(d, n) == d.y * (SCALE as int * SCALE as int) - 2 * dot3(d, n) * n.y)
        by (nonlinear_arith)
        requires
            reflect_num_y(d, n) == d.y * SCALE * SCALE - 2 * dot3(d, n) * n.y,
    ;
    assert(reflect_num_z(d, n) == d.z * (SCALE as int * SCALE as int) - 2 * dot3(d, n) * n.z)
        by (nonlinear_arith)
        requires
            reflect_num_z(d, n) == d.z * SCALE * SCALE - 2 * dot3(d, n) * n.z,
    ;
    lemma_refl_dot_step(d.x as int, n.x as int, SCALE as int * SCALE as int, dot3(d, n));
    lemma_refl_dot_step(d.y as int, n.y as int, SCALE as int * SCALE as int, dot3(d, n));
    lemma_refl_dot_step(d.z as int, n.z as int, SCALE as int * SCALE as int, dot3(d, n));
    lemma_mul_dist3(SCALE as int * SCALE as int, d.x * n.x, d.y * n.y, d.z * n.z);
    assert((SCALE as int * SCALE as int) * (d.x * n.x + d.y * n.y + d.z * n.z) == (
    SCALE as int * SCALE as int) * dot3(d, n));
    lemma_mul_dist3(dot3(d, n), n.x * n.x, n.y * n.y, n.z * n.z);
    assert(dot3(d, n) * (n.x * n.x + n.y * n.y + n.z * n.z) == dot3(d, n) * (SCALE as int
        * SCALE as int));
    lemma_mul_comm(dot3(d, n), SCALE as int * SCALE as int);
    lemma_neg_mul(SCALE as int * SCALE as int, dot3(d, n));
    lemma_refl_sq_step(d.x as int, n.x as int, SCALE as int * SCALE as int, dot3(d, n));
    lemma_refl_sq_step(d.y as int, n.y as int, SCALE as int * SCALE as int, dot3(d, n));
    lemma_refl_sq_step(d.z as int, n.z as int, SCALE as int * SCALE as int, dot3(d, n));
    lemma_mul_dist3(dot3(d, n), d.x * n.x, d.y * n.y, d.z * n.z);
    assert(dot3(d, n) * (d.x * n.x + d.y * n.y + d.z * n.z) == dot3(d, n) * dot3(d, n));
    lemma_mul_dist3((SCALE as int * SCALE as int), dot3(d, n) * (d.x * n.x), dot3(d, n) * (d.y
        * n.y), dot3(d, n) * (d.z * n.z));
    assert((SCALE as int * SCALE as int) * (dot3(d, n) * (d.x * n.x) + dot3(d, n) * (d.y * n.y)
        + dot3(d, n) * (d.z * n.z)) == (SCALE as int * SCALE as int) * (dot3(d, n) * dot3(d,
        n)));
    lemma_mul_dist3(dot3(d, n) * dot3(d, n), n.x * n.x, n.y * n.y, n.z * n.z);
    assert((dot3(d, n) * dot3(d, n)) * (n.x * n.x + n.y * n.y + n.z * n.z) == (dot3(d, n)
        * dot3(d, n)) * (SCALE as int * SCALE as int));
    lemma_mul_comm(dot3(d, n) * dot3(d, n), SCALE as int * SCALE as int);
    lemma_mul_dist3((SCALE as int * SCALE as int) * (SCALE as int * SCALE as int), d.x * d.x,
        d.y * d.y, d.z * d.z);
    assert(((SCALE as int * SCALE as int) * (SCALE as int * SCALE as int)) * (d.x * d.x + d.y
        * d.y + d.z * d.z) == ((SCALE as int * SCALE as int) * (SCALE as int * SCALE as int))
        * dot3(d, d));
}

/// A square of the grid is never negative, and is bounded by the squared
/// bound of its root.
pub proof fn lemma_dot3_self_bounds(v: Vec3D, b: int)
    requires
        in_range(v, b),
    ensures
        0 <= dot3(v, v) <= 3 * b * b,
        v.x * v.x <= dot3(v, v),
        v.y * v.y <= dot3(v, v),
        v.z * v.z <= dot3(v, v),
{
    assert(0 <= v.x * v.x <= b * b) by (nonlinear_arith)
        requires
            -b <= v.x <= b,
    ;
    assert(0 <= v.y * v.y <= b * b) by (nonlinear_arith)
        requires
            -b <= v.y <= b,
    ;
    assert(0 <= v.z * v.z <= b * b) by (nonlinear_arith)
        requires
            -b <= v.z <= b,
    ;
    assert(3 * (b * b) == 3 * b * b) by (nonlinear_arith);
}

/// A component can be no longer than the vector: `a * a <= n` forces `a`
/// within the floor square root of `n`.
pub proof fn lemma_component_le_sqrt(a: int, n: nat)
    requires
        a * a <= n,
    ensures
        -(sqrt_floor(n) as int) <= a <= sqrt_floor(n) as int,
{
    lemma_sqrt_floor_bounds(n);
    let s = sqrt_floor(n) as int;
    if a > s {
        assert((s + 1) * (s + 1) <= a * a) by (nonlinear_arith)
            requires
                s + 1 <= a,
                0 <= s,
        ;
    }
    if a < -s {
        assert((s + 1) * (s + 1) <= a * a) by (nonlinear_arith)
            requires
                a <= -(s + 1),
                0 <= s,
        ;
    }
}

impl Vec3D {
    /// The vector with the given fixed-point components.
    pub fn new(x: i64, y: i64, z: i64) -> (r: Vec3D)
        ensures
            r == (Vec3D { x, y, z }),
    {
        Vec3D { x, y, z }
    }

    /// Componentwise sum.
    pub fn add(&self, other: &Vec3D) -> (r: Vec3D)
        requires
            in_range(*self, 0x2000_0000_0000_0000),
            in_range(*other, 0x2000_0000_0000_0000),
        ensures
            r.x == self.x + other.x,
            r.y == self.y + other.y,
            r.z == self.z + other.z,
            r == vadd(*self, *other),
    {
        Vec3D { x: self.x + other.x, y: self.y + other.y, z: self.z + other.z }
    }

    /// Componentwise difference.
    pub fn sub(&self, other: &Vec3D) -> (r: Vec3D)
        requires
            in_range(*self, 0x2000_0000_0000_0000),
            in_range(*other, 0x2000_0000_0000_0000),
        ensures
            r.x == self.x - other.x,
            r.y == self.y - other.y,
            r.z == self.z - other.z,
            r == vsub(*self, *other),
    {
        Vec3D { x: self.x - other.x, y: self.y - other.y, z: self.z - other.z }
    }

    /// Componentwise negation.
    pub fn neg(&self) -> (r: Vec3D)
        requires
            in_range(*self, 0x2000_0000_0000_0000),
        ensures
            r.x == -self.x,
            r.y == -self.y,
            r.z == -self.z,
            r == vneg(*self),
    {
        Vec3D { x: -self.x, y: -self.y, z: -self.z }
    }

    /// Scaling by the fixed-point factor `s`, rounded toward zero.
    pub fn mul_scalar(&self, s: i64) -> (r: Vec3D)
        requires
            in_range(*self, VEC_OP_BOUND as int),
            -VEC_OP_BOUND <= s <= VEC_OP_BOUND,
        ensures
            r.x == tdiv(self.x * s, SCALE as int),
            r.y == tdiv(self.y * s, SCALE as int),
            r.z == tdiv(self.z * s, SCALE as int),
            r == spec_scale(*self, s as int),
            in_range(r, 0x4000_0000_0000),
    {
        proof {
            lemma_mul_bound(self.x as int, s as int, VEC_OP_BOUND as int, VEC_OP_BOUND as int);
            lemma_mul_bound(self.y as int, s as int, VEC_OP_BOUND as int, VEC_OP_BOUND as int);
            lemma_mul_bound(self.z as int, s as int, VEC_OP_BOUND as int, VEC_OP_BOUND as int);
            lemma_tdiv_bound(self.x * s, SCALE as int, 0x4000_0000_0000_0000);
            lemma_tdiv_bound(self.y * s, SCALE as int, 0x4000_0000_0000_0000);
            lemma_tdiv_bound(self.z * s, SCALE as int, 0x4000_0000_0000_0000);
        }
        Vec3D {
            x: div64(self.x * s, SCALE),
            y: div64(self.y * s, SCALE),
            z: div64(self.z * s, SCALE),
        }
    }

    /// Fixed-point dot product: the raw sum of products still carries two
    /// factors of `SCALE`.
    pub fn dot(&self, other: &Vec3D) -> (r: i64)
        requires
            in_range(*self, VEC_OP_BOUND as int),
            in_range(*other, VEC_OP_BOUND as int),
        ensures
            r == dot3(*self, *other),
    {
        proof {
            lemma_mul_bound(self.x as int, other.x as int, VEC_OP_BOUND as int,
                VEC_OP_BOUND as int);
            lemma_mul_bound(self.y as int, other.y as int, VEC_OP_BOUND as int,
                VEC_OP_BOUND as int);
            lemma_mul_bound(self.z as int, other.z as int, VEC_OP_BOUND as int,
                VEC_OP_BOUND as int);
        }
        self.x * other.x + self.y * other.y + self.z * other.z
    }

    /// Raw squared length, carrying two factors of `SCALE`.
    pub fn length_squared(&self) -> (r: i64)
        requires
            in_range(*self, VEC_OP_BOUND as int),
        ensures
            r == dot3(*self, *self),
            r >= 0,
    {
        proof {
            lemma_dot3_self_bounds(*self, VEC_OP_BOUND as int);
        }
        self.dot(self)
    }

    /// Fixed-point length: the floor square root of the raw squared
    /// length has the scale of a single coordinate.
    pub fn length(&self) -> (r: i64)
        requires
            in_range(*self, VEC_OP_BOUND as int),
        ensures
            r == sqrt_floor(dot3(*self, *self) as nat),
            0 <= r <= 0x8000_0000,
    {
        proof {
            lemma_dot3_self_bounds(*self, VEC_OP_BOUND as int);
        }
        let ls = self.length_squared();
        let r = isqrt(ls as u128);
        proof {
            lemma_sqrt_floor_bounds(ls as nat);
            let s = sqrt_floor(ls as nat);
            if s > 0x8000_0000 {
                assert(s * s > 0x4000_0000_0000_0000) by (nonlinear_arith)
                    requires
                        s > 0x8000_0000nat,
                ;
            }
            assert(s <= 0x8000_0000);
        }
        r as i64
    }

    /// Direction of `self` stretched to unit length on the grid; the zero
    /// vector, which has no direction, is kept as the zero vector.
    pub fn normalize(&self) -> (r: Vec3D)
        requires
            in_range(*self, VEC_OP_BOUND as int),
        ensures
            dot3(*self, *self) == 0 ==> r == (Vec3D { x: 0, y: 0, z: 0 }),
            dot3(*self, *self) != 0 ==> {
                let len = sqrt_floor(dot3(*self, *self) as nat) as int;
                &&& r.x == tdiv(self.x * SCALE, len)
                &&& r.y == tdiv(self.y * SCALE, len)
                &&& r.z == tdiv(self.z * SCALE, len)
            },
            r == spec_normalize(*self),
            in_range(r, SCALE as int),
    {
        proof {
            lemma_dot3_self_bounds(*self, VEC_OP_BOUND as int);
        }
        let ls = self.length_squared();
        if ls == 0 {
            Vec3D { x: 0, y: 0, z: 0 }
        } else {
            let len = self.length();
            proof {
                lemma_sqrt_floor_bounds(ls as nat);
                let s = sqrt_floor(ls as nat);
                if s == 0 {
                    assert((s + 1) * (s + 1) == 1) by (nonlinear_arith)
                        requires
                            s == 0nat,
                    ;
                    assert(ls < 1);
                }
                assert(len >= 1);
                lemma_component_le_sqrt(self.x as int, ls as nat);
                lemma_component_le_sqrt(self.y as int, ls as nat);
                lemma_component_le_sqrt(self.z as int, ls as nat);
                lemma_mul_bound(self.x as int, SCALE as int, len as int, SCALE as int);
                lemma_mul_bound(self.y as int, SCALE as int, len as int, SCALE as int);
                lemma_mul_bound(self.z as int, SCALE as int, len as int, SCALE as int);
                lemma_tdiv_bound(self.x * SCALE, len as int, len * SCALE);
                lemma_tdiv_bound(self.y * SCALE, len as int, len * SCALE);
                lemma_tdiv_bound(self.z * SCALE, len as int, len * SCALE);
                assert((len * SCALE) / (len as int) == SCALE as int) by (nonlinear_arith)
                    requires
                        len >= 1,
                        SCALE == 65536i64,
                ;
            }
            Vec3D {
                x: div64(self.x * SCALE, len),
                y: div64(self.y * SCALE, len),
                z: div64(self.z * SCALE, len),
            }
        }
    }

    /// Mirror image about the plane orthogonal to the normal `n`:
    /// `self - 2 * dot(self, n) * n`, with one rounding per component.
    pub fn reflect(&self, n: &Vec3D) -> (r: Vec3D)
        requires
            in_range(*self, 0x40_0000),
            in_range(*n, NORMAL_BOUND as int),
        ensures
            r == spec_reflect(*self, *n),
            r.x == tdiv(reflect_num_x(*self, *n), SCALE as int * SCALE as int),
            r.y == tdiv(reflect_num_y(*self, *n), SCALE as int * SCALE as int),
            r.z == tdiv(reflect_num_z(*self, *n), SCALE as int * SCALE as int),
            in_range(r, 0x1000_0000),
    {
        proof {
            lemma_mul_bound(self.x as int, n.x as int, 0x40_0000, NORMAL_BOUND as int);
            lemma_mul_bound(self.y as int, n.y as int, 0x40_0000, NORMAL_BOUND as int);
            lemma_mul_bound(self.z as int, n.z as int, 0x40_0000, NORMAL_BOUND as int);
        }
        let d: i128 = (self.x as i128) * (n.x as i128) + (self.y as i128) * (n.y as i128)
            + (self.z as i128) * (n.z as i128);
        let s2: i128 = (SCALE as i128) * (SCALE as i128);
        proof {
            assert(d == dot3(*self, *n));
            lemma_mul_bound(d as int, n.x as int, 0x180_0000_0000, NORMAL_BOUND as int);
            lemma_mul_bound(d as int, n.y as int, 0x180_0000_0000, NORMAL_BOUND as int);
            lemma_mul_bound(d as int, n.z as int, 0x180_0000_0000, NORMAL_BOUND as int);
            assert(2 * dot3(*self, *n) * n.x == 2 * (dot3(*self, *n) * n.x)) by (nonlinear_arith);
            assert(2 * dot3(*self, *n) * n.y == 2 * (dot3(*self, *n) * n.y)) by (nonlinear_arith);
            assert(2 * dot3(*self, *n) * n.z == 2 * (dot3(*self, *n) * n.z)) by (nonlinear_arith);
            lemma_tdiv_bound(self.x * SCALE * SCALE - 2 * dot3(*self, *n) * n.x,
                SCALE as int * SCALE as int, 0x1000_0000_0000_0000);
            lemma_tdiv_bound(self.y * SCALE * SCALE - 2 * dot3(*self, *n) * n.y,
                SCALE as int * SCALE as int, 0x1000_0000_0000_0000);
            lemma_tdiv_bound(self.z * SCALE * SCALE - 2 * dot3(*self, *n) * n.z,
                SCALE as int * SCALE as int, 0x1000_0000_0000_0000);
            assert(0x1000_0000_0000_0000int / (SCALE as int * SCALE as int) == 0x1000_0000int);
        }
        let rx = div128((self.x as i128) * s2 - 2 * d * (n.x as i128), s2);
        let ry = div128((self.y as i128) * s2 - 2 * d * (n.y as i128), s2);
        let rz = div128((self.z as i128) * s2 - 2 * d * (n.z as i128), s2);
        let result = Vec3D { x: rx as i64, y: ry as i64, z: rz as i64 };
        proof {
            assert(result == spec_reflect(*self, *n));
        }
        result
    }

    /// Whether every component is within the near-zero threshold; used to
    /// catch degenerate scatter directions.
    pub fn is_near_zero(&self) -> (r: bool)
        ensures
            r == spec_near_zero(*self),
    {
        -NEAR_ZERO_EPS < self.x && self.x < NEAR_ZERO_EPS && -NEAR_ZERO_EPS < self.y
            && self.y < NEAR_ZERO_EPS && -NEAR_ZERO_EPS < self.z && self.z < NEAR_ZERO_EPS
    }

    /// A draw rejected-sampled uniformly from the open unit ball: the
    /// first accepted sample of the injected generator's stream.
    pub fn random_in_unit_sphere(rng: &mut Lcg) -> (r: Vec3D)
        ensures
            dot3(r, r) < SCALE as int * SCALE as int,
            in_range(r, SCALE as int),
            r == spec_ball(old(rng).state, SAMPLE_TRIES as nat).0,
            final(rng).state == spec_ball(old(rng).state, SAMPLE_TRIES as nat).1,
    {
        let ghost s0 = rng.state;
        let mut tries: u32 = 0;
        while tries < SAMPLE_TRIES
            invariant
                tries <= SAMPLE_TRIES,
                s0 == old(rng).state,
                spec_ball(s0, SAMPLE_TRIES as nat) == spec_ball(rng.state, (SAMPLE_TRIES
                    - tries) as nat),
            decreases SAMPLE_TRIES - tries,
        {
            let ghost s_it = rng.state;
            match ball_attempt(rng) {
                Some(v) => {
                    proof {
                        assert(spec_ball(s_it, (SAMPLE_TRIES - tries) as nat) == (
                        v,
                        rng.state,
                        ));
                    }
                    return v;
                },
                None => {
                    proof {
                        assert(spec_ball(s_it, (SAMPLE_TRIES - tries) as nat) == spec_ball(
                            rng.state,
                            (SAMPLE_TRIES - tries - 1) as nat,
                        ));
                    }
                },
            }
            tries = tries + 1;
        }
        // This many straight rejections do not happen in practice; the
        // center is a sound draw.
        Vec3D { x: 0, y: 0, z: 0 }
    }

    /// A draw from the unit ball, flipped onto the side of `normal` when
    /// it points against it.
    pub fn random_in_hemisphere(normal: &Vec3D, rng: &mut Lcg) -> (r: Vec3D)
        requires
            in_range(*normal, NORMAL_BOUND as int),
        ensures
            dot3(r, r) < SCALE as int * SCALE as int,
            in_range(r, SCALE as int),
            dot3(r, *normal) >= 0,
            r == spec_hemi(old(rng).state, *normal).0,
            final(rng).state == spec_hemi(old(rng).state, *normal).1,
    {
        let u = Vec3D::random_in_unit_sphere(rng);
        let d = u.dot(normal);
        if d >= 0 {
            u
        } else {
            let w = u.neg();
            proof {
                assert(dot3(w, *normal) == -dot3(u, *normal)) by (nonlinear_arith)
                    requires
                        w.x == -u.x,
                        w.y == -u.y,
                        w.z == -u.z,
                ;
                assert(dot3(w, w) == dot3(u, u)) by (nonlinear_arith)
                    requires
                        w.x == -u.x,
                        w.y == -u.y,
                        w.z == -u.z,
                ;
            }
            w
        }
    }
}

} // verus!
