use vstd::prelude::*;

verus! {

use crate::SCALE;

/// Truncating division (quotient rounded toward zero) for a positive divisor.
pub open spec fn tdiv(a: int, b: int) -> int {
    if a >= 0 {
        a / b
    } else {
        -((-a) / b)
    }
}

/// Floor of the square root, by recursion on the argument's digit pairs.
pub open spec fn sqrt_floor(n: nat) -> nat
    decreases n,
{
    if n == 0 {
        0
    } else if n < 4 {
        1
    } else {
        let r = 2 * sqrt_floor(n / 4);
        if (r + 1) * (r + 1) <= n {
            r + 1
        } else {
            r
        }
    }
}

/// `sqrt_floor(n)` is the unique `r` with `r * r <= n < (r + 1) * (r + 1)`.
pub proof fn lemma_sqrt_floor_bounds(n: nat)
    ensures
        sqrt_floor(n) * sqrt_floor(n) <= n,
        n < (sqrt_floor(n) + 1) * (sqrt_floor(n) + 1),
    decreases n,
{
    let s = sqrt_floor(n);
    if n == 0 {
        assert(s == 0);
        assert(s * s <= n) by (nonlinear_arith)
            requires
                s == 0,
                n == 0,
        ;
        assert(n < (s + 1) * (s + 1)) by (nonlinear_arith)
            requires
                s == 0,
                n == 0,
        ;
    } else if n < 4 {
        assert(s == 1);
        assert(s * s <= n) by (nonlinear_arith)
            requires
                s == 1,
                1 <= n,
        ;
        assert(n < (s + 1) * (s + 1)) by (nonlinear_arith)
            requires
                s == 1,
                n < 4,
        ;
    } else {
        let q = n / 4;
        lemma_sqrt_floor_bounds(q);
        let r0 = sqrt_floor(q);
        let r = 2 * r0;
        assert(4 * q <= n < 4 * q + 4);
        assert(r * r == 4 * (r0 * r0)) by (nonlinear_arith)
            requires
                r == 2 * r0,
        ;
        assert((r + 2) * (r + 2) == 4 * ((r0 + 1) * (r0 + 1))) by (nonlinear_arith)
            requires
                r == 2 * r0,
        ;
        assert(4 * (r0 * r0) <= 4 * q);
        assert(4 * ((r0 + 1) * (r0 + 1)) >= 4 * (q + 1));
        if (r + 1) * (r + 1) <= n {
            assert(s == r + 1);
            assert(s * s <= n);
            assert(n < (s + 1) * (s + 1));
        } else {
            assert(s == r);
            assert(s * s <= n);
            assert(n < (s + 1) * (s + 1));
        }
    }
}

/// Two integers whose squares both bracket `n` are equal.
pub proof fn lemma_sqrt_unique(n: nat, a: nat, b: nat)
    requires
        a * a <= n,
        n < (a + 1) * (a + 1),
        b * b <= n,
        n < (b + 1) * (b + 1),
    ensures
        a == b,
{
    if a < b {
        assert((a + 1) * (a + 1) <= b * b) by (nonlinear_arith)
            requires
                a + 1 <= b,
        ;
    }
    if b < a {
        assert((b + 1) * (b + 1) <= a * a) by (nonlinear_arith)
            requires
                b + 1 <= a,
        ;
    }
}

/// `|a * b| <= m * n` whenever `|a| <= m` and `|b| <= n`.
pub proof fn lemma_mul_bound(a: int, b: int, m: int, n: int)
    requires
        -m <= a <= m,
        -n <= b <= n,
    ensures
        -(m * n) <= a * b <= m * n,
{
    assert(-(m * n) <= a * b <= m * n) by (nonlinear_arith)
        requires
            -m <= a <= m,
            -n <= b <= n,
    ;
}

/// Truncating quotients never exceed the magnitude bound of the dividend.
pub proof fn lemma_tdiv_bound(a: int, b: int, m: int)
    requires
        b > 0,
        -m <= a <= m,
        0 <= m,
    ensures
        -m <= tdiv(a, b) <= m,
        -(m / b) <= tdiv(a, b) <= m / b,
{
    if a >= 0 {
        assert(a / b <= m / b) by (nonlinear_arith)
            requires
                b > 0,
                0 <= a <= m,
        ;
        assert(m / b <= m) by (nonlinear_arith)
            requires
                b > 0,
                0 <= m,
        ;
        assert(a / b >= 0) by (nonlinear_arith)
            requires
                b > 0,
                0 <= a,
        ;
    } else {
        assert((-a) / b <= m / b) by (nonlinear_arith)
            requires
                b > 0,
                0 <= -a <= m,
        ;
        assert(m / b <= m) by (nonlinear_arith)
            requires
                b > 0,
                0 <= m,
        ;
        assert((-a) / b >= 0) by (nonlinear_arith)
            requires
                b > 0,
                0 <= -a,
        ;
    }
}

/// Truncating division is monotone in the dividend.
pub proof fn lemma_tdiv_mono(x: int, y: int, b: int)
    requires
        x <= y,
        b > 0,
    ensures
        tdiv(x, b) <= tdiv(y, b),
{
    if x >= 0 {
        assert(x / b <= y / b) by (nonlinear_arith)
            requires
                0 <= x <= y,
                b > 0,
        ;
    } else if y >= 0 {
        assert((-x) / b >= 0) by (nonlinear_arith)
            requires
                0 <= -x,
                b > 0,
        ;
        assert(y / b >= 0) by (nonlinear_arith)
            requires
                0 <= y,
                b > 0,
        ;
    } else {
        assert((-y) / b <= (-x) / b) by (nonlinear_arith)
            requires
                0 <= -y <= -x,
                b > 0,
        ;
    }
}

/// Truncating division of a 64-bit value by a positive divisor.
pub fn div64(a: i64, b: i64) -> (q: i64)
    requires
        b > 0,
        i64::MIN < a,
    ensures
        q == tdiv(a as int, b as int),
{
    if a >= 0 {
        let q0: u64 = (a as u64) / (b as u64);
        proof {
            assert((a as u64) as int == a as int);
            assert(q0 <= a as u64) by (nonlinear_arith)
                requires
                    q0 == (a as u64) / (b as u64),
                    b as u64 >= 1,
            ;
        }
        q0 as i64
    } else {
        let m: u64 = ((-a) as u64) / (b as u64);
        proof {
            assert(((-a) as u64) as int == -(a as int));
            assert(m <= (-a) as u64) by (nonlinear_arith)
                requires
                    m == ((-a) as u64) / (b as u64),
                    b as u64 >= 1,
            ;
        }
        -(m as i64)
    }
}

/// Truncating division of a 128-bit value by a positive divisor.
pub fn div128(a: i128, b: i128) -> (q: i128)
    requires
        b > 0,
        i128::MIN < a,
    ensures
        q == tdiv(a as int, b as int),
{
    if a >= 0 {
        let q0: u128 = (a as u128) / (b as u128);
        proof {
            assert((a as u128) as int == a as int);
            assert(q0 <= a as u128) by (nonlinear_arith)
                requires
                    q0 == (a as u128) / (b as u128),
                    b as u128 >= 1,
            ;
        }
        q0 as i128
    } else {
        let m: u128 = ((-a) as u128) / (b as u128);
        proof {
            assert(((-a) as u128) as int == -(a as int));
            assert(m <= (-a) as u128) by (nonlinear_arith)
                requires
                    m == ((-a) as u128) / (b as u128),
                    b as u128 >= 1,
            ;
        }
        -(m as i128)
    }
}

/// Floor square root of a 128-bit value, by bisection.
pub fn isqrt(n: u128) -> (r: u128)
    ensures
        r == sqrt_floor(n as nat),
{
    let mut lo: u128 = 0;
    let mut hi: u128 = 0x1_0000_0000_0000_0000;
    proof {
        assert(lo * lo <= n as nat);
        assert((n as nat) < hi as nat * hi as nat) by (nonlinear_arith)
            requires
                hi == 0x1_0000_0000_0000_0000u128,
                n as nat <= u128::MAX as nat,
        ;
    }
    while lo + 1 < hi
        invariant
            lo < hi,
            hi <= 0x1_0000_0000_0000_0000,
            lo as nat * lo as nat <= n as nat,
            (n as nat) < hi as nat * hi as nat,
        decreases hi - lo,
    {
        let mid: u128 = lo + (hi - lo) / 2;
        proof {
            assert(lo < mid < hi);
            assert(mid * mid < 0x1_0000_0000_0000_0000u128 * 0x1_0000_0000_0000_0000u128)
                by (nonlinear_arith)
                requires
                    mid < 0x1_0000_0000_0000_0000u128,
            ;
        }
        let sq: u128 = mid * mid;
        if sq <= n {
            lo = mid;
        } else {
            hi = mid;
        }
    }
    proof {
        assert(hi == lo + 1);
        lemma_sqrt_floor_bounds(n as nat);
        lemma_sqrt_unique(n as nat, lo as nat, sqrt_floor(n as nat));
    }
    lo
}

} // verus!
