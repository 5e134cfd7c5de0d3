//! Small integer helpers shared by the geometry and the solvers: clamping,
//! a floor square root, and sign-magnitude multiply-divide. All simulation
//! arithmetic is fixed-point (milli-units), so these are the only primitives
//! the solvers need.
use vstd::prelude::*;

verus! {

/// Mathematical clamp of `x` into `[lo, hi]`.
pub open spec fn spec_clamp(x: int, lo: int, hi: int) -> int {
    if x < lo {
        lo
    } else if x > hi {
        hi
    } else {
        x
    }
}

/// Clamp `x` into `[lo, hi]`.
pub fn clamp64(x: i64, lo: i64, hi: i64) -> (r: i64)
    requires
        lo <= hi,
    ensures
        r == spec_clamp(x as int, lo as int, hi as int),
{
    if x < lo {
        lo
    } else if x > hi {
        hi
    } else {
        x
    }
}

/// Floor of the square root, defined by recursion so that proofs can reason
/// about it without naming any particular algorithm.
pub open spec fn sqrt_floor(n: nat) -> nat
    decreases n,
{
    if n == 0 {
        0
    } else {
        let s = sqrt_floor((n - 1) as nat);
        if (s + 1) * (s + 1) <= n {
            s + 1
        } else {
            s
        }
    }
}

/// `r` is the floor square root of `n`.
pub open spec fn is_sqrt_floor(n: nat, r: nat) -> bool {
    r * r <= n < (r + 1) * (r + 1)
}

pub proof fn lemma_sqrt_floor_correct(n: nat)
    ensures
        is_sqrt_floor(n, sqrt_floor(n)),
    decreases n,
{
    if n > 0 {
        lemma_sqrt_floor_correct((n - 1) as nat);
        let s = sqrt_floor((n - 1) as nat);
        assert(is_sqrt_floor((n - 1) as nat, s));
        if (s + 1) * (s + 1) <= n {
            assert(sqrt_floor(n) == s + 1);
            assert((s + 2) * (s + 2) > n) by (nonlinear_arith)
                requires
                    n - 1 < (s + 1) * (s + 1),
            ;
        } else {
            assert(sqrt_floor(n) == s);
            assert(s * s <= n);
        }
    } else {
        assert(sqrt_floor(n) == 0);
        assert(is_sqrt_floor(n, 0)) by (nonlinear_arith)
            requires
                n == 0,
        ;
    }
}

/// The floor square root is unique.
pub proof fn lemma_sqrt_floor_unique(n: nat, r: nat)
    requires
        is_sqrt_floor(n, r),
    ensures
        r == sqrt_floor(n),
{
    lemma_sqrt_floor_correct(n);
    let s = sqrt_floor(n);
    if r < s {
        assert((r + 1) * (r + 1) <= s * s) by (nonlinear_arith)
            requires
                r + 1 <= s,
        ;
    }
    if s < r {
        assert((s + 1) * (s + 1) <= r * r) by (nonlinear_arith)
            requires
                s + 1 <= r,
        ;
    }
}

/// Floor square root by bisection.
pub fn isqrt64(n: u64) -> (r: u64)
    ensures
        r == sqrt_floor(n as nat),
{
    let mut lo: u64 = 0;
    // The result is below 2^32, so this upper bound is safe and keeps
    // `mid * mid` inside u64.
    let mut hi: u64 = 0x1_0000_0000;
    assert(hi * hi > n as int) by (nonlinear_arith)
        requires
            hi == 0x1_0000_0000u64,
            n <= u64::MAX,
    ;
    while lo + 1 < hi
        invariant
            lo < hi <= 0x1_0000_0000,
            (lo * lo) as int <= n as int,
            (hi * hi) as int > n as int,
        decreases hi - lo,
    {
        let mid: u64 = lo + (hi - lo) / 2;
        assert(mid * mid <= u64::MAX) by (nonlinear_arith)
            requires
                mid < 0x1_0000_0000u64,
        ;
        if mid * mid <= n {
            lo = mid;
        } else {
            hi = mid;
        }
    }
    proof {
        assert(is_sqrt_floor(n as nat, lo as nat)) by (nonlinear_arith)
            requires
                (lo * lo) as int <= n as int,
                (hi * hi) as int > n as int,
                lo + 1 == hi,
        ;
        lemma_sqrt_floor_unique(n as nat, lo as nat);
    }
    lo
}

/// `a * num / den` computed on magnitudes, with the sign put back afterwards.
/// This is the rounding the solvers use everywhere, stated once.
pub open spec fn spec_mul_div(a: int, num: int, den: int) -> int {
    let p = a * num;
    if p >= 0 {
        p / den
    } else {
        -((-p) / den)
    }
}

/// Magnitude of a signed value.
pub fn abs64(a: i64) -> (r: u64)
    ensures
        r == if a >= 0 {
            a as int
        } else {
            -(a as int)
        },
{
    if a >= 0 {
        a as u64
    } else {
        let b: i128 = -(a as i128);
        b as u64
    }
}

/// Multiply then divide, rounding the magnitude down.
pub fn mul_div(a: i64, num: i64, den: i64) -> (r: i64)
    requires
        den >= 1,
        (a as int) * (num as int) <= i64::MAX,
        -((a as int) * (num as int)) <= i64::MAX,
    ensures
        r == spec_mul_div(a as int, num as int, den as int),
{
    let neg: bool = (a < 0) != (num < 0);
    let ma: u64 = abs64(a);
    let mn: u64 = abs64(num);
    let ghost prod: int = (a as int) * (num as int);
    proof {
        assert(ma * mn == if prod >= 0 {
            prod
        } else {
            -prod
        }) by (nonlinear_arith)
            requires
                ma == if a >= 0 {
                    a as int
                } else {
                    -(a as int)
                },
                mn == if num >= 0 {
                    num as int
                } else {
                    -(num as int)
                },
                prod == (a as int) * (num as int),
        ;
    }
    let p: u64 = ma * mn;
    let q: u64 = p / (den as u64);
    proof {
        assert(q == (p as int) / (den as int) && q <= p) by (nonlinear_arith)
            requires
                den >= 1,
                q == (p as u64) / (den as u64),
                p <= i64::MAX,
        ;
    }
    proof {
        assert((prod < 0 ==> ((a < 0) != (num < 0))) && (((a < 0) != (num < 0)) ==> prod <= 0))
            by (nonlinear_arith)
            requires
                prod == (a as int) * (num as int),
        ;
    }
    if neg && q > 0 {
        -(q as i64)
    } else {
        q as i64
    }
}

/// `mul_div` for modestly sized operands: the product stays in range.
pub fn mul_div_small(a: i64, num: i64, den: i64) -> (r: i64)
    requires
        den >= 1,
        -8_000_000_001 <= a <= 8_000_000_001,
        -1_000_000 <= num <= 1_000_000,
    ensures
        r == spec_mul_div(a as int, num as int, den as int),
{
    proof {
        assert(-i64::MAX <= (a as int) * (num as int) <= i64::MAX) by (nonlinear_arith)
            requires
                -8_000_000_001 <= a <= 8_000_000_001,
                -1_000_000 <= num <= 1_000_000,
        ;
    }
    mul_div(a, num, den)
}

/// Scaling by `num / den` with `|num| <= den` never grows a bounded value.
pub proof fn lemma_mul_div_bound(a: int, num: int, den: int, m: int)
    requires
        den >= 1,
        m >= 0,
        -m <= a <= m,
        -den <= num <= den,
    ensures
        -m <= spec_mul_div(a, num, den) <= m,
{
    let p = a * num;
    assert(-(den * m) <= p && p <= den * m) by (nonlinear_arith)
        requires
            p == a * num,
            -m <= a <= m,
            -den <= num <= den,
            m >= 0,
            den >= 1,
    ;
    let mm = if p >= 0 {
        p
    } else {
        -p
    };
    assert(mm <= den * m);
    vstd::arithmetic::div_mod::lemma_div_is_ordered(mm, den * m, den);
    vstd::arithmetic::div_mod::lemma_div_multiples_vanish(m, den);
    assert(mm / den >= 0) by (nonlinear_arith)
        requires
            mm >= 0,
            den >= 1,
    ;
}

/// The magnitude of `a * num / den` under componentwise magnitude bounds.
pub proof fn lemma_mul_div_general(a: int, num: int, den: int, ma: int, mn: int)
    requires
        den >= 1,
        ma >= 0,
        mn >= 0,
        -ma <= a <= ma,
        -mn <= num <= mn,
    ensures
        -((ma * mn) / den) <= spec_mul_div(a, num, den) <= (ma * mn) / den,
{
    let p = a * num;
    assert(-(ma * mn) <= p && p <= ma * mn) by (nonlinear_arith)
        requires
            p == a * num,
            -ma <= a <= ma,
            -mn <= num <= mn,
            ma >= 0,
            mn >= 0,
    ;
    let mm = if p >= 0 {
        p
    } else {
        -p
    };
    vstd::arithmetic::div_mod::lemma_div_is_ordered(mm, ma * mn, den);
    assert(mm / den >= 0) by (nonlinear_arith)
        requires
            mm >= 0,
            den >= 1,
    ;
    assert((ma * mn) / den >= 0) by (nonlinear_arith)
        requires
            ma * mn >= 0,
            den >= 1,
    ;
}

/// A quotient of non-negative operands is non-negative.
pub proof fn lemma_mul_div_nonneg(a: int, num: int, den: int)
    requires
        den >= 1,
        a >= 0,
        num >= 0,
    ensures
        spec_mul_div(a, num, den) >= 0,
{
    assert(a * num >= 0) by (nonlinear_arith)
        requires
            a >= 0,
            num >= 0,
    ;
    assert((a * num) / den >= 0) by (nonlinear_arith)
        requires
            a * num >= 0,
            den >= 1,
    ;
}

} // verus!
