//! Fixed-point plane geometry. A coordinate of `1000` is one world unit, so
//! every position, velocity and distance in the simulation is an integer and
//! the solvers stay free of floating point.
use vstd::prelude::*;
use crate::num::{abs64, isqrt64, mul_div, spec_mul_div, sqrt_floor};

verus! {

/// Largest coordinate magnitude the geometry accepts; squared norms of
/// differences of such vectors still fit in a `u64`.
pub const GEOM_BOUND: i64 = 2_000_000_000;

#[derive(Clone, Copy, Debug, PartialEq, Eq, Structural)]
pub struct Vec2Px {
    pub x: i64,
    pub y: i64,
}

impl Vec2Px {
    /// Both coordinates have magnitude at most `b`.
    pub open spec fn bounded(self, b: int) -> bool {
        -b <= self.x <= b && -b <= self.y <= b
    }

    /// Squared Euclidean norm.
    pub open spec fn norm_sq(self) -> int {
        self.x * self.x + self.y * self.y
    }

    /// Euclidean norm rounded down.
    pub open spec fn spec_len(self) -> int {
        sqrt_floor(self.norm_sq() as nat) as int
    }

    pub fn zero() -> (r: Vec2Px)
        ensures
            r.x == 0 && r.y == 0,
    {
        Vec2Px { x: 0, y: 0 }
    }

    pub fn plus(self, other: Vec2Px) -> (r: Vec2Px)
        requires
            i64::MIN <= self.x + other.x <= i64::MAX,
            i64::MIN <= self.y + other.y <= i64::MAX,
        ensures
            r.x == self.x + other.x,
            r.y == self.y + other.y,
    {
        Vec2Px { x: self.x + other.x, y: self.y + other.y }
    }

    pub fn minus(self, other: Vec2Px) -> (r: Vec2Px)
        requires
            i64::MIN <= self.x - other.x <= i64::MAX,
            i64::MIN <= self.y - other.y <= i64::MAX,
        ensures
            r.x == self.x - other.x,
            r.y == self.y - other.y,
    {
        Vec2Px { x: self.x - other.x, y: self.y - other.y }
    }

    /// Scale each coordinate by `num / den`, rounding magnitudes down.
    pub fn scale_div(self, num: i64, den: i64) -> (r: Vec2Px)
        requires
            den >= 1,
            -i64::MAX <= self.x * num <= i64::MAX,
            -i64::MAX <= self.y * num <= i64::MAX,
        ensures
            r.x == spec_mul_div(self.x as int, num as int, den as int),
            r.y == spec_mul_div(self.y as int, num as int, den as int),
    {
        Vec2Px { x: mul_div(self.x, num, den), y: mul_div(self.y, num, den) }
    }

    /// Euclidean length, rounded down.
    pub fn len(self) -> (r: i64)
        requires
            self.bounded(GEOM_BOUND as int),
        ensures
            r == self.spec_len(),
            0 <= r <= 3_000_000_000,
    {
        let mx: u64 = abs64(self.x);
        let my: u64 = abs64(self.y);
        proof {
            assert(mx * mx == self.x * self.x && my * my == self.y * self.y && mx * mx
                + my * my <= 8_000_000_000_000_000_000) by (nonlinear_arith)
                requires
                    mx == if self.x >= 0 {
                        self.x as int
                    } else {
                        -(self.x as int)
                    },
                    my == if self.y >= 0 {
                        self.y as int
                    } else {
                        -(self.y as int)
                    },
                    mx <= 2_000_000_000 && my <= 2_000_000_000,
            ;
        }
        let n: u64 = mx * mx + my * my;
        let r: u64 = isqrt64(n);
        proof {
            crate::num::lemma_sqrt_floor_correct(n as nat);
            assert(r <= 3_000_000_000) by (nonlinear_arith)
                requires
                    (r as int) * (r as int) <= n as int,
                    n <= 8_000_000_000_000_000_000,
            ;
        }
        r as i64
    }

    /// No coordinate exceeds the vector's length.
    pub proof fn lemma_component_le_len(self)
        requires
            self.bounded(GEOM_BOUND as int),
        ensures
            -self.spec_len() <= self.x <= self.spec_len(),
            -self.spec_len() <= self.y <= self.spec_len(),
    {
        assert(self.norm_sq() >= 0) by (nonlinear_arith);
        let n = self.norm_sq() as nat;
        crate::num::lemma_sqrt_floor_correct(n);
        let l = sqrt_floor(n) as int;
        assert(-l <= self.x <= l && -l <= self.y <= l) by (nonlinear_arith)
            requires
                n == self.x * self.x + self.y * self.y,
                n < (l + 1) * (l + 1),
                l >= 0,
        ;
    }

    /// Squared distance to `other`; for bounded inputs it fits in `u64`.
    pub fn dist_sq(self, other: Vec2Px) -> (r: u64)
        requires
            self.bounded(GEOM_BOUND as int),
            other.bounded(GEOM_BOUND as int),
            -GEOM_BOUND <= self.x - other.x <= GEOM_BOUND,
            -GEOM_BOUND <= self.y - other.y <= GEOM_BOUND,
        ensures
            r == (self.x - other.x) * (self.x - other.x) + (self.y - other.y) * (self.y
                - other.y),
    {
        let dx: i64 = self.x - other.x;
        let dy: i64 = self.y - other.y;
        let mx: u64 = abs64(dx);
        let my: u64 = abs64(dy);
        proof {
            assert(mx * mx == dx * dx && my * my == dy * dy && mx * mx + my * my
                <= 8_000_000_000_000_000_000) by (nonlinear_arith)
                requires
                    mx == if dx >= 0 {
                        dx as int
                    } else {
                        -(dx as int)
                    },
                    my == if dy >= 0 {
                        dy as int
                    } else {
                        -(dy as int)
                    },
                    mx <= 2_000_000_000 && my <= 2_000_000_000,
            ;
        }
        mx * mx + my * my
    }

    /// Squared distance never exceeds `8 * 10^18`, so it fits in `u64`.
    pub fn dot(self, other: Vec2Px) -> (r: i64)
        requires
            self.bounded(GEOM_BOUND as int),
            other.bounded(GEOM_BOUND as int),
        ensures
            r == self.x * other.x + self.y * other.y,
    {
        proof {
            assert(-4_000_000_000_000_000_000 <= self.x * other.x <= 4_000_000_000_000_000_000
                && -4_000_000_000_000_000_000 <= self.y * other.y <= 4_000_000_000_000_000_000)
                by (nonlinear_arith)
                requires
                    self.bounded(GEOM_BOUND as int),
                    other.bounded(GEOM_BOUND as int),
                    GEOM_BOUND == 2_000_000_000i64,
            ;
        }
        self.x * other.x + self.y * other.y
    }
}

} // verus!
