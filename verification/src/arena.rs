//! The arena controller: a weighted circle over the present combatants.
//! The center is the spawn-weighted average position; the radius covers the
//! farthest combatant plus its body, each scaled by its spawn weight. The
//! caller smooths the circle over time for presentation.
use vstd::prelude::*;
use crate::combatant::{Combatant, POS_LIMIT};
use crate::geom::Vec2Px;
use crate::num::{mul_div, spec_mul_div};
use crate::registry::{all_wf, Registry};

verus! {

/// Largest radius the arena circle can reach (milli-units).
pub const RADIUS_LIMIT: i64 = 4_000_000_000;

/// One combatant's body radius (milli-units).
pub const GUY_RADIUS: i64 = 1000;

#[derive(Clone, Copy, Debug, PartialEq, Eq, Structural)]
pub struct Circle {
    pub center: Vec2Px,
    pub radius: i64,
}

impl Circle {
    pub open spec fn wf(self) -> bool {
        &&& self.center.bounded(POS_LIMIT as int)
        &&& 0 <= self.radius <= RADIUS_LIMIT
    }
}

/// Total spawn weight, in thousandths.
pub open spec fn spawn_total(s: Seq<Combatant>) -> int
    decreases s.len(),
{
    if s.len() == 0 {
        0
    } else {
        spawn_total(s.drop_last()) + s.last().spawn
    }
}

/// Spawn-weighted coordinate sums.
pub open spec fn weighted_x(s: Seq<Combatant>) -> int
    decreases s.len(),
{
    if s.len() == 0 {
        0
    } else {
        weighted_x(s.drop_last()) + s.last().position.x * s.last().spawn
    }
}

pub open spec fn weighted_y(s: Seq<Combatant>) -> int
    decreases s.len(),
{
    if s.len() == 0 {
        0
    } else {
        weighted_y(s.drop_last()) + s.last().position.y * s.last().spawn
    }
}

/// Truncating division, as the executable `/` rounds.
pub open spec fn div_trunc(a: int, den: int) -> int {
    spec_mul_div(a, 1, den)
}

/// One combatant's contribution to the radius.
pub open spec fn radius_term(g: Combatant, center: Vec2Px) -> int {
    let dx = g.position.x - center.x;
    let dy = g.position.y - center.y;
    spec_mul_div(
        crate::num::sqrt_floor((dx * dx + dy * dy) as nat) + 2 * GUY_RADIUS,
        g.spawn as int,
        1000,
    )
}

/// The largest radius contribution over all combatants.
pub open spec fn radius_of(s: Seq<Combatant>, center: Vec2Px) -> int
    decreases s.len(),
{
    if s.len() == 0 {
        0
    } else {
        let rest = radius_of(s.drop_last(), center);
        let term = radius_term(s.last(), center);
        if term > rest {
            term
        } else {
            rest
        }
    }
}

/// Weighted sums stay within `spawn_total * POS_LIMIT`, and the total weight
/// within `1000 * len`.
pub proof fn lemma_weighted_bounds(s: Seq<Combatant>)
    requires
        all_wf(s),
    ensures
        0 <= spawn_total(s) <= 1000 * s.len(),
        -spawn_total(s) * POS_LIMIT <= weighted_x(s) <= spawn_total(s) * POS_LIMIT,
        -spawn_total(s) * POS_LIMIT <= weighted_y(s) <= spawn_total(s) * POS_LIMIT,
    decreases s.len(),
{
    if s.len() > 0 {
        let d = s.drop_last();
        assert(all_wf(d)) by {
            assert(forall|i: int| 0 <= i < d.len() ==> d[i] == s[i]);
        }
        lemma_weighted_bounds(d);
        let g = s.last();
        assert(g.wf());
        assert(-(g.spawn as int) * POS_LIMIT <= g.position.x * g.spawn <= (g.spawn as int)
            * POS_LIMIT && -(g.spawn as int) * POS_LIMIT <= g.position.y * g.spawn <= (
        g.spawn as int) * POS_LIMIT) by (nonlinear_arith)
            requires
                g.wf(),
                -POS_LIMIT <= g.position.x <= POS_LIMIT,
                -POS_LIMIT <= g.position.y <= POS_LIMIT,
                0 <= g.spawn,
        ;
        assert((spawn_total(d) + g.spawn) * POS_LIMIT == spawn_total(d) * POS_LIMIT + (
        g.spawn as int) * POS_LIMIT) by (nonlinear_arith);
        assert(-(spawn_total(d) + g.spawn) * POS_LIMIT == -spawn_total(d) * POS_LIMIT + -(
        g.spawn as int) * POS_LIMIT) by (nonlinear_arith);
    }
}

/// A truncating quotient of a sum bounded by `den * b` lies within `b`.
proof fn lemma_div_trunc_bound(a: int, den: int, b: int)
    requires
        den >= 1,
        b >= 0,
        -den * b <= a <= den * b,
    ensures
        -b <= div_trunc(a, den) <= b,
{
    let m = if a >= 0 {
        a
    } else {
        -a
    };
    assert((-den) * b == -(den * b)) by (nonlinear_arith);
    assert(m <= den * b);
    vstd::arithmetic::div_mod::lemma_div_is_ordered(m, den * b, den);
    vstd::arithmetic::div_mod::lemma_div_multiples_vanish(b, den);
    assert((den * b) / den == b);
    assert(m / den >= 0) by (nonlinear_arith)
        requires
            m >= 0,
            den >= 1,
    ;
    assert(a * 1 == a) by (nonlinear_arith);
}

/// The instantaneous weighted circle, or nothing while no combatant has any
/// spawn weight.
pub fn find_circle(guys: &Registry) -> (r: Option<Circle>)
    requires
        guys.wf(),
        guys@.len() <= 1_000_000,
    ensures
        r is None <==> spawn_total(guys@) == 0,
        match r {
            Option::Some(c) => {
                &&& c.wf()
                &&& c.center.x == div_trunc(weighted_x(guys@), spawn_total(guys@))
                &&& c.center.y == div_trunc(weighted_y(guys@), spawn_total(guys@))
                &&& c.radius == radius_of(guys@, c.center)
            },
            Option::None => true,
        },
{
    let ghost s = guys@;
    let n = guys.len();
    let mut sum_x: i64 = 0;
    let mut sum_y: i64 = 0;
    let mut sum_w: i64 = 0;
    let mut i: usize = 0;
    proof {
        lemma_weighted_bounds(s);
    }
    while i < n
        invariant
            guys.wf(),
            s == guys@,
            n == s.len() <= 1_000_000,
            0 <= i <= n,
            sum_w == spawn_total(s.subrange(0, i as int)),
            sum_x == weighted_x(s.subrange(0, i as int)),
            sum_y == weighted_y(s.subrange(0, i as int)),
            0 <= sum_w <= 1000 * i,
            -sum_w * POS_LIMIT <= sum_x <= sum_w * POS_LIMIT,
            -sum_w * POS_LIMIT <= sum_y <= sum_w * POS_LIMIT,
        decreases n - i,
    {
        let ghost pre = s.subrange(0, i as int);
        let ghost cur = s.subrange(0, i + 1);
        proof {
            assert(cur.drop_last() =~= pre);
            assert(cur.last() == s[i as int]);
            lemma_weighted_bounds(cur);
        }
        let g = guys.get(i);
        proof {
            assert(-i64::MAX <= g.position.x * (g.spawn as int) <= i64::MAX && -i64::MAX
                <= g.position.y * (g.spawn as int) <= i64::MAX) by (nonlinear_arith)
                requires
                    -POS_LIMIT <= g.position.x <= POS_LIMIT,
                    -POS_LIMIT <= g.position.y <= POS_LIMIT,
                    0 <= g.spawn <= 1000,
                    POS_LIMIT == 1_000_000_000i64,
            ;
        }
        let wx = mul_div(g.position.x, g.spawn as i64, 1);
        let wy = mul_div(g.position.y, g.spawn as i64, 1);
        proof {
            assert(spec_mul_div(g.position.x as int, g.spawn as int, 1) == g.position.x
                * g.spawn && spec_mul_div(g.position.y as int, g.spawn as int, 1) == g.position.y
                * g.spawn) by (nonlinear_arith)
                requires
                    g == s[i as int],
            ;
        }
        sum_x = sum_x + wx;
        sum_y = sum_y + wy;
        sum_w = sum_w + g.spawn as i64;
        i += 1;
    }
    proof {
        assert(s.subrange(0, n as int) =~= s);
    }
    if sum_w == 0 {
        return Option::None;
    }
    proof {
        lemma_div_trunc_bound(sum_x as int, sum_w as int, POS_LIMIT as int);
        lemma_div_trunc_bound(sum_y as int, sum_w as int, POS_LIMIT as int);
    }
    let cx = mul_div(sum_x, 1, sum_w);
    let cy = mul_div(sum_y, 1, sum_w);
    let center = Vec2Px { x: cx, y: cy };
    let mut radius: i64 = 0;
    let mut i: usize = 0;
    while i < n
        invariant
            guys.wf(),
            s == guys@,
            n == s.len(),
            0 <= i <= n,
            center.bounded(POS_LIMIT as int),
            radius == radius_of(s.subrange(0, i as int), center),
            0 <= radius <= RADIUS_LIMIT,
        decreases n - i,
    {
        let ghost cur = s.subrange(0, i + 1);
        proof {
            assert(cur.drop_last() =~= s.subrange(0, i as int));
            assert(cur.last() == s[i as int]);
        }
        let g = guys.get(i);
        let delta = g.position.minus(center);
        let d = delta.len();
        proof {
            assert(0 <= (d + 2 * GUY_RADIUS) * (g.spawn as int) <= i64::MAX) by (nonlinear_arith)
                requires
                    0 <= d + 2 * GUY_RADIUS <= 3_000_002_000,
                    0 <= g.spawn <= 1000,
            ;
        }
        let term = mul_div(d + 2 * GUY_RADIUS, g.spawn as i64, 1000);
        proof {
            assert(0 <= spec_mul_div((d + 2 * GUY_RADIUS) as int, g.spawn as int, 1000)
                <= RADIUS_LIMIT) by (nonlinear_arith)
                requires
                    0 <= d + 2 * GUY_RADIUS <= 3_000_002_000,
                    0 <= g.spawn <= 1000,
                    RADIUS_LIMIT == 4_000_000_000i64,
            ;
        }
        if term > radius {
            radius = term;
        }
        i += 1;
    }
    proof {
        assert(s.subrange(0, n as int) =~= s);
    }
    Option::Some(Circle { center, radius })
}

/// Move `cur` a `dt`-thousandths step toward `target`; the result stays
/// between the two, so it keeps any bound both satisfy.
pub fn step_toward(cur: i64, target: i64, dt: i64, bound: i64) -> (r: i64)
    requires
        0 <= dt <= 1000,
        bound >= 0,
        -bound <= cur <= bound,
        -bound <= target <= bound,
        bound <= RADIUS_LIMIT,
    ensures
        r == cur + spec_mul_div(target - cur, dt as int, 1000),
        if cur <= target {
            cur <= r <= target
        } else {
            target <= r <= cur
        },
        -bound <= r <= bound,
{
    let diff = target - cur;
    let ghost p: int = (diff as int) * (dt as int);
    proof {
        assert(-i64::MAX <= p <= i64::MAX) by (nonlinear_arith)
            requires
                p == (diff as int) * (dt as int),
                -8_000_000_001 <= diff <= 8_000_000_001,
                0 <= dt <= 1000,
        ;
    }
    let step = mul_div(diff, dt, 1000);
    proof {
        if p >= 0 {
            assert(0 <= p / 1000 && p / 1000 <= if diff >= 0 {
                diff as int
            } else {
                0
            }) by (nonlinear_arith)
                requires
                    p == (diff as int) * (dt as int),
                    0 <= dt <= 1000,
                    p >= 0,
            ;
            assert(spec_mul_div(diff as int, dt as int, 1000) == p / 1000);
        } else {
            assert((diff as int) <= -((-p) / 1000) && -((-p) / 1000) <= 0) by (nonlinear_arith)
                requires
                    p == (diff as int) * (dt as int),
                    0 <= dt <= 1000,
                    p < 0,
            ;
            assert(spec_mul_div(diff as int, dt as int, 1000) == -((-p) / 1000));
        }
    }
    cur + step
}

/// Exponentially smooth the kept circle toward the instantaneous one.
pub fn smooth_circle(cur: &mut Circle, target: &Circle, dt: i64)
    requires
        0 <= dt <= 1000,
        old(cur).wf(),
        target.wf(),
    ensures
        final(cur).wf(),
        final(cur).center.x == old(cur).center.x + spec_mul_div(
            target.center.x - old(cur).center.x,
            dt as int,
            1000,
        ),
        final(cur).center.y == old(cur).center.y + spec_mul_div(
            target.center.y - old(cur).center.y,
            dt as int,
            1000,
        ),
        final(cur).radius == old(cur).radius + spec_mul_div(
            target.radius - old(cur).radius,
            dt as int,
            1000,
        ),
{
    let cx = step_toward(cur.center.x, target.center.x, dt, POS_LIMIT);
    let cy = step_toward(cur.center.y, target.center.y, dt, POS_LIMIT);
    let nr = step_toward(cur.radius, target.radius, dt, RADIUS_LIMIT);
    proof {
        assert(nr >= 0) by {
            let diff = target.radius - cur.radius;
            if diff >= 0 {
                assert(spec_mul_div(diff as int, dt as int, 1000) >= 0) by (nonlinear_arith)
                    requires
                        diff >= 0,
                        0 <= dt,
                ;
            } else {
                assert(spec_mul_div(diff as int, dt as int, 1000) >= diff) by (nonlinear_arith)
                    requires
                        diff < 0,
                        0 <= dt <= 1000,
                ;
            }
        }
    }
    cur.center = Vec2Px { x: cx, y: cy };
    cur.radius = nr;
}

} // verus!
