//! The movement and collision resolver. Every tick each combatant steers
//! toward the arena center at a capped speed with a per-combatant lateral
//! wobble, positions integrate the velocities, and a fixed number of
//! relaxation passes resolves pairwise separation and cohesion. Pairs are
//! visited in the registry's current order, so the outcome under
//! simultaneous contacts is deterministic for a given ordering; coordinates
//! and velocities are clamped to the solver's bounds.
use vstd::prelude::*;
use crate::arena::find_circle;
use crate::combatant::{Combatant, POS_LIMIT, VEL_LIMIT};
use crate::geom::Vec2Px;
use crate::num::{clamp64, mul_div, spec_clamp, spec_mul_div, sqrt_floor};
use crate::world::{State, DT_LIMIT};

verus! {

/// Below this distance combatants push each other apart (milli-units).
pub const MIN_DISTANCE: i64 = 2000;

/// Between the minimum and this distance a mild cohesion spring applies.
pub const PREFERRED_DISTANCE: i64 = 5000;

/// Top steering speed (milli-units per time unit).
pub const GUY_MAX_SPEED: i64 = 10_000;

/// Acceleration cap (milli-units per time unit squared).
pub const GUY_ACCELERATION: i64 = 10_000;

/// Number of relaxation passes per tick.
pub const RELAX_PASSES: usize = 10;

/// Length of the integer vector `(dx, dy)`, rounded down.
pub open spec fn len2(dx: int, dy: int) -> int {
    sqrt_floor((dx * dx + dy * dy) as nat) as int
}

/// `(dx, dy)` rescaled to length `t` (zero stays zero), x coordinate.
pub open spec fn scale2_x(dx: int, dy: int, t: int) -> int {
    if dx == 0 && dy == 0 {
        0
    } else {
        spec_mul_div(dx, t, len2(dx, dy))
    }
}

/// `(dx, dy)` rescaled to length `t` (zero stays zero), y coordinate.
pub open spec fn scale2_y(dx: int, dy: int, t: int) -> int {
    if dx == 0 && dy == 0 {
        0
    } else {
        spec_mul_div(dy, t, len2(dx, dy))
    }
}

/// Rescale `d` to length `t`, rounding magnitudes down; the zero vector
/// stays put. Each coordinate of the result stays within `t`.
pub fn scale_to(d: Vec2Px, t: i64) -> (r: Vec2Px)
    requires
        d.bounded(crate::geom::GEOM_BOUND as int),
        0 <= t <= 1_000_000,
    ensures
        r.x == scale2_x(d.x as int, d.y as int, t as int),
        r.y == scale2_y(d.x as int, d.y as int, t as int),
        r.bounded(t as int),
{
    let len = d.len();
    if len == 0 {
        proof {
            crate::num::lemma_sqrt_floor_correct(d.norm_sq() as nat);
            assert(sqrt_floor(d.norm_sq() as nat) == 0);
            assert(d.norm_sq() >= 0) by (nonlinear_arith);
            let ghost n: int = d.norm_sq();
            assert(n < (0 + 1) * (0 + 1));
            assert(d.x == 0 && d.y == 0) by (nonlinear_arith)
                requires
                    n < (0 + 1) * (0 + 1),
                    n == d.x * d.x + d.y * d.y,
            ;
        }
        Vec2Px { x: 0, y: 0 }
    } else {
        proof {
            d.lemma_component_le_len();
            assert(-i64::MAX <= d.x * t <= i64::MAX && -i64::MAX <= d.y * t <= i64::MAX)
                by (nonlinear_arith)
                requires
                    -2_000_000_000 <= d.x <= 2_000_000_000,
                    -2_000_000_000 <= d.y <= 2_000_000_000,
                    0 <= t <= 1_000_000,
            ;
        }
        let rx = crate::num::mul_div_small(d.x, t, len);
        let ry = crate::num::mul_div_small(d.y, t, len);
        proof {
            assert(-t <= spec_mul_div(d.x as int, t as int, len as int) <= t && -t
                <= spec_mul_div(d.y as int, t as int, len as int) <= t) by (nonlinear_arith)
                requires
                    spec_mul_div(d.x as int, t as int, len as int) == (if d.x * t >= 0 {
                        (d.x * t) / (len as int)
                    } else {
                        -((-(d.x * t)) / (len as int))
                    }),
                    spec_mul_div(d.y as int, t as int, len as int) == (if d.y * t >= 0 {
                        (d.y * t) / (len as int)
                    } else {
                        -((-(d.y * t)) / (len as int))
                    }),
                    -len <= d.x <= len,
                    -len <= d.y <= len,
                    len >= 1,
                    t >= 0,
            ;
        }
        Vec2Px { x: rx, y: ry }
    }
}

/// The steered velocity for one combatant: head for the center at top
/// speed, tilted sideways by the wobble sample, accelerating from the
/// current velocity by at most the acceleration cap, then clamped to the
/// solver's velocity bounds.
pub open spec fn spec_steer(
    pos: Vec2Px,
    vel: Vec2Px,
    center: Vec2Px,
    wobble: int,
    dt: int,
) -> (int, int) {
    let dx = center.x - pos.x;
    let dy = center.y - pos.y;
    let tx = scale2_x(dx, dy, GUY_MAX_SPEED as int);
    let ty = scale2_y(dx, dy, GUY_MAX_SPEED as int);
    let t2x = tx + spec_mul_div(-ty, wobble, 1000);
    let t2y = ty + spec_mul_div(tx, wobble, 1000);
    let dvx = t2x - vel.x;
    let dvy = t2y - vel.y;
    let limit = spec_mul_div(GUY_ACCELERATION as int, dt, 1000);
    let sx = if len2(dvx, dvy) > limit {
        scale2_x(dvx, dvy, limit)
    } else {
        dvx
    };
    let sy = if len2(dvx, dvy) > limit {
        scale2_y(dvx, dvy, limit)
    } else {
        dvy
    };
    (
        spec_clamp(vel.x + sx, -VEL_LIMIT as int, VEL_LIMIT as int),
        spec_clamp(vel.y + sy, -VEL_LIMIT as int, VEL_LIMIT as int),
    )
}

/// Compute the steered velocity.
pub fn steer_one(pos: Vec2Px, vel: Vec2Px, center: Vec2Px, wobble: i64, dt: i64) -> (r: Vec2Px)
    requires
        pos.bounded(POS_LIMIT as int),
        vel.bounded(VEL_LIMIT as int),
        center.bounded(POS_LIMIT as int),
        -1000 <= wobble <= 1000,
        0 <= dt <= DT_LIMIT,
    ensures
        (r.x as int, r.y as int) == spec_steer(pos, vel, center, wobble as int, dt as int),
        r.bounded(VEL_LIMIT as int),
{
    let d = Vec2Px { x: center.x - pos.x, y: center.y - pos.y };
    let tv = scale_to(d, GUY_MAX_SPEED);
    let latx = crate::num::mul_div_small(-tv.y, wobble, 1000);
    let laty = crate::num::mul_div_small(tv.x, wobble, 1000);
    proof {
        crate::num::lemma_mul_div_bound(-(tv.y as int), wobble as int, 1000, GUY_MAX_SPEED as int);
        crate::num::lemma_mul_div_bound(tv.x as int, wobble as int, 1000, GUY_MAX_SPEED as int);
    }
    let t2 = Vec2Px { x: tv.x + latx, y: tv.y + laty };
    let dv = Vec2Px { x: t2.x - vel.x, y: t2.y - vel.y };
    let limit = crate::num::mul_div_small(GUY_ACCELERATION, dt, 1000);
    proof {
        crate::num::lemma_mul_div_bound(GUY_ACCELERATION as int, dt as int, 1000, GUY_ACCELERATION as int);
        crate::num::lemma_mul_div_nonneg(GUY_ACCELERATION as int, dt as int, 1000);
    }
    let dlen = dv.len();
    let step = if dlen > limit {
        scale_to(dv, limit)
    } else {
        dv
    };
    let rx = clamp64(vel.x + step.x, -VEL_LIMIT, VEL_LIMIT);
    let ry = clamp64(vel.y + step.y, -VEL_LIMIT, VEL_LIMIT);
    Vec2Px { x: rx, y: ry }
}

/// Position after integrating a velocity for `dt` thousandths, clamped to
/// the arena coordinate range.
pub open spec fn spec_integrate(pos: Vec2Px, vel: Vec2Px, dt: int) -> (int, int) {
    (
        spec_clamp(pos.x + spec_mul_div(vel.x as int, dt, 1000), -POS_LIMIT as int, POS_LIMIT as int),
        spec_clamp(pos.y + spec_mul_div(vel.y as int, dt, 1000), -POS_LIMIT as int, POS_LIMIT as int),
    )
}

/// Integrate one combatant's position.
pub fn integrate_one(pos: Vec2Px, vel: Vec2Px, dt: i64) -> (r: Vec2Px)
    requires
        pos.bounded(POS_LIMIT as int),
        vel.bounded(VEL_LIMIT as int),
        0 <= dt <= DT_LIMIT,
    ensures
        (r.x as int, r.y as int) == spec_integrate(pos, vel, dt as int),
        r.bounded(POS_LIMIT as int),
{
    let sx = crate::num::mul_div_small(vel.x, dt, 1000);
    let sy = crate::num::mul_div_small(vel.y, dt, 1000);
    proof {
        crate::num::lemma_mul_div_bound(vel.x as int, dt as int, 1000, VEL_LIMIT as int);
        crate::num::lemma_mul_div_bound(vel.y as int, dt as int, 1000, VEL_LIMIT as int);
    }
    Vec2Px {
        x: clamp64(pos.x + sx, -POS_LIMIT, POS_LIMIT),
        y: clamp64(pos.y + sy, -POS_LIMIT, POS_LIMIT),
    }
}

/// The half-overlap push that separates a pair closer than the minimum
/// distance: along their separation axis, half of what is missing.
pub fn pair_push(delta: Vec2Px, len: i64) -> (r: Vec2Px)
    requires
        delta.bounded(crate::geom::GEOM_BOUND as int),
        len == delta.spec_len(),
        0 <= len < MIN_DISTANCE,
    ensures
        r.x == scale2_x(delta.x as int, delta.y as int, (MIN_DISTANCE - len) / 2),
        r.y == scale2_y(delta.x as int, delta.y as int, (MIN_DISTANCE - len) / 2),
        r.bounded(MIN_DISTANCE as int),
{
    let half = (MIN_DISTANCE - len) / 2;
    scale_to(delta, half)
}

/// Velocity after zeroing the inward component along the (milli-scaled)
/// separation axis `u`, clamped to the solver's bounds.
pub open spec fn spec_damp(vel: Vec2Px, u: Vec2Px) -> (int, int) {
    let dm = vel.x * u.x + vel.y * u.y;
    (
        spec_clamp(vel.x - spec_mul_div(u.x as int, dm, 1_000_000), -VEL_LIMIT as int, VEL_LIMIT as int),
        spec_clamp(vel.y - spec_mul_div(u.y as int, dm, 1_000_000), -VEL_LIMIT as int, VEL_LIMIT as int),
    )
}

/// Zero the velocity component along the separation axis.
pub fn damp_inward(vel: Vec2Px, u: Vec2Px) -> (r: Vec2Px)
    requires
        vel.bounded(VEL_LIMIT as int),
        u.bounded(1000),
    ensures
        (r.x as int, r.y as int) == spec_damp(vel, u),
        r.bounded(VEL_LIMIT as int),
{
    let dm = vel.dot(u);
    proof {
        assert(-2_000_000_000 <= dm <= 2_000_000_000 && -i64::MAX <= u.x * dm <= i64::MAX
            && -i64::MAX <= u.y * dm <= i64::MAX) by (nonlinear_arith)
            requires
                dm == vel.x * u.x + vel.y * u.y,
                vel.bounded(VEL_LIMIT as int),
                u.bounded(1000),
                VEL_LIMIT == 1_000_000i64,
        ;
        crate::num::lemma_mul_div_general(u.x as int, dm as int, 1_000_000, 1000, 2_000_000_000);
        crate::num::lemma_mul_div_general(u.y as int, dm as int, 1_000_000, 1000, 2_000_000_000);
    }
    let ax = mul_div(u.x, dm, 1_000_000);
    let ay = mul_div(u.y, dm, 1_000_000);
    Vec2Px {
        x: clamp64(vel.x - ax, -VEL_LIMIT, VEL_LIMIT),
        y: clamp64(vel.y - ay, -VEL_LIMIT, VEL_LIMIT),
    }
}

/// Velocity after one cohesion spring impulse toward a neighbour at gap
/// `gap` along the (milli-scaled) separation axis `u` (which points away
/// from the neighbour), with spring gain `k`: a mild attraction, not a push.
pub open spec fn spec_spring(vel: Vec2Px, u: Vec2Px, gap: int, k: int) -> (int, int) {
    let f = spec_mul_div(gap, k, 1);
    (
        spec_clamp(vel.x - spec_mul_div(f, u.x as int, 1_000_000), -VEL_LIMIT as int, VEL_LIMIT as int),
        spec_clamp(vel.y - spec_mul_div(f, u.y as int, 1_000_000), -VEL_LIMIT as int, VEL_LIMIT as int),
    )
}

/// Apply the cohesion spring impulse.
pub fn spring_pull(vel: Vec2Px, u: Vec2Px, gap: i64, k: i64) -> (r: Vec2Px)
    requires
        vel.bounded(VEL_LIMIT as int),
        u.bounded(1000),
        0 <= gap <= PREFERRED_DISTANCE,
        0 <= k <= 1000,
    ensures
        (r.x as int, r.y as int) == spec_spring(vel, u, gap as int, k as int),
        r.bounded(VEL_LIMIT as int),
{
    let f = crate::num::mul_div_small(gap, k, 1);
    proof {
        crate::num::lemma_mul_div_general(gap as int, k as int, 1, PREFERRED_DISTANCE as int, 1000);
        crate::num::lemma_mul_div_nonneg(gap as int, k as int, 1);
        crate::num::lemma_mul_div_general(f as int, u.x as int, 1_000_000, 5_000_000, 1000);
        crate::num::lemma_mul_div_general(f as int, u.y as int, 1_000_000, 5_000_000, 1000);
    }
    let ax = crate::num::mul_div_small(f, u.x, 1_000_000);
    let ay = crate::num::mul_div_small(f, u.y, 1_000_000);
    Vec2Px {
        x: clamp64(vel.x - ax, -VEL_LIMIT, VEL_LIMIT),
        y: clamp64(vel.y - ay, -VEL_LIMIT, VEL_LIMIT),
    }
}


/// A vector from spec-level coordinates (always produced within range).
pub open spec fn vec2_from(x: int, y: int) -> Vec2Px {
    Vec2Px { x: x as i64, y: y as i64 }
}

/// The arena center the solver steers toward: the spawn-weighted average.
pub open spec fn spec_center(s: Seq<Combatant>) -> Vec2Px {
    vec2_from(
        crate::arena::div_trunc(crate::arena::weighted_x(s), crate::arena::spawn_total(s)),
        crate::arena::div_trunc(crate::arena::weighted_y(s), crate::arena::spawn_total(s)),
    )
}

/// Every velocity steered, positions untouched.
pub open spec fn steer_phase(
    s: Seq<Combatant>,
    center: Vec2Px,
    wobble: Seq<i64>,
    dt: int,
) -> Seq<Combatant> {
    Seq::new(
        s.len(),
        |i: int|
            Combatant {
                velocity: {
                    let v = spec_steer(s[i].position, s[i].velocity, center, wobble[i] as int, dt);
                    vec2_from(v.0, v.1)
                },
                ..s[i]
            },
    )
}

/// Every position integrated, velocities untouched.
pub open spec fn integrate_phase(s: Seq<Combatant>, dt: int) -> Seq<Combatant> {
    Seq::new(
        s.len(),
        |i: int|
            Combatant {
                position: {
                    let p = spec_integrate(s[i].position, s[i].velocity, dt);
                    vec2_from(p.0, p.1)
                },
                ..s[i]
            },
    )
}

/// One neighbour's effect on a velocity: axis damping inside the minimum
/// distance, the cohesion spring inside the preferred distance, else none.
pub open spec fn pair_vel(vel: Vec2Px, pi: Vec2Px, pj: Vec2Px, k: int) -> Vec2Px {
    let dx = pi.x - pj.x;
    let dy = pi.y - pj.y;
    let l = len2(dx, dy);
    let u = vec2_from(scale2_x(dx, dy, 1000), scale2_y(dx, dy, 1000));
    if l < MIN_DISTANCE {
        let d = spec_damp(vel, u);
        vec2_from(d.0, d.1)
    } else if l < PREFERRED_DISTANCE {
        let sp = spec_spring(vel, u, PREFERRED_DISTANCE - l, k);
        vec2_from(sp.0, sp.1)
    } else {
        vel
    }
}

/// Combatant `i`'s velocity after meeting the neighbours below `m`, in
/// registry order.
pub open spec fn vel_row(s: Seq<Combatant>, i: int, m: int, k: int) -> Vec2Px
    decreases m,
{
    if m <= 0 {
        s[i].velocity
    } else {
        let prev = vel_row(s, i, m - 1, k);
        if m - 1 == i {
            prev
        } else {
            pair_vel(prev, s[i].position, s[m - 1].position, k)
        }
    }
}

/// The half-overlap pushes combatant `i` collects against the neighbours
/// below `m`, in order.
pub open spec fn moves_row(s: Seq<Combatant>, i: int, m: int) -> Seq<(int, Vec2Px)>
    decreases m,
{
    if m <= 0 {
        Seq::empty()
    } else {
        let rest = moves_row(s, i, m - 1);
        let j = m - 1;
        if j == i {
            rest
        } else {
            let dx = s[i].position.x - s[j].position.x;
            let dy = s[i].position.y - s[j].position.y;
            let l = len2(dx, dy);
            if l < MIN_DISTANCE {
                rest.push(
                    (
                        i,
                        vec2_from(
                            scale2_x(dx, dy, (MIN_DISTANCE - l) / 2),
                            scale2_y(dx, dy, (MIN_DISTANCE - l) / 2),
                        ),
                    ),
                )
            } else {
                rest
            }
        }
    }
}

/// All velocities after one pass of neighbour interactions.
pub open spec fn vels_pass(s: Seq<Combatant>, k: int) -> Seq<Combatant> {
    Seq::new(
        s.len(),
        |i: int| Combatant { velocity: vel_row(s, i, s.len() as int, k), ..s[i] },
    )
}

/// The pushes of the rows below `m`, concatenated in row order.
pub open spec fn moves_pass(s: Seq<Combatant>, m: int) -> Seq<(int, Vec2Px)>
    decreases m,
{
    if m <= 0 {
        Seq::empty()
    } else {
        moves_pass(s, m - 1) + moves_row(s, m - 1, s.len() as int)
    }
}

/// Apply the collected pushes in order, clamping to the coordinate range.
pub open spec fn apply_moves(s: Seq<Combatant>, mv: Seq<(int, Vec2Px)>) -> Seq<Combatant>
    decreases mv.len(),
{
    if mv.len() == 0 {
        s
    } else {
        let s2 = apply_moves(s, mv.drop_last());
        let idx = mv.last().0;
        let m = mv.last().1;
        if 0 <= idx < s2.len() {
            s2.update(
                idx,
                Combatant {
                    position: vec2_from(
                        spec_clamp(s2[idx].position.x + m.x, -POS_LIMIT as int, POS_LIMIT as int),
                        spec_clamp(s2[idx].position.y + m.y, -POS_LIMIT as int, POS_LIMIT as int),
                    ),
                    ..s2[idx]
                },
            )
        } else {
            s2
        }
    }
}

/// One relaxation pass: velocities from the neighbour interactions, then
/// the half-overlap pushes in order.
pub open spec fn relax_pass(s: Seq<Combatant>, k: int) -> Seq<Combatant> {
    apply_moves(vels_pass(s, k), moves_pass(s, s.len() as int))
}

/// The relaxation passes, iterated.
pub open spec fn relax_n(s: Seq<Combatant>, k: int, n: nat) -> Seq<Combatant>
    decreases n,
{
    if n == 0 {
        s
    } else {
        relax_pass(relax_n(s, k, (n - 1) as nat), k)
    }
}

/// The whole movement tick: nothing while no spawn weight exists; otherwise
/// steer, integrate, then relax.
pub open spec fn movement_spec(s: Seq<Combatant>, wobble: Seq<i64>, dt: int, k: int) -> Seq<
    Combatant,
> {
    if crate::arena::spawn_total(s) == 0 {
        s
    } else {
        relax_n(
            integrate_phase(steer_phase(s, spec_center(s), wobble, dt), dt),
            k,
            RELAX_PASSES as nat,
        )
    }
}

/// The owned move list mirrors the spec-level one.
pub open spec fn moves_match(mv: Seq<(usize, Vec2Px)>, sp: Seq<(int, Vec2Px)>) -> bool {
    &&& mv.len() == sp.len()
    &&& forall|m: int|
        0 <= m < mv.len() ==> (#[trigger] mv[m]).0 == sp[m].0 && mv[m].1 == sp[m].1
}

/// Everything but position and velocity agrees between two combatants.
pub open spec fn same_identity(a: Combatant, b: Combatant) -> bool {
    &&& a.id == b.id
    &&& a.name == b.name
    &&& a.health == b.health
    &&& a.max_health == b.max_health
    &&& a.skin == b.skin
    &&& a.spawn == b.spawn
    &&& a.should_never_win == b.should_never_win
}

/// Everything but the skin agrees between two combatants.
pub open spec fn same_identity_but_skin(a: Combatant, b: Combatant) -> bool {
    &&& a.id == b.id
    &&& a.name == b.name
    &&& a.health == b.health
    &&& a.max_health == b.max_health
    &&& a.spawn == b.spawn
    &&& a.should_never_win == b.should_never_win
    &&& a.position == b.position
    &&& a.velocity == b.velocity
}

impl State {
    /// One movement tick: steer everyone toward the arena center with the
    /// supplied per-combatant wobble samples, integrate positions, then run
    /// the relaxation passes. While no combatant has any spawn weight the
    /// arena center is undefined and nothing moves. Only positions and
    /// velocities change; identity, health and cosmetics stay.
    pub fn process_movement(&mut self, delta_time: i64, wobble: &Vec<i64>)
        requires
            old(self).wf(),
            0 <= delta_time <= DT_LIMIT,
            wobble@.len() == old(self).guys@.len(),
            forall|i: int| 0 <= i < wobble@.len() ==> -1000 <= #[trigger] wobble@[i] <= 1000,
        ensures
            final(self).wf(),
            final(self).guys@ == movement_spec(
                old(self).guys@,
                wobble@,
                delta_time as int,
                old(self).constants.preferred_distance_spring_k as int,
            ),
            final(self).guys@.len() == old(self).guys@.len(),
            forall|i: int|
                0 <= i < old(self).guys@.len() ==> same_identity(
                    #[trigger] final(self).guys@[i],
                    old(self).guys@[i],
                ),
            crate::arena::spawn_total(old(self).guys@) == 0 ==> final(self).guys@ == old(
                self,
            ).guys@,
            final(self).frame_eq(*old(self)),
            final(self).queued_attack == old(self).queued_attack,
            final(self).attacks@ == old(self).attacks@,
            final(self).next_attack == old(self).next_attack,
            final(self).feed == old(self).feed,
            final(self).signals@ == old(self).signals@,
    {
        let ghost g0 = self.guys@;
        let ghost dts: int = delta_time as int;
        let center = match find_circle(&self.guys) {
            Option::None => {
                return ;
            },
            Option::Some(c) => c.center,
        };
        proof {
            assert(center == spec_center(g0));
        }
        let n = self.guys.len();
        let k = self.constants.preferred_distance_spring_k;
        let ghost ks: int = k as int;
        let ghost s1 = steer_phase(g0, center, wobble@, dts);
        // Steering.
        let mut i: usize = 0;
        while i < n
            invariant
                old(self).wf(),
                g0 == old(self).guys@,
                s1 == steer_phase(g0, center, wobble@, dts),
                dts == delta_time as int,
                n == g0.len(),
                0 <= i <= n,
                self.guys.wf(),
                self.guys@.len() == n,
                center.bounded(POS_LIMIT as int),
                wobble@.len() == n,
                forall|j: int| 0 <= j < n ==> -1000 <= #[trigger] wobble@[j] <= 1000,
                0 <= delta_time <= DT_LIMIT,
                forall|j: int| 0 <= j < i ==> #[trigger] self.guys@[j] == s1[j],
                forall|j: int| i <= j < n ==> #[trigger] self.guys@[j] == g0[j],
                forall|j: int|
                    0 <= j < n ==> same_identity(#[trigger] self.guys@[j], g0[j])
                        && self.guys@[j].position == g0[j].position,
                self.frame_eq(*old(self)),
                self.queued_attack == old(self).queued_attack,
                self.attacks@ == old(self).attacks@,
                self.next_attack == old(self).next_attack,
                self.feed == old(self).feed,
                self.signals@ == old(self).signals@,
            decreases n - i,
        {
            let guy = self.guys.get(i);
            let nv = steer_one(guy.position, guy.velocity, center, wobble[i], delta_time);
            let mut updated = guy.duplicate();
            updated.velocity = nv;
            self.guys.set_at(i, updated);
            proof {
                assert(self.guys@[i as int] == s1[i as int]);
            }
            i += 1;
        }
        proof {
            assert(self.guys@ =~= s1);
        }
        // Integration.
        let ghost s2 = integrate_phase(s1, dts);
        let mut i: usize = 0;
        while i < n
            invariant
                old(self).wf(),
                g0 == old(self).guys@,
                s2 == integrate_phase(s1, dts),
                dts == delta_time as int,
                n == g0.len(),
                n == s1.len(),
                0 <= i <= n,
                self.guys.wf(),
                self.guys@.len() == n,
                0 <= delta_time <= DT_LIMIT,
                forall|j: int| 0 <= j < i ==> #[trigger] self.guys@[j] == s2[j],
                forall|j: int| i <= j < n ==> #[trigger] self.guys@[j] == s1[j],
                forall|j: int| 0 <= j < n ==> same_identity(#[trigger] self.guys@[j], g0[j]),
                self.frame_eq(*old(self)),
                self.queued_attack == old(self).queued_attack,
                self.attacks@ == old(self).attacks@,
                self.next_attack == old(self).next_attack,
                self.feed == old(self).feed,
                self.signals@ == old(self).signals@,
            decreases n - i,
        {
            let guy = self.guys.get(i);
            let np = integrate_one(guy.position, guy.velocity, delta_time);
            let mut updated = guy.duplicate();
            updated.position = np;
            self.guys.set_at(i, updated);
            proof {
                assert(self.guys@[i as int] == s2[i as int]);
            }
            i += 1;
        }
        proof {
            assert(self.guys@ =~= s2);
        }
        // Relaxation passes.
        let mut pass: usize = 0;
        while pass < RELAX_PASSES
            invariant
                old(self).wf(),
                g0 == old(self).guys@,
                ks == k as int,
                n == g0.len(),
                0 <= pass <= RELAX_PASSES,
                self.guys.wf(),
                self.guys@.len() == n,
                0 <= k <= 1000,
                k == self.constants.preferred_distance_spring_k,
                self.guys@ == relax_n(s2, ks, pass as nat),
                forall|j: int| 0 <= j < n ==> same_identity(#[trigger] self.guys@[j], g0[j]),
                self.frame_eq(*old(self)),
                self.queued_attack == old(self).queued_attack,
                self.attacks@ == old(self).attacks@,
                self.next_attack == old(self).next_attack,
                self.feed == old(self).feed,
                self.signals@ == old(self).signals@,
            decreases RELAX_PASSES - pass,
        {
            let ghost sp = self.guys@;
            let mut moves: Vec<(usize, Vec2Px)> = Vec::new();
            let mut i: usize = 0;
            proof {
                assert(moves_pass(sp, 0) =~= Seq::<(int, Vec2Px)>::empty());
            }
            while i < n
                invariant
                    old(self).wf(),
                    g0 == old(self).guys@,
                    sp == relax_n(s2, ks, pass as nat),
                    ks == k as int,
                    n == g0.len(),
                    n == sp.len(),
                    0 <= i <= n,
                    self.guys.wf(),
                    self.guys@.len() == n,
                    0 <= k <= 1000,
                    k == self.constants.preferred_distance_spring_k,
                    forall|j: int|
                        0 <= j < i ==> #[trigger] self.guys@[j] == (Combatant {
                            velocity: vel_row(sp, j, n as int, ks),
                            ..sp[j]
                        }),
                    forall|j: int| i <= j < n ==> #[trigger] self.guys@[j] == sp[j],
                    moves_match(moves@, moves_pass(sp, i as int)),
                    forall|j: int| 0 <= j < n ==> same_identity(#[trigger] self.guys@[j], g0[j]),
                    forall|m: int|
                        0 <= m < moves@.len() ==> (#[trigger] moves@[m]).0 < n
                            && moves@[m].1.bounded(MIN_DISTANCE as int),
                    self.frame_eq(*old(self)),
                    self.queued_attack == old(self).queued_attack,
                    self.attacks@ == old(self).attacks@,
                    self.next_attack == old(self).next_attack,
                    self.feed == old(self).feed,
                    self.signals@ == old(self).signals@,
                decreases n - i,
            {
                let mut vel = self.guys.get(i).velocity;
                let pos = self.guys.get(i).position;
                let ghost mrow0 = moves@;
                let mut j: usize = 0;
                while j < n
                    invariant
                        old(self).wf(),
                        g0 == old(self).guys@,
                        sp == relax_n(s2, ks, pass as nat),
                        ks == k as int,
                        n == g0.len(),
                        n == sp.len(),
                        0 <= i < n,
                        0 <= j <= n,
                        self.guys.wf(),
                        self.guys@.len() == n,
                        0 <= k <= 1000,
                        pos == sp[i as int].position,
                        pos == self.guys@[i as int].position,
                        vel == vel_row(sp, i as int, j as int, ks),
                        vel.bounded(VEL_LIMIT as int),
                        forall|q: int|
                            0 <= q < i ==> #[trigger] self.guys@[q] == (Combatant {
                                velocity: vel_row(sp, q, n as int, ks),
                                ..sp[q]
                            }),
                        forall|q: int| i <= q < n ==> #[trigger] self.guys@[q] == sp[q],
                        moves_match(
                            moves@,
                            moves_pass(sp, i as int) + moves_row(sp, i as int, j as int),
                        ),
                        forall|m: int|
                            0 <= m < n ==> same_identity(#[trigger] self.guys@[m], g0[m]),
                        forall|m: int|
                            0 <= m < moves@.len() ==> (#[trigger] moves@[m]).0 < n
                                && moves@[m].1.bounded(MIN_DISTANCE as int),
                    decreases n - j,
                {
                    if j != i {
                        let other = self.guys.get(j).position;
                        proof {
                            assert(other == sp[j as int].position);
                        }
                        let delta = pos.minus(other);
                        let len = delta.len();
                        if len < MIN_DISTANCE {
                            let mv = pair_push(delta, len);
                            moves.push((i, mv));
                            let u = scale_to(delta, 1000);
                            vel = damp_inward(vel, u);
                            proof {
                                assert(vel == vel_row(sp, i as int, j + 1, ks));
                                assert(moves_match(
                                    moves@,
                                    moves_pass(sp, i as int) + moves_row(sp, i as int, j + 1),
                                ));
                            }
                        } else if len < PREFERRED_DISTANCE {
                            let u = scale_to(delta, 1000);
                            vel = spring_pull(vel, u, PREFERRED_DISTANCE - len, k);
                            proof {
                                assert(vel == vel_row(sp, i as int, j + 1, ks));
                                assert(moves_row(sp, i as int, j + 1) =~= moves_row(
                                    sp,
                                    i as int,
                                    j as int,
                                ));
                            }
                        } else {
                            proof {
                                assert(vel == vel_row(sp, i as int, j + 1, ks));
                                assert(moves_row(sp, i as int, j + 1) =~= moves_row(
                                    sp,
                                    i as int,
                                    j as int,
                                ));
                            }
                        }
                    } else {
                        proof {
                            assert(vel == vel_row(sp, i as int, j + 1, ks));
                            assert(moves_row(sp, i as int, j + 1) =~= moves_row(
                                sp,
                                i as int,
                                j as int,
                            ));
                        }
                    }
                    j += 1;
                }
                let mut updated = self.guys.get(i).duplicate();
                updated.velocity = vel;
                self.guys.set_at(i, updated);
                proof {
                    assert(moves_row(sp, i + 1 as int, 0) =~= Seq::<(int, Vec2Px)>::empty());
                    assert(moves_pass(sp, i + 1) == moves_pass(sp, i as int) + moves_row(
                        sp,
                        i as int,
                        n as int,
                    ));
                }
                i += 1;
            }
            // Apply the collected half-overlap pushes.
            let ghost vp = vels_pass(sp, ks);
            let ghost msp = moves_pass(sp, n as int);
            proof {
                assert(self.guys@ =~= vp);
                assert(msp.take(0) =~= Seq::<(int, Vec2Px)>::empty());
            }
            let nm = moves.len();
            let mut m: usize = 0;
            while m < nm
                invariant
                    old(self).wf(),
                    g0 == old(self).guys@,
                    sp == relax_n(s2, ks, pass as nat),
                    vp == vels_pass(sp, ks),
                    msp == moves_pass(sp, n as int),
                    moves_match(moves@, msp),
                    ks == k as int,
                    n == g0.len(),
                    0 <= m <= nm,
                    nm == moves@.len(),
                    self.guys.wf(),
                    self.guys@.len() == n,
                    k == self.constants.preferred_distance_spring_k,
                    self.guys@ == apply_moves(vp, msp.take(m as int)),
                    self.frame_eq(*old(self)),
                    self.queued_attack == old(self).queued_attack,
                    self.attacks@ == old(self).attacks@,
                    self.next_attack == old(self).next_attack,
                    self.feed == old(self).feed,
                    self.signals@ == old(self).signals@,
                    forall|q: int|
                        0 <= q < moves@.len() ==> (#[trigger] moves@[q]).0 < n
                            && moves@[q].1.bounded(MIN_DISTANCE as int),
                    forall|q: int| 0 <= q < n ==> same_identity(#[trigger] self.guys@[q], g0[q]),
                decreases nm - m,
            {
                let ghost pre = msp.take(m as int);
                let ghost cur = msp.take(m + 1);
                proof {
                    assert(cur.drop_last() =~= pre);
                    assert(cur.last() == msp[m as int]);
                }
                let (idx, mv) = moves[m];
                let guy = self.guys.get(idx);
                let np = Vec2Px {
                    x: clamp64(guy.position.x + mv.x, -POS_LIMIT, POS_LIMIT),
                    y: clamp64(guy.position.y + mv.y, -POS_LIMIT, POS_LIMIT),
                };
                let mut updated = guy.duplicate();
                updated.position = np;
                self.guys.set_at(idx, updated);
                proof {
                    assert(self.guys@ == apply_moves(vp, cur));
                }
                m += 1;
            }
            proof {
                assert(msp.take(nm as int) =~= msp);
                assert(self.guys@ == relax_pass(sp, ks));
                assert(relax_n(s2, ks, (pass + 1) as nat) == relax_pass(
                    relax_n(s2, ks, pass as nat),
                    ks,
                ));
            }
            pass += 1;
        }
        proof {
            assert(self.guys@ == movement_spec(g0, wobble@, dts, ks));
            assert forall|j: int| 0 <= j < self.guys@.len() implies count_on_ok(
                *self,
                g0,
                j,
            ) by {
                assert(same_identity(self.guys@[j], g0[j]));
            }
        }
    }
}

/// The damage-count invariant for one registry slot, after movement.
pub open spec fn count_on_ok(w: State, g0: Seq<Combatant>, j: int) -> bool {
    crate::world::count_on(w.attacks@, w.guys@[j].id) <= w.guys@[j].health
        && w.guys@[j].id < w.next_id && w.guys@[j].health >= 1
}


} // verus!
