//! Spawning a combatant: level-scaled health from persistence, a cached or
//! freshly randomized skin, and a spawn point sampled on the arena's outer
//! ring, keeping the candidate farthest from everyone already standing
//! among those that respect the minimum separation, with a plain ring point
//! as the fallback.
use vstd::prelude::*;
use crate::arena::Circle;
use crate::combatant::{Combatant, POS_LIMIT};
use crate::db::{game_link_of, game_played_of, level_of, skin_of};
use crate::geom::Vec2Px;
use crate::num::clamp64;
use crate::registry::has_name;
use crate::rng::rng_below;
use crate::skin::{list_has_str, Skin};
use crate::world::{Constants, State, GUYS_LIMIT};

verus! {

/// Squared minimum separation (milli-units squared).
pub const MIN_SEPARATION_SQ: i64 = 4_000_000;

/// Stands for "no neighbour at all": farther than any real squared distance.
pub const FAR_SQ: i64 = 9_000_000_000_000_000_000;

/// How many ring candidates one spawn draws.
pub const SPAWN_CANDIDATES: usize = 50;

/// Squared distance from `c` to the nearest occupied position.
pub open spec fn min_dist_sq(c: Vec2Px, s: Seq<Combatant>) -> int
    decreases s.len(),
{
    if s.len() == 0 {
        FAR_SQ as int
    } else {
        let rest = min_dist_sq(c, s.drop_last());
        let g = s.last();
        let dx = c.x - g.position.x;
        let dy = c.y - g.position.y;
        let d = dx * dx + dy * dy;
        if d < rest {
            d
        } else {
            rest
        }
    }
}

/// `c` keeps the minimum separation from everyone.
pub open spec fn sep_ok(c: Vec2Px, s: Seq<Combatant>) -> bool {
    min_dist_sq(c, s) >= MIN_SEPARATION_SQ
}

/// Compute the squared distance to the nearest occupied position.
fn eval_min_dist(c: Vec2Px, guys: &crate::registry::Registry) -> (r: i64)
    requires
        guys.wf(),
        c.bounded(POS_LIMIT as int),
    ensures
        r == min_dist_sq(c, guys@),
{
    let n = guys.len();
    let mut best: i64 = FAR_SQ;
    let mut i: usize = 0;
    proof {
        assert(guys@.subrange(0, 0) =~= Seq::<Combatant>::empty());
    }
    while i < n
        invariant
            guys.wf(),
            c.bounded(POS_LIMIT as int),
            n == guys@.len(),
            0 <= i <= n,
            best == min_dist_sq(c, guys@.subrange(0, i as int)),
        decreases n - i,
    {
        let ghost cur = guys@.subrange(0, i + 1);
        proof {
            assert(cur.drop_last() =~= guys@.subrange(0, i as int));
            assert(cur.last() == guys@[i as int]);
        }
        let d = c.dist_sq(guys.get(i).position);
        proof {
            let gp = guys@[i as int].position;
            assert(d <= 8_000_000_000_000_000_000) by (nonlinear_arith)
                requires
                    d == (c.x - gp.x) * (c.x - gp.x) + (c.y - gp.y) * (c.y - gp.y),
                    -2_000_000_000 <= c.x - gp.x <= 2_000_000_000,
                    -2_000_000_000 <= c.y - gp.y <= 2_000_000_000,
            ;
        }
        if (d as i64) < best {
            best = d as i64;
        }
        i += 1;
    }
    proof {
        assert(guys@.subrange(0, n as int) =~= guys@);
    }
    best
}

/// Among the candidates that respect the minimum separation, the first one
/// farthest from its nearest neighbour; nothing when no candidate does.
pub fn best_candidate(cands: &Vec<Vec2Px>, guys: &crate::registry::Registry) -> (r: Option<usize>)
    requires
        guys.wf(),
        forall|i: int| 0 <= i < cands@.len() ==> (#[trigger] cands@[i]).bounded(POS_LIMIT as int),
    ensures
        match r {
            Option::Some(i) => {
                &&& i < cands@.len()
                &&& sep_ok(cands@[i as int], guys@)
                &&& forall|j: int|
                    0 <= j < cands@.len() && sep_ok(#[trigger] cands@[j], guys@) ==> min_dist_sq(
                        cands@[j],
                        guys@,
                    ) < min_dist_sq(cands@[i as int], guys@) || (min_dist_sq(cands@[j], guys@)
                        == min_dist_sq(cands@[i as int], guys@) && i <= j)
            },
            Option::None => forall|i: int| 0 <= i < cands@.len() ==> !sep_ok(#[trigger] cands@[i], guys@),
        },
{
    let n = cands.len();
    let mut best: Option<usize> = Option::None;
    let mut best_score: i64 = 0;
    let mut i: usize = 0;
    while i < n
        invariant
            guys.wf(),
            n == cands@.len(),
            forall|q: int| 0 <= q < n ==> (#[trigger] cands@[q]).bounded(POS_LIMIT as int),
            0 <= i <= n,
            match best {
                Option::Some(b) => {
                    &&& b < i
                    &&& sep_ok(cands@[b as int], guys@)
                    &&& best_score == min_dist_sq(cands@[b as int], guys@)
                    &&& forall|j: int|
                        0 <= j < i && sep_ok(#[trigger] cands@[j], guys@) ==> min_dist_sq(
                            cands@[j],
                            guys@,
                        ) < best_score || (min_dist_sq(cands@[j], guys@) == best_score && b <= j)
                },
                Option::None => forall|j: int|
                    0 <= j < i ==> !sep_ok(#[trigger] cands@[j], guys@),
            },
        decreases n - i,
    {
        let score = eval_min_dist(cands[i], guys);
        if score >= MIN_SEPARATION_SQ {
            match best {
                Option::Some(_) => {
                    if score > best_score {
                        best = Option::Some(i);
                        best_score = score;
                    }
                },
                Option::None => {
                    best = Option::Some(i);
                    best_score = score;
                },
            }
        }
        i += 1;
    }
    best
}

/// A point on the arena circle's ring in a random direction, clamped to the
/// coordinate range.
fn ring_point(rng: &mut rand::rngs::StdRng, circle: &Circle) -> (r: Vec2Px)
    requires
        circle.wf(),
    ensures
        r.bounded(POS_LIMIT as int),
{
    let dx = rng_below(rng, 2001) as i64 - 1000;
    let dy = rng_below(rng, 2001) as i64 - 1000;
    let dir = Vec2Px { x: dx, y: dy };
    let offset = crate::movement::scale_to(dir, if circle.radius > 1_000_000 {
        1_000_000
    } else {
        circle.radius
    });
    Vec2Px {
        x: clamp64(circle.center.x + offset.x, -POS_LIMIT, POS_LIMIT),
        y: clamp64(circle.center.y + offset.y, -POS_LIMIT, POS_LIMIT),
    }
}

/// Health a freshly spawned combatant gets at this level: the base health
/// plus the per-level bonus past level one, saturating.
pub open spec fn spec_spawn_health(level: int, c: Constants) -> int {
    let l = if level >= 1 {
        level
    } else {
        1
    };
    let bonus = if c.extra_health_per_level * (l - 1) <= usize::MAX {
        c.extra_health_per_level * (l - 1)
    } else {
        usize::MAX as int
    };
    if c.initial_health + bonus <= usize::MAX {
        c.initial_health + bonus
    } else {
        usize::MAX as int
    }
}

impl State {
    /// The cached skin for `name`, or a random one (with the fixed custom
    /// override, if the assets name one), recorded back when asked to.
    pub fn find_skin(&mut self, name: &str, insert_if_absent: bool) -> (r: Skin)
        requires
            old(self).wf(),
        ensures
            final(self).wf(),
            final(self).guys@ == old(self).guys@,
            final(self).attacks@ == old(self).attacks@,
            final(self).queued_attack == old(self).queued_attack,
            final(self).next_attack == old(self).next_attack,
            final(self).next_id == old(self).next_id,
            final(self).idle == old(self).idle,
            final(self).process_battle == old(self).process_battle,
            final(self).outbox@ == old(self).outbox@,
            final(self).signals@ == old(self).signals@,
            final(self).circle == old(self).circle,
            final(self).constants == old(self).constants,
            final(self).skin_options == old(self).skin_options,
            final(self).time == old(self).time,
            final(self).winning_screen == old(self).winning_screen,
            final(self).raffle_mode == old(self).raffle_mode,
            final(self).raffle_keyword == old(self).raffle_keyword,
            final(self).delayed_messages@ == old(self).delayed_messages@,
            final(self).feed == old(self).feed,
            match skin_of(old(self).db@, name@) {
                Option::Some(s) => r == s && final(self).db@ == old(self).db@,
                Option::None => {
                    &&& list_has_str(old(self).skin_options.face@, r.face@)
                    &&& list_has_str(old(self).skin_options.hat@, r.hat@)
                    &&& list_has_str(old(self).skin_options.robe@, r.robe@)
                    &&& list_has_str(old(self).skin_options.beard@, r.beard@)
                    &&& ((exists|i: int|
                        0 <= i < old(self).skin_options.custom_map@.len() && (#[trigger] old(
                            self,
                        ).skin_options.custom_map@[i]).0@ == name@) ==> (r.custom matches Option::Some(c)
                        && exists|i: int|
                            0 <= i < old(self).skin_options.custom_map@.len() && (#[trigger] old(
                                self,
                            ).skin_options.custom_map@[i]).0@ == name@ && old(
                                self,
                            ).skin_options.custom_map@[i].1@ == c@))
                    &&& ((forall|i: int|
                        0 <= i < old(self).skin_options.custom_map@.len() ==> (#[trigger] old(
                            self,
                        ).skin_options.custom_map@[i]).0@ != name@) ==> r.custom is None)
                    &&& if insert_if_absent {
                        skin_of(final(self).db@, name@) == Option::Some(r)
                    } else {
                        final(self).db@ == old(self).db@
                    }
                },
            },
            forall|n2: Seq<char>|
                n2 != name@ ==> crate::db::find_row_spec(final(self).db@, n2)
                    == crate::db::find_row_spec(old(self).db@, n2),
            level_of(final(self).db@, name@) == level_of(old(self).db@, name@),
            game_link_of(final(self).db@, name@) == game_link_of(old(self).db@, name@),
            game_played_of(final(self).db@, name@) == game_played_of(old(self).db@, name@),
    {
        match self.db.find_skin(name) {
            Option::Some(s) => s,
            Option::None => {
                let mut skin = Skin::random(&mut self.rng, &self.skin_options);
                match self.skin_options.custom_for(name) {
                    Option::Some(c) => {
                        skin.custom = Option::Some(c);
                    },
                    Option::None => {},
                }
                if insert_if_absent {
                    self.db.set_skin(name, &skin);
                    let out = skin.duplicate();
                    return out;
                }
                skin
            },
        }
    }

    /// Create a combatant for `name`: level-scaled health from persistence,
    /// a cached or random skin, a ring spawn point respecting separation
    /// when one can be found, and the caller's curse policy. A name that
    /// already fights is left alone: live names stay unique.
    pub fn spawn_guy(&mut self, name: &str, random: bool)
        requires
            old(self).wf(),
            old(self).next_id < i32::MAX,
            old(self).guys@.len() < GUYS_LIMIT,
        ensures
            final(self).wf(),
            has_name(old(self).guys@, name@) ==> {
                &&& final(self).guys@ == old(self).guys@
                &&& final(self).next_id == old(self).next_id
                &&& final(self).db@ == old(self).db@
            },
            !has_name(old(self).guys@, name@) ==> {
                &&& final(self).guys@.len() == old(self).guys@.len() + 1
                &&& forall|i: int|
                    0 <= i < old(self).guys@.len() ==> final(self).guys@[i] == old(self).guys@[i]
                &&& {
                    let g = final(self).guys@.last();
                    &&& g.id == old(self).next_id
                    &&& g.name@ == name@
                    &&& g.health == spec_spawn_health(level_of(old(self).db@, name@), old(self).constants)
                    &&& g.max_health == g.health
                    &&& g.spawn == 0
                    &&& g.velocity.x == 0 && g.velocity.y == 0
                    &&& g.should_never_win == random
                    &&& (match skin_of(old(self).db@, name@) {
                        Option::Some(s) => g.skin == s,
                        Option::None => list_has_str(old(self).skin_options.face@, g.skin.face@),
                    })
                }
                &&& final(self).next_id == old(self).next_id + 1
            },
            final(self).attacks@ == old(self).attacks@,
            final(self).queued_attack == old(self).queued_attack,
            final(self).next_attack == old(self).next_attack,
            final(self).idle == old(self).idle,
            final(self).process_battle == old(self).process_battle,
            final(self).outbox@ == old(self).outbox@,
            final(self).raffle_mode == old(self).raffle_mode,
            final(self).raffle_keyword == old(self).raffle_keyword,
            forall|n2: Seq<char>|
                n2 != name@ ==> crate::db::find_row_spec(final(self).db@, n2)
                    == crate::db::find_row_spec(old(self).db@, n2),
            level_of(final(self).db@, name@) == level_of(old(self).db@, name@),
            game_link_of(final(self).db@, name@) == game_link_of(old(self).db@, name@),
            game_played_of(final(self).db@, name@) == game_played_of(old(self).db@, name@),
    {
        match self.guys.index_of_name(name) {
            Option::Some(_) => {
                return ;
            },
            Option::None => {},
        }
        let level = self.db.find_level(name);
        let lm1: usize = if level >= 1 {
            level - 1
        } else {
            0
        };
        let bonus: usize = match self.constants.extra_health_per_level.checked_mul(lm1) {
            Option::Some(b) => b,
            Option::None => usize::MAX,
        };
        let health = self.constants.initial_health.saturating_add(bonus);
        let skin = self.find_skin(name, !random);
        let ghost db_after_skin = self.db@;
        let mut cands: Vec<Vec2Px> = Vec::new();
        let mut c: usize = 0;
        while c < SPAWN_CANDIDATES
            invariant
                old(self).wf(),
                self.wf(),
                0 <= c <= SPAWN_CANDIDATES,
                forall|q: int|
                    0 <= q < cands@.len() ==> (#[trigger] cands@[q]).bounded(POS_LIMIT as int),
                self.guys@ == old(self).guys@,
                self.attacks@ == old(self).attacks@,
                self.queued_attack == old(self).queued_attack,
                self.next_attack == old(self).next_attack,
                self.next_id == old(self).next_id,
                self.idle == old(self).idle,
                self.process_battle == old(self).process_battle,
                self.outbox@ == old(self).outbox@,
                self.raffle_mode == old(self).raffle_mode,
                self.raffle_keyword == old(self).raffle_keyword,
                self.circle == old(self).circle,
                self.constants == old(self).constants,
                self.skin_options == old(self).skin_options,
                self.db@ == db_after_skin,
            decreases SPAWN_CANDIDATES - c,
        {
            let p = ring_point(&mut self.rng, &self.circle);
            cands.push(p);
            c += 1;
        }
        let pos = match best_candidate(&cands, &self.guys) {
            Option::Some(i) => cands[i],
            Option::None => ring_point(&mut self.rng, &self.circle),
        };
        let guy = Combatant {
            id: self.next_id,
            name: name.to_owned(),
            health,
            max_health: health,
            position: pos,
            velocity: Vec2Px { x: 0, y: 0 },
            skin,
            spawn: 0,
            should_never_win: random,
        };
        self.next_id = self.next_id + 1;
        let id = guy.id;
        proof {
            crate::world::lemma_count_on_zero(self.attacks@, id);
        }
        self.guys.insert(guy);
        self.signals.push(crate::events::Signal::SpawnFx { id });
    }
}

} // verus!
