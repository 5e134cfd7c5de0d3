//! The turn-based attack scheduler: health-weighted target selection,
//! nearest eligible attacker, a single-slot deferred queue for busy
//! attackers, and batched "volley" damage behind a countdown. The anti-rig
//! rule holds throughout: while any non-cursed combatant lives, some
//! non-cursed combatant keeps positive projected health.
use vstd::prelude::*;
use crate::combatant::{Combatant, Id};
use crate::registry::Registry;
use crate::rng::rng_below_wide;
use crate::world::{count_on, Attack, GUYS_LIMIT};

verus! {

/// Health minus the damage already in flight against this combatant.
pub open spec fn projected(g: Combatant, attacks: Seq<Attack>) -> int {
    g.health - count_on(attacks, g.id)
}

/// Some combatant is not cursed.
pub open spec fn has_non_cursed(s: Seq<Combatant>) -> bool {
    exists|i: int| 0 <= i < s.len() && !s[i].should_never_win
}

/// Some non-cursed combatant keeps positive projected health: the round
/// cannot be rigged toward a cursed combatant by mere queuing.
pub open spec fn fair_contender(s: Seq<Combatant>, attacks: Seq<Attack>) -> bool {
    exists|i: int|
        0 <= i < s.len() && !s[i].should_never_win && projected(s[i], attacks) > 0
}

/// Total projected health over the whole registry.
pub open spec fn total_proj(s: Seq<Combatant>, attacks: Seq<Attack>) -> int
    decreases s.len(),
{
    if s.len() == 0 {
        0
    } else {
        total_proj(s.drop_last(), attacks) + projected(s.last(), attacks)
    }
}

pub proof fn lemma_total_proj_nonneg(s: Seq<Combatant>, attacks: Seq<Attack>)
    requires
        forall|i: int| 0 <= i < s.len() ==> count_on(attacks, #[trigger] s[i].id) <= s[i].health,
    ensures
        total_proj(s, attacks) >= 0,
    decreases s.len(),
{
    if s.len() > 0 {
        let d = s.drop_last();
        assert(forall|i: int| 0 <= i < d.len() ==> d[i] == s[i]);
        lemma_total_proj_nonneg(d, attacks);
    }
}

/// Appending an attack lowers the total projected health by one exactly
/// when its target is present.
pub proof fn lemma_total_proj_push(s: Seq<Combatant>, attacks: Seq<Attack>, a: Attack)
    requires
        crate::registry::ids_unique(s),
    ensures
        total_proj(s, attacks.push(a)) == total_proj(s, attacks) - if crate::registry::has_id(
            s,
            a.target_id,
        ) {
            1int
        } else {
            0int
        },
    decreases s.len(),
{
    crate::world::lemma_count_on_push(attacks, a, a.target_id);
    if s.len() > 0 {
        let d = s.drop_last();
        assert(forall|i: int| 0 <= i < d.len() ==> d[i] == s[i]);
        lemma_total_proj_push(d, attacks, a);
        let g = s.last();
        crate::world::lemma_count_on_push(attacks, a, g.id);
        if g.id == a.target_id {
            assert(!crate::registry::has_id(d, a.target_id)) by {
                if crate::registry::has_id(d, a.target_id) {
                    let j = choose|j: int| 0 <= j < d.len() && d[j].id == a.target_id;
                    assert(s[j].id == s[s.len() - 1].id);
                    assert(false);
                }
            }
            assert(crate::registry::has_id(s, a.target_id)) by {
                assert(s[s.len() - 1].id == a.target_id);
            }
        } else {
            if crate::registry::has_id(d, a.target_id) {
                let j = choose|j: int| 0 <= j < d.len() && d[j].id == a.target_id;
                assert(s[j].id == a.target_id);
            }
            if crate::registry::has_id(s, a.target_id) {
                let j = choose|j: int| 0 <= j < s.len() && s[j].id == a.target_id;
                assert(j < d.len() && d[j].id == a.target_id);
            }
        }
    }
}

/// Count the in-flight attacks that target `id`.
fn count_exec(attacks: &Vec<Attack>, id: Id) -> (r: usize)
    ensures
        r == count_on(attacks@, id),
{
    let n = attacks.len();
    let mut acc: usize = 0;
    let mut i: usize = 0;
    proof {
        assert(attacks@.skip(0) =~= attacks@);
    }
    while i < n
        invariant
            n == attacks@.len(),
            0 <= i <= n,
            acc <= i,
            acc + count_on(attacks@.skip(i as int), id) == count_on(attacks@, id),
        decreases n - i,
    {
        proof {
            assert(attacks@.skip(i as int).drop_first() =~= attacks@.skip(i + 1));
            assert(attacks@.skip(i as int)[0] == attacks@[i as int]);
        }
        if attacks[i].target_id == id {
            proof {
                crate::world::lemma_count_on_le(attacks@, id);
            }
            acc += 1;
        }
        i += 1;
    }
    proof {
        assert(attacks@.skip(n as int) =~= Seq::<Attack>::empty());
    }
    acc
}

/// Projected health of each combatant, index-aligned with the registry.
fn compute_projected(guys: &Registry, attacks: &Vec<Attack>) -> (r: Vec<usize>)
    requires
        guys.wf(),
        forall|i: int|
            0 <= i < guys@.len() ==> count_on(attacks@, #[trigger] guys@[i].id)
                <= guys@[i].health,
    ensures
        r@.len() == guys@.len(),
        forall|i: int| 0 <= i < r@.len() ==> r@[i] == projected(guys@[i], attacks@),
{
    let n = guys.len();
    let mut r: Vec<usize> = Vec::new();
    let mut i: usize = 0;
    while i < n
        invariant
            guys.wf(),
            forall|k: int|
                0 <= k < guys@.len() ==> count_on(attacks@, #[trigger] guys@[k].id)
                    <= guys@[k].health,
            n == guys@.len(),
            0 <= i <= n,
            r@.len() == i,
            forall|k: int| 0 <= k < i ==> r@[k] == projected(guys@[k], attacks@),
        decreases n - i,
    {
        let c = count_exec(attacks, guys.get(i).id);
        r.push(guys.get(i).health - c);
        i += 1;
    }
    r
}

/// Is any combatant not cursed?
fn any_non_cursed(guys: &Registry) -> (r: bool)
    ensures
        r == has_non_cursed(guys@),
{
    let n = guys.len();
    let mut i: usize = 0;
    while i < n
        invariant
            n == guys@.len(),
            0 <= i <= n,
            forall|j: int| 0 <= j < i ==> guys@[j].should_never_win,
        decreases n - i,
    {
        if !guys.get(i).should_never_win {
            return true;
        }
        i += 1;
    }
    false
}

/// Does any non-cursed combatant keep positive projected health?
fn any_fair(guys: &Registry, ph: &Vec<usize>) -> (r: bool)
    requires
        ph@.len() == guys@.len(),
    ensures
        r == exists|i: int|
            0 <= i < guys@.len() && !guys@[i].should_never_win && #[trigger] ph@[i] > 0,
{
    let n = guys.len();
    let mut i: usize = 0;
    while i < n
        invariant
            n == guys@.len(),
            ph@.len() == n,
            0 <= i <= n,
            forall|j: int| 0 <= j < i ==> guys@[j].should_never_win || #[trigger] ph@[j] == 0,
        decreases n - i,
    {
        if !guys.get(i).should_never_win && ph[i] > 0 {
            return true;
        }
        i += 1;
    }
    false
}

/// Is any projected health exactly zero?
fn any_zero(ph: &Vec<usize>) -> (r: bool)
    ensures
        r == exists|i: int| 0 <= i < ph@.len() && #[trigger] ph@[i] == 0,
{
    let n = ph.len();
    let mut i: usize = 0;
    while i < n
        invariant
            n == ph@.len(),
            0 <= i <= n,
            forall|j: int| 0 <= j < i ==> #[trigger] ph@[j] > 0,
        decreases n - i,
    {
        if ph[i] == 0 {
            return true;
        }
        i += 1;
    }
    false
}

/// Sum of a weight vector.
pub open spec fn sum_w(s: Seq<usize>) -> int
    decreases s.len(),
{
    if s.len() == 0 {
        0
    } else {
        s[0] + sum_w(s.drop_first())
    }
}

proof fn lemma_sum_w_bounds(s: Seq<usize>)
    ensures
        0 <= sum_w(s) <= s.len() * 0xffff_ffff_ffff_ffffu64,
    decreases s.len(),
{
    if s.len() > 0 {
        lemma_sum_w_bounds(s.drop_first());
    }
}

proof fn lemma_sum_w_zero(s: Seq<usize>)
    requires
        sum_w(s) == 0,
    ensures
        forall|i: int| 0 <= i < s.len() ==> s[i] == 0,
    decreases s.len(),
{
    if s.len() > 0 {
        lemma_sum_w_bounds(s.drop_first());
        lemma_sum_w_zero(s.drop_first());
        assert forall|i: int| 0 <= i < s.len() implies s[i] == 0 by {
            if i > 0 {
                assert(s.drop_first()[i - 1] == s[i]);
            }
        }
    }
}

/// A weight-proportional draw: an index with positive weight, or nothing
/// when every weight is zero. Zero-weight indices are never chosen.
fn pick_weighted(rng: &mut rand::rngs::StdRng, ph: &Vec<usize>) -> (r: Option<usize>)
    requires
        ph@.len() <= GUYS_LIMIT,
    ensures
        match r {
            Option::Some(i) => i < ph@.len() && ph@[i as int] > 0,
            Option::None => sum_w(ph@) == 0,
        },
{
    let n = ph.len();
    let mut total: u128 = 0;
    let mut i: usize = 0;
    proof {
        assert(ph@.skip(0) =~= ph@);
        lemma_sum_w_bounds(ph@);
    }
    while i < n
        invariant
            n == ph@.len() <= GUYS_LIMIT,
            0 <= i <= n,
            total <= (i as int) * 0xffff_ffff_ffff_ffffu64,
            total + sum_w(ph@.skip(i as int)) == sum_w(ph@),
        decreases n - i,
    {
        proof {
            assert(ph@.skip(i as int).drop_first() =~= ph@.skip(i + 1));
            assert(ph@.skip(i as int)[0] == ph@[i as int]);
            lemma_sum_w_bounds(ph@.skip(i + 1));
        }
        total = total + ph[i] as u128;
        i += 1;
    }
    proof {
        assert(ph@.skip(n as int) =~= Seq::<usize>::empty());
    }
    if total == 0 {
        return Option::None;
    }
    let x = rng_below_wide(rng, total);
    let mut acc: u128 = 0;
    let mut i: usize = 0;
    proof {
        assert(ph@.skip(0) =~= ph@);
    }
    while i < n
        invariant
            n == ph@.len() <= GUYS_LIMIT,
            0 <= i <= n,
            acc + sum_w(ph@.skip(i as int)) == sum_w(ph@),
            acc <= x,
            x < sum_w(ph@),
            sum_w(ph@) <= (n as int) * 0xffff_ffff_ffff_ffffu64,
        decreases n - i,
    {
        proof {
            assert(ph@.skip(i as int).drop_first() =~= ph@.skip(i + 1));
            assert(ph@.skip(i as int)[0] == ph@[i as int]);
            lemma_sum_w_bounds(ph@.skip(i + 1));
        }
        if x < acc + ph[i] as u128 {
            return Option::Some(i);
        }
        acc = acc + ph[i] as u128;
        i += 1;
    }
    proof {
        assert(ph@.skip(n as int) =~= Seq::<usize>::empty());
        assert(false);
    }
    vstd::pervasive::unreached()
}

/// One combatant after the volley lands: one damage point per in-flight
/// attack that targets it.
pub open spec fn damaged_guy(c: Combatant, attacks: Seq<Attack>) -> Combatant {
    Combatant {
        health: if count_on(attacks, c.id) <= c.health {
            (c.health - count_on(attacks, c.id)) as usize
        } else {
            0
        },
        ..c
    }
}

/// The whole registry after the volley lands.
pub open spec fn damaged(s: Seq<Combatant>, attacks: Seq<Attack>) -> Seq<Combatant> {
    Seq::new(s.len(), |i: int| damaged_guy(s[i], attacks))
}

/// The name shown in the feed: the last combatant the volley eliminated.
pub open spec fn last_dead_name(s: Seq<Combatant>) -> Option<Seq<char>>
    decreases s.len(),
{
    if s.len() == 0 {
        Option::None
    } else if s.last().health == 0 {
        Option::Some(s.last().name@)
    } else {
        last_dead_name(s.drop_last())
    }
}

/// The death effects the volley asks for, in registry order.
pub open spec fn death_signals(s: Seq<Combatant>) -> Seq<crate::events::Signal>
    decreases s.len(),
{
    if s.len() == 0 {
        Seq::empty()
    } else {
        death_signals(s.drop_last()) + if s.last().health == 0 {
            seq![crate::events::Signal::Death { id: s.last().id }]
        } else {
            Seq::empty()
        }
    }
}

/// Squared distance between two combatants' positions.
pub open spec fn dist2(a: Combatant, b: Combatant) -> int {
    let dx = a.position.x - b.position.x;
    let dy = a.position.y - b.position.y;
    dx * dx + dy * dy
}

/// The living, non-zero-projected-health combatant (excluding the target)
/// nearest to the target; ties go to the lowest index.
fn nearest_attacker(guys: &Registry, ph: &Vec<usize>, t: usize) -> (r: Option<usize>)
    requires
        guys.wf(),
        ph@.len() == guys@.len(),
        t < guys@.len(),
    ensures
        match r {
            Option::Some(j) => {
                &&& j < guys@.len()
                &&& j != t
                &&& ph@[j as int] >= 1
                &&& forall|k: int|
                    0 <= k < guys@.len() && k != t && #[trigger] ph@[k] >= 1 ==> dist2(
                        guys@[j as int],
                        guys@[t as int],
                    ) < dist2(guys@[k], guys@[t as int]) || (dist2(guys@[j as int], guys@[t as int])
                        == dist2(guys@[k], guys@[t as int]) && j <= k)
            },
            Option::None => forall|k: int|
                0 <= k < guys@.len() && k != t ==> #[trigger] ph@[k] == 0,
        },
{
    let n = guys.len();
    let target = guys.get(t);
    let tpos = target.position;
    let mut best: Option<usize> = Option::None;
    let mut best_d: u64 = 0;
    let mut i: usize = 0;
    while i < n
        invariant
            guys.wf(),
            ph@.len() == n == guys@.len(),
            t < n,
            tpos == guys@[t as int].position,
            0 <= i <= n,
            match best {
                Option::Some(j) => {
                    &&& j < i
                    &&& j != t
                    &&& ph@[j as int] >= 1
                    &&& best_d == dist2(guys@[j as int], guys@[t as int])
                    &&& forall|k: int|
                        0 <= k < i && k != t && #[trigger] ph@[k] >= 1 ==> best_d < dist2(
                            guys@[k],
                            guys@[t as int],
                        ) || (best_d == dist2(guys@[k], guys@[t as int]) && j <= k)
                },
                Option::None => forall|k: int| 0 <= k < i && k != t ==> #[trigger] ph@[k] == 0,
            },
        decreases n - i,
    {
        if i != t && ph[i] >= 1 {
            let d = guys.get(i).position.dist_sq(tpos);
            match best {
                Option::Some(_) => {
                    if d < best_d {
                        best = Option::Some(i);
                        best_d = d;
                    }
                },
                Option::None => {
                    best = Option::Some(i);
                    best_d = d;
                },
            }
        }
        i += 1;
    }
    best
}

impl crate::world::State {
    /// Land the armed volley: one damage point per attack whose target is
    /// still present, feed and death effects for the eliminated, then drop
    /// them and clear the volley.
    fn apply_volley(&mut self)
        requires
            old(self).wf(),
        ensures
            final(self).wf(),
            final(self).attacks@.len() == 0,
            final(self).next_attack is None,
            final(self).guys@ == crate::registry::alive_part(
                damaged(old(self).guys@, old(self).attacks@),
            ),
            match last_dead_name(damaged(old(self).guys@, old(self).attacks@)) {
                Option::Some(nm) => match final(self).feed {
                    Option::Some(f) => f@ == nm,
                    Option::None => false,
                },
                Option::None => final(self).feed == old(self).feed,
            },
            final(self).signals@ == old(self).signals@ + death_signals(
                damaged(old(self).guys@, old(self).attacks@),
            ),
            final(self).queued_attack == old(self).queued_attack,
            final(self).frame_eq(*old(self)),
    {
        let ghost s0 = self.guys@;
        let ghost atk = self.attacks@;
        let ghost gd = damaged(s0, atk);
        let na = self.attacks.len();
        let mut k: usize = 0;
        proof {
            assert(atk.subrange(0, 0) =~= Seq::<Attack>::empty());
            assert forall|j: int| 0 <= j < s0.len() implies self.guys@[j] == damaged_guy(
                s0[j],
                atk.subrange(0, 0),
            ) by {
                assert(count_on(atk.subrange(0, 0), s0[j].id) == 0);
            }
            assert(self.guys@ =~= damaged(s0, atk.subrange(0, 0)));
        }
        while k < na
            invariant
                na == atk.len(),
                0 <= k <= na,
                self.frame_eq(*old(self)),
                self.queued_attack == old(self).queued_attack,
                self.feed == old(self).feed,
                self.signals == old(self).signals,
                self.next_attack == old(self).next_attack,
                self.attacks@ == atk,
                self.guys.wf(),
                self.guys@ == damaged(s0, atk.subrange(0, k as int)),
                s0.len() == self.guys@.len(),
                crate::registry::ids_unique(s0),
                forall|j: int|
                    0 <= j < s0.len() ==> count_on(atk, #[trigger] s0[j].id) <= s0[j].health,
                forall|j: int| 0 <= j < s0.len() ==> (#[trigger] self.guys@[j]).id == s0[j].id,
            decreases na - k,
        {
            let ghost pre = atk.subrange(0, k as int);
            let ghost cur = atk.subrange(0, k + 1);
            proof {
                assert(cur =~= pre.push(atk[k as int]));
            }
            let a = self.attacks[k];
            let tid = a.target_id;
            match self.guys.index_of_id(tid) {
                Option::Some(i) => {
                    let ghost gpre = self.guys@;
                    let guy = self.guys.get(i);
                    proof {
                        assert(self.guys@[i as int] == damaged(s0, pre)[i as int]);
                        assert(damaged(s0, pre)[i as int] == damaged_guy(s0[i as int], pre));
                        crate::world::lemma_count_on_push(pre, atk[k as int], s0[i as int].id);
                        assert(count_on(cur, s0[i as int].id) <= count_on(atk, s0[i as int].id))
                            by {
                            lemma_count_prefix_le(atk, k + 1, s0[i as int].id);
                        }
                        crate::world::lemma_count_on_le(pre, s0[i as int].id);
                        assert(count_on(cur, s0[i as int].id) == count_on(pre, s0[i as int].id)
                            + 1);
                        assert(guy.health == s0[i as int].health - count_on(
                            pre,
                            s0[i as int].id,
                        ));
                        assert(guy.health >= 1);
                    }
                    let mut updated = guy.duplicate();
                    updated.health = updated.health - 1;
                    self.guys.set_at(i, updated);
                    proof {
                        assert forall|j: int| 0 <= j < s0.len() implies self.guys@[j]
                            == damaged_guy(s0[j], cur) by {
                            crate::world::lemma_count_on_push(pre, atk[k as int], s0[j].id);
                            lemma_count_prefix_le(atk, k + 1, s0[j].id);
                            crate::world::lemma_count_on_le(pre, s0[j].id);
                            crate::world::lemma_count_on_le(cur, s0[j].id);
                            if j != i {
                                assert(s0[j].id != s0[i as int].id);
                                assert(self.guys@[j] == gpre[j]);
                                assert(gpre[j] == damaged(s0, pre)[j]);
                                assert(damaged(s0, pre)[j] == damaged_guy(s0[j], pre));
                            }
                        }
                        assert(self.guys@ =~= damaged(s0, cur));
                    }
                },
                Option::None => {
                    proof {
                        assert forall|j: int| 0 <= j < s0.len() implies self.guys@[j]
                            == damaged_guy(s0[j], cur) by {
                            crate::world::lemma_count_on_push(pre, atk[k as int], s0[j].id);
                            lemma_count_prefix_le(atk, k + 1, s0[j].id);
                            crate::world::lemma_count_on_le(pre, s0[j].id);
                            crate::world::lemma_count_on_le(cur, s0[j].id);
                            assert(self.guys@[j] == damaged(s0, pre)[j]);
                            assert(damaged(s0, pre)[j] == damaged_guy(s0[j], pre));
                            assert(s0[j].id == self.guys@[j].id);
                            assert(crate::registry::has_id(self.guys@, s0[j].id));
                            assert(s0[j].id != tid);
                        }
                        assert(self.guys@ =~= damaged(s0, cur));
                    }
                },
            }
            k += 1;
        }
        proof {
            assert(atk.subrange(0, na as int) =~= atk);
            assert(self.guys@ == gd);
        }
        // Report the eliminated: feed text and a death effect each.
        let ghost sig0 = self.signals@;
        let ghost feed0 = self.feed;
        let n = self.guys.len();
        let mut i: usize = 0;
        proof {
            assert(gd.subrange(0, 0) =~= Seq::<Combatant>::empty());
            assert(self.signals@ =~= sig0 + death_signals(gd.subrange(0, 0)));
        }
        while i < n
            invariant
                n == gd.len(),
                self.frame_eq(*old(self)),
                self.queued_attack == old(self).queued_attack,
                self.next_attack == old(self).next_attack,
                self.attacks@ == atk,
                self.guys@ == gd,
                self.guys.wf(),
                0 <= i <= n,
                self.signals@ == sig0 + death_signals(gd.subrange(0, i as int)),
                match last_dead_name(gd.subrange(0, i as int)) {
                    Option::Some(nm) => match self.feed {
                        Option::Some(f) => f@ == nm,
                        Option::None => false,
                    },
                    Option::None => self.feed == feed0,
                },
            decreases n - i,
        {
            let ghost cur = gd.subrange(0, i + 1);
            proof {
                assert(cur.drop_last() =~= gd.subrange(0, i as int));
                assert(cur.last() == gd[i as int]);
            }
            let guy = self.guys.get(i);
            if guy.health == 0 {
                self.feed = Option::Some(guy.name.clone());
                let id = guy.id;
                self.signals.push(crate::events::Signal::Death { id });
                proof {
                    assert(self.signals@ =~= sig0 + death_signals(cur));
                }
            } else {
                proof {
                    assert(self.signals@ =~= sig0 + death_signals(cur));
                }
            }
            i += 1;
        }
        proof {
            assert(gd.subrange(0, n as int) =~= gd);
        }
        self.guys.remove_dead();
        self.attacks = Vec::new();
        self.next_attack = Option::None;
        proof {
            crate::registry::lemma_alive_part_sub(gd);
            assert forall|j: int| 0 <= j < self.guys@.len() implies (#[trigger] self.guys@[j]).id
                < self.next_id by {
                assert(self.guys@[j] == crate::registry::alive_part(gd)[j]);
                let w = choose|w: int| 0 <= w < gd.len() && gd[w] == crate::registry::alive_part(gd)[j];
                assert(gd[w] == damaged_guy(s0[w], atk));
                assert(gd[w].id == s0[w].id);
                assert(s0[w].id < self.next_id);
            }
            assert forall|j: int| 0 <= j < self.guys@.len() implies count_on(
                self.attacks@,
                (#[trigger] self.guys@[j]).id,
            ) <= self.guys@[j].health by {
                assert(self.attacks@ =~= Seq::<Attack>::empty());
            }
        }
    }
}

/// Fairness only reads health, id and the curse flag, which movement keeps.
pub proof fn lemma_identity_keeps_fairness(
    a: Seq<Combatant>,
    b: Seq<Combatant>,
    attacks: Seq<Attack>,
)
    requires
        a.len() == b.len(),
        forall|i: int|
            0 <= i < a.len() ==> crate::movement::same_identity(#[trigger] b[i], a[i]),
    ensures
        has_non_cursed(a) == has_non_cursed(b),
        fair_contender(a, attacks) == fair_contender(b, attacks),
{
    if has_non_cursed(a) {
        let w = choose|w: int| 0 <= w < a.len() && !a[w].should_never_win;
        assert(!b[w].should_never_win);
    }
    if has_non_cursed(b) {
        let w = choose|w: int| 0 <= w < b.len() && !b[w].should_never_win;
        assert(!a[w].should_never_win);
    }
    if fair_contender(a, attacks) {
        let w = choose|w: int|
            0 <= w < a.len() && !a[w].should_never_win && projected(a[w], attacks) > 0;
        assert(!b[w].should_never_win && projected(b[w], attacks) > 0);
    }
    if fair_contender(b, attacks) {
        let w = choose|w: int|
            0 <= w < b.len() && !b[w].should_never_win && projected(b[w], attacks) > 0;
        assert(!a[w].should_never_win && projected(a[w], attacks) > 0);
    }
}

/// Some in-flight attack already belongs to this attacker.
pub open spec fn has_attacker(attacks: Seq<Attack>, id: Id) -> bool {
    exists|i: int| 0 <= i < attacks.len() && attacks[i].attacker_id == id
}

/// Is this attacker already committed to the volley?
fn attacker_busy(attacks: &Vec<Attack>, id: Id) -> (r: bool)
    ensures
        r == has_attacker(attacks@, id),
{
    let n = attacks.len();
    let mut i: usize = 0;
    while i < n
        invariant
            n == attacks@.len(),
            0 <= i <= n,
            forall|j: int| 0 <= j < i ==> attacks@[j].attacker_id != id,
        decreases n - i,
    {
        if attacks[i].attacker_id == id {
            return true;
        }
        i += 1;
    }
    false
}

impl crate::world::State {
    /// Fill a fresh volley, retrying the deferred attack first, then arm the
    /// countdown. Scheduling stops before any non-cursed combatant could be
    /// left without positive projected health.
    fn schedule_volley(&mut self)
        requires
            old(self).wf(),
            old(self).attacks@.len() == 0,
        ensures
            final(self).wf(),
            final(self).next_attack == Option::Some(crate::world::ATTACK_TIME),
            final(self).guys@ == old(self).guys@,
            has_non_cursed(final(self).guys@) ==> fair_contender(
                final(self).guys@,
                final(self).attacks@,
            ),
            final(self).guys@.len() >= 2 && final(self).attacks@.len() == 0 ==> has_non_cursed(
                final(self).guys@,
            ),
            final(self).frame_eq(*old(self)),
            final(self).feed == old(self).feed,
            final(self).signals == old(self).signals,
    {
        let ghost g = self.guys@;
        loop
            invariant_except_break
                old(self).wf(),
                g == old(self).guys@,
                self.guys@ == g,
                self.guys.wf(),
                crate::registry::all_alive(g),
                g.len() <= GUYS_LIMIT,
                self.frame_eq(*old(self)),
                self.feed == old(self).feed,
                self.signals == old(self).signals,
                self.next_attack == old(self).next_attack,
                crate::world::attackers_unique(self.attacks@),
                crate::world::attack_ids_below(self.attacks@, self.next_id),
                forall|i: int|
                    0 <= i < g.len() ==> count_on(self.attacks@, #[trigger] g[i].id)
                        <= g[i].health,
                match self.queued_attack {
                    Option::Some(a) => a.attacker_id < self.next_id && a.target_id
                        < self.next_id && self.attacks@.len() == 0,
                    Option::None => true,
                },
            ensures
                self.guys@ == g,
                self.guys.wf(),
                self.frame_eq(*old(self)),
                self.feed == old(self).feed,
                self.signals == old(self).signals,
                self.next_attack == old(self).next_attack,
                crate::world::attackers_unique(self.attacks@),
                crate::world::attack_ids_below(self.attacks@, self.next_id),
                forall|i: int|
                    0 <= i < g.len() ==> count_on(self.attacks@, #[trigger] g[i].id)
                        <= g[i].health,
                match self.queued_attack {
                    Option::Some(a) => a.attacker_id < self.next_id && a.target_id
                        < self.next_id,
                    Option::None => true,
                },
                has_non_cursed(g) ==> fair_contender(g, self.attacks@),
                g.len() >= 2 && self.attacks@.len() == 0 ==> has_non_cursed(g),
            decreases (if self.queued_attack is Some {
                1int
            } else {
                0int
            }), total_proj(g, self.attacks@),
        {
            proof {
                lemma_total_proj_nonneg(g, self.attacks@);
            }
            let new_attack: Attack;
            match self.queued_attack {
                Option::Some(q) => {
                    self.queued_attack = Option::None;
                    new_attack = q;
                },
                Option::None => {
                    let ph = compute_projected(&self.guys, &self.attacks);
                    if any_non_cursed(&self.guys) {
                        if !any_fair(&self.guys, &ph) {
                            self.attacks = Vec::new();
                            proof {
                                let w = choose|w: int| 0 <= w < g.len() && !g[w].should_never_win;
                                assert(count_on(self.attacks@, g[w].id) == 0);
                                assert(projected(g[w], self.attacks@) > 0);
                                assert forall|i: int| 0 <= i < g.len() implies count_on(
                                    self.attacks@,
                                    #[trigger] g[i].id,
                                ) <= g[i].health by {
                                    assert(count_on(self.attacks@, g[i].id) == 0);
                                }
                            }
                            break;
                        }
                    }
                    if any_zero(&ph) {
                        proof {
                            if g.len() >= 2 && self.attacks@.len() == 0 {
                                let w = choose|w: int| 0 <= w < ph@.len() && #[trigger] ph@[w]
                                    == 0;
                                crate::world::lemma_count_on_le(self.attacks@, g[w].id);
                                assert(g[w].health == 0);
                                assert(false);
                            }
                        }
                        break;
                    }
                    let t = match pick_weighted(&mut self.rng, &ph) {
                        Option::Some(t) => t,
                        Option::None => {
                            proof {
                                if g.len() >= 2 && self.attacks@.len() == 0 {
                                    lemma_sum_w_zero(ph@);
                                    assert(ph@[0] == 0);
                                    crate::world::lemma_count_on_le(self.attacks@, g[0].id);
                                    assert(g[0].health == 0);
                                    assert(false);
                                }
                            }
                            break;
                        },
                    };
                    let j = match nearest_attacker(&self.guys, &ph, t) {
                        Option::Some(j) => j,
                        Option::None => {
                            proof {
                                if g.len() >= 2 && self.attacks@.len() == 0 {
                                    let k: int = if t == 0 {
                                        1
                                    } else {
                                        0
                                    };
                                    assert(ph@[k] == 0);
                                    crate::world::lemma_count_on_le(self.attacks@, g[k].id);
                                    assert(g[k].health == 0);
                                    assert(false);
                                }
                            }
                            break;
                        },
                    };
                    proof {
                        assert(old(self).guys@[j as int].id < old(self).next_id);
                        assert(old(self).guys@[t as int].id < old(self).next_id);
                    }
                    new_attack = Attack {
                        attacker_id: self.guys.get(j).id,
                        target_id: self.guys.get(t).id,
                    };
                },
            }
            if attacker_busy(&self.attacks, new_attack.attacker_id) {
                self.queued_attack = Option::Some(new_attack);
                break;
            } else {
                proof {
                    let ghost atk0 = self.attacks@;
                    lemma_total_proj_push(g, atk0, new_attack);
                    lemma_total_proj_nonneg(g, atk0);
                }
                let ghost atk0 = self.attacks@;
                self.attacks.push(new_attack);
                proof {
                    assert forall|i: int| 0 <= i < g.len() implies count_on(
                        self.attacks@,
                        #[trigger] g[i].id,
                    ) <= g[i].health by {
                        crate::world::lemma_count_on_push(atk0, new_attack, g[i].id);
                    }
                    lemma_total_proj_push(g, atk0, new_attack);
                    assert forall|i: int|
                        0 <= i < g.len() implies count_on(self.attacks@, #[trigger] g[i].id)
                        >= 0 by {
                        crate::world::lemma_count_on_le(self.attacks@, g[i].id);
                    }
                    lemma_total_proj_nonneg(g, self.attacks@);
                    assert forall|i: int| 0 <= i < self.attacks@.len() implies (
                    #[trigger] self.attacks@[i]).attacker_id < self.next_id
                        && self.attacks@[i].target_id < self.next_id by {
                        if i < atk0.len() {
                            assert(self.attacks@[i] == atk0[i]);
                        } else {
                            assert(self.attacks@[i] == new_attack);
                        }
                    }
                }
            }
        }
        self.next_attack = Option::Some(crate::world::ATTACK_TIME);
    }

    /// One scheduler step. Outside the battling sub-state this only clears
    /// the feed. Otherwise the armed countdown burns at three times the
    /// wall clock; when it runs out the volley lands and a fresh one is
    /// scheduled, keeping the anti-rig rule.
    pub fn process_attacks(&mut self, delta_time: i64)
        requires
            old(self).wf(),
            0 <= delta_time <= crate::world::DT_LIMIT,
        ensures
            final(self).wf(),
            !old(self).process_battle ==> {
                &&& final(self).feed is None
                &&& final(self).guys@ == old(self).guys@
                &&& final(self).attacks@ == old(self).attacks@
                &&& final(self).queued_attack == old(self).queued_attack
                &&& final(self).next_attack == old(self).next_attack
                &&& final(self).frame_eq(*old(self))
                &&& final(self).signals@ == old(self).signals@
            },
            old(self).process_battle ==> {
                &&& final(self).next_attack is Some
                &&& final(self).frame_eq(*old(self))
            },
            old(self).process_battle && (match old(self).next_attack {
                Option::None => true,
                Option::Some(t) => 3 * delta_time >= t,
            }) ==> final(self).next_attack == Option::Some(crate::world::ATTACK_TIME),
            old(self).process_battle && (match old(self).next_attack {
                Option::None => true,
                Option::Some(t) => 3 * delta_time >= t,
            }) ==> (has_non_cursed(final(self).guys@) ==> fair_contender(
                final(self).guys@,
                final(self).attacks@,
            )),
            old(self).process_battle && (match old(self).next_attack {
                Option::Some(t) => 3 * delta_time < t,
                Option::None => false,
            }) ==> {
                &&& final(self).guys@ == old(self).guys@
                &&& final(self).attacks@ == old(self).attacks@
                &&& final(self).queued_attack == old(self).queued_attack
                &&& final(self).next_attack matches Option::Some(t2) && t2 == old(
                    self,
                ).next_attack.unwrap() - 3 * delta_time
                &&& final(self).feed == old(self).feed
                &&& final(self).signals@ == old(self).signals@
            },
            old(self).process_battle && (match old(self).next_attack {
                Option::Some(t) => 3 * delta_time >= t,
                Option::None => false,
            }) ==> {
                &&& final(self).guys@ == crate::registry::alive_part(
                    damaged(old(self).guys@, old(self).attacks@),
                )
                &&& (match last_dead_name(damaged(old(self).guys@, old(self).attacks@)) {
                    Option::Some(nm) => match final(self).feed {
                        Option::Some(f) => f@ == nm,
                        Option::None => false,
                    },
                    Option::None => final(self).feed == old(self).feed,
                })
            },
            old(self).process_battle && old(self).next_attack is None ==> final(self).guys@
                == old(self).guys@,
            // While any legitimate contender holds positive projected health,
            // no volley can wipe the non-cursed out: one of them survives.
            has_non_cursed(old(self).guys@) && fair_contender(old(self).guys@, old(self).attacks@)
                ==> has_non_cursed(final(self).guys@),
            // With two or more combatants, a fresh volley is empty only where
            // the anti-rig rule suspended the round in the cursed side's
            // disfavor, which takes a non-cursed combatant to be alive.
            old(self).process_battle && (match old(self).next_attack {
                Option::None => true,
                Option::Some(t) => 3 * delta_time >= t,
            }) && final(self).guys@.len() >= 2 && final(self).attacks@.len() == 0 ==> has_non_cursed(
                final(self).guys@,
            ),
    {
        if !self.process_battle {
            self.feed = Option::None;
            return ;
        }
        match self.next_attack {
            Option::Some(t) => {
                let t2 = t - 3 * delta_time;
                if t2 <= 0 {
                    self.apply_volley();
                    proof {
                        if has_non_cursed(old(self).guys@) && fair_contender(
                            old(self).guys@,
                            old(self).attacks@,
                        ) {
                            let w = choose|w: int|
                                0 <= w < old(self).guys@.len() && !old(
                                    self,
                                ).guys@[w].should_never_win && projected(
                                    old(self).guys@[w],
                                    old(self).attacks@,
                                ) > 0;
                            let gd = damaged(old(self).guys@, old(self).attacks@);
                            assert(gd[w] == damaged_guy(old(self).guys@[w], old(self).attacks@));
                            crate::world::lemma_count_on_le(
                                old(self).attacks@,
                                old(self).guys@[w].id,
                            );
                            assert(gd[w].health >= 1);
                            crate::registry::lemma_alive_part_keeps(gd, w);
                            let k = choose|k: int|
                                0 <= k < crate::registry::alive_part(gd).len()
                                    && #[trigger] crate::registry::alive_part(gd)[k] == gd[w];
                            assert(self.guys@[k] == gd[w]);
                            assert(!self.guys@[k].should_never_win);
                        }
                    }
                } else {
                    self.next_attack = Option::Some(t2);
                }
            },
            Option::None => {},
        }
        let fire_now = match self.next_attack {
            Option::Some(_) => false,
            Option::None => true,
        };
        if fire_now {
            self.schedule_volley();
        }
    }
}


/// A prefix count never exceeds the whole count.
proof fn lemma_count_prefix_le(attacks: Seq<Attack>, k: int, id: Id)
    requires
        0 <= k <= attacks.len(),
    ensures
        count_on(attacks.subrange(0, k), id) <= count_on(attacks, id),
    decreases attacks.len() - k,
{
    crate::world::lemma_count_on_le(attacks, id);
    if k < attacks.len() {
        lemma_count_prefix_le(attacks, k + 1, id);
        crate::world::lemma_count_on_push(attacks.subrange(0, k), attacks[k], id);
        assert(attacks.subrange(0, k + 1) =~= attacks.subrange(0, k).push(attacks[k]));
    } else {
        assert(attacks.subrange(0, k) =~= attacks);
    }
}

} // verus!
