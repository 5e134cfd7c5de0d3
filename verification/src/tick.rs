//! The per-tick update: winner detection (latched to fire exactly once per
//! round), delayed announcements coming due, movement, attacks, spawn
//! fade-in, and the smoothed arena circle.
use vstd::prelude::*;
use crate::db::{game_link_of, game_played_of};
use crate::events::{Announcement, DelayedMessage, Outbound, Signal};
use crate::world::{RaffleMode, State, DT_LIMIT};

verus! {

/// The delay before a winner announcement is spoken, in thousandths.
pub const WINNER_DELAY: u64 = 5000;

/// The messages due at time `t`, in order.
pub open spec fn due_part(s: Seq<DelayedMessage>, t: u64) -> Seq<DelayedMessage>
    decreases s.len(),
{
    if s.len() == 0 {
        Seq::empty()
    } else if s.last().time <= t {
        due_part(s.drop_last(), t).push(s.last())
    } else {
        due_part(s.drop_last(), t)
    }
}

/// The messages still waiting at time `t`, in order.
pub open spec fn future_part(s: Seq<DelayedMessage>, t: u64) -> Seq<DelayedMessage>
    decreases s.len(),
{
    if s.len() == 0 {
        Seq::empty()
    } else if s.last().time <= t {
        future_part(s.drop_last(), t)
    } else {
        future_part(s.drop_last(), t).push(s.last())
    }
}

/// What still waits is never more than what was waiting.
pub proof fn lemma_future_part_len(s: Seq<DelayedMessage>, t: u64)
    ensures
        future_part(s, t).len() <= s.len(),
    decreases s.len(),
{
    if s.len() > 0 {
        lemma_future_part_len(s.drop_last(), t);
    }
}

/// Due messages as broadcast announcements, in order.
pub open spec fn says_of(s: Seq<DelayedMessage>) -> Seq<Outbound>
    decreases s.len(),
{
    if s.len() == 0 {
        Seq::empty()
    } else {
        says_of(s.drop_last()).push(Outbound::Say { text: s.last().message })
    }
}

/// Everyone's fade-in advanced by the tick, capped at full.
pub open spec fn fade_phase(s: Seq<crate::combatant::Combatant>, dt: int) -> Seq<
    crate::combatant::Combatant,
> {
    let bump = if dt > 1000 {
        1000
    } else {
        dt
    };
    Seq::new(
        s.len(),
        |i: int|
            crate::combatant::Combatant {
                spawn: if s[i].spawn + bump >= 1000 {
                    1000 as u32
                } else {
                    (s[i].spawn + bump) as u32
                },
                ..s[i]
            },
    )
}

/// The registry after movement and combat, before the fade-in step.
pub open spec fn combat_phase(pre: State, wobble: Seq<i64>, dt: int) -> Seq<
    crate::combatant::Combatant,
> {
    let moved = crate::movement::movement_spec(
        pre.guys@,
        wobble,
        dt,
        pre.constants.preferred_distance_spring_k as int,
    );
    if pre.process_battle && (match pre.next_attack {
        Option::Some(t) => 3 * dt >= t,
        Option::None => false,
    }) {
        crate::registry::alive_part(crate::scheduler::damaged(moved, pre.attacks@))
    } else {
        moved
    }
}

/// The instantaneous weighted circle, as `find_circle` computes it.
pub open spec fn circle_target(s: Seq<crate::combatant::Combatant>) -> crate::arena::Circle {
    let center = crate::movement::vec2_from(
        crate::arena::div_trunc(crate::arena::weighted_x(s), crate::arena::spawn_total(s)),
        crate::arena::div_trunc(crate::arena::weighted_y(s), crate::arena::spawn_total(s)),
    );
    crate::arena::Circle { center, radius: crate::arena::radius_of(s, center) as i64 }
}

/// One smoothing step of the kept circle toward `target`.
pub open spec fn smoothed(cur: crate::arena::Circle, target: crate::arena::Circle, dt: int) -> crate::arena::Circle {
    crate::arena::Circle {
        center: crate::movement::vec2_from(
            cur.center.x + crate::num::spec_mul_div(target.center.x - cur.center.x, dt, 1000),
            cur.center.y + crate::num::spec_mul_div(target.center.y - cur.center.y, dt, 1000),
        ),
        radius: (cur.radius + crate::num::spec_mul_div(
            target.radius - cur.radius,
            dt,
            1000,
        )) as i64,
    }
}

/// The time after the tick, saturating.
pub open spec fn time_after(pre: State, dt: int) -> int {
    if pre.time + dt <= u64::MAX {
        pre.time + dt
    } else {
        u64::MAX as int
    }
}

/// The round just resolved: battling, one combatant left, latch not yet set.
pub open spec fn resolves_now(pre: State) -> bool {
    pre.process_battle && pre.guys@.len() == 1 && !pre.winning_screen
}

/// What the queued winner announcement must say, given the winner's
/// submission state: a plain congratulation in a regular round; in
/// linked-submission mode the recorded game (already played or played
/// next, which `post_db` then marks) or the regret that none exists.
pub open spec fn winner_msg_ok(
    pre: State,
    m: DelayedMessage,
    post_db: Seq<crate::db::DbRow>,
) -> bool {
    let name = pre.guys@[0].name@;
    &&& m.time == (if pre.time + WINNER_DELAY <= u64::MAX {
        pre.time + WINNER_DELAY
    } else {
        u64::MAX as int
    })
    &&& (match pre.raffle_mode {
        RaffleMode::Regular => m.message matches Announcement::WinnerRegular { name: n } && n@
            == name,
        RaffleMode::Ld => match game_link_of(pre.db@, name) {
            Option::Some(link) => {
                if game_played_of(pre.db@, name) {
                    m.message matches Announcement::WinnerAlreadyPlayed { name: n, link: l } && n@
                        == name && l@ == link@
                } else {
                    (m.message matches Announcement::WinnerNewGame { name: n, link: l } && n@
                        == name && l@ == link@) && game_played_of(post_db, name)
                }
            },
            Option::None => m.message matches Announcement::WinnerNoSubmission { name: n } && n@
                == name,
        },
    })
}

impl State {
    /// Announce the round's winner: a plain congratulation in a regular
    /// round; in linked-submission mode the submitted game is announced and
    /// marked played, or its absence regretted. Fires the win effect.
    fn announce_winner(&mut self)
        requires
            old(self).wf(),
            old(self).guys@.len() == 1,
        ensures
            final(self).wf(),
            final(self).guys@ == old(self).guys@,
            final(self).attacks@ == old(self).attacks@,
            final(self).queued_attack == old(self).queued_attack,
            final(self).next_attack == old(self).next_attack,
            final(self).next_id == old(self).next_id,
            final(self).idle == old(self).idle,
            final(self).process_battle == old(self).process_battle,
            final(self).winning_screen == old(self).winning_screen,
            final(self).time == old(self).time,
            final(self).raffle_mode == old(self).raffle_mode,
            final(self).raffle_keyword == old(self).raffle_keyword,
            final(self).circle == old(self).circle,
            final(self).constants == old(self).constants,
            final(self).skin_options == old(self).skin_options,
            final(self).outbox@ == old(self).outbox@,
            final(self).feed == old(self).feed,
            final(self).delayed_messages@.len() == old(self).delayed_messages@.len() + 1,
            forall|i: int|
                0 <= i < old(self).delayed_messages@.len() ==> final(self).delayed_messages@[i]
                    == old(self).delayed_messages@[i],
            ({
                let name = old(self).guys@[0].name@;
                let m = final(self).delayed_messages@.last();
                &&& m.time == (if old(self).time + WINNER_DELAY <= u64::MAX {
                    old(self).time + WINNER_DELAY
                } else {
                    u64::MAX as int
                })
                &&& (match old(self).raffle_mode {
                    RaffleMode::Regular => m.message matches Announcement::WinnerRegular {
                        name: n,
                    } && n@ == name,
                    RaffleMode::Ld => match game_link_of(old(self).db@, name) {
                        Option::Some(link) => {
                            if game_played_of(old(self).db@, name) {
                                m.message matches Announcement::WinnerAlreadyPlayed {
                                    name: n,
                                    link: l,
                                } && n@ == name && l@ == link@
                            } else {
                                (m.message matches Announcement::WinnerNewGame { name: n, link: l }
                                    && n@ == name && l@ == link@) && game_played_of(
                                    final(self).db@,
                                    name,
                                )
                            }
                        },
                        Option::None => m.message matches Announcement::WinnerNoSubmission {
                            name: n,
                        } && n@ == name,
                    },
                })
            }),
            old(self).raffle_mode is Regular ==> final(self).db@ == old(self).db@,
            forall|n2: Seq<char>|
                n2 != old(self).guys@[0].name@ ==> crate::db::find_row_spec(final(self).db@, n2)
                    == crate::db::find_row_spec(old(self).db@, n2),
    {
        let at = self.time.saturating_add(WINNER_DELAY);
        let name = self.guys.get(0).name.clone();
        match self.raffle_mode {
            RaffleMode::Regular => {
                self.delayed_messages.push(
                    DelayedMessage { time: at, message: Announcement::WinnerRegular { name } },
                );
            },
            RaffleMode::Ld => {
                match self.db.find_game_link(name.as_str()) {
                    Option::Some(link) => {
                        if self.db.game_played(name.as_str()) {
                            self.delayed_messages.push(
                                DelayedMessage {
                                    time: at,
                                    message: Announcement::WinnerAlreadyPlayed { name, link },
                                },
                            );
                        } else {
                            self.db.set_game_played(name.as_str(), true);
                            self.delayed_messages.push(
                                DelayedMessage {
                                    time: at,
                                    message: Announcement::WinnerNewGame { name, link },
                                },
                            );
                        }
                    },
                    Option::None => {
                        self.delayed_messages.push(
                            DelayedMessage {
                                time: at,
                                message: Announcement::WinnerNoSubmission { name },
                            },
                        );
                    },
                }
            },
        }
        self.signals.push(Signal::WinFx);
    }

    /// One simulation tick. The winner announcement is latched to fire
    /// exactly once while exactly one combatant remains battling; due
    /// delayed messages go out; movement, then attacks; spawn fade-in
    /// advances; the arena circle follows the instantaneous one.
    pub fn update(&mut self, delta_time: i64, wobble: &Vec<i64>)
        requires
            old(self).wf(),
            0 <= delta_time <= DT_LIMIT,
            wobble@.len() == old(self).guys@.len(),
            forall|i: int| 0 <= i < wobble@.len() ==> -1000 <= #[trigger] wobble@[i] <= 1000,
        ensures
            final(self).wf(),
            final(self).idle == old(self).idle,
            final(self).process_battle == old(self).process_battle,
            final(self).raffle_mode == old(self).raffle_mode,
            final(self).raffle_keyword == old(self).raffle_keyword,
            final(self).constants == old(self).constants,
            final(self).next_id == old(self).next_id,
            final(self).time == time_after(*old(self), delta_time as int),
            // The registry after the tick: movement, then the volley if one
            // lands, then the fade-in step.
            final(self).guys@ == fade_phase(
                combat_phase(*old(self), wobble@, delta_time as int),
                delta_time as int,
            ),
            // The winner latch: set exactly when one combatant remains
            // battling and it was not yet set; cleared outside battle.
            final(self).winning_screen == (if old(self).process_battle {
                old(self).winning_screen || old(self).guys@.len() == 1
            } else {
                false
            }),
            // Latched rounds add no second winner announcement.
            old(self).process_battle && old(self).guys@.len() == 1 && old(self).winning_screen
                ==> final(self).delayed_messages@.len() <= old(self).delayed_messages@.len(),
            // When the round resolves, exactly one winner announcement joins
            // the queue, saying what the winner's submission state demands;
            // then whatever has come due (it included) goes out.
            resolves_now(*old(self)) ==> exists|msg: DelayedMessage|
                {
                    &&& #[trigger] winner_msg_ok(*old(self), msg, final(self).db@)
                    &&& final(self).delayed_messages@ == future_part(
                        old(self).delayed_messages@.push(msg),
                        time_after(*old(self), delta_time as int) as u64,
                    )
                    &&& final(self).outbox@ == old(self).outbox@ + says_of(
                        due_part(
                            old(self).delayed_messages@.push(msg),
                            time_after(*old(self), delta_time as int) as u64,
                        ),
                    )
                },
            !resolves_now(*old(self)) ==> {
                &&& final(self).delayed_messages@ == future_part(
                    old(self).delayed_messages@,
                    time_after(*old(self), delta_time as int) as u64,
                )
                &&& final(self).outbox@ == old(self).outbox@ + says_of(
                    due_part(
                        old(self).delayed_messages@,
                        time_after(*old(self), delta_time as int) as u64,
                    ),
                )
            },
            // Only the winner flow may touch persistence, and only the
            // winner's row.
            !resolves_now(*old(self)) ==> final(self).db@ == old(self).db@,
            resolves_now(*old(self)) ==> forall|n2: Seq<char>|
                n2 != old(self).guys@[0].name@ ==> crate::db::find_row_spec(final(self).db@, n2)
                    == crate::db::find_row_spec(old(self).db@, n2),
            // The kept circle steps toward the instantaneous one, or stays
            // put while no combatant has any spawn weight.
            crate::arena::spawn_total(final(self).guys@) == 0 ==> final(self).circle == old(
                self,
            ).circle,
            crate::arena::spawn_total(final(self).guys@) != 0 ==> final(self).circle == smoothed(
                old(self).circle,
                circle_target(final(self).guys@),
                delta_time as int,
            ),
            // While any legitimate contender holds positive projected
            // health, the tick cannot leave the cursed side alone.
            crate::scheduler::has_non_cursed(old(self).guys@)
                && crate::scheduler::fair_contender(old(self).guys@, old(self).attacks@)
                ==> crate::scheduler::has_non_cursed(final(self).guys@),
    {
        // Winner detection, latched once per round.
        if self.process_battle {
            if self.guys.len() == 1 {
                if !self.winning_screen {
                    self.announce_winner();
                    self.winning_screen = true;
                }
            }
        } else {
            self.winning_screen = false;
        }
        let ghost w1 = *self;
        proof {
            if resolves_now(*old(self)) {
                assert(w1.delayed_messages@ =~= old(self).delayed_messages@.push(
                    w1.delayed_messages@.last(),
                ));
            }
        }
        // Advance time and send what has come due.
        self.time = self.time.saturating_add(delta_time as u64);
        let ghost dm0 = self.delayed_messages@;
        let ghost out0 = self.outbox@;
        let t = self.time;
        let mut keep: Vec<DelayedMessage> = Vec::new();
        let n = self.delayed_messages.len();
        let mut i: usize = 0;
        proof {
            assert(dm0.subrange(0, 0) =~= Seq::<DelayedMessage>::empty());
            assert(self.outbox@ =~= out0 + says_of(due_part(dm0.subrange(0, 0), t)));
            assert(keep@ =~= future_part(dm0.subrange(0, 0), t));
        }
        let ghost mid = *self;
        while i < n
            invariant
                mid.wf(),
                n == dm0.len(),
                0 <= i <= n,
                self.delayed_messages@ == dm0,
                t == self.time,
                self.outbox@ == out0 + says_of(due_part(dm0.subrange(0, i as int), t)),
                keep@ == future_part(dm0.subrange(0, i as int), t),
                self.guys == mid.guys,
                self.attacks == mid.attacks,
                self.queued_attack == mid.queued_attack,
                self.next_attack == mid.next_attack,
                self.next_id == mid.next_id,
                self.idle == mid.idle,
                self.process_battle == mid.process_battle,
                self.winning_screen == mid.winning_screen,
                self.circle == mid.circle,
                self.constants == mid.constants,
                self.skin_options == mid.skin_options,
                self.db == mid.db,
                self.raffle_mode == mid.raffle_mode,
                self.raffle_keyword == mid.raffle_keyword,
                self.feed == mid.feed,
                self.signals == mid.signals,
                self.time == mid.time,
            decreases n - i,
        {
            let ghost cur = dm0.subrange(0, i + 1);
            proof {
                assert(cur.drop_last() =~= dm0.subrange(0, i as int));
                assert(cur.last() == dm0[i as int]);
            }
            let m = &self.delayed_messages[i];
            if m.time <= t {
                let text = clone_announcement(&m.message);
                self.outbox.push(Outbound::Say { text });
                proof {
                    let dp = due_part(dm0.subrange(0, i as int), t);
                    assert(due_part(cur, t) =~= dp.push(dm0[i as int]));
                    assert(due_part(cur, t).drop_last() =~= dp);
                    assert(says_of(due_part(cur, t)) =~= says_of(dp).push(
                        Outbound::Say { text: dm0[i as int].message },
                    ));
                    assert(self.outbox@ =~= out0 + says_of(due_part(cur, t)));
                }
            } else {
                let copy = DelayedMessage { time: m.time, message: clone_announcement(&m.message) };
                keep.push(copy);
                proof {
                    assert(keep@ =~= future_part(cur, t));
                }
            }
            i += 1;
        }
        proof {
            assert(dm0.subrange(0, n as int) =~= dm0);
            lemma_future_part_len(dm0, t);
        }
        self.delayed_messages = keep;
        // Movement, then combat.
        self.process_movement(delta_time, wobble);
        proof {
            if crate::scheduler::has_non_cursed(old(self).guys@)
                && crate::scheduler::fair_contender(old(self).guys@, old(self).attacks@) {
                crate::scheduler::lemma_identity_keeps_fairness(
                    old(self).guys@,
                    self.guys@,
                    old(self).attacks@,
                );
            }
        }
        self.process_attacks(delta_time);
        // Spawn fade-in.
        let ghost g3 = self.guys@;
        let ghost mid2 = *self;
        let n = self.guys.len();
        let mut i: usize = 0;
        while i < n
            invariant
                0 <= i <= n,
                0 <= delta_time <= DT_LIMIT,
                n == g3.len(),
                n == self.guys@.len(),
                self.guys.wf(),
                crate::registry::all_alive(self.guys@),
                self.wf(),
                forall|j: int|
                    0 <= j < i ==> #[trigger] self.guys@[j] == fade_phase(
                        g3,
                        delta_time as int,
                    )[j],
                forall|j: int| i <= j < n ==> #[trigger] self.guys@[j] == g3[j],
                self.db == mid2.db,
                self.next_id == mid2.next_id,
                self.circle == mid2.circle,
                self.outbox == mid2.outbox,
                self.delayed_messages == mid2.delayed_messages,
                self.attacks == mid2.attacks,
                self.queued_attack == mid2.queued_attack,
                self.next_attack == mid2.next_attack,
                self.idle == mid2.idle,
                self.process_battle == mid2.process_battle,
                self.winning_screen == mid2.winning_screen,
                self.raffle_mode == mid2.raffle_mode,
                self.raffle_keyword == mid2.raffle_keyword,
                self.constants == mid2.constants,
                self.skin_options == mid2.skin_options,
                self.time == mid2.time,
            decreases n - i,
        {
            proof {
                assert(self.guys@[i as int].wf());
            }
            let guy = self.guys.get(i);
            let bump: u32 = if delta_time > 1000 {
                1000
            } else {
                delta_time as u32
            };
            let ns: u32 = if guy.spawn + bump >= 1000 {
                1000
            } else {
                guy.spawn + bump
            };
            let mut updated = guy.duplicate();
            updated.spawn = ns;
            let ghost g0 = self.guys@;
            self.guys.set_at(i, updated);
            proof {
                assert(self.guys@[i as int] == fade_phase(g3, delta_time as int)[i as int]);
                assert forall|k: int| 0 <= k < self.guys@.len() implies crate::world::count_on(
                    self.attacks@,
                    (#[trigger] self.guys@[k]).id,
                ) <= self.guys@[k].health by {
                    assert(g0[k].id == self.guys@[k].id && g0[k].health == self.guys@[k].health);
                }
            }
            i += 1;
        }
        proof {
            assert(self.guys@ =~= fade_phase(g3, delta_time as int));
            if crate::scheduler::has_non_cursed(old(self).guys@)
                && crate::scheduler::fair_contender(old(self).guys@, old(self).attacks@) {
                let w = choose|w: int| 0 <= w < g3.len() && !g3[w].should_never_win;
                assert(!self.guys@[w].should_never_win);
            }
        }
        // Smooth the kept circle toward the instantaneous one.
        let ghost pre_circle = self.circle;
        match crate::arena::find_circle(&self.guys) {
            Option::Some(target) => {
                proof {
                    assert(target == circle_target(self.guys@));
                }
                crate::arena::smooth_circle(&mut self.circle, &target, delta_time);
                proof {
                    assert(self.circle == smoothed(
                        pre_circle,
                        circle_target(self.guys@),
                        delta_time as int,
                    ));
                }
            },
            Option::None => {},
        }
        proof {
            if resolves_now(*old(self)) {
                let msg = w1.delayed_messages@.last();
                assert(winner_msg_ok(*old(self), msg, self.db@));
                assert(old(self).delayed_messages@.push(msg) =~= dm0);
                assert(self.delayed_messages@ == future_part(dm0, t));
                assert(self.outbox@ == out0 + says_of(due_part(dm0, t)));
            }
        }
    }
}

/// A field-for-field copy of an announcement.
fn clone_announcement(a: &Announcement) -> (r: Announcement)
    ensures
        r == *a,
{
    match a {
        Announcement::RaffleAboutToBegin { keyword } => Announcement::RaffleAboutToBegin {
            keyword: keyword.clone(),
        },
        Announcement::AlreadyGoingOn => Announcement::AlreadyGoingOn,
        Announcement::SubmitUsage => Announcement::SubmitUsage,
        Announcement::AlreadyPlayed => Announcement::AlreadyPlayed,
        Announcement::AlreadySubmitted => Announcement::AlreadySubmitted,
        Announcement::SubmissionOk { curse_reversed } => Announcement::SubmissionOk {
            curse_reversed: *curse_reversed,
        },
        Announcement::SkinPartOptions { part } => Announcement::SkinPartOptions { part: *part },
        Announcement::TooEarlyOrLate => Announcement::TooEarlyOrLate,
        Announcement::NoCheating => Announcement::NoCheating,
        Announcement::CannotJoinOngoing => Announcement::CannotJoinOngoing,
        Announcement::CursedJoin => Announcement::CursedJoin,
        Announcement::LevelReply { level, hp } => Announcement::LevelReply {
            level: *level,
            hp: *hp,
        },
        Announcement::SkinReply { skin } => Announcement::SkinReply { skin: skin.duplicate() },
        Announcement::WinnerRegular { name } => Announcement::WinnerRegular {
            name: name.clone(),
        },
        Announcement::WinnerAlreadyPlayed { name, link } => Announcement::WinnerAlreadyPlayed {
            name: name.clone(),
            link: link.clone(),
        },
        Announcement::WinnerNewGame { name, link } => Announcement::WinnerNewGame {
            name: name.clone(),
            link: link.clone(),
        },
        Announcement::WinnerNoSubmission { name } => Announcement::WinnerNoSubmission {
            name: name.clone(),
        },
        Announcement::LevelUpBroadcast { name, level, hp } => Announcement::LevelUpBroadcast {
            name: name.clone(),
            level: *level,
            hp: *hp,
        },
    }
}

} // verus!
