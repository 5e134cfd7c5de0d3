//! The simulation state and the raffle lifecycle: idle, recruiting,
//! battling, resolved. Holds every invariant the rest of the engine relies
//! on: unique live names, unique in-flight attackers, health within its cap,
//! damage never scheduled past a target's health, and bounded motion.
use vstd::prelude::*;
use crate::arena::Circle;
use crate::combatant::{Combatant, Id};
use crate::db::{level_of, Db};
use crate::events::{Announcement, DelayedMessage, Outbound, Signal};
use crate::geom::Vec2Px;
use crate::registry::{all_alive, Registry};
use crate::skin::SkinOptions;

verus! {

/// Most combatants one round can hold; keeps every weighted sum in range.
pub const GUYS_LIMIT: usize = 1_000_000;

/// The volley countdown, in thousandths of a time unit.
pub const ATTACK_TIME: i64 = 1000;

/// The largest tick step the solvers accept, one time unit.
pub const DT_LIMIT: i64 = 1000;

#[derive(Clone, Copy, Debug, PartialEq, Eq, Structural)]
pub enum RaffleMode {
    /// Plain congratulation for the winner.
    Regular,
    /// Winner's submitted game link is announced and marked played.
    Ld,
}

/// A scheduled, in-flight strike; ids refer into the registry.
#[derive(Clone, Copy, Debug, PartialEq, Eq, Structural)]
pub struct Attack {
    pub attacker_id: Id,
    pub target_id: Id,
}

/// The tunable rules, loaded with the assets.
pub struct Constants {
    /// The privileged (channel owner) sender name.
    pub channel_login: String,
    /// Levels granted by one reward redemption.
    pub channel_point_levels: usize,
    /// Health at level one.
    pub initial_health: usize,
    /// Extra health per level past the first.
    pub extra_health_per_level: usize,
    /// Health granted by one click on a combatant.
    pub health_per_click: usize,
    /// Health granted by a privileged bless.
    pub bless_hp: usize,
    /// Cohesion spring gain, in thousandths.
    pub preferred_distance_spring_k: i64,
}

impl Constants {
    pub open spec fn wf(self) -> bool {
        &&& self.initial_health >= 1
        &&& 0 <= self.preferred_distance_spring_k <= 1000
    }
}

/// How many in-flight attacks target `id`.
pub open spec fn count_on(attacks: Seq<Attack>, id: Id) -> int
    decreases attacks.len(),
{
    if attacks.len() == 0 {
        0
    } else {
        (if attacks[0].target_id == id {
            1int
        } else {
            0int
        }) + count_on(attacks.drop_first(), id)
    }
}

/// Each attacker appears in at most one in-flight attack.
pub open spec fn attackers_unique(attacks: Seq<Attack>) -> bool {
    forall|i: int, j: int|
        0 <= i < j < attacks.len() ==> attacks[i].attacker_id != attacks[j].attacker_id
}

/// Every id an attack mentions was assigned before `next`.
pub open spec fn attack_ids_below(attacks: Seq<Attack>, next: Id) -> bool {
    forall|i: int|
        0 <= i < attacks.len() ==> attacks[i].attacker_id < next && attacks[i].target_id < next
}

/// A count lies between zero and the number of attacks.
pub proof fn lemma_count_on_le(attacks: Seq<Attack>, id: Id)
    ensures
        0 <= count_on(attacks, id) <= attacks.len(),
    decreases attacks.len(),
{
    if attacks.len() > 0 {
        lemma_count_on_le(attacks.drop_first(), id);
    }
}

/// Appending one attack raises exactly its target's count by one.
pub proof fn lemma_count_on_push(attacks: Seq<Attack>, a: Attack, id: Id)
    ensures
        count_on(attacks.push(a), id) == count_on(attacks, id) + if a.target_id == id {
            1int
        } else {
            0int
        },
    decreases attacks.len(),
{
    let s2 = attacks.push(a);
    if attacks.len() == 0 {
        assert(s2[0] == a);
        assert(s2.drop_first() =~= Seq::<Attack>::empty());
        assert(count_on(s2.drop_first(), id) == 0);
    } else {
        lemma_count_on_push(attacks.drop_first(), a, id);
        assert(s2.drop_first() =~= attacks.drop_first().push(a));
        assert(s2[0] == attacks[0]);
    }
}

/// The click position lies within this combatant's body radius.
pub open spec fn covers(g: Combatant, position: Vec2Px) -> bool {
    (g.position.x - position.x) * (g.position.x - position.x) + (g.position.y - position.y) * (
    g.position.y - position.y) < 1_000_000
}

/// Nothing targets an id no attack mentions.
pub proof fn lemma_count_on_zero(attacks: Seq<Attack>, id: Id)
    requires
        forall|i: int| 0 <= i < attacks.len() ==> (#[trigger] attacks[i]).target_id != id,
    ensures
        count_on(attacks, id) == 0,
    decreases attacks.len(),
{
    if attacks.len() > 0 {
        let d = attacks.drop_first();
        assert(forall|i: int| 0 <= i < d.len() ==> #[trigger] d[i] == attacks[i + 1]);
        lemma_count_on_zero(d, id);
    }
}

pub struct State {
    pub guys: Registry,
    pub next_id: Id,
    /// No round is going on at all.
    pub idle: bool,
    /// The battling sub-state; recruiting is `!idle && !process_battle`.
    pub process_battle: bool,
    /// Fires the winner announcement exactly once per round.
    pub winning_screen: bool,
    /// Remaining volley countdown, when a volley is armed.
    pub next_attack: Option<i64>,
    pub attacks: Vec<Attack>,
    /// The single-slot deferred attack.
    pub queued_attack: Option<Attack>,
    pub circle: Circle,
    /// Name of the combatant eliminated by the latest volley, for the feed.
    pub feed: Option<String>,
    /// Simulation time in thousandths.
    pub time: u64,
    pub delayed_messages: Vec<DelayedMessage>,
    pub raffle_mode: RaffleMode,
    /// Chat word that joins the round, without the leading `!`.
    pub raffle_keyword: String,
    pub db: Db,
    pub skin_options: SkinOptions,
    pub constants: Constants,
    pub rng: rand::rngs::StdRng,
    /// Chat messages decided but not yet handed to the transport.
    pub outbox: Vec<Outbound>,
    /// Presentation effects decided but not yet handed to the renderer.
    pub signals: Vec<Signal>,
}

impl State {
    /// The master invariant.
    pub open spec fn wf(self) -> bool {
        &&& self.guys.wf()
        &&& all_alive(self.guys@)
        &&& self.guys@.len() <= GUYS_LIMIT
        &&& forall|i: int| 0 <= i < self.guys@.len() ==> self.guys@[i].id < self.next_id
        &&& attackers_unique(self.attacks@)
        &&& attack_ids_below(self.attacks@, self.next_id)
        &&& forall|i: int|
            0 <= i < self.guys@.len() ==> count_on(self.attacks@, self.guys@[i].id)
                <= self.guys@[i].health
        &&& match self.queued_attack {
            Option::Some(a) => a.attacker_id < self.next_id && a.target_id < self.next_id,
            Option::None => true,
        }
        &&& match self.next_attack {
            Option::Some(t) => 0 < t <= ATTACK_TIME,
            Option::None => self.attacks@.len() == 0,
        }
        &&& (self.idle ==> !self.process_battle)
        &&& self.circle.wf()
        &&& self.constants.wf()
        &&& self.skin_options.wf()
        &&& self.db.wf()
    }

    /// Everything but the registry, the volley state, the feed, the effects
    /// and the random source agrees between the two states.
    pub open spec fn frame_eq(self, other: State) -> bool {
        &&& self.next_id == other.next_id
        &&& self.idle == other.idle
        &&& self.process_battle == other.process_battle
        &&& self.winning_screen == other.winning_screen
        &&& self.circle == other.circle
        &&& self.time == other.time
        &&& self.delayed_messages == other.delayed_messages
        &&& self.raffle_mode == other.raffle_mode
        &&& self.raffle_keyword == other.raffle_keyword
        &&& self.db == other.db
        &&& self.skin_options == other.skin_options
        &&& self.constants == other.constants
        &&& self.outbox == other.outbox
    }

    /// A fresh, idle world with an empty registry and store.
    pub fn new(constants: Constants, skin_options: SkinOptions, seed: u64) -> (r: State)
        requires
            constants.wf(),
            skin_options.wf(),
        ensures
            r.wf(),
            r.idle,
            !r.process_battle,
            !r.winning_screen,
            r.guys@.len() == 0,
            r.attacks@.len() == 0,
            r.queued_attack is None,
            r.next_attack is None,
            r.next_id == 0,
            r.time == 0,
            r.db@.len() == 0,
            r.raffle_mode is Ld,
            r.outbox@.len() == 0,
            r.signals@.len() == 0,
            r.delayed_messages@.len() == 0,
    {
        State {
            guys: Registry::new(),
            next_id: 0,
            idle: true,
            process_battle: false,
            winning_screen: false,
            next_attack: Option::None,
            attacks: Vec::new(),
            queued_attack: Option::None,
            circle: Circle { center: Vec2Px { x: 0, y: 0 }, radius: 1000 },
            feed: Option::None,
            time: 0,
            delayed_messages: Vec::new(),
            raffle_mode: RaffleMode::Ld,
            raffle_keyword: String::from_str("fight"),
            db: Db::new(),
            skin_options,
            constants,
            rng: crate::rng::rng_from_seed(seed),
            outbox: Vec::new(),
            signals: Vec::new(),
        }
    }

    /// The idle-to-recruiting transition. A start while a round is already
    /// going on only answers "already going on": it clears nothing and
    /// resets no in-flight attack.
    pub fn start_raffle(&mut self, mode: RaffleMode)
        requires
            old(self).wf(),
        ensures
            final(self).wf(),
            final(self).raffle_keyword == old(self).raffle_keyword,
            !old(self).idle ==> {
                &&& final(self).guys@ == old(self).guys@
                &&& final(self).attacks@ == old(self).attacks@
                &&& final(self).queued_attack == old(self).queued_attack
                &&& final(self).next_attack == old(self).next_attack
                &&& final(self).idle == old(self).idle
                &&& final(self).process_battle == old(self).process_battle
                &&& final(self).raffle_mode == old(self).raffle_mode
                &&& final(self).db@ == old(self).db@
                &&& final(self).next_id == old(self).next_id
                &&& final(self).outbox@ == old(self).outbox@.push(
                    Outbound::Say { text: Announcement::AlreadyGoingOn },
                )
            },
            old(self).idle ==> {
                &&& !final(self).idle
                &&& !final(self).process_battle
                &&& final(self).guys@.len() == 0
                &&& final(self).attacks@.len() == 0
                &&& final(self).queued_attack is None
                &&& final(self).next_attack is None
                &&& final(self).raffle_mode == mode
                &&& final(self).db@ == old(self).db@
                &&& final(self).next_id == old(self).next_id
                &&& final(self).outbox@.len() == old(self).outbox@.len() + 1
                &&& (final(self).outbox@.last() matches Outbound::Say {
                    text: Announcement::RaffleAboutToBegin { keyword },
                } && keyword@ == old(self).raffle_keyword@)
            },
    {
        if !self.idle {
            self.outbox.push(Outbound::Say { text: Announcement::AlreadyGoingOn });
            return ;
        }
        let keyword = self.raffle_keyword.clone();
        self.outbox.push(
            Outbound::Say { text: Announcement::RaffleAboutToBegin { keyword } },
        );
        self.idle = false;
        self.guys.clear();
        self.attacks = Vec::new();
        self.next_attack = Option::None;
        self.queued_attack = Option::None;
        self.signals.push(Signal::TitleFx);
        self.raffle_mode = mode;
    }

    /// The close command: back to idle without clearing the display.
    pub fn close_raffle(&mut self)
        requires
            old(self).wf(),
        ensures
            final(self).wf(),
            final(self).idle,
            !final(self).process_battle,
            final(self).guys@ == old(self).guys@,
            final(self).attacks@ == old(self).attacks@,
            final(self).next_attack == old(self).next_attack,
            final(self).queued_attack == old(self).queued_attack,
            final(self).db@ == old(self).db@,
            final(self).outbox@ == old(self).outbox@,
            final(self).raffle_mode == old(self).raffle_mode,
            final(self).raffle_keyword == old(self).raffle_keyword,
            final(self).next_id == old(self).next_id,
    {
        self.process_battle = false;
        self.idle = true;
    }

    /// Raise one combatant's health and cap together (saturating), and ask
    /// for the level-up effect. Health never exceeds its cap afterwards.
    pub fn heal_at(&mut self, i: usize, amount: usize)
        requires
            old(self).wf(),
            i < old(self).guys@.len(),
        ensures
            final(self).wf(),
            final(self).guys@.len() == old(self).guys@.len(),
            final(self).guys@[i as int].health == if old(self).guys@[i as int].health + amount
                <= usize::MAX {
                old(self).guys@[i as int].health + amount
            } else {
                usize::MAX as int
            },
            final(self).guys@[i as int].max_health == if old(self).guys@[i as int].max_health
                + amount <= usize::MAX {
                old(self).guys@[i as int].max_health + amount
            } else {
                usize::MAX as int
            },
            final(self).guys@[i as int].health <= final(self).guys@[i as int].max_health,
            final(self).guys@[i as int].name@ == old(self).guys@[i as int].name@,
            final(self).guys@[i as int].id == old(self).guys@[i as int].id,
            final(self).guys@[i as int].should_never_win == old(
                self,
            ).guys@[i as int].should_never_win,
            forall|j: int|
                0 <= j < old(self).guys@.len() && j != i ==> final(self).guys@[j] == old(
                    self,
                ).guys@[j],
            final(self).attacks@ == old(self).attacks@,
            final(self).db@ == old(self).db@,
            final(self).signals@ == old(self).signals@.push(
                Signal::LevelUpFx { id: old(self).guys@[i as int].id },
            ),
            final(self).outbox@ == old(self).outbox@,
            final(self).delayed_messages@ == old(self).delayed_messages@,
            final(self).next_attack == old(self).next_attack,
            final(self).queued_attack == old(self).queued_attack,
            final(self).next_id == old(self).next_id,
            final(self).idle == old(self).idle,
            final(self).process_battle == old(self).process_battle,
            final(self).raffle_mode == old(self).raffle_mode,
            final(self).raffle_keyword == old(self).raffle_keyword,
            final(self).constants == old(self).constants,
            final(self).skin_options == old(self).skin_options,
            final(self).circle == old(self).circle,
            final(self).time == old(self).time,
            final(self).winning_screen == old(self).winning_screen,
    {
        let guy = self.guys.get(i);
        let ghost id = guy.id;
        let mut updated = guy.duplicate();
        updated.health = updated.health.saturating_add(amount);
        updated.max_health = updated.max_health.saturating_add(amount);
        let ghost g0 = self.guys@;
        self.guys.set_at(i, updated);
        self.signals.push(Signal::LevelUpFx { id: self.guys.get(i).id });
        proof {
            assert forall|k: int| 0 <= k < self.guys@.len() implies count_on(
                self.attacks@,
                self.guys@[k].id,
            ) <= self.guys@[k].health by {
                assert(g0[k].id == self.guys@[k].id);
            }
        }
    }

    /// Set or clear a combatant's curse.
    pub fn set_cursed_at(&mut self, i: usize, cursed: bool)
        requires
            old(self).wf(),
            i < old(self).guys@.len(),
        ensures
            final(self).wf(),
            final(self).guys@.len() == old(self).guys@.len(),
            final(self).guys@[i as int].should_never_win == cursed,
            final(self).guys@[i as int].health == old(self).guys@[i as int].health,
            final(self).guys@[i as int].name@ == old(self).guys@[i as int].name@,
            forall|j: int|
                0 <= j < old(self).guys@.len() && j != i ==> final(self).guys@[j] == old(
                    self,
                ).guys@[j],
            final(self).attacks@ == old(self).attacks@,
            final(self).db@ == old(self).db@,
            final(self).outbox@ == old(self).outbox@,
            final(self).signals@ == old(self).signals@,
            final(self).delayed_messages@ == old(self).delayed_messages@,
            final(self).next_attack == old(self).next_attack,
            final(self).queued_attack == old(self).queued_attack,
            final(self).next_id == old(self).next_id,
            final(self).idle == old(self).idle,
            final(self).process_battle == old(self).process_battle,
            final(self).raffle_mode == old(self).raffle_mode,
            final(self).raffle_keyword == old(self).raffle_keyword,
            final(self).constants == old(self).constants,
            final(self).skin_options == old(self).skin_options,
            final(self).circle == old(self).circle,
            final(self).time == old(self).time,
            final(self).winning_screen == old(self).winning_screen,
    {
        let ghost g0 = self.guys@;
        let mut updated = self.guys.get(i).duplicate();
        updated.should_never_win = cursed;
        self.guys.set_at(i, updated);
        proof {
            assert forall|k: int| 0 <= k < self.guys@.len() implies count_on(
                self.attacks@,
                self.guys@[k].id,
            ) <= self.guys@[k].health by {
                assert(g0[k].id == self.guys@[k].id);
            }
        }
    }

    /// Before recruiting turns into battling, every surviving non-cursed
    /// combatant's persisted level rises by one.
    pub fn levelup_all(&mut self)
        requires
            old(self).wf(),
        ensures
            final(self).wf(),
            final(self).guys@ == old(self).guys@,
            final(self).attacks@ == old(self).attacks@,
            final(self).queued_attack == old(self).queued_attack,
            final(self).next_attack == old(self).next_attack,
            final(self).next_id == old(self).next_id,
            final(self).idle == old(self).idle,
            final(self).process_battle == old(self).process_battle,
            final(self).winning_screen == old(self).winning_screen,
            final(self).raffle_mode == old(self).raffle_mode,
            final(self).raffle_keyword == old(self).raffle_keyword,
            final(self).outbox@ == old(self).outbox@,
            final(self).signals@ == old(self).signals@,
            final(self).delayed_messages@ == old(self).delayed_messages@,
            final(self).time == old(self).time,
            final(self).constants == old(self).constants,
            final(self).skin_options == old(self).skin_options,
            final(self).circle == old(self).circle,
            final(self).feed == old(self).feed,
            forall|i: int|
                0 <= i < old(self).guys@.len() ==> level_of(
                    final(self).db@,
                    old(self).guys@[i].name@,
                ) == if old(self).guys@[i].should_never_win {
                    level_of(old(self).db@, old(self).guys@[i].name@)
                } else if level_of(old(self).db@, old(self).guys@[i].name@) + 1 <= usize::MAX {
                    level_of(old(self).db@, old(self).guys@[i].name@) + 1
                } else {
                    usize::MAX as int
                },
            forall|n: Seq<char>|
                !crate::registry::has_name(old(self).guys@, n) ==> crate::db::find_row_spec(
                    final(self).db@,
                    n,
                ) == crate::db::find_row_spec(old(self).db@, n),
    {
        let ghost g = self.guys@;
        let ghost db0 = self.db@;
        let n = self.guys.len();
        let mut i: usize = 0;
        while i < n
            invariant
                self.wf(),
                n == g.len(),
                self.guys@ == g,
                self.attacks@ == old(self).attacks@,
                self.next_id == old(self).next_id,
                self.queued_attack == old(self).queued_attack,
                self.next_attack == old(self).next_attack,
                self.idle == old(self).idle,
                self.process_battle == old(self).process_battle,
                self.winning_screen == old(self).winning_screen,
                self.raffle_mode == old(self).raffle_mode,
                self.raffle_keyword == old(self).raffle_keyword,
                self.outbox@ == old(self).outbox@,
                self.signals@ == old(self).signals@,
                self.delayed_messages@ == old(self).delayed_messages@,
                self.time == old(self).time,
                self.skin_options == old(self).skin_options,
                self.feed == old(self).feed,
                self.circle == old(self).circle,
                self.constants == old(self).constants,
                0 <= i <= n,
                forall|k: int|
                    0 <= k < i ==> level_of(self.db@, g[k].name@) == if g[k].should_never_win {
                        level_of(db0, g[k].name@)
                    } else if level_of(db0, g[k].name@) + 1 <= usize::MAX {
                        level_of(db0, g[k].name@) + 1
                    } else {
                        usize::MAX as int
                    },
                forall|k: int|
                    i <= k < n ==> crate::db::find_row_spec(self.db@, g[k].name@)
                        == crate::db::find_row_spec(db0, g[k].name@),
                forall|m: Seq<char>|
                    !crate::registry::has_name(g, m) ==> crate::db::find_row_spec(self.db@, m)
                        == crate::db::find_row_spec(db0, m),
            decreases n - i,
        {
            let ghost db_pre = self.db@;
            let guy = self.guys.get(i);
            let name = guy.name.clone();
            let cursed = guy.should_never_win;
            let current = self.db.find_level(name.as_str());
            if !cursed {
                self.db.set_level(name.as_str(), current.saturating_add(1));
            }
            proof {
                assert(crate::registry::has_name(g, g[i as int].name@));
                assert forall|k: int| i + 1 <= k < n implies crate::db::find_row_spec(
                    self.db@,
                    g[k].name@,
                ) == crate::db::find_row_spec(db0, g[k].name@) by {
                    assert(g[k].name@ != g[i as int].name@);
                }
                assert forall|k: int| 0 <= k < i + 1 implies level_of(self.db@, g[k].name@) == if g[
                    k
                ].should_never_win {
                    level_of(db0, g[k].name@)
                } else if level_of(db0, g[k].name@) + 1 <= usize::MAX {
                    level_of(db0, g[k].name@) + 1
                } else {
                    usize::MAX as int
                } by {
                    if k < i {
                        assert(g[k].name@ != g[i as int].name@);
                    }
                }
            }
            i += 1;
        }
    }

    /// Index of the first combatant whose body covers `position`.
    pub fn find_within(&self, position: Vec2Px) -> (r: Option<usize>)
        requires
            self.wf(),
            position.bounded(crate::combatant::POS_LIMIT as int),
        ensures
            match r {
                Option::Some(i) => i < self.guys@.len() && covers(self.guys@[i as int], position)
                    && forall|j: int| 0 <= j < i ==> !covers(#[trigger] self.guys@[j], position),
                Option::None => forall|j: int|
                    0 <= j < self.guys@.len() ==> !covers(#[trigger] self.guys@[j], position),
            },
    {
        let n = self.guys.len();
        let mut i: usize = 0;
        while i < n
            invariant
                self.wf(),
                position.bounded(crate::combatant::POS_LIMIT as int),
                n == self.guys@.len(),
                0 <= i <= n,
                forall|j: int| 0 <= j < i ==> !covers(#[trigger] self.guys@[j], position),
            decreases n - i,
        {
            let d = self.guys.get(i).position.dist_sq(position);
            if d < 1_000_000 {
                return Option::Some(i);
            }
            i += 1;
        }
        Option::None
    }

    /// A click on a combatant: the first one whose body covers the position
    /// gains the click bonus on health and cap together, with a level-up
    /// effect; a click on empty ground changes nothing.
    pub fn click_heal(&mut self, position: Vec2Px)
        requires
            old(self).wf(),
            position.bounded(crate::combatant::POS_LIMIT as int),
        ensures
            final(self).wf(),
            (forall|j: int|
                0 <= j < old(self).guys@.len() ==> !covers(
                    #[trigger] old(self).guys@[j],
                    position,
                )) ==> *final(self) == *old(self),
            (exists|j: int|
                0 <= j < old(self).guys@.len() && covers(
                    #[trigger] old(self).guys@[j],
                    position,
                )) ==> exists|i: int|
                {
                    &&& 0 <= i < old(self).guys@.len()
                    &&& covers(#[trigger] old(self).guys@[i], position)
                    &&& (forall|j: int|
                        0 <= j < i ==> !covers(#[trigger] old(self).guys@[j], position))
                    &&& final(self).guys@[i].health == (if old(self).guys@[i].health + old(
                        self,
                    ).constants.health_per_click <= usize::MAX {
                        old(self).guys@[i].health + old(self).constants.health_per_click
                    } else {
                        usize::MAX as int
                    })
                    &&& final(self).guys@[i].max_health == (if old(self).guys@[i].max_health
                        + old(self).constants.health_per_click <= usize::MAX {
                        old(self).guys@[i].max_health + old(self).constants.health_per_click
                    } else {
                        usize::MAX as int
                    })
                    &&& final(self).guys@[i].health <= final(self).guys@[i].max_health
                    &&& (forall|j: int|
                        0 <= j < old(self).guys@.len() && j != i ==> final(self).guys@[j] == old(
                            self,
                        ).guys@[j])
                    &&& final(self).signals@ == old(self).signals@.push(
                        Signal::LevelUpFx { id: old(self).guys@[i].id },
                    )
                },
            final(self).guys@.len() == old(self).guys@.len(),
            final(self).db@ == old(self).db@,
            final(self).attacks@ == old(self).attacks@,
            final(self).outbox@ == old(self).outbox@,
    {
        let amount = self.constants.health_per_click;
        match self.find_within(position) {
            Option::Some(i) => {
                self.heal_at(i, amount);
            },
            Option::None => {},
        }
    }

    /// Hand the pending chat messages to the transport.
    pub fn take_outbox(&mut self) -> (r: Vec<Outbound>)
        requires
            old(self).wf(),
        ensures
            final(self).wf(),
            r@ == old(self).outbox@,
            final(self).outbox@.len() == 0,
            final(self).guys@ == old(self).guys@,
            final(self).attacks@ == old(self).attacks@,
            final(self).db@ == old(self).db@,
    {
        let mut out: Vec<Outbound> = Vec::new();
        core::mem::swap(&mut out, &mut self.outbox);
        out
    }

    /// Hand the pending presentation effects to the renderer.
    pub fn take_signals(&mut self) -> (r: Vec<Signal>)
        requires
            old(self).wf(),
        ensures
            final(self).wf(),
            r@ == old(self).signals@,
            final(self).signals@.len() == 0,
            final(self).guys@ == old(self).guys@,
            final(self).attacks@ == old(self).attacks@,
            final(self).db@ == old(self).db@,
    {
        let mut out: Vec<Signal> = Vec::new();
        core::mem::swap(&mut out, &mut self.signals);
        out
    }
}

} // verus!
