//! One participant ("guy") for the duration of a raffle round.
use vstd::prelude::*;
use crate::geom::Vec2Px;
use crate::skin::Skin;

verus! {

/// Process-unique combatant id, assigned monotonically and never reused
/// within a round.
pub type Id = i32;

/// Largest coordinate magnitude a combatant can reach (milli-units).
pub const POS_LIMIT: i64 = 1_000_000_000;

/// Largest velocity component the solver lets a combatant keep.
pub const VEL_LIMIT: i64 = 1_000_000;

/// Spawn fade-in progress is stored in thousandths and saturates at one.
pub const SPAWN_FULL: u32 = 1000;

pub struct Combatant {
    pub id: Id,
    pub name: String,
    pub health: usize,
    pub max_health: usize,
    pub position: Vec2Px,
    pub velocity: Vec2Px,
    pub skin: Skin,
    pub spawn: u32,
    pub should_never_win: bool,
}

impl Combatant {
    /// Well-formed: health within its cap, fade-in within range, motion
    /// within the solver's coordinate bounds.
    pub open spec fn wf(self) -> bool {
        &&& self.health <= self.max_health
        &&& self.spawn <= SPAWN_FULL
        &&& self.position.bounded(POS_LIMIT as int)
        &&& self.velocity.bounded(VEL_LIMIT as int)
    }

    /// A field-for-field copy, so contracts can speak of exact equality.
    pub fn duplicate(&self) -> (r: Combatant)
        ensures
            r == *self,
    {
        Combatant {
            id: self.id,
            name: self.name.clone(),
            health: self.health,
            max_health: self.max_health,
            position: self.position,
            velocity: self.velocity,
            skin: self.skin.duplicate(),
            spawn: self.spawn,
            should_never_win: self.should_never_win,
        }
    }
}

} // verus!
