//! Inbound events, outbound announcements and presentation signals. The
//! transport renders announcements to chat text and performs the effects;
//! the simulation only decides them.
use vstd::prelude::*;
use crate::combatant::Id;
use crate::skin::Skin;

verus! {

/// Which cosmetic slot a command addressed.
#[derive(Clone, Copy, Debug, PartialEq, Eq, Structural)]
pub enum SkinPart {
    Face,
    Hat,
    Robe,
    Beard,
}

/// One inbound event, delivered once per tick in receipt order.
pub enum ChatEvent {
    /// `id` names the message for threaded replies.
    ChatMessage { id: String, name: String, message: String },
    RewardRedemption { name: String, reward: String },
}

/// What an announcement says; the transport renders the wording.
pub enum Announcement {
    /// A raffle is about to begin; join with `!keyword`.
    RaffleAboutToBegin { keyword: String },
    /// A start command arrived while a raffle was already going on.
    AlreadyGoingOn,
    /// `!submit` without a url.
    SubmitUsage,
    /// The sender's submitted game was already played.
    AlreadyPlayed,
    /// The sender already has a submission on file.
    AlreadySubmitted,
    /// Submission accepted; the curse was lifted if one was set.
    SubmissionOk { curse_reversed: bool },
    /// An unknown option for a cosmetic slot: list the valid ones.
    SkinPartOptions { part: SkinPart },
    /// A join attempt while no raffle is recruiting.
    TooEarlyOrLate,
    /// A join attempt under a name that already fights.
    NoCheating,
    /// A join attempt while the battle is running.
    CannotJoinOngoing,
    /// Joined without a submission while in linked-submission mode.
    CursedJoin,
    /// The sender's level and the health it grants.
    LevelReply { level: usize, hp: usize },
    /// The sender's current skin.
    SkinReply { skin: Skin },
    /// Winner announcement in a regular round.
    WinnerRegular { name: String },
    /// Winner whose submission was already played.
    WinnerAlreadyPlayed { name: String, link: String },
    /// Winner whose submission is played next.
    WinnerNewGame { name: String, link: String },
    /// Winner without a submission on file.
    WinnerNoSubmission { name: String },
    /// A reward redemption raised someone's level.
    LevelUpBroadcast { name: String, level: usize, hp: usize },
}

/// An announcement, either broadcast or sent as a threaded reply.
pub enum Outbound {
    Say { text: Announcement },
    Reply { text: Announcement, to: String },
}

/// A presentation effect the simulation asks for.
#[derive(Clone, Copy, Debug, PartialEq, Eq, Structural)]
pub enum Signal {
    /// A combatant was eliminated: death visual and sound at its place.
    Death { id: Id },
    /// A combatant was healed or leveled up: level-up visual and sound.
    LevelUpFx { id: Id },
    /// A round just found its winner.
    WinFx,
    /// A raffle was announced.
    TitleFx,
    /// A combatant appeared.
    SpawnFx { id: Id },
}

/// An announcement scheduled for a later tick.
pub struct DelayedMessage {
    /// Absolute simulation time, in thousandths, at which to send.
    pub time: u64,
    pub message: Announcement,
}

} // verus!
