//! The command interpreter: chat text becomes one of a closed set of
//! operations on the registry and the raffle lifecycle, matched
//! exhaustively. The grammar below is the reference: the first matching
//! form wins, in the order the checks are written.
use vstd::prelude::*;
use crate::events::{Announcement, ChatEvent, Outbound, SkinPart};
use crate::skin::Skin;
use crate::world::State;
use crate::text::{
    after_prefix, split_ws, split_ws_spec, starts_with, starts_with_spec, str_eq, trim, trim_spec,
};

verus! {

/// A parsed chat command, with owned argument text.
pub enum Command {
    /// `!submit <url>`: record a game submission.
    Submit { url: String },
    /// `!hat|!face|!robe|!beard <option>`: change one cosmetic slot.
    SetPart { part: SkinPart, option: String },
    /// `!setcustomskin <name> <custom>`: privileged custom override.
    SetCustom { target: String, option: String },
    /// The round's join keyword.
    Join,
    /// `!raffle`: start recruiting in linked-submission mode.
    RaffleDefault,
    /// `!raffle start`: recruiting turns into battling.
    RaffleStart,
    /// `!raffle close`: back to idle.
    RaffleClose,
    /// `!raffle royale <word>`: start a regular round, optionally renaming
    /// the join keyword.
    RaffleRoyale { keyword: String },
    /// `!raffle <word>`: rename the join keyword and start recruiting.
    RaffleKeyword { keyword: String },
    /// `!curse <name>`: privileged curse.
    Curse { target: String },
    /// `!bless <name>`: privileged heal.
    Bless { target: String },
    /// `!spawn <names...>`: privileged spawns.
    SpawnNames { names: Vec<String> },
    /// `!lvl` / `!level`: level query.
    Level,
    /// `!skin`: show (and cache) the sender's skin.
    ShowSkin,
    /// `!skin random`: draw a fresh skin.
    RandomSkin,
    /// Anything else.
    Nothing,
}

/// The same command over character sequences: the grammar's reference form.
pub enum CmdSpec {
    Submit { url: Seq<char> },
    SetPart { part: SkinPart, option: Seq<char> },
    SetCustom { target: Seq<char>, option: Seq<char> },
    Join,
    RaffleDefault,
    RaffleStart,
    RaffleClose,
    RaffleRoyale { keyword: Seq<char> },
    RaffleKeyword { keyword: Seq<char> },
    Curse { target: Seq<char> },
    Bless { target: Seq<char> },
    SpawnNames { names: Seq<Seq<char>> },
    Level,
    ShowSkin,
    RandomSkin,
    Nothing,
}

/// The rest of `text` after a prefix of length `n`, trimmed.
pub open spec fn rest_after(text: Seq<char>, n: int) -> Seq<char> {
    trim_spec(text.subrange(n, text.len() as int))
}

/// `trim(text)` spells `!keyword`.
pub open spec fn is_join(text: Seq<char>, keyword: Seq<char>) -> bool {
    let tr = trim_spec(text);
    &&& tr.len() == keyword.len() + 1
    &&& tr.len() >= 1
    &&& tr[0] == '!'
    &&& tr.subrange(1, tr.len() as int) == keyword
}

/// The sub-grammar behind `!raffle`.
pub open spec fn parse_raffle_spec(rest: Seq<char>) -> CmdSpec {
    if rest.len() == 0 {
        CmdSpec::RaffleDefault
    } else if rest == "start"@ {
        CmdSpec::RaffleStart
    } else if rest == "close"@ {
        CmdSpec::RaffleClose
    } else if starts_with_spec(rest, "royale"@) {
        CmdSpec::RaffleRoyale { keyword: rest_after(rest, "royale"@.len() as int) }
    } else {
        CmdSpec::RaffleKeyword { keyword: rest }
    }
}

/// The command grammar: the first matching form, in this order.
pub open spec fn parse_spec(keyword: Seq<char>, text: Seq<char>) -> CmdSpec {
    if starts_with_spec(text, "!submit"@) {
        CmdSpec::Submit { url: rest_after(text, "!submit"@.len() as int) }
    } else if starts_with_spec(text, "!hat"@) {
        CmdSpec::SetPart { part: SkinPart::Hat, option: rest_after(text, "!hat"@.len() as int) }
    } else if starts_with_spec(text, "!setcustomskin"@) {
        let parts = split_ws_spec(text.subrange("!setcustomskin"@.len() as int, text.len() as int));
        if parts.len() >= 2 {
            CmdSpec::SetCustom { target: parts[0], option: parts[1] }
        } else {
            CmdSpec::Nothing
        }
    } else if starts_with_spec(text, "!face"@) {
        CmdSpec::SetPart { part: SkinPart::Face, option: rest_after(text, "!face"@.len() as int) }
    } else if starts_with_spec(text, "!robe"@) {
        CmdSpec::SetPart { part: SkinPart::Robe, option: rest_after(text, "!robe"@.len() as int) }
    } else if starts_with_spec(text, "!beard"@) {
        CmdSpec::SetPart {
            part: SkinPart::Beard,
            option: rest_after(text, "!beard"@.len() as int),
        }
    } else if is_join(text, keyword) {
        CmdSpec::Join
    } else if starts_with_spec(text, "!raffle"@) {
        parse_raffle_spec(rest_after(text, "!raffle"@.len() as int))
    } else if starts_with_spec(text, "!curse"@) {
        CmdSpec::Curse { target: rest_after(text, "!curse"@.len() as int) }
    } else if starts_with_spec(text, "!bless"@) {
        CmdSpec::Bless { target: rest_after(text, "!bless"@.len() as int) }
    } else if starts_with_spec(text, "!spawn"@) {
        CmdSpec::SpawnNames {
            names: split_ws_spec(text.subrange("!spawn"@.len() as int, text.len() as int)),
        }
    } else if trim_spec(text) == "!lvl"@ || trim_spec(text) == "!level"@ {
        CmdSpec::Level
    } else if trim_spec(text) == "!skin"@ {
        CmdSpec::ShowSkin
    } else if trim_spec(text) == "!skin random"@ {
        CmdSpec::RandomSkin
    } else {
        CmdSpec::Nothing
    }
}

/// The owned command agrees with its reference form.
pub open spec fn cmd_matches(c: Command, s: CmdSpec) -> bool {
    match (c, s) {
        (Command::Submit { url }, CmdSpec::Submit { url: u }) => url@ == u,
        (Command::SetPart { part, option }, CmdSpec::SetPart { part: p, option: o }) => part == p
            && option@ == o,
        (Command::SetCustom { target, option }, CmdSpec::SetCustom { target: t, option: o }) =>
            target@ == t && option@ == o,
        (Command::Join, CmdSpec::Join) => true,
        (Command::RaffleDefault, CmdSpec::RaffleDefault) => true,
        (Command::RaffleStart, CmdSpec::RaffleStart) => true,
        (Command::RaffleClose, CmdSpec::RaffleClose) => true,
        (Command::RaffleRoyale { keyword }, CmdSpec::RaffleRoyale { keyword: k }) => keyword@ == k,
        (Command::RaffleKeyword { keyword }, CmdSpec::RaffleKeyword { keyword: k }) => keyword@
            == k,
        (Command::Curse { target }, CmdSpec::Curse { target: t }) => target@ == t,
        (Command::Bless { target }, CmdSpec::Bless { target: t }) => target@ == t,
        (Command::SpawnNames { names }, CmdSpec::SpawnNames { names: n }) => names@.len()
            == n.len() && forall|i: int| 0 <= i < n.len() ==> names@[i]@ == n[i],
        (Command::Level, CmdSpec::Level) => true,
        (Command::ShowSkin, CmdSpec::ShowSkin) => true,
        (Command::RandomSkin, CmdSpec::RandomSkin) => true,
        (Command::Nothing, CmdSpec::Nothing) => true,
        _ => false,
    }
}

/// Trim the rest of `text` after the prefix `p`.
fn rest_of<'a>(text: &'a str, p: &str) -> (r: &'a str)
    requires
        starts_with_spec(text@, p@),
    ensures
        r@ == rest_after(text@, p@.len() as int),
{
    trim(after_prefix(text, p))
}

/// Parse one chat message against the current join keyword.
pub fn parse_command(keyword: &str, text: &str) -> (r: Command)
    ensures
        cmd_matches(r, parse_spec(keyword@, text@)),
{
    if starts_with(text, "!submit") {
        let url = rest_of(text, "!submit").to_owned();
        return Command::Submit { url };
    }
    if starts_with(text, "!hat") {
        let option = rest_of(text, "!hat").to_owned();
        return Command::SetPart { part: SkinPart::Hat, option };
    }
    if starts_with(text, "!setcustomskin") {
        let parts = split_ws(after_prefix(text, "!setcustomskin"));
        if parts.len() >= 2 {
            let target = parts[0].clone();
            let option = parts[1].clone();
            return Command::SetCustom { target, option };
        }
        return Command::Nothing;
    }
    if starts_with(text, "!face") {
        let option = rest_of(text, "!face").to_owned();
        return Command::SetPart { part: SkinPart::Face, option };
    }
    if starts_with(text, "!robe") {
        let option = rest_of(text, "!robe").to_owned();
        return Command::SetPart { part: SkinPart::Robe, option };
    }
    if starts_with(text, "!beard") {
        let option = rest_of(text, "!beard").to_owned();
        return Command::SetPart { part: SkinPart::Beard, option };
    }
    let tr = trim(text);
    let is_join_cmd = if tr.unicode_len() >= 1 {
        if tr.get_char(0) == '!' {
            let rest = skip_one(tr);
            str_eq(rest, keyword)
        } else {
            false
        }
    } else {
        false
    };
    if is_join_cmd {
        return Command::Join;
    }
    proof {
        assert(!is_join(text@, keyword@));
    }
    if starts_with(text, "!raffle") {
        let rest = rest_of(text, "!raffle");
        if rest.unicode_len() == 0 {
            proof {
                assert(rest@ =~= Seq::<char>::empty());
                assert(rest_after(text@, "!raffle"@.len() as int).len() == 0);
            }
            return Command::RaffleDefault;
        }
        if str_eq(rest, "start") {
            return Command::RaffleStart;
        }
        if str_eq(rest, "close") {
            return Command::RaffleClose;
        }
        if starts_with(rest, "royale") {
            let keyword2 = rest_of(rest, "royale").to_owned();
            return Command::RaffleRoyale { keyword: keyword2 };
        }
        let keyword2 = rest.to_owned();
        return Command::RaffleKeyword { keyword: keyword2 };
    }
    if starts_with(text, "!curse") {
        let target = rest_of(text, "!curse").to_owned();
        return Command::Curse { target };
    }
    if starts_with(text, "!bless") {
        let target = rest_of(text, "!bless").to_owned();
        return Command::Bless { target };
    }
    if starts_with(text, "!spawn") {
        let names = split_ws(after_prefix(text, "!spawn"));
        return Command::SpawnNames { names };
    }
    if str_eq(tr, "!lvl") || str_eq(tr, "!level") {
        return Command::Level;
    }
    if str_eq(tr, "!skin") {
        return Command::ShowSkin;
    }
    if str_eq(tr, "!skin random") {
        return Command::RandomSkin;
    }
    Command::Nothing
}

/// Drop the first character.
fn skip_one<'a>(s: &'a str) -> (r: &'a str)
    requires
        s@.len() >= 1,
    ensures
        r@ == s@.subrange(1, s@.len() as int),
{
    crate::text::skip_chars(s, 1)
}

/// Exactly one threaded reply was appended, addressed to `to`.
pub open spec fn reply_pushed(
    out0: Seq<Outbound>,
    out1: Seq<Outbound>,
    to: Seq<char>,
) -> bool {
    &&& out1.len() == out0.len() + 1
    &&& forall|i: int| 0 <= i < out0.len() ==> out1[i] == out0[i]
    &&& match out1.last() {
        Outbound::Reply { text: _, to: s } => s@ == to,
        _ => false,
    }
}

/// The announcement the appended reply carries.
pub open spec fn last_reply(out1: Seq<Outbound>) -> Announcement
    recommends
        out1.len() > 0,
{
    match out1.last() {
        Outbound::Reply { text, to: _ } => text,
        Outbound::Say { text } => text,
    }
}

/// The option list behind one cosmetic slot.
pub open spec fn part_list(opts: crate::skin::SkinOptions, part: SkinPart) -> Seq<String> {
    match part {
        SkinPart::Face => opts.face@,
        SkinPart::Hat => opts.hat@,
        SkinPart::Robe => opts.robe@,
        SkinPart::Beard => opts.beard@,
    }
}

/// What one cosmetic slot of a skin reads.
pub open spec fn slot_of(s: Skin, part: SkinPart) -> Seq<char> {
    match part {
        SkinPart::Face => s.face@,
        SkinPart::Hat => s.hat@,
        SkinPart::Robe => s.robe@,
        SkinPart::Beard => s.beard@,
    }
}

/// The recorded skin for `name` carries exactly this custom override.
pub open spec fn custom_recorded(
    db: Seq<crate::db::DbRow>,
    name: Seq<char>,
    option: Seq<char>,
) -> bool {
    match crate::db::skin_of(db, name) {
        Option::Some(sk) => match sk.custom {
            Option::Some(c) => c@ == option,
            Option::None => false,
        },
        Option::None => false,
    }
}

/// Health shown for a level: the same formula spawning uses.
pub open spec fn level_hp(
    db: Seq<crate::db::DbRow>,
    name: Seq<char>,
    c: crate::world::Constants,
) -> int {
    crate::spawn::spec_spawn_health(crate::db::level_of(db, name), c)
}

/// Everything the interpreter promises for one chat message: how joins,
/// level queries, submissions, curses and blesses read and change the
/// state, that unparsed text changes nothing, and that privileged commands
/// from anyone else change nothing.
pub open spec fn chat_effect(
    pre: State,
    post: State,
    sender: Seq<char>,
    message_id: Seq<char>,
    text: Seq<char>,
) -> bool {
    let cmd = parse_spec(pre.raffle_keyword@, text);
    &&& (cmd is Join ==> {
        &&& post.idle == pre.idle
        &&& post.process_battle == pre.process_battle
        &&& post.raffle_mode == pre.raffle_mode
        &&& post.raffle_keyword@ == pre.raffle_keyword@
        &&& post.attacks@ == pre.attacks@
        &&& post.queued_attack == pre.queued_attack
        &&& post.next_attack == pre.next_attack
        &&& (pre.idle ==> {
            &&& post.guys@ == pre.guys@
            &&& post.db@ == pre.db@
            &&& reply_pushed(pre.outbox@, post.outbox@, message_id)
            &&& last_reply(post.outbox@) is TooEarlyOrLate
        })
        &&& (!pre.idle && !pre.process_battle && crate::registry::has_name(pre.guys@, sender)
            ==> {
            &&& post.guys@ == pre.guys@
            &&& post.db@ == pre.db@
            &&& reply_pushed(pre.outbox@, post.outbox@, message_id)
            &&& last_reply(post.outbox@) is NoCheating
        })
        &&& (!pre.idle && !pre.process_battle && !crate::registry::has_name(pre.guys@, sender)
            && pre.guys@.len() < crate::world::GUYS_LIMIT && pre.next_id < i32::MAX ==> {
            &&& post.guys@.len() == pre.guys@.len() + 1
            &&& forall|i: int| 0 <= i < pre.guys@.len() ==> post.guys@[i] == pre.guys@[i]
            &&& post.guys@.last().name@ == sender
            &&& !post.guys@.last().should_never_win
            &&& crate::db::game_link_of(post.db@, sender) == crate::db::game_link_of(
                pre.db@,
                sender,
            )
            &&& crate::db::level_of(post.db@, sender) == crate::db::level_of(pre.db@, sender)
            &&& (pre.raffle_mode is Ld && crate::db::game_link_of(pre.db@, sender) is None ==> {
                &&& reply_pushed(pre.outbox@, post.outbox@, message_id)
                &&& last_reply(post.outbox@) is CursedJoin
            })
            &&& (!(pre.raffle_mode is Ld && crate::db::game_link_of(pre.db@, sender) is None)
                ==> post.outbox@ == pre.outbox@)
        })
        &&& (!pre.idle && pre.process_battle ==> {
            &&& post.guys@ == pre.guys@
            &&& post.db@ == pre.db@
            &&& reply_pushed(pre.outbox@, post.outbox@, message_id)
            &&& last_reply(post.outbox@) is CannotJoinOngoing
        })
    })
    &&& (cmd is Level ==> {
        &&& post.db@ == pre.db@
        &&& post.guys@ == pre.guys@
        &&& reply_pushed(pre.outbox@, post.outbox@, message_id)
        &&& (last_reply(post.outbox@) matches Announcement::LevelReply { level, hp } && level
            == crate::db::level_of(pre.db@, sender) && hp == level_hp(
            pre.db@,
            sender,
            pre.constants,
        ))
    })
    &&& (cmd matches CmdSpec::Submit { url } ==> {
        &&& (url.len() == 0 ==> post.db@ == pre.db@ && last_reply(post.outbox@) is SubmitUsage
            && reply_pushed(pre.outbox@, post.outbox@, message_id))
        &&& (url.len() > 0 && crate::db::game_played_of(pre.db@, sender) ==> post.db@ == pre.db@
            && last_reply(post.outbox@) is AlreadyPlayed)
        &&& (url.len() > 0 && !crate::db::game_played_of(pre.db@, sender)
            && crate::db::game_link_of(pre.db@, sender) is Some ==> post.db@ == pre.db@
            && last_reply(post.outbox@) is AlreadySubmitted)
        &&& (url.len() > 0 && !crate::db::game_played_of(pre.db@, sender)
            && crate::db::game_link_of(pre.db@, sender) is None ==> {
            &&& (crate::db::game_link_of(post.db@, sender) matches Option::Some(l) && l@ == url)
            &&& reply_pushed(pre.outbox@, post.outbox@, message_id)
            &&& post.guys@.len() == pre.guys@.len()
            &&& forall|i: int|
                0 <= i < pre.guys@.len() ==> ((#[trigger] pre.guys@[i]).name@ == sender
                    ==> !post.guys@[i].should_never_win && post.guys@[i].health
                    == pre.guys@[i].health && post.guys@[i].name@ == pre.guys@[i].name@)
            &&& forall|i: int|
                0 <= i < pre.guys@.len() ==> ((#[trigger] pre.guys@[i]).name@ != sender
                    ==> post.guys@[i] == pre.guys@[i])
            &&& (last_reply(post.outbox@) matches Announcement::SubmissionOk { curse_reversed }
                && curse_reversed == exists|i: int|
                0 <= i < pre.guys@.len() && (#[trigger] pre.guys@[i]).name@ == sender
                    && pre.guys@[i].should_never_win)
        })
    })
    &&& (cmd matches CmdSpec::Curse { target } ==> sender == pre.constants.channel_login@
        ==> {
        &&& post.guys@.len() == pre.guys@.len()
        &&& forall|i: int|
            0 <= i < pre.guys@.len() ==> (if (#[trigger] pre.guys@[i]).name@ == target {
                post.guys@[i].should_never_win && post.guys@[i].health == pre.guys@[i].health
                    && post.guys@[i].name@ == pre.guys@[i].name@
            } else {
                post.guys@[i] == pre.guys@[i]
            })
    })
    &&& (cmd matches CmdSpec::Bless { target } ==> sender == pre.constants.channel_login@
        ==> {
        &&& post.guys@.len() == pre.guys@.len()
        &&& forall|i: int|
            0 <= i < pre.guys@.len() ==> ((#[trigger] pre.guys@[i]).name@ != target
                ==> post.guys@[i] == pre.guys@[i])
        &&& forall|i: int|
            0 <= i < pre.guys@.len() ==> ((#[trigger] pre.guys@[i]).name@ == target
                ==> post.guys@[i].health == (if pre.guys@[i].health + pre.constants.bless_hp
                <= usize::MAX {
                pre.guys@[i].health + pre.constants.bless_hp
            } else {
                usize::MAX as int
            }) && post.guys@[i].max_health == (if pre.guys@[i].max_health
                + pre.constants.bless_hp <= usize::MAX {
                pre.guys@[i].max_health + pre.constants.bless_hp
            } else {
                usize::MAX as int
            }) && post.guys@[i].health <= post.guys@[i].max_health)
    })
    &&& (cmd is ShowSkin ==> {
        &&& crate::db::skin_of(post.db@, sender) is Some
        &&& reply_pushed(pre.outbox@, post.outbox@, message_id)
        &&& last_reply(post.outbox@) is SkinReply
        &&& post.guys@.len() == pre.guys@.len()
    })
    &&& (cmd matches CmdSpec::SetPart { part, option } ==> {
        &&& (crate::skin::list_has_str(part_list(pre.skin_options, part), option) ==> {
            &&& (crate::db::skin_of(post.db@, sender) matches Option::Some(sk) && slot_of(
                sk,
                part,
            ) == option)
        })
        &&& (!crate::skin::list_has_str(part_list(pre.skin_options, part), option) ==> {
            &&& post.db@ == pre.db@
            &&& reply_pushed(pre.outbox@, post.outbox@, message_id)
            &&& (last_reply(post.outbox@) matches Announcement::SkinPartOptions { part: p }
                && p == part)
        })
    })
    &&& (cmd matches CmdSpec::SpawnNames { names } ==> sender == pre.constants.channel_login@
        ==> {
        &&& pre.guys@.len() <= post.guys@.len() <= pre.guys@.len() + names.len()
        &&& forall|i: int| 0 <= i < pre.guys@.len() ==> post.guys@[i] == pre.guys@[i]
        &&& forall|j: int|
            pre.guys@.len() <= j < post.guys@.len() ==> (#[trigger] post.guys@[j]).should_never_win
    })
    &&& (cmd is RaffleClose ==> sender == pre.constants.channel_login@ ==> {
        &&& post.idle
        &&& !post.process_battle
        &&& post.guys@ == pre.guys@
        &&& post.db@ == pre.db@
        &&& post.attacks@ == pre.attacks@
        &&& post.next_attack == pre.next_attack
        &&& post.queued_attack == pre.queued_attack
    })
    &&& ((cmd is RaffleDefault || cmd is RaffleRoyale || cmd is RaffleKeyword) ==> sender
        == pre.constants.channel_login@ ==> pre.idle ==> {
        &&& !post.idle
        &&& !post.process_battle
        &&& post.guys@.len() == 0
        &&& post.attacks@.len() == 0
        &&& post.queued_attack is None
    })
    &&& (cmd is RaffleDefault ==> sender == pre.constants.channel_login@ ==> pre.idle
        ==> post.raffle_mode is Ld && post.raffle_keyword@ == pre.raffle_keyword@)
    &&& (cmd matches CmdSpec::RaffleRoyale { keyword } ==> sender
        == pre.constants.channel_login@ ==> pre.idle ==> post.raffle_mode is Regular && (
    keyword.len() > 0 ==> post.raffle_keyword@ == keyword))
    &&& (cmd matches CmdSpec::RaffleKeyword { keyword } ==> sender
        == pre.constants.channel_login@ ==> pre.idle ==> post.raffle_mode is Ld
        && post.raffle_keyword@ == keyword)
    &&& (cmd is RaffleStart ==> sender == pre.constants.channel_login@ ==> {
        &&& (pre.idle ==> post == pre)
        &&& (!pre.idle ==> post.process_battle && post.guys@ == pre.guys@ && forall|i: int|
            0 <= i < pre.guys@.len() ==> crate::db::level_of(
                post.db@,
                (#[trigger] pre.guys@[i]).name@,
            ) == (if pre.guys@[i].should_never_win {
                crate::db::level_of(pre.db@, pre.guys@[i].name@)
            } else if crate::db::level_of(pre.db@, pre.guys@[i].name@) + 1 <= usize::MAX {
                crate::db::level_of(pre.db@, pre.guys@[i].name@) + 1
            } else {
                usize::MAX as int
            }))
    })
    &&& (cmd is RandomSkin ==> {
        &&& (crate::db::skin_of(post.db@, sender) matches Option::Some(sk) && {
            &&& crate::skin::list_has_str(pre.skin_options.face@, sk.face@)
            &&& crate::skin::list_has_str(pre.skin_options.hat@, sk.hat@)
            &&& crate::skin::list_has_str(pre.skin_options.robe@, sk.robe@)
            &&& crate::skin::list_has_str(pre.skin_options.beard@, sk.beard@)
            &&& sk.custom is None
        })
        &&& post.guys@.len() == pre.guys@.len()
    })
    &&& (cmd matches CmdSpec::SetCustom { target, option } ==> sender
        == pre.constants.channel_login@ ==> {
        &&& (crate::skin::list_has_str(pre.skin_options.custom@, option) ==> custom_recorded(
            post.db@,
            target,
            option,
        ))
        &&& (!crate::skin::list_has_str(pre.skin_options.custom@, option) ==> post.db@
            == pre.db@)
    })
    &&& (cmd is Nothing ==> post == pre)
    &&& ((cmd is Curse || cmd is Bless || cmd is SpawnNames || cmd is SetCustom
        || cmd is RaffleDefault || cmd is RaffleStart || cmd is RaffleClose
        || cmd is RaffleRoyale || cmd is RaffleKeyword) && sender
        != pre.constants.channel_login@ ==> post == pre)
}

impl State {
    /// Is this sender the privileged channel owner?
    fn is_admin(&self, sender: &str) -> (r: bool)
        ensures
            r == (sender@ == self.constants.channel_login@),
    {
        str_eq(sender, self.constants.channel_login.as_str())
    }

    /// Push a threaded reply.
    fn reply_to(&mut self, text: Announcement, to: &str)
        requires
            old(self).wf(),
        ensures
            final(self).wf(),
            reply_pushed(old(self).outbox@, final(self).outbox@, to@),
            last_reply(final(self).outbox@) == text,
            final(self).guys@ == old(self).guys@,
            final(self).db@ == old(self).db@,
            final(self).attacks@ == old(self).attacks@,
            final(self).queued_attack == old(self).queued_attack,
            final(self).next_attack == old(self).next_attack,
            final(self).next_id == old(self).next_id,
            final(self).idle == old(self).idle,
            final(self).process_battle == old(self).process_battle,
            final(self).raffle_mode == old(self).raffle_mode,
            final(self).raffle_keyword == old(self).raffle_keyword,
            final(self).signals@ == old(self).signals@,
            final(self).delayed_messages@ == old(self).delayed_messages@,
            final(self).winning_screen == old(self).winning_screen,
            final(self).time == old(self).time,
            final(self).constants == old(self).constants,
            final(self).skin_options == old(self).skin_options,
            final(self).circle == old(self).circle,
    {
        let to_id = to.to_owned();
        self.outbox.push(Outbound::Reply { text, to: to_id });
    }

    /// The recruiting-to-battling transition: every surviving non-cursed
    /// combatant's persisted level rises by one, then the battle runs.
    /// While idle, nothing happens.
    pub fn begin_battle(&mut self)
        requires
            old(self).wf(),
        ensures
            final(self).wf(),
            old(self).idle ==> *final(self) == *old(self),
            !old(self).idle ==> {
                &&& final(self).process_battle
                &&& final(self).guys@ == old(self).guys@
                &&& forall|i: int|
                    0 <= i < old(self).guys@.len() ==> crate::db::level_of(
                        final(self).db@,
                        (#[trigger] old(self).guys@[i]).name@,
                    ) == (if old(self).guys@[i].should_never_win {
                        crate::db::level_of(old(self).db@, old(self).guys@[i].name@)
                    } else if crate::db::level_of(old(self).db@, old(self).guys@[i].name@) + 1
                        <= usize::MAX {
                        crate::db::level_of(old(self).db@, old(self).guys@[i].name@) + 1
                    } else {
                        usize::MAX as int
                    })
            },
    {
        if !self.idle {
            self.levelup_all();
            self.process_battle = true;
        }
    }

    /// Interpret one chat message from `sender` (already resolved past any
    /// impersonation) and apply it.
    pub fn apply_chat(&mut self, sender: &str, message_id: &str, text: &str)
        requires
            old(self).wf(),
        ensures
            final(self).wf(),
            chat_effect(*old(self), *final(self), sender@, message_id@, text@),
    {
        let kw = self.raffle_keyword.clone();
        let cmd = parse_command(kw.as_str(), text);
        let admin = self.is_admin(sender);
        match cmd {
            Command::Submit { url } => {
                if url.unicode_len() == 0 {
                    self.reply_to(Announcement::SubmitUsage, message_id);
                } else if self.db.game_played(sender) {
                    self.reply_to(Announcement::AlreadyPlayed, message_id);
                } else {
                    let has_link = match self.db.find_game_link(sender) {
                        Option::Some(_) => true,
                        Option::None => false,
                    };
                    if has_link {
                        self.reply_to(Announcement::AlreadySubmitted, message_id);
                    } else {
                        self.db.set_game_link(sender, Option::Some(url.as_str()));
                        let mut curse_reversed = false;
                        let ghost g0 = self.guys@;
                        match self.guys.index_of_name(sender) {
                            Option::Some(i) => {
                                proof {
                                    assert forall|j: int|
                                        0 <= j < g0.len() && #[trigger] g0[j].name@ == sender@
                                            implies j == i by {
                                        if j != i {
                                            assert(g0[j].name@ != g0[i as int].name@);
                                        }
                                    }
                                }
                                if self.guys.get(i).should_never_win {
                                    self.set_cursed_at(i, false);
                                    curse_reversed = true;
                                    proof {
                                        lemma_unique_name_updates(g0, self.guys@, i as int, sender@);
                                    }
                                }
                            },
                            Option::None => {
                                proof {
                                    lemma_no_name_no_change(self.guys@, sender@);
                                }
                            },
                        }
                        self.reply_to(Announcement::SubmissionOk { curse_reversed }, message_id);
                    }
                }
            },
            Command::SetPart { part, option } => {
                self.set_skin_part(sender, message_id, part, option);
            },
            Command::SetCustom { target, option } => {
                if admin {
                    self.set_custom_skin(target.as_str(), option.as_str());
                }
            },
            Command::Join => {
                if self.idle {
                    self.reply_to(Announcement::TooEarlyOrLate, message_id);
                } else if !self.process_battle {
                    match self.guys.index_of_name(sender) {
                        Option::Some(_) => {
                            self.reply_to(Announcement::NoCheating, message_id);
                        },
                        Option::None => {
                            if self.guys.len() < crate::world::GUYS_LIMIT && self.next_id
                                < i32::MAX {
                                self.spawn_guy(sender, false);
                                let no_link = match self.db.find_game_link(sender) {
                                    Option::Some(_) => false,
                                    Option::None => true,
                                };
                                let in_ld = match self.raffle_mode {
                                    crate::world::RaffleMode::Ld => true,
                                    crate::world::RaffleMode::Regular => false,
                                };
                                if in_ld && no_link {
                                    self.reply_to(Announcement::CursedJoin, message_id);
                                }
                            }
                        },
                    }
                } else {
                    self.reply_to(Announcement::CannotJoinOngoing, message_id);
                }
            },
            Command::RaffleDefault => {
                if admin {
                    self.start_raffle(crate::world::RaffleMode::Ld);
                }
            },
            Command::RaffleStart => {
                if admin {
                    self.begin_battle();
                }
            },
            Command::RaffleClose => {
                if admin {
                    self.close_raffle();
                }
            },
            Command::RaffleRoyale { keyword } => {
                if admin {
                    if keyword.unicode_len() > 0 {
                        self.raffle_keyword = keyword;
                    }
                    self.start_raffle(crate::world::RaffleMode::Regular);
                }
            },
            Command::RaffleKeyword { keyword } => {
                if admin {
                    self.raffle_keyword = keyword;
                    self.start_raffle(crate::world::RaffleMode::Ld);
                }
            },
            Command::Curse { target } => {
                if admin {
                    match self.guys.index_of_name(target.as_str()) {
                        Option::Some(i) => {
                            let ghost g0 = self.guys@;
                            self.set_cursed_at(i, true);
                            proof {
                                lemma_unique_name_updates(g0, self.guys@, i as int, target@);
                            }
                        },
                        Option::None => {
                            proof {
                                lemma_no_name_no_change(self.guys@, target@);
                            }
                        },
                    }
                }
            },
            Command::Bless { target } => {
                if admin {
                    let amount = self.constants.bless_hp;
                    match self.guys.index_of_name(target.as_str()) {
                        Option::Some(i) => {
                            let ghost g0 = self.guys@;
                            self.heal_at(i, amount);
                            proof {
                                lemma_unique_name_updates(g0, self.guys@, i as int, target@);
                            }
                        },
                        Option::None => {
                            proof {
                                lemma_no_name_no_change(self.guys@, target@);
                            }
                        },
                    }
                }
            },
            Command::SpawnNames { names } => {
                if admin {
                    let ghost g0 = self.guys@;
                    let n = names.len();
                    let mut i: usize = 0;
                    while i < n
                        invariant
                            self.wf(),
                            n == names@.len(),
                            0 <= i <= n,
                            g0.len() <= self.guys@.len() <= g0.len() + i,
                            forall|k: int| 0 <= k < g0.len() ==> self.guys@[k] == g0[k],
                            forall|j: int|
                                g0.len() <= j < self.guys@.len() ==> (
                                #[trigger] self.guys@[j]).should_never_win,
                        decreases n - i,
                    {
                        if self.guys.len() < crate::world::GUYS_LIMIT && self.next_id < i32::MAX {
                            self.spawn_guy(names[i].as_str(), true);
                        }
                        i += 1;
                    }
                }
            },
            Command::Level => {
                let level = self.db.find_level(sender);
                let lm1: usize = if level >= 1 {
                    level - 1
                } else {
                    0
                };
                let bonus: usize = match self.constants.extra_health_per_level.checked_mul(lm1) {
                    Option::Some(b) => b,
                    Option::None => usize::MAX,
                };
                let hp = self.constants.initial_health.saturating_add(bonus);
                self.reply_to(Announcement::LevelReply { level, hp }, message_id);
            },
            Command::ShowSkin => {
                let skin = self.find_skin(sender, true);
                self.reply_to(Announcement::SkinReply { skin }, message_id);
            },
            Command::RandomSkin => {
                let skin = Skin::random(&mut self.rng, &self.skin_options);
                self.db.set_skin(sender, &skin);
                self.update_guy_skin(sender, &skin);
            },
            Command::Nothing => {},
        }
    }

    /// Change one cosmetic slot, or list the valid options for it.
    fn set_skin_part(&mut self, sender: &str, message_id: &str, part: SkinPart, option: String)
        requires
            old(self).wf(),
        ensures
            final(self).wf(),
            final(self).guys@.len() == old(self).guys@.len(),
            final(self).idle == old(self).idle,
            final(self).process_battle == old(self).process_battle,
            final(self).next_id == old(self).next_id,
            final(self).raffle_mode == old(self).raffle_mode,
            final(self).raffle_keyword == old(self).raffle_keyword,
            final(self).attacks@ == old(self).attacks@,
            final(self).queued_attack == old(self).queued_attack,
            final(self).next_attack == old(self).next_attack,
            forall|n2: Seq<char>|
                n2 != sender@ ==> crate::db::find_row_spec(final(self).db@, n2)
                    == crate::db::find_row_spec(old(self).db@, n2),
            crate::db::level_of(final(self).db@, sender@) == crate::db::level_of(
                old(self).db@,
                sender@,
            ),
            crate::db::game_link_of(final(self).db@, sender@) == crate::db::game_link_of(
                old(self).db@,
                sender@,
            ),
            crate::skin::list_has_str(part_list(old(self).skin_options, part), option@) ==> (
            crate::db::skin_of(final(self).db@, sender@) matches Option::Some(sk) && slot_of(
                sk,
                part,
            ) == option@),
            !crate::skin::list_has_str(part_list(old(self).skin_options, part), option@) ==> {
                &&& final(self).db@ == old(self).db@
                &&& reply_pushed(old(self).outbox@, final(self).outbox@, message_id@)
                &&& (last_reply(final(self).outbox@) matches Announcement::SkinPartOptions {
                    part: p,
                } && p == part)
            },
    {
        let in_list = match part {
            SkinPart::Hat => crate::skin::SkinOptions::list_contains(
                &self.skin_options.hat,
                option.as_str(),
            ),
            SkinPart::Face => crate::skin::SkinOptions::list_contains(
                &self.skin_options.face,
                option.as_str(),
            ),
            SkinPart::Robe => crate::skin::SkinOptions::list_contains(
                &self.skin_options.robe,
                option.as_str(),
            ),
            SkinPart::Beard => crate::skin::SkinOptions::list_contains(
                &self.skin_options.beard,
                option.as_str(),
            ),
        };
        if in_list {
            let mut skin = self.find_skin(sender, false);
            match part {
                SkinPart::Hat => {
                    skin.hat = option;
                },
                SkinPart::Face => {
                    skin.face = option;
                },
                SkinPart::Robe => {
                    skin.robe = option;
                },
                SkinPart::Beard => {
                    skin.beard = option;
                },
            }
            self.db.set_skin(sender, &skin);
            self.update_guy_skin(sender, &skin);
        } else {
            self.reply_to(Announcement::SkinPartOptions { part }, message_id);
        }
    }

    /// The privileged fixed-custom-skin override.
    fn set_custom_skin(&mut self, target: &str, option: &str)
        requires
            old(self).wf(),
        ensures
            final(self).wf(),
            final(self).guys@.len() == old(self).guys@.len(),
            final(self).idle == old(self).idle,
            final(self).process_battle == old(self).process_battle,
            final(self).next_id == old(self).next_id,
            final(self).attacks@ == old(self).attacks@,
            final(self).queued_attack == old(self).queued_attack,
            final(self).next_attack == old(self).next_attack,
            forall|n2: Seq<char>|
                n2 != target@ ==> crate::db::find_row_spec(final(self).db@, n2)
                    == crate::db::find_row_spec(old(self).db@, n2),
            crate::skin::list_has_str(old(self).skin_options.custom@, option@)
                ==> custom_recorded(final(self).db@, target@, option@),
            !crate::skin::list_has_str(old(self).skin_options.custom@, option@) ==> final(self).db@ == old(self).db@,
    {
        if crate::skin::SkinOptions::list_contains(&self.skin_options.custom, option) {
            let mut skin = self.find_skin(target, false);
            skin.custom = Option::Some(option.to_owned());
            self.db.set_skin(target, &skin);
            self.update_guy_skin(target, &skin);
        }
    }

    /// Refresh the cached skin on the live combatant named `name`, if any.
    fn update_guy_skin(&mut self, name: &str, skin: &Skin)
        requires
            old(self).wf(),
        ensures
            final(self).wf(),
            final(self).guys@.len() == old(self).guys@.len(),
            forall|i: int|
                0 <= i < old(self).guys@.len() ==> crate::movement::same_identity_but_skin(
                    #[trigger] final(self).guys@[i],
                    old(self).guys@[i],
                ),
            final(self).db@ == old(self).db@,
            final(self).attacks@ == old(self).attacks@,
            final(self).queued_attack == old(self).queued_attack,
            final(self).next_attack == old(self).next_attack,
            final(self).next_id == old(self).next_id,
            final(self).idle == old(self).idle,
            final(self).process_battle == old(self).process_battle,
            final(self).outbox@ == old(self).outbox@,
            final(self).raffle_mode == old(self).raffle_mode,
            final(self).raffle_keyword == old(self).raffle_keyword,
    {
        match self.guys.index_of_name(name) {
            Option::Some(i) => {
                let ghost g0 = self.guys@;
                let mut updated = self.guys.get(i).duplicate();
                updated.skin = skin.duplicate();
                self.guys.set_at(i, updated);
                proof {
                    assert forall|k: int| 0 <= k < self.guys@.len() implies crate::world::count_on(
                        self.attacks@,
                        (#[trigger] self.guys@[k]).id,
                    ) <= self.guys@[k].health by {
                        assert(g0[k].id == self.guys@[k].id && g0[k].health
                            == self.guys@[k].health);
                    }
                }
            },
            Option::None => {},
        }
    }

    /// One inbound event: a chat message (with `!as` impersonation for the
    /// channel owner) or a reward redemption granting levels and health.
    pub fn handle_ttv(&mut self, message: ChatEvent)
        requires
            old(self).wf(),
        ensures
            final(self).wf(),
            (message matches ChatEvent::ChatMessage { id, name, message: m } ==> !(name@ == old(self).constants.channel_login@ && starts_with_spec(m@, "!as"@)) ==> chat_effect(
                *old(self),
                *final(self),
                name@,
                id@,
                m@,
            )),
            // The channel owner's impersonation prefix: the rest is split at
            // its first space into an assumed sender and the text to
            // interpret; without a space the message applies unchanged.
            (message matches ChatEvent::ChatMessage { id, name, message: m } ==> (name@ == old(self).constants.channel_login@ && starts_with_spec(m@, "!as"@)) ==> {
                let rest = trim_spec(m@.subrange("!as"@.len() as int, m@.len() as int));
                &&& ((forall|j: int| 0 <= j < rest.len() ==> rest[j] != ' ') ==> chat_effect(
                    *old(self),
                    *final(self),
                    name@,
                    id@,
                    m@,
                ))
                &&& ((exists|j: int| 0 <= j < rest.len() && rest[j] == ' ') ==> exists|sp: int|
                    {
                        &&& 0 <= sp < rest.len()
                        &&& #[trigger] rest[sp] == ' '
                        &&& (forall|j: int| 0 <= j < sp ==> rest[j] != ' ')
                        &&& chat_effect(
                            *old(self),
                            *final(self),
                            trim_spec(rest.subrange(0, sp)),
                            id@,
                            trim_spec(rest.subrange(sp, rest.len() as int)),
                        )
                    })
            }),
            (message matches ChatEvent::RewardRedemption { name, reward } ==> {
                &&& (reward@ == "Raffle Royale Level Up"@ ==> redeem_effect(
                    *old(self),
                    *final(self),
                    name@,
                ))
                &&& (reward@ != "Raffle Royale Level Up"@ ==> *final(self) == *old(self))
            }),
    {
        match message {
            ChatEvent::ChatMessage { id, name, message } => {
                let mut sender: &str = name.as_str();
                let mut text: &str = message.as_str();
                let impersonating = self.is_admin(sender) && starts_with(text, "!as");
                let rest = if impersonating {
                    after_prefix(text, "!as")
                } else {
                    text
                };
                let trimmed = trim(rest);
                if impersonating {
                    match crate::text::find_space(trimmed) {
                        Option::Some(sp) => {
                            sender = trim(crate::text::take_chars(trimmed, sp));
                            text = trim(crate::text::skip_chars(trimmed, sp));
                        },
                        Option::None => {},
                    }
                }
                self.apply_chat(sender, id.as_str(), text);
            },
            ChatEvent::RewardRedemption { name, reward } => {
                if str_eq(reward.as_str(), "Raffle Royale Level Up") {
                    self.redeem_level_up(name.as_str());
                }
            },
        }
    }

    /// The client entry point for one server message.
    pub fn handle_message(&mut self, message: ChatEvent)
        requires
            old(self).wf(),
        ensures
            final(self).wf(),
            (message matches ChatEvent::ChatMessage { id, name, message: m } ==> !(name@ == old(self).constants.channel_login@ && starts_with_spec(m@, "!as"@)) ==> chat_effect(
                *old(self),
                *final(self),
                name@,
                id@,
                m@,
            )),
    {
        self.handle_ttv(message);
    }

    /// A reward redemption: bonus health for the redeemer's combatant if
    /// present, one persisted level either way, and a broadcast.
    pub fn redeem_level_up(&mut self, name: &str)
        requires
            old(self).wf(),
        ensures
            final(self).wf(),
            redeem_effect(*old(self), *final(self), name@),
    {
        let extra: usize = match self.constants.extra_health_per_level.checked_mul(
            self.constants.channel_point_levels,
        ) {
            Option::Some(b) => b,
            Option::None => usize::MAX,
        };
        let ghost g0 = self.guys@;
        match self.guys.index_of_name(name) {
            Option::Some(i) => {
                self.heal_at(i, extra);
                proof {
                    lemma_unique_name_updates(g0, self.guys@, i as int, name@);
                }
            },
            Option::None => {
                proof {
                    lemma_no_name_no_change(self.guys@, name@);
                }
            },
        }
        let level = self.db.find_level(name).saturating_add(1);
        self.db.set_level(name, level);
        let lm1: usize = if level >= 1 {
            level - 1
        } else {
            0
        };
        let bonus: usize = match self.constants.extra_health_per_level.checked_mul(lm1) {
            Option::Some(b) => b,
            Option::None => usize::MAX,
        };
        let hp = self.constants.initial_health.saturating_add(bonus);
        let owned = name.to_owned();
        self.outbox.push(
            Outbound::Say { text: Announcement::LevelUpBroadcast { name: owned, level, hp } },
        );
    }
}

/// What a level-up redemption promises: the redeemer's live combatant (if
/// any) gains the reward's bonus health on health and cap together, the
/// persisted level rises by one (saturating), no other name's row or
/// combatant moves, and the level-up broadcast goes out.
pub open spec fn redeem_effect(pre: State, post: State, name: Seq<char>) -> bool {
    let new_level = if crate::db::level_of(pre.db@, name) + 1 <= usize::MAX {
        crate::db::level_of(pre.db@, name) + 1
    } else {
        usize::MAX as int
    };
    let bonus = if pre.constants.extra_health_per_level * pre.constants.channel_point_levels
        <= usize::MAX {
        pre.constants.extra_health_per_level * pre.constants.channel_point_levels
    } else {
        usize::MAX as int
    };
    &&& crate::db::level_of(post.db@, name) == new_level
    &&& forall|n2: Seq<char>|
        n2 != name ==> crate::db::find_row_spec(post.db@, n2) == crate::db::find_row_spec(
            pre.db@,
            n2,
        )
    &&& post.guys@.len() == pre.guys@.len()
    &&& forall|i: int|
        0 <= i < pre.guys@.len() ==> ((#[trigger] pre.guys@[i]).name@ != name ==> post.guys@[i]
            == pre.guys@[i])
    &&& forall|i: int|
        0 <= i < pre.guys@.len() ==> ((#[trigger] pre.guys@[i]).name@ == name
            ==> post.guys@[i].health == (if pre.guys@[i].health + bonus <= usize::MAX {
            pre.guys@[i].health + bonus
        } else {
            usize::MAX as int
        }) && post.guys@[i].max_health == (if pre.guys@[i].max_health + bonus <= usize::MAX {
            pre.guys@[i].max_health + bonus
        } else {
            usize::MAX as int
        }) && post.guys@[i].health <= post.guys@[i].max_health)
    &&& post.outbox@.len() == pre.outbox@.len() + 1
    &&& forall|i: int| 0 <= i < pre.outbox@.len() ==> post.outbox@[i] == pre.outbox@[i]
    &&& (post.outbox@.last() matches Outbound::Say {
        text: Announcement::LevelUpBroadcast { name: n, level, hp },
    } && n@ == name && level == new_level && hp == crate::spawn::spec_spawn_health(
        new_level,
        pre.constants,
    ))
}

/// Updating one slot, found by its unique name, leaves every other name's
/// combatant untouched.
proof fn lemma_unique_name_updates(
    g0: Seq<crate::combatant::Combatant>,
    g1: Seq<crate::combatant::Combatant>,
    i: int,
    target: Seq<char>,
)
    requires
        crate::registry::names_unique(g0),
        0 <= i < g0.len(),
        g0[i].name@ == target,
        g1.len() == g0.len(),
        forall|j: int| 0 <= j < g0.len() && j != i ==> g1[j] == g0[j],
    ensures
        forall|j: int|
            0 <= j < g0.len() && (#[trigger] g0[j]).name@ != target ==> g1[j] == g0[j],
{
}

/// When nobody carries the name, "update the named one" changes nothing.
proof fn lemma_no_name_no_change(g: Seq<crate::combatant::Combatant>, target: Seq<char>)
    requires
        !crate::registry::has_name(g, target),
    ensures
        forall|j: int| 0 <= j < g.len() ==> (#[trigger] g[j]).name@ != target,
{
}

} // verus!
