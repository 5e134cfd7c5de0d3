use raffle_royale::combatant::Combatant;
use raffle_royale::events::{Announcement, ChatEvent, Outbound, Signal};
use raffle_royale::geom::Vec2Px;
use raffle_royale::skin::{OutfitColor, SkinOptions};
use raffle_royale::world::{Constants, RaffleMode, State};

fn constants() -> Constants {
    Constants {
        channel_login: "kuviman".to_owned(),
        channel_point_levels: 2,
        initial_health: 1,
        extra_health_per_level: 1,
        health_per_click: 1,
        bless_hp: 3,
        preferred_distance_spring_k: 10,
    }
}

fn options() -> SkinOptions {
    SkinOptions {
        face: vec!["face".to_owned()],
        hat: vec!["hat".to_owned(), "crown".to_owned()],
        robe: vec!["robe".to_owned()],
        beard: vec!["beard".to_owned()],
        custom: vec!["statue".to_owned()],
        custom_map: vec![],
        palette: vec![OutfitColor { r: 1, g: 2, b: 3 }],
    }
}

fn world(seed: u64) -> State {
    State::new(constants(), options(), seed)
}

fn chat(world: &mut State, name: &str, text: &str) {
    world.handle_ttv(ChatEvent::ChatMessage {
        id: "m".to_owned(),
        name: name.to_owned(),
        message: text.to_owned(),
    });
}

fn guy_named<'a>(world: &'a State, name: &str) -> Option<&'a Combatant> {
    for i in 0..world.guys.len() {
        if world.guys.get(i).name == name {
            return Some(world.guys.get(i));
        }
    }
    None
}

/// Run the battle to completion, one volley per call past the first.
fn run_battle(world: &mut State) {
    for _ in 0..10_000 {
        if world.guys.len() <= 1 {
            return;
        }
        world.process_attacks(1000);
    }
    panic!("battle did not finish");
}

#[test]
fn biased_survival() {
    // Four combatants with healths 1, 2, 3, 4: over many rounds the winner
    // distribution leans toward the higher initial health.
    let names = ["one", "two", "three", "four"];
    let mut wins = [0usize; 4];
    for trial in 0..300u64 {
        let mut w = world(trial);
        w.start_raffle(RaffleMode::Regular);
        for (i, name) in names.iter().enumerate() {
            w.db.set_level(name, i + 1);
            w.spawn_guy(name, false);
            assert_eq!(guy_named(&w, name).unwrap().health, i + 1);
        }
        w.begin_battle();
        run_battle(&mut w);
        assert_eq!(w.guys.len(), 1);
        let winner = w.guys.get(0).name.clone();
        let idx = names.iter().position(|n| *n == winner).unwrap();
        wins[idx] += 1;
    }
    assert!(wins[3] > wins[0], "wins: {:?}", wins);
}

#[test]
fn min_separation_after_tick() {
    // Two combatants closer than the minimum separation distance are at
    // least that far apart after one movement tick.
    let mut w = world(7);
    w.start_raffle(RaffleMode::Regular);
    w.spawn_guy("left", false);
    w.spawn_guy("right", false);
    for i in 0..2 {
        let mut g = w.guys.get(i).duplicate();
        g.position = Vec2Px { x: if i == 0 { 0 } else { 1000 }, y: 0 };
        g.velocity = Vec2Px { x: 0, y: 0 };
        g.spawn = 1000;
        w.guys.set_at(i, g);
    }
    let wobble = vec![0i64, 0i64];
    w.process_movement(0, &wobble);
    let a = w.guys.get(0).position;
    let b = w.guys.get(1).position;
    let dx = (a.x - b.x) as i128;
    let dy = (a.y - b.y) as i128;
    assert!(dx * dx + dy * dy >= 4_000_000, "still too close: {:?} {:?}", a, b);
}

#[test]
fn join_twice_rejected() {
    // Two distinct names join; a repeat join of either is rejected and the
    // registry stays at two.
    let mut w = world(1);
    chat(&mut w, "kuviman", "!raffle");
    chat(&mut w, "ana", "!fight");
    chat(&mut w, "bob", "!fight");
    assert_eq!(w.guys.len(), 2);
    chat(&mut w, "ana", "!fight");
    chat(&mut w, "bob", "!fight");
    assert_eq!(w.guys.len(), 2);
    let rejections = w
        .outbox
        .iter()
        .filter(|o| matches!(o, Outbound::Reply { text: Announcement::NoCheating, .. }))
        .count();
    assert_eq!(rejections, 2);
}

#[test]
fn cursed_wins_only_last_and_announced_once() {
    // A cursed combatant can only be sole survivor after every other
    // combatant fell; the winner announcement fires exactly once.
    let mut w = world(11);
    w.start_raffle(RaffleMode::Regular);
    for name in ["witch", "ana", "bob"] {
        w.db.set_level(name, 3);
        w.spawn_guy(name, false);
    }
    chat(&mut w, "kuviman", "!curse witch");
    assert!(guy_named(&w, "witch").unwrap().should_never_win);
    w.begin_battle();
    run_battle(&mut w);
    assert_eq!(w.guys.len(), 1);
    // The cursed combatant never ends as sole survivor while a non-cursed
    // contender is alive, so the survivor is a legitimate one.
    assert_ne!(w.guys.get(0).name, "witch");
    // The winner announcement is latched to fire once.
    let wobble_len = w.guys.len();
    for _ in 0..5 {
        let wobble = vec![0i64; wobble_len];
        w.update(100, &wobble);
    }
    let win_signals = w.signals.iter().filter(|s| matches!(s, Signal::WinFx)).count();
    assert_eq!(win_signals, 1);
    let winners = w
        .delayed_messages
        .iter()
        .filter(|m| matches!(m.message, Announcement::WinnerRegular { .. }))
        .count();
    assert_eq!(winners, 1);
}

#[test]
fn level_query_unknown_name() {
    // An unknown name reads the default level and the base health, and the
    // query alone writes nothing.
    let mut w = world(3);
    chat(&mut w, "stranger", "!lvl");
    let last = w.outbox.last().expect("a reply");
    match last {
        Outbound::Reply { text: Announcement::LevelReply { level, hp }, .. } => {
            assert_eq!(*level, 0);
            assert_eq!(*hp, 1);
        }
        other => panic!("unexpected reply {:?}", matches!(other, Outbound::Say { .. })),
    }
    assert_eq!(w.db.row_count(), 0);
}

#[test]
fn start_while_recruiting_changes_nothing() {
    // The idle-to-recruiting transition refuses while a round is going on:
    // no registry clear, no attack reset.
    let mut w = world(4);
    chat(&mut w, "kuviman", "!raffle");
    chat(&mut w, "ana", "!fight");
    chat(&mut w, "bob", "!fight");
    assert_eq!(w.guys.len(), 2);
    w.start_raffle(RaffleMode::Regular);
    assert_eq!(w.guys.len(), 2);
    assert!(matches!(
        w.outbox.last(),
        Some(Outbound::Say { text: Announcement::AlreadyGoingOn })
    ));
    // Mode is unchanged as well: the refused start does not switch it.
    assert_eq!(w.raffle_mode, RaffleMode::Ld);
}

#[test]
fn elimination_reported_in_feed() {
    let mut w = world(9);
    w.start_raffle(RaffleMode::Regular);
    w.db.set_level("frail", 1);
    w.db.set_level("tank", 9);
    w.spawn_guy("frail", false);
    w.spawn_guy("tank", false);
    w.begin_battle();
    run_battle(&mut w);
    assert_eq!(w.guys.len(), 1);
    let survivor = w.guys.get(0).name.clone();
    let fallen = if survivor == "tank" { "frail" } else { "tank" };
    assert_eq!(w.feed.as_deref(), Some(fallen));
    let deaths = w.signals.iter().filter(|s| matches!(s, Signal::Death { .. })).count();
    assert_eq!(deaths, 1);
}

#[test]
fn spawn_fade_reaches_full() {
    let mut w = world(6);
    w.start_raffle(RaffleMode::Regular);
    w.spawn_guy("ana", false);
    assert_eq!(w.guys.get(0).spawn, 0);
    let wobble = vec![0i64];
    w.update(400, &wobble);
    assert_eq!(w.guys.get(0).spawn, 400);
    w.update(400, &wobble);
    w.update(400, &wobble);
    assert_eq!(w.guys.get(0).spawn, 1000);
}

#[test]
fn click_heal_raises_health_and_cap() {
    let mut w = world(8);
    w.start_raffle(RaffleMode::Regular);
    w.spawn_guy("ana", false);
    let pos = w.guys.get(0).position;
    let before = w.guys.get(0).health;
    let cap_before = w.guys.get(0).max_health;
    w.click_heal(pos);
    assert_eq!(w.guys.get(0).health, before + 1);
    assert_eq!(w.guys.get(0).max_health, cap_before + 1);
    assert!(w.guys.get(0).health <= w.guys.get(0).max_health);
}

#[test]
fn close_keeps_registry_for_display() {
    let mut w = world(5);
    chat(&mut w, "kuviman", "!raffle");
    chat(&mut w, "ana", "!fight");
    chat(&mut w, "kuviman", "!raffle close");
    assert!(w.idle);
    assert!(!w.process_battle);
    assert_eq!(w.guys.len(), 1);
}

#[test]
fn next_round_clears_previous_registry() {
    let mut w = world(5);
    chat(&mut w, "kuviman", "!raffle");
    chat(&mut w, "ana", "!fight");
    chat(&mut w, "kuviman", "!raffle close");
    chat(&mut w, "kuviman", "!raffle");
    assert_eq!(w.guys.len(), 0);
}

#[test]
fn refused_start_keeps_attacks_in_flight() {
    let mut w = world(21);
    w.start_raffle(RaffleMode::Regular);
    for name in ["ana", "bob", "cy"] {
        w.db.set_level(name, 5);
        w.spawn_guy(name, false);
    }
    w.begin_battle();
    w.process_attacks(1000);
    let armed = w.attacks.len();
    assert!(armed >= 1);
    w.start_raffle(RaffleMode::Regular);
    assert_eq!(w.attacks.len(), armed);
    assert_eq!(w.guys.len(), 3);
    assert!(w.queued_attack.is_none() || w.attacks.len() == armed);
}

#[test]
fn winner_with_submission_marks_game_played() {
    let mut w = world(22);
    chat(&mut w, "kuviman", "!raffle");
    chat(&mut w, "ana", "!submit https://a.example");
    chat(&mut w, "ana", "!fight");
    chat(&mut w, "kuviman", "!raffle start");
    // A one-person battle resolves immediately on the next tick.
    let wobble = vec![0i64; w.guys.len()];
    w.update(100, &wobble);
    assert!(w.winning_screen);
    assert!(w.db.game_played("ana"));
    assert!(w
        .delayed_messages
        .iter()
        .any(|m| matches!(&m.message, Announcement::WinnerNewGame { name, link }
            if name == "ana" && link == "https://a.example")));
}

#[test]
fn winner_without_submission_regretted() {
    let mut w = world(23);
    chat(&mut w, "kuviman", "!raffle");
    chat(&mut w, "ana", "!fight");
    chat(&mut w, "kuviman", "!raffle start");
    let wobble = vec![0i64; w.guys.len()];
    w.update(100, &wobble);
    assert!(w
        .delayed_messages
        .iter()
        .any(|m| matches!(&m.message, Announcement::WinnerNoSubmission { name } if name == "ana")));
    assert!(!w.db.game_played("ana"));
}

#[test]
fn delayed_winner_message_goes_out_after_delay() {
    let mut w = world(24);
    w.start_raffle(RaffleMode::Regular);
    w.spawn_guy("ana", false);
    w.begin_battle();
    let wobble = vec![0i64; 1];
    w.update(1000, &wobble);
    assert_eq!(w.delayed_messages.len(), 1);
    for _ in 0..6 {
        let wobble = vec![0i64; w.guys.len()];
        w.update(1000, &wobble);
    }
    assert_eq!(w.delayed_messages.len(), 0);
    assert!(w
        .outbox
        .iter()
        .any(|o| matches!(o, Outbound::Say { text: Announcement::WinnerRegular { name } }
            if name == "ana")));
}

#[test]
fn movement_steers_toward_center() {
    let mut w = world(30);
    w.start_raffle(RaffleMode::Regular);
    w.spawn_guy("ana", false);
    w.spawn_guy("bob", false);
    for i in 0..2 {
        let mut g = w.guys.get(i).duplicate();
        g.position = Vec2Px { x: if i == 0 { -50_000 } else { 50_000 }, y: 0 };
        g.velocity = Vec2Px { x: 0, y: 0 };
        g.spawn = 1000;
        w.guys.set_at(i, g);
    }
    let wobble = vec![250i64, -250i64];
    w.process_movement(1000, &wobble);
    // Both accelerated toward the center (at x = 0).
    assert!(w.guys.get(0).velocity.x > 0);
    assert!(w.guys.get(1).velocity.x < 0);
    // The wobble tilts them sideways.
    assert!(w.guys.get(0).velocity.y != 0);
}

#[test]
fn click_on_empty_ground_changes_nothing() {
    let mut w = world(31);
    w.start_raffle(RaffleMode::Regular);
    w.spawn_guy("ana", false);
    let before = w.guys.get(0).health;
    let far = Vec2Px { x: 900_000_000, y: 900_000_000 };
    w.click_heal(far);
    assert_eq!(w.guys.get(0).health, before);
}

#[test]
fn movement_is_deterministic_for_a_seed() {
    let build = || {
        let mut w = world(33);
        w.start_raffle(RaffleMode::Regular);
        w.spawn_guy("ana", false);
        w.spawn_guy("bob", false);
        w
    };
    let mut a = build();
    let mut b = build();
    let wobble = vec![300i64, -170i64];
    a.process_movement(700, &wobble);
    b.process_movement(700, &wobble);
    for i in 0..2 {
        assert_eq!(a.guys.get(i).position, b.guys.get(i).position);
        assert_eq!(a.guys.get(i).velocity, b.guys.get(i).velocity);
    }
}
