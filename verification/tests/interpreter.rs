use raffle_royale::commands::{parse_command, Command};
use raffle_royale::events::{Announcement, ChatEvent, Outbound, SkinPart};
use raffle_royale::skin::{OutfitColor, SkinOptions};
use raffle_royale::world::{Constants, State};

fn constants() -> Constants {
    Constants {
        channel_login: "kuviman".to_owned(),
        channel_point_levels: 2,
        initial_health: 10,
        extra_health_per_level: 4,
        health_per_click: 1,
        bless_hp: 3,
        preferred_distance_spring_k: 10,
    }
}

fn options() -> SkinOptions {
    SkinOptions {
        face: vec!["grin".to_owned()],
        hat: vec!["hat".to_owned(), "crown".to_owned()],
        robe: vec!["robe".to_owned()],
        beard: vec!["beard".to_owned()],
        custom: vec!["statue".to_owned()],
        custom_map: vec![],
        palette: vec![OutfitColor { r: 1, g: 2, b: 3 }],
    }
}

fn world(seed: u64) -> State {
    State::new(constants(), options(), seed)
}

fn chat(world: &mut State, name: &str, text: &str) {
    world.handle_ttv(ChatEvent::ChatMessage {
        id: "m".to_owned(),
        name: name.to_owned(),
        message: text.to_owned(),
    });
}

#[test]
fn parse_basic_commands() {
    assert!(matches!(parse_command("fight", "!lvl"), Command::Level));
    assert!(matches!(parse_command("fight", "  !level  "), Command::Level));
    assert!(matches!(parse_command("fight", "!skin"), Command::ShowSkin));
    assert!(matches!(parse_command("fight", "!skin random"), Command::RandomSkin));
    assert!(matches!(parse_command("fight", "!fight"), Command::Join));
    assert!(matches!(parse_command("fight", "  !fight  "), Command::Join));
    assert!(matches!(parse_command("brawl", "!fight"), Command::Nothing));
    assert!(matches!(parse_command("fight", "hello there"), Command::Nothing));
}

#[test]
fn parse_arguments() {
    match parse_command("fight", "!submit https://example.org/game") {
        Command::Submit { url } => assert_eq!(url, "https://example.org/game"),
        _ => panic!("not a submission"),
    }
    match parse_command("fight", "!hat crown") {
        Command::SetPart { part, option } => {
            assert_eq!(part, SkinPart::Hat);
            assert_eq!(option, "crown");
        }
        _ => panic!("not a hat change"),
    }
    match parse_command("fight", "!beard  long  ") {
        Command::SetPart { part, option } => {
            assert_eq!(part, SkinPart::Beard);
            assert_eq!(option, "long");
        }
        _ => panic!("not a beard change"),
    }
    match parse_command("fight", "!curse ana") {
        Command::Curse { target } => assert_eq!(target, "ana"),
        _ => panic!("not a curse"),
    }
    match parse_command("fight", "!spawn ana bob cy") {
        Command::SpawnNames { names } => assert_eq!(names, vec!["ana", "bob", "cy"]),
        _ => panic!("not a spawn"),
    }
    match parse_command("fight", "!setcustomskin ana statue") {
        Command::SetCustom { target, option } => {
            assert_eq!(target, "ana");
            assert_eq!(option, "statue");
        }
        _ => panic!("not a custom skin"),
    }
    assert!(matches!(parse_command("fight", "!setcustomskin ana"), Command::Nothing));
}

#[test]
fn parse_raffle_controls() {
    assert!(matches!(parse_command("fight", "!raffle"), Command::RaffleDefault));
    assert!(matches!(parse_command("fight", "!raffle start"), Command::RaffleStart));
    assert!(matches!(parse_command("fight", "!raffle close"), Command::RaffleClose));
    match parse_command("fight", "!raffle royale brawl") {
        Command::RaffleRoyale { keyword } => assert_eq!(keyword, "brawl"),
        _ => panic!("not a royale start"),
    }
    match parse_command("fight", "!raffle brawl") {
        Command::RaffleKeyword { keyword } => assert_eq!(keyword, "brawl"),
        _ => panic!("not a keyword change"),
    }
}

#[test]
fn submit_flow() {
    let mut w = world(1);
    chat(&mut w, "ana", "!submit");
    assert!(matches!(
        w.outbox.last(),
        Some(Outbound::Reply { text: Announcement::SubmitUsage, .. })
    ));
    chat(&mut w, "ana", "!submit https://a.example");
    assert!(matches!(
        w.outbox.last(),
        Some(Outbound::Reply { text: Announcement::SubmissionOk { .. }, .. })
    ));
    assert_eq!(w.db.find_game_link("ana").as_deref(), Some("https://a.example"));
    chat(&mut w, "ana", "!submit https://b.example");
    assert!(matches!(
        w.outbox.last(),
        Some(Outbound::Reply { text: Announcement::AlreadySubmitted, .. })
    ));
    assert_eq!(w.db.find_game_link("ana").as_deref(), Some("https://a.example"));
    w.db.set_game_played("ana", true);
    chat(&mut w, "bob", "!submit x");
    chat(&mut w, "ana", "!submit https://c.example");
    assert!(matches!(
        w.outbox.last(),
        Some(Outbound::Reply { text: Announcement::AlreadyPlayed, .. })
    ));
}

#[test]
fn submission_reverses_curse() {
    let mut w = world(2);
    chat(&mut w, "kuviman", "!raffle");
    chat(&mut w, "ana", "!fight");
    chat(&mut w, "kuviman", "!curse ana");
    assert!(w.guys.get(0).should_never_win);
    chat(&mut w, "ana", "!submit https://a.example");
    assert!(!w.guys.get(0).should_never_win);
    match w.outbox.last() {
        Some(Outbound::Reply { text: Announcement::SubmissionOk { curse_reversed }, .. }) => {
            assert!(*curse_reversed);
        }
        _ => panic!("expected a submission reply"),
    }
}

#[test]
fn hat_change_and_invalid_option() {
    let mut w = world(3);
    chat(&mut w, "ana", "!hat crown");
    assert_eq!(w.db.find_skin("ana").unwrap().hat, "crown");
    chat(&mut w, "ana", "!hat sombrero");
    assert!(matches!(
        w.outbox.last(),
        Some(Outbound::Reply {
            text: Announcement::SkinPartOptions { part: SkinPart::Hat },
            ..
        })
    ));
    assert_eq!(w.db.find_skin("ana").unwrap().hat, "crown");
}

#[test]
fn admin_spawn_and_curse_gating() {
    let mut w = world(4);
    chat(&mut w, "kuviman", "!raffle");
    chat(&mut w, "kuviman", "!spawn ana bob");
    assert_eq!(w.guys.len(), 2);
    assert!(w.guys.get(0).should_never_win);
    assert!(w.guys.get(1).should_never_win);
    chat(&mut w, "mallory", "!spawn eve");
    assert_eq!(w.guys.len(), 2);
    chat(&mut w, "mallory", "!raffle close");
    assert!(!w.idle);
}

#[test]
fn impersonation_is_admin_only() {
    let mut w = world(5);
    chat(&mut w, "kuviman", "!raffle");
    chat(&mut w, "kuviman", "!as ana !fight");
    assert_eq!(w.guys.len(), 1);
    assert_eq!(w.guys.get(0).name, "ana");
    chat(&mut w, "mallory", "!as bob !fight");
    assert_eq!(w.guys.len(), 1);
}

#[test]
fn bless_raises_health_and_cap_together() {
    let mut w = world(6);
    chat(&mut w, "kuviman", "!raffle");
    chat(&mut w, "ana", "!fight");
    let before = w.guys.get(0).health;
    chat(&mut w, "kuviman", "!bless ana");
    assert_eq!(w.guys.get(0).health, before + 3);
    assert_eq!(w.guys.get(0).max_health, before + 3);
    chat(&mut w, "mallory", "!bless ana");
    assert_eq!(w.guys.get(0).health, before + 3);
}

#[test]
fn reward_redemption_levels_up() {
    let mut w = world(7);
    chat(&mut w, "kuviman", "!raffle");
    chat(&mut w, "ana", "!fight");
    let before = w.guys.get(0).health;
    w.handle_ttv(ChatEvent::RewardRedemption {
        name: "ana".to_owned(),
        reward: "Raffle Royale Level Up".to_owned(),
    });
    // Two levels per redemption, four health per level.
    assert_eq!(w.guys.get(0).health, before + 8);
    assert_eq!(w.db.find_level("ana"), 1);
    assert!(matches!(
        w.outbox.last(),
        Some(Outbound::Say { text: Announcement::LevelUpBroadcast { .. } })
    ));
    w.handle_ttv(ChatEvent::RewardRedemption {
        name: "ana".to_owned(),
        reward: "Some Other Reward".to_owned(),
    });
    assert_eq!(w.db.find_level("ana"), 1);
}

#[test]
fn keyword_rename_via_royale() {
    let mut w = world(8);
    chat(&mut w, "kuviman", "!raffle royale brawl");
    chat(&mut w, "ana", "!brawl");
    assert_eq!(w.guys.len(), 1);
    chat(&mut w, "bob", "!fight");
    assert_eq!(w.guys.len(), 1);
}

#[test]
fn join_outside_recruiting() {
    let mut w = world(9);
    chat(&mut w, "ana", "!fight");
    assert!(matches!(
        w.outbox.last(),
        Some(Outbound::Reply { text: Announcement::TooEarlyOrLate, .. })
    ));
    assert_eq!(w.guys.len(), 0);
    chat(&mut w, "kuviman", "!raffle");
    chat(&mut w, "bob", "!fight");
    chat(&mut w, "kuviman", "!raffle start");
    chat(&mut w, "late", "!fight");
    assert!(matches!(
        w.outbox.last(),
        Some(Outbound::Reply { text: Announcement::CannotJoinOngoing, .. })
    ));
    assert_eq!(w.guys.len(), 1);
}

#[test]
fn ld_join_without_submission_warns() {
    let mut w = world(10);
    chat(&mut w, "kuviman", "!raffle");
    chat(&mut w, "ana", "!fight");
    assert!(matches!(
        w.outbox.last(),
        Some(Outbound::Reply { text: Announcement::CursedJoin, .. })
    ));
    chat(&mut w, "bob", "!submit https://b.example");
    chat(&mut w, "bob", "!fight");
    assert!(!matches!(
        w.outbox.last(),
        Some(Outbound::Reply { text: Announcement::CursedJoin, .. })
    ));
}

#[test]
fn random_skin_draws_from_options() {
    let mut w = world(11);
    chat(&mut w, "ana", "!skin random");
    let skin = w.db.find_skin("ana").unwrap();
    assert_eq!(skin.face, "grin");
    assert!(skin.hat == "hat" || skin.hat == "crown");
    assert_eq!(skin.custom, None);
}

#[test]
fn show_skin_caches_and_replies() {
    let mut w = world(12);
    assert_eq!(w.db.row_count(), 0);
    chat(&mut w, "ana", "!skin");
    assert!(matches!(
        w.outbox.last(),
        Some(Outbound::Reply { text: Announcement::SkinReply { .. }, .. })
    ));
    assert!(w.db.find_skin("ana").is_some());
}

#[test]
fn custom_skin_is_admin_only() {
    let mut w = world(20);
    chat(&mut w, "mallory", "!setcustomskin ana statue");
    assert!(w.db.find_skin("ana").is_none());
    chat(&mut w, "kuviman", "!setcustomskin ana statue");
    assert_eq!(w.db.find_skin("ana").unwrap().custom.as_deref(), Some("statue"));
    chat(&mut w, "kuviman", "!setcustomskin ana unknownthing");
    assert_eq!(w.db.find_skin("ana").unwrap().custom.as_deref(), Some("statue"));
}

#[test]
fn keyword_change_without_royale() {
    let mut w = world(21);
    chat(&mut w, "kuviman", "!raffle brawl");
    chat(&mut w, "ana", "!brawl");
    assert_eq!(w.guys.len(), 1);
}
