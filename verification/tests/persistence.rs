use raffle_royale::db::Db;
use raffle_royale::skin::{OutfitColor, Skin};

fn sample_skin() -> Skin {
    Skin {
        face: "face".to_owned(),
        hat: "hat".to_owned(),
        robe: "robe".to_owned(),
        beard: "beard".to_owned(),
        custom: None,
        outfit_color: OutfitColor { r: 255, g: 255, b: 0 },
    }
}

#[test]
fn test_db() {
    let mut db = Db::new();
    assert!(db.find_level("kuviman") == 0);
    db.set_level("kuviman", 5);
    assert!(db.find_level("kuviman") == 5);
    db.set_game_link("kuviman", Some("123"));
    db.set_game_link("kuviman", None);
    db.set_game_link("random_dude", Some("123"));
    db.set_game_link("random_dude2", None);
    assert_eq!(db.find_game_link("random_dude").as_deref(), Some("123"));
    assert_eq!(db.find_game_link("random_dude2").as_deref(), None);
    assert_eq!(db.find_game_link("kuviman").as_deref(), None);
    assert_eq!(db.find_game_link("non_existent_dude").as_deref(), None);
    db.set_game_played("kuviman", true);
    assert!(db.game_played("kuviman"));
    assert!(!db.game_played("non_existent_dude"));
    assert!(!db.game_played("random_dude"));

    let skin = sample_skin();
    assert_eq!(db.find_skin("kuviman"), None);
    db.set_skin("kuviman", &skin);
    db.set_skin("someone", &skin);
    assert_eq!(db.find_skin("kuviman"), Some(skin));
}

#[test]
fn skin_round_trip() {
    let mut db = Db::new();
    let skin = Skin {
        face: "smile".to_owned(),
        hat: "crown".to_owned(),
        robe: "night".to_owned(),
        beard: "long".to_owned(),
        custom: Some("statue".to_owned()),
        outfit_color: OutfitColor { r: 10, g: 20, b: 30 },
    };
    db.set_skin("writer", &skin);
    assert_eq!(db.find_skin("writer"), Some(skin));
}

#[test]
fn skin_overwrite_keeps_other_rows() {
    let mut db = Db::new();
    db.set_level("left", 7);
    let first = sample_skin();
    db.set_skin("right", &first);
    let mut second = sample_skin();
    second.hat = "other".to_owned();
    db.set_skin("right", &second);
    assert_eq!(db.find_skin("right"), Some(second));
    assert_eq!(db.find_level("left"), 7);
    assert_eq!(db.find_skin("left"), None);
    assert_eq!(db.row_count(), 2);
}

#[test]
fn set_skin_preserves_level() {
    let mut db = Db::new();
    db.set_level("ana", 3);
    db.set_skin("ana", &sample_skin());
    assert_eq!(db.find_level("ana"), 3);
    assert!(!db.game_played("ana"));
}

#[test]
fn absent_reads_are_defaults() {
    let db = Db::new();
    assert_eq!(db.find_level("nobody"), 0);
    assert_eq!(db.find_game_link("nobody"), None);
    assert!(!db.game_played("nobody"));
    assert_eq!(db.find_skin("nobody"), None);
    assert_eq!(db.row_count(), 0);
}
