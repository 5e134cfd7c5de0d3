use raffle_royale::arena::find_circle;
use raffle_royale::combatant::Combatant;
use raffle_royale::geom::Vec2Px;
use raffle_royale::num::{clamp64, isqrt64, mul_div};
use raffle_royale::registry::Registry;
use raffle_royale::skin::{OutfitColor, Skin};
use raffle_royale::text::{split_ws, starts_with, str_eq, trim};

#[test]
fn isqrt_values() {
    assert_eq!(isqrt64(0), 0);
    assert_eq!(isqrt64(1), 1);
    assert_eq!(isqrt64(3), 1);
    assert_eq!(isqrt64(4), 2);
    assert_eq!(isqrt64(8), 2);
    assert_eq!(isqrt64(9), 3);
    assert_eq!(isqrt64(1_000_000), 1000);
    assert_eq!(isqrt64(u64::MAX), 4_294_967_295);
}

#[test]
fn mul_div_rounds_magnitude_down() {
    assert_eq!(mul_div(7, 3, 2), 10);
    assert_eq!(mul_div(-7, 3, 2), -10);
    assert_eq!(mul_div(7, -3, 2), -10);
    assert_eq!(mul_div(-7, -3, 2), 10);
    assert_eq!(mul_div(0, 5, 9), 0);
}

#[test]
fn clamp_bounds() {
    assert_eq!(clamp64(5, -3, 3), 3);
    assert_eq!(clamp64(-5, -3, 3), -3);
    assert_eq!(clamp64(2, -3, 3), 2);
}

#[test]
fn vector_length() {
    let v = Vec2Px { x: 3000, y: 4000 };
    assert_eq!(v.len(), 5000);
    let z = Vec2Px { x: 0, y: 0 };
    assert_eq!(z.len(), 0);
}

fn plain_guy(id: i32, name: &str, x: i64, y: i64, spawn: u32) -> Combatant {
    Combatant {
        id,
        name: name.to_owned(),
        health: 1,
        max_health: 1,
        position: Vec2Px { x, y },
        velocity: Vec2Px { x: 0, y: 0 },
        skin: Skin {
            face: "face".to_owned(),
            hat: "hat".to_owned(),
            robe: "robe".to_owned(),
            beard: "beard".to_owned(),
            custom: None,
            outfit_color: OutfitColor { r: 0, g: 0, b: 0 },
        },
        spawn,
        should_never_win: false,
    }
}

#[test]
fn circle_of_two_symmetric_combatants() {
    let mut reg = Registry::new();
    reg.insert(plain_guy(0, "a", -5000, 0, 1000));
    reg.insert(plain_guy(1, "b", 5000, 0, 1000));
    let c = find_circle(&reg).expect("some spawn weight");
    assert_eq!(c.center.x, 0);
    assert_eq!(c.center.y, 0);
    // Farthest combatant at distance 5000 plus two body radii.
    assert_eq!(c.radius, 7000);
}

#[test]
fn circle_absent_without_spawn_weight() {
    let mut reg = Registry::new();
    reg.insert(plain_guy(0, "a", -5000, 0, 0));
    assert!(find_circle(&reg).is_none());
    let empty = Registry::new();
    assert!(find_circle(&empty).is_none());
}

#[test]
fn circle_weighting_follows_fade() {
    let mut reg = Registry::new();
    reg.insert(plain_guy(0, "a", 0, 0, 1000));
    reg.insert(plain_guy(1, "b", 9000, 0, 500));
    let c = find_circle(&reg).expect("some spawn weight");
    // Weighted average: (0 * 1000 + 9000 * 500) / 1500.
    assert_eq!(c.center.x, 3000);
}

#[test]
fn text_helpers() {
    assert!(str_eq("abc", "abc"));
    assert!(!str_eq("abc", "abd"));
    assert!(!str_eq("abc", "ab"));
    assert_eq!(trim("  hello \t"), "hello");
    assert_eq!(trim("   "), "");
    assert!(starts_with("!submit x", "!submit"));
    assert!(!starts_with("!sub", "!submit"));
    assert_eq!(split_ws("  ana  bob  cy "), vec!["ana", "bob", "cy"]);
    assert_eq!(split_ws(""), Vec::<String>::new());
}
