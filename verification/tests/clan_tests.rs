use plin::clan::ClanInfo;

fn info(name: &str, decks: i32, players: usize, points: i32, tag: &str) -> ClanInfo {
    ClanInfo::new(
        name.to_string(),
        decks,
        (0..players).map(|i| format!("#P{}", i)).collect(),
        points,
        tag.to_string(),
    )
}

#[test]
fn new_keeps_every_field() {
    let c = ClanInfo::new("Les Loups".to_string(), 12, vec!["#A".to_string()], 900, "#TAG".to_string());
    assert_eq!(c.name, "Les Loups");
    assert_eq!(c.decks_used, 12);
    assert_eq!(c.participants, vec!["#A".to_string()]);
    assert_eq!(c.period_points, 900);
    assert_eq!(c.tag, "#TAG");
}

#[test]
fn four_decks_per_participant() {
    assert_eq!(info("a", 0, 0, 0, "#A").max_deck_usable(), 0);
    assert_eq!(info("a", 0, 3, 0, "#A").max_deck_usable(), 12);
    assert_eq!(info("a", 0, 50, 0, "#A").max_deck_usable(), 200);
}

#[test]
fn reachable_points_count_800_per_deck_left() {
    // 1500 + (12 - 10) * 800
    assert_eq!(info("a", 10, 3, 1500, "#A").maximum_points(), 3100);
    // more decks used than usable: the remainder is negative
    assert_eq!(info("a", 14, 3, 1500, "#A").maximum_points(), -100);
    // the i32 arithmetic wraps around
    let big = info("a", 0, 1, i32::MAX, "#A");
    assert_eq!(big.maximum_points(), i32::MAX.wrapping_add(3200));
}

#[test]
fn field_shows_decks_share_points_and_reachable_points() {
    let c = info("Les Loups", 10, 3, 1500, "#A");
    let (name, text, inline) = c.to_field(83);
    assert_eq!(name, "Les Loups");
    assert_eq!(
        text,
        "\u{2694}\u{2800}10/12\u{2800}(83%)\n\u{1F3C5}\u{2800}1500\n\u{2B71}\u{2B71}\u{2800}3100"
    );
    assert!(inline);
}

#[test]
fn short_field_leaves_out_reachable_points() {
    let c = info("X", -3, 1, -20, "#A");
    let (name, text, inline) = c.to_short_field(0);
    assert_eq!(name, "X");
    assert_eq!(text, "\u{2694}\u{2800}-3/4\u{2800}(0%)\n\u{1F3C5}\u{2800}-20");
    assert!(inline);
}
