use uno_sync::{
    Card, GameStatistics, PlayerId, cards_match, decimal_string, duration_parts, placement_line,
    placement_rank,
};

#[test]
fn decimal_writing_exact_values() {
    assert_eq!(decimal_string(0), "0");
    assert_eq!(decimal_string(7), "7");
    assert_eq!(decimal_string(10), "10");
    assert_eq!(decimal_string(105), "105");
    assert_eq!(decimal_string(98431), "98431");
}

#[test]
fn placement_ranks_start_at_two() {
    assert_eq!(placement_rank(0), 2);
    assert_eq!(placement_rank(1), 3);
    assert_eq!(placement_line(0, "bob"), "2. bob");
    assert_eq!(placement_line(1, "carol"), "3. carol");
}

#[test]
fn duration_splits_into_minutes_and_seconds() {
    assert_eq!(duration_parts(0), (0, 0));
    assert_eq!(duration_parts(59), (0, 59));
    assert_eq!(duration_parts(125), (2, 5));
    assert_eq!(duration_parts(3600), (60, 0));
}

#[test]
fn statistics_duration_needs_both_times_in_order() {
    let mut stats = GameStatistics::new();
    assert_eq!(stats.duration_seconds(), None);
    stats.start_time = Some(50);
    assert_eq!(stats.duration_seconds(), None);
    stats.end_time = Some(80);
    assert_eq!(stats.duration_seconds(), Some(30));
    stats.end_time = Some(20);
    assert_eq!(stats.duration_seconds(), None, "an end before the start is no duration");
}

#[test]
fn statistics_default_is_empty() {
    assert_eq!(GameStatistics::default(), GameStatistics::new());
    let stats = GameStatistics::new();
    assert_eq!(stats.player_count, 0);
    assert_eq!(stats.cards_placed, 0);
    assert_eq!(stats.cards_drawn, 0);
    assert_eq!(stats.spectator_count, 0);
    assert_eq!(stats.start_time, None);
    assert_eq!(stats.end_time, None);
}

#[test]
fn card_matching_ignores_the_owner() {
    let owned = Card::new("Five", "Red", PlayerId(42));
    let bare = Card { kind: "Five".to_string(), color: "Red".to_string(), owner: None };
    assert!(cards_match(&owned, &bare));
    assert!(!cards_match(
        &bare,
        &Card { kind: "Five".to_string(), color: "Blue".to_string(), owner: None }
    ));
    assert!(!cards_match(
        &bare,
        &Card { kind: "Skip".to_string(), color: "Red".to_string(), owner: None }
    ));
}
