use uno_sync::{
    Action, Card, GameStatistics, Msg, PacketType, Phase, PlayerId, ServerMessage, Session,
};

fn card(color: &str, kind: &str) -> Card {
    Card { kind: kind.to_string(), color: color.to_string(), owner: None }
}

fn connected_session() -> Session {
    let mut s = Session::new();
    s.reduce(Msg::RoomIDInput("c05554ae-b4ee-4976-ac05-97aaf3c98a24".to_string()));
    let actions = s.reduce(Msg::Connect);
    assert_eq!(actions.len(), 1);
    s.reduce(Msg::Connected);
    assert_eq!(s.phase, Phase::Unregistered);
    s
}

fn find_player(s: &Session, id: PlayerId) -> Option<&uno_sync::Player> {
    s.connections.iter().find(|(pid, _)| *pid == id).map(|(_, p)| p)
}

#[test]
fn connect_requires_room_id() {
    let mut s = Session::new();
    let actions = s.reduce(Msg::Connect);
    assert!(actions.is_empty());
    assert_eq!(s.phase, Phase::Idle);

    s.reduce(Msg::RoomIDInput(String::new()));
    let actions = s.reduce(Msg::Connect);
    assert!(actions.is_empty());
    assert_eq!(s.phase, Phase::Idle);

    s.reduce(Msg::RoomIDInput("room-7".to_string()));
    let actions = s.reduce(Msg::Connect);
    assert_eq!(actions, vec![Action::Open("room-7".to_string())]);
    assert_eq!(s.phase, Phase::Connecting);
}

#[test]
fn register_sends_stored_username_or_placeholder() {
    let mut s = connected_session();
    let actions = s.reduce(Msg::Register);
    assert_eq!(actions, vec![Action::Send(PacketType::Register("player".to_string()))]);

    s.reduce(Msg::UsernameInput("alice".to_string()));
    let actions = s.reduce(Msg::Register);
    assert_eq!(actions, vec![Action::Send(PacketType::Register("alice".to_string()))]);
    // registration is confirmed only by the first roster event
    assert_eq!(s.phase, Phase::Unregistered);
}

#[test]
fn roster_snapshot_scenario() {
    // roster snapshot (self=A, others=[(B, "bob")]) then connect(C, "carol")
    let a = PlayerId(1);
    let b = PlayerId(2);
    let c = PlayerId(3);
    let mut s = connected_session();
    s.reduce(Msg::Received(PacketType::GameData(
        a,
        "alice".to_string(),
        vec![(a, "alice".to_string()), (b, "bob".to_string())],
    )));
    assert_eq!(s.phase, Phase::Registered);
    assert_eq!(s.connections.len(), 1);
    let bob = find_player(&s, b).expect("bob joined the roster");
    assert_eq!(bob.username, "bob");
    assert_eq!(bob.index, 1);
    assert_eq!(bob.card_count, 0);
    assert!(find_player(&s, a).is_none(), "the local player never enters the roster");

    let actions = s.reduce(Msg::Received(PacketType::Connect(c, "carol".to_string())));
    assert!(actions.is_empty());
    let carol = find_player(&s, c).expect("carol joined the roster");
    assert_eq!(carol.username, "carol");
    assert_eq!(carol.index, 2);
    assert_eq!(carol.card_count, 0);
    assert_eq!(s.chat.last(), Some(&ServerMessage::Join("carol".to_string())));
}

#[test]
fn roster_snapshot_is_idempotent() {
    let a = PlayerId(1);
    let b = PlayerId(2);
    let c = PlayerId(3);
    let snapshot = PacketType::GameData(
        a,
        "alice".to_string(),
        vec![(b, "bob".to_string()), (c, "carol".to_string())],
    );
    let mut s = connected_session();
    s.reduce(Msg::Received(snapshot.clone()));
    let roster_once: Vec<_> = s.connections.clone();
    s.reduce(Msg::Received(snapshot));
    assert_eq!(s.connections, roster_once);
    assert_eq!(find_player(&s, b).unwrap().index, 1);
    assert_eq!(find_player(&s, c).unwrap().index, 2);
}

#[test]
fn participant_leave_keeps_seat_indices() {
    let a = PlayerId(1);
    let b = PlayerId(2);
    let c = PlayerId(3);
    let mut s = connected_session();
    s.reduce(Msg::Received(PacketType::GameData(a, "alice".to_string(), vec![])));
    s.reduce(Msg::Received(PacketType::Connect(b, "bob".to_string())));
    s.reduce(Msg::Received(PacketType::Connect(c, "carol".to_string())));
    assert_eq!(find_player(&s, b).unwrap().index, 2);
    assert_eq!(find_player(&s, c).unwrap().index, 3);

    s.reduce(Msg::Received(PacketType::Disconnect(b, "bob".to_string())));
    assert!(find_player(&s, b).is_none());
    assert_eq!(find_player(&s, c).unwrap().index, 3, "removal must not renumber seats");
    assert_eq!(s.chat.last(), Some(&ServerMessage::Leave("bob".to_string())));
}

#[test]
fn private_status_scenario() {
    // status-private(hand=[Red/Five, Blue/Skip], discard=Green/Nine)
    let mut s = connected_session();
    s.reduce(Msg::Received(PacketType::GameData(PlayerId(1), "alice".to_string(), vec![])));
    s.reduce(Msg::Received(PacketType::StatusUpdatePrivate(
        vec![card("Red", "Five"), card("Blue", "Skip")],
        card("Green", "Nine"),
    )));
    assert_eq!(s.cards, vec![card("Red", "Five"), card("Blue", "Skip")]);
    assert_eq!(s.current, Some(card("Green", "Nine")));
    assert_eq!(s.phase, Phase::Active);
}

#[test]
fn public_status_updates_counts_and_discard() {
    let a = PlayerId(1);
    let b = PlayerId(2);
    let mut s = connected_session();
    s.reduce(Msg::Received(PacketType::GameData(
        a,
        "alice".to_string(),
        vec![(b, "bob".to_string())],
    )));
    s.reduce(Msg::Received(PacketType::StatusUpdatePublic(
        b,
        "bob".to_string(),
        6,
        card("Yellow", "Two"),
    )));
    assert_eq!(s.phase, Phase::Active);
    assert_eq!(find_player(&s, b).unwrap().card_count, 6);
    assert_eq!(s.current, Some(card("Yellow", "Two")));
}

#[test]
fn public_status_for_stranger_inserts_entry() {
    let b = PlayerId(9);
    let mut s = connected_session();
    s.reduce(Msg::Received(PacketType::StatusUpdatePublic(
        b,
        "bob".to_string(),
        4,
        card("Red", "One"),
    )));
    let bob = find_player(&s, b).expect("defensive insert");
    assert_eq!(bob.card_count, 4);
    assert_eq!(bob.username, "bob");
}

#[test]
fn allowed_cards_grant_turn_and_filter_to_hand() {
    let mut s = connected_session();
    s.reduce(Msg::Received(PacketType::StatusUpdatePrivate(
        vec![card("Red", "Five"), card("Blue", "Skip")],
        card("Green", "Nine"),
    )));
    s.reduce(Msg::Received(PacketType::AllowedCardsUpdate(vec![
        card("Red", "Five"),
        card("Green", "Nine"), // not in hand: matched away
    ])));
    assert!(s.turn);
    assert_eq!(s.allowed_cards, vec![card("Red", "Five")]);
}

#[test]
fn place_card_scenario_plain_card() {
    // allowed-cards([Red/Five]) then place-card(Red/Five) -> place-card(index 0)
    let mut s = connected_session();
    s.reduce(Msg::Received(PacketType::StatusUpdatePrivate(
        vec![card("Red", "Five"), card("Blue", "Skip")],
        card("Green", "Nine"),
    )));
    s.reduce(Msg::Received(PacketType::AllowedCardsUpdate(vec![card("Red", "Five")])));
    let actions = s.reduce(Msg::PlaceCard(card("Red", "Five")));
    assert_eq!(actions, vec![Action::Send(PacketType::PlaceCard(0))]);
    assert!(!s.selecting, "a plain card asks for no color selection");
}

#[test]
fn place_card_first_match_wins() {
    let mut s = connected_session();
    s.reduce(Msg::Received(PacketType::StatusUpdatePrivate(
        vec![card("Blue", "Skip"), card("Red", "Five"), card("Red", "Five")],
        card("Green", "Nine"),
    )));
    let actions = s.reduce(Msg::PlaceCard(card("Red", "Five")));
    assert_eq!(actions, vec![Action::Send(PacketType::PlaceCard(1))]);
}

#[test]
fn place_card_wild_scenario() {
    // allowed-cards([WildDrawFour/Black]) then place-card, then color-switch("Blue")
    let mut s = connected_session();
    s.reduce(Msg::Received(PacketType::StatusUpdatePrivate(
        vec![card("Black", "WildDrawFour")],
        card("Green", "Nine"),
    )));
    s.reduce(Msg::Received(PacketType::AllowedCardsUpdate(vec![card("Black", "WildDrawFour")])));
    let actions = s.reduce(Msg::PlaceCard(card("Black", "WildDrawFour")));
    assert_eq!(actions, vec![Action::Send(PacketType::PlaceCard(0))]);
    assert!(s.selecting);

    // further play intents are blocked while a color is pending
    let actions = s.reduce(Msg::PlaceCard(card("Black", "WildDrawFour")));
    assert!(actions.is_empty());

    let actions = s.reduce(Msg::SwitchColor("Blue".to_string()));
    assert_eq!(actions, vec![Action::Send(PacketType::ColorSwitch("Blue".to_string()))]);
    assert!(!s.selecting);
}

#[test]
fn place_card_without_match_only_notifies() {
    let mut s = connected_session();
    s.reduce(Msg::Received(PacketType::StatusUpdatePrivate(
        vec![card("Red", "Five")],
        card("Green", "Nine"),
    )));
    let actions = s.reduce(Msg::PlaceCard(card("Blue", "Seven")));
    assert!(actions.is_empty());
    assert_eq!(
        s.chat.last(),
        Some(&ServerMessage::Error("no matching card in hand".to_string()))
    );
    assert_eq!(s.cards, vec![card("Red", "Five")], "the hand is untouched");
}

#[test]
fn draw_card_emits_one_draw_and_keeps_state() {
    let mut s = connected_session();
    s.reduce(Msg::Received(PacketType::StatusUpdatePrivate(
        vec![card("Red", "Five")],
        card("Green", "Nine"),
    )));
    let hand_before = s.cards.clone();
    let actions = s.reduce(Msg::DrawCard);
    assert_eq!(actions, vec![Action::Send(PacketType::DrawCard(1))]);
    assert_eq!(s.cards, hand_before);
}

#[test]
fn end_turn_clears_legality() {
    let mut s = connected_session();
    s.reduce(Msg::Received(PacketType::StatusUpdatePrivate(
        vec![card("Red", "Five")],
        card("Green", "Nine"),
    )));
    s.reduce(Msg::Received(PacketType::AllowedCardsUpdate(vec![card("Red", "Five")])));
    assert!(s.turn);
    assert!(!s.allowed_cards.is_empty());

    s.reduce(Msg::Received(PacketType::EndTurn));
    assert!(s.allowed_cards.is_empty());
    assert!(!s.turn);
}

#[test]
fn turn_update_recomputes_flags_exclusively() {
    let a = PlayerId(1);
    let b = PlayerId(2);
    let c = PlayerId(3);
    let mut s = connected_session();
    s.reduce(Msg::Received(PacketType::GameData(
        a,
        "alice".to_string(),
        vec![(b, "bob".to_string()), (c, "carol".to_string())],
    )));
    s.reduce(Msg::Received(PacketType::AllowedCardsUpdate(vec![])));
    assert!(s.turn);

    // the turn moves to bob, carol is next
    s.reduce(Msg::Received(PacketType::TurnUpdate(b, c)));
    assert!(!s.turn, "an announced opponent turn withdraws the local turn");
    assert!(!s.next);
    assert!(find_player(&s, b).unwrap().turn);
    assert!(!find_player(&s, b).unwrap().next);
    assert!(find_player(&s, c).unwrap().next);
    assert!(!find_player(&s, c).unwrap().turn);

    // the turn moves to carol, the local player (absent from the roster) is next
    s.reduce(Msg::Received(PacketType::TurnUpdate(c, a)));
    assert!(s.next);
    assert!(find_player(&s, c).unwrap().turn);
    assert!(!find_player(&s, b).unwrap().turn);
    assert!(!find_player(&s, b).unwrap().next);
    assert!(!find_player(&s, c).unwrap().next);
}

#[test]
fn allowed_cards_lower_roster_turn_flags() {
    let a = PlayerId(1);
    let b = PlayerId(2);
    let mut s = connected_session();
    s.reduce(Msg::Received(PacketType::GameData(
        a,
        "alice".to_string(),
        vec![(b, "bob".to_string())],
    )));
    s.reduce(Msg::Received(PacketType::TurnUpdate(b, a)));
    assert!(find_player(&s, b).unwrap().turn);

    s.reduce(Msg::Received(PacketType::AllowedCardsUpdate(vec![])));
    assert!(s.turn);
    assert!(!find_player(&s, b).unwrap().turn, "the turn is exclusive");
}

#[test]
fn win_update_scenario() {
    // win-update(winner=A/"alice", placements=["bob", "carol"], stats)
    let a = PlayerId(1);
    let mut s = connected_session();
    s.reduce(Msg::Received(PacketType::StatusUpdatePrivate(
        vec![card("Red", "Five")],
        card("Green", "Nine"),
    )));
    let mut stats = GameStatistics::new();
    stats.start_time = Some(1_000);
    stats.end_time = Some(1_125);
    stats.player_count = 3;
    s.reduce(Msg::Received(PacketType::WinUpdate(
        a,
        "alice".to_string(),
        vec!["bob".to_string(), "carol".to_string()],
        stats,
    )));
    assert_eq!(s.phase, Phase::Ended);
    let end = s.end_status.as_ref().expect("standing stored");
    assert_eq!(end.winner, "alice");
    assert_eq!(end.winner_id, a);
    assert_eq!(end.placements, vec!["bob".to_string(), "carol".to_string()]);
    assert_eq!(end.statistics.duration_seconds(), Some(125));
    assert_eq!(uno_sync::placement_line(0, &end.placements[0]), "2. bob");
    assert_eq!(uno_sync::placement_line(1, &end.placements[1]), "3. carol");
}

#[test]
fn terminal_state_freezes_roster_and_hand() {
    let a = PlayerId(1);
    let b = PlayerId(2);
    let c = PlayerId(3);
    let mut s = connected_session();
    s.reduce(Msg::Received(PacketType::GameData(
        a,
        "alice".to_string(),
        vec![(b, "bob".to_string())],
    )));
    s.reduce(Msg::Received(PacketType::StatusUpdatePrivate(
        vec![card("Red", "Five")],
        card("Green", "Nine"),
    )));
    let stats = GameStatistics::new();
    let win = PacketType::WinUpdate(a, "alice".to_string(), vec!["bob".to_string()], stats);
    s.reduce(Msg::Received(win.clone()));
    let hand = s.cards.clone();
    let roster = s.connections.clone();
    let end = s.end_status.clone();

    s.reduce(Msg::Received(PacketType::StatusUpdatePrivate(vec![], card("Red", "One"))));
    s.reduce(Msg::Received(PacketType::Connect(c, "carol".to_string())));
    s.reduce(Msg::Received(PacketType::Disconnect(b, "bob".to_string())));
    s.reduce(Msg::Received(PacketType::GameData(a, "alice".to_string(), vec![
        (c, "carol".to_string()),
    ])));
    s.reduce(Msg::Received(PacketType::WinUpdate(
        b,
        "bob".to_string(),
        vec!["alice".to_string()],
        GameStatistics::new(),
    )));

    assert_eq!(s.cards, hand);
    assert_eq!(s.connections, roster);
    assert_eq!(s.end_status.as_ref().unwrap().winner, end.as_ref().unwrap().winner);
    assert_eq!(s.phase, Phase::Ended);
}

#[test]
fn host_grant_arrives_as_error_sentinel() {
    let mut s = connected_session();
    assert!(!s.host);
    s.reduce(Msg::Received(PacketType::Error(0, "you are the host".to_string())));
    assert!(s.host);
    assert_eq!(s.chat.last(), Some(&ServerMessage::Error("you are the host".to_string())));

    // an ordinary chat message never grants host privileges
    let mut t = connected_session();
    t.reduce(Msg::Received(PacketType::Message(
        "bob".to_string(),
        "you are the host".to_string(),
    )));
    assert!(!t.host);
}

#[test]
fn chat_log_appends_in_order() {
    let mut s = connected_session();
    s.reduce(Msg::Received(PacketType::Message("bob".to_string(), "hi".to_string())));
    s.reduce(Msg::Received(PacketType::Error(3, "bad move".to_string())));
    s.reduce(Msg::DecodeFailed("not json".to_string()));
    s.reduce(Msg::Error("socket hiccup".to_string()));
    assert_eq!(
        s.chat,
        vec![
            ServerMessage::Message("bob".to_string(), "hi".to_string()),
            ServerMessage::Error("bad move".to_string()),
            ServerMessage::Error("not json".to_string()),
            ServerMessage::Error("socket hiccup".to_string()),
        ]
    );
}

#[test]
fn disconnect_clears_session_but_keeps_identity() {
    let a = PlayerId(1);
    let b = PlayerId(2);
    let mut s = connected_session();
    s.reduce(Msg::UsernameInput("alice".to_string()));
    s.reduce(Msg::Received(PacketType::GameData(
        a,
        "alice".to_string(),
        vec![(b, "bob".to_string())],
    )));
    s.reduce(Msg::Received(PacketType::StatusUpdatePrivate(
        vec![card("Red", "Five")],
        card("Green", "Nine"),
    )));
    s.reduce(Msg::Disconnected);
    assert_eq!(s.phase, Phase::Disconnected);
    assert!(s.connections.is_empty());
    assert!(s.cards.is_empty());
    assert!(s.allowed_cards.is_empty());
    assert!(s.chat.is_empty());
    assert!(s.end_status.is_none());
    assert_eq!(s.connection_count, 1);
    assert_eq!(s.username, Some("alice".to_string()));
    assert_eq!(s.room_id, Some("c05554ae-b4ee-4976-ac05-97aaf3c98a24".to_string()));

    // a fresh connect restarts the machine
    let actions = s.reduce(Msg::Connect);
    assert_eq!(actions.len(), 1);
    assert_eq!(s.phase, Phase::Connecting);
}

#[test]
fn packets_are_ignored_without_a_connection() {
    let mut s = Session::new();
    s.reduce(Msg::Received(PacketType::StatusUpdatePrivate(
        vec![card("Red", "Five")],
        card("Green", "Nine"),
    )));
    assert!(s.cards.is_empty());
    assert_eq!(s.phase, Phase::Idle);

    let actions = s.reduce(Msg::DrawCard);
    assert!(actions.is_empty(), "intents emit nothing without a socket");
}

#[test]
fn start_game_sends_the_default_option() {
    let mut s = connected_session();
    let actions = s.reduce(Msg::StartGame);
    assert_eq!(actions, vec![Action::Send(PacketType::StartGame("None".to_string()))]);
}

#[test]
fn end_turn_intent_sends_end_turn() {
    let mut s = connected_session();
    let actions = s.reduce(Msg::EndTurn);
    assert_eq!(actions, vec![Action::Send(PacketType::EndTurn)]);
}

#[test]
fn unknown_participant_leave_decrements_counter_only() {
    let b = PlayerId(2);
    let mut s = connected_session();
    let before = s.connections.clone();
    s.reduce(Msg::Received(PacketType::Disconnect(b, "bob".to_string())));
    assert_eq!(s.connections, before);
    assert_eq!(s.connection_count, 0);
    // the counter never wraps below zero
    s.reduce(Msg::Received(PacketType::Disconnect(b, "bob".to_string())));
    assert_eq!(s.connection_count, 0);
}

#[test]
fn duplicate_join_keeps_first_entry() {
    let b = PlayerId(2);
    let mut s = connected_session();
    s.reduce(Msg::Received(PacketType::Connect(b, "bob".to_string())));
    s.reduce(Msg::Received(PacketType::Connect(b, "bobby".to_string())));
    assert_eq!(s.connections.len(), 1);
    assert_eq!(find_player(&s, b).unwrap().username, "bob");
    assert_eq!(find_player(&s, b).unwrap().index, 2);
    assert_eq!(s.connection_count, 3, "the counter still moved");
}

#[test]
fn private_status_rematches_allowed_set() {
    let mut s = connected_session();
    s.reduce(Msg::Received(PacketType::StatusUpdatePrivate(
        vec![card("Red", "Five"), card("Blue", "Skip")],
        card("Green", "Nine"),
    )));
    s.reduce(Msg::Received(PacketType::AllowedCardsUpdate(vec![
        card("Red", "Five"),
        card("Blue", "Skip"),
    ])));
    // the hand shrinks: the allowed set may not keep naming the lost card
    s.reduce(Msg::Received(PacketType::StatusUpdatePrivate(
        vec![card("Blue", "Skip")],
        card("Red", "Five"),
    )));
    assert_eq!(s.allowed_cards, vec![card("Blue", "Skip")]);
}
