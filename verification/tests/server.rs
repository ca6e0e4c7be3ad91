use std::collections::VecDeque;

use mille::protocol::{AdminAction, ClientMessage, Lifecycle, RoleView, ServerMessage};
use mille::server::audit::{published_round_audit_message, shuffle_audit_detail};
use mille::server::commands::{
    apply_player_action, connect_player, disconnect_player, room_action, room_admin, socket_reply,
};
use mille::server::lobby::{create_room, created_room, join_response, join_room, leave_room, room_summary};
use mille::server::presentation::{deal_presentation, presentation_delay, update_presentation};
use mille::server::room::{
    advance_round, check_command, make_view, public_view, publish_round_audits, remember_command,
    round_finished, start_match,
};
use mille::server::{
    escaped, log_line, now_ms, parse_seed, time_seed, validate_identifier, validate_secret,
    Presentation, PresentationStage, Room, SeatIdentity,
};
use mille::tysiac::{Action, Config, EventKind, GameEvent, MatchPhase, RoundPhase, Seat};

fn room() -> Room {
    Room {
        name: "test-table".into(),
        player_password: "players".into(),
        referee_password: "referee".into(),
        base_seed: 0x1234,
        match_index: 0,
        config: Config::default(),
        seats: ["Ada", "Bert", "Celina"]
            .map(|name| SeatIdentity { name: name.into(), token: format!("token-{name}") })
            .to_vec(),
        lifecycle: Lifecycle::Lobby,
        revision: 0,
        game: None,
        round_audits: Vec::new(),
        presentation: Presentation::default(),
        recent_commands: VecDeque::new(),
        connections: [0; 3],
        connection_generation: [0; 3],
        deleted: false,
    }
}

fn turn_of(room: &Room) -> Seat {
    let MatchPhase::Round(round) = &room.game.as_ref().unwrap().phase else { panic!() };
    let RoundPhase::Auction(auction) = &round.phase else { panic!() };
    auction.turn
}

fn token_of(seat: Seat) -> String {
    format!("token-{}", ["Ada", "Bert", "Celina"][seat.index()])
}

fn lobby() -> Room {
    let mut room = room();
    room.seats.clear();
    room
}

#[test]
fn parses_decimal_and_hex_seeds_without_guessing() {
    assert_eq!(parse_seed("42").ok(), Some(42));
    assert_eq!(parse_seed("0x2a").ok(), Some(42));
    assert!(parse_seed("-1").is_err());
    assert!(parse_seed("2a").is_err());
}

#[test]
fn seed_parsing_edges() {
    assert_eq!(parse_seed("+7").ok(), Some(7));
    assert_eq!(parse_seed("0X2A").ok(), Some(42));
    assert_eq!(parse_seed("18446744073709551615").ok(), Some(u64::MAX));
    let overflow = parse_seed("18446744073709551616").unwrap_err();
    assert_eq!(overflow.status, 400);
    assert_eq!(overflow.body.code, "invalid_seed");
    assert!(parse_seed("").is_err());
    assert!(parse_seed("0x").is_err());
    assert!(parse_seed("+").is_err());
}

#[test]
fn start_creates_reproducible_audit_and_an_eight_second_gate() {
    let mut first = room();
    let mut second = room();
    start_match(&mut first, 1_000).unwrap();
    start_match(&mut second, 1_000).unwrap();
    assert_eq!(first.round_audits, second.round_audits);
    assert_eq!(first.round_audits[0].deal_order.len(), 24);
    assert_eq!(first.round_audits[0].four_nines_reshuffles, 0);
    assert_eq!(first.presentation.stage, PresentationStage::Shuffling);
    assert!(first.presentation.gate_until_ms >= first.presentation.deal_started_ms + 6_000);
    let zero_retry = deal_presentation(100, 0);
    assert_eq!(zero_retry.deal_started_ms, 2_100);
    assert_eq!(zero_retry.gate_until_ms, 8_100);
    let MatchPhase::Round(round) = &first.game.as_ref().unwrap().phase else {
        panic!()
    };
    assert_eq!(round.hands.each_ref().map(Vec::len), [7, 7, 7]);
    assert_eq!(round.talon.len(), 3);
    assert_eq!(first.lifecycle, Lifecycle::Running);
}

#[test]
fn retry_is_audited_published_and_given_extra_presentation_time() {
    let mut room = room();
    room.base_seed = 218;
    start_match(&mut room, 1_000).unwrap();

    let audit = room.round_audits[0].clone();
    assert_eq!(audit.derived_seed, 8_934_752_883_078_774_011);
    assert_eq!(audit.four_nines_reshuffles, 1);
    assert_eq!(audit.deal_order.len(), 24);
    assert_eq!(
        room.game.as_ref().unwrap().events[0].message,
        "1 invalid all-four-nines deal was reshuffled"
    );

    let one_retry = deal_presentation(100, audit.four_nines_reshuffles);
    assert_eq!(one_retry.deal_started_ms, 4_100);
    assert_eq!(one_retry.gate_until_ms, 10_100);
    let saturated = deal_presentation(u64::MAX - 1_000, u64::MAX);
    assert_eq!(saturated.deal_started_ms, u64::MAX);
    assert_eq!(saturated.gate_until_ms, u64::MAX);

    let stdout = shuffle_audit_detail(&audit);
    assert!(stdout.contains("four_nines_reshuffles=1"));
    assert!(stdout.contains("reshuffle_reason=initial_hand_contained_all_four_nines"));
    assert!(stdout.contains("accepted_deal_order="));

    let published = published_round_audit_message(&audit);
    publish_round_audits(&mut room);
    assert_eq!(room.game.as_ref().unwrap().events.last().unwrap().message, published);
    assert!(published.contains("1 deal was reshuffled because an initial hand contained all four nines"));
    assert!(published.contains("accepted deal"));
}

#[test]
fn audit_lines_are_exact() {
    let mut room = room();
    start_match(&mut room, 0).unwrap();
    let audit = room.round_audits[0].clone();
    let cards: Vec<String> = audit.deal_order.iter().map(|c| c.to_string()).collect();
    assert_eq!(
        shuffle_audit_detail(&audit),
        format!(
            "match=0 round=0 derived_seed={} four_nines_reshuffles=0 reshuffle_reason=none accepted_deal_order={}",
            audit.derived_seed,
            cards.join(" ")
        )
    );
    assert_eq!(
        published_round_audit_message(&audit),
        format!(
            "published match 0 round 0: seed {}, no all-four-nines reshuffle was required; accepted deal {}",
            audit.derived_seed,
            cards.join(" ")
        )
    );
    let mut twice = audit.clone();
    twice.four_nines_reshuffles = 2;
    assert!(published_round_audit_message(&twice)
        .contains("2 deals were reshuffled because an initial hand contained all four nines"));
}

#[test]
fn start_needs_three_seats() {
    let mut room = room();
    room.seats.pop();
    room.revision = 5;
    let error = start_match(&mut room, 0).unwrap_err();
    assert_eq!(error.status, 409);
    assert_eq!(error.body.code, "seats_missing");
    assert_eq!(error.body.current_revision, Some(5));
    assert!(room.game.is_none());
    assert_eq!(room.lifecycle, Lifecycle::Lobby);
}

#[test]
fn observer_projection_omits_base_seed_and_hidden_hands() {
    let mut room = room();
    start_match(&mut room, 1_000).unwrap();
    let view = public_view(&room, 1_500);
    assert!(view.game.as_ref().unwrap().open_hands.is_empty());
    assert!(view.presentation.input_blocked);
    let referee = make_view(&room, Some("referee"), None, Some("referee"), 1_500).unwrap();
    let RoleView::Referee { base_seed, state, .. } = referee else { panic!() };
    assert_eq!(base_seed, 4660);
    let MatchPhase::Round(round) = &state.phase else { panic!() };
    assert_eq!(round.hands.each_ref().map(Vec::len), [7, 7, 7]);
}

#[test]
fn revision_and_command_id_make_retries_idempotent() {
    let mut room = room();
    room.revision = 7;
    assert!(check_command(&room, "abc", 6).is_err());
    assert!(check_command(&room, "abc", 7).is_ok());
    remember_command(&mut room, "abc".into());
    assert!(check_command(&room, "abc", 1).is_ok());
}

#[test]
fn command_ids_are_bounded_and_memory_keeps_the_newest() {
    let room = room();
    assert_eq!(check_command(&room, "", 0).unwrap_err().body.code, "invalid_command_id");
    assert_eq!(check_command(&room, &"x".repeat(129), 0).unwrap_err().status, 400);
    assert!(check_command(&room, &"x".repeat(128), 0).is_ok());
    let mut room = room;
    for i in 0..300 {
        remember_command(&mut room, format!("c{i}"));
    }
    assert_eq!(room.recent_commands.len(), 256);
    assert_eq!(room.recent_commands.front().unwrap(), "c44");
    assert_eq!(room.recent_commands.back().unwrap(), "c299");
}

#[test]
fn one_line_log_escaping_prevents_injected_lines() {
    assert_eq!(escaped("a\nb\rc\td\\e"), "a\\nb\\rc\\td\\\\e");
}

#[test]
fn log_lines_escape_room_and_detail() {
    assert_eq!(log_line("a\nb", "JOIN", "x\ty"), "room=a\\nb JOIN x\\ty");
}

#[test]
fn names_and_secrets_are_validated() {
    assert!(validate_identifier("Ada", "player name").is_ok());
    let blank = validate_identifier("   ", "player name").unwrap_err();
    assert_eq!(blank.body.code, "invalid_identifier");
    assert_eq!(blank.body.message, "player name must contain 1 to 48 printable characters");
    assert!(validate_identifier("a/b", "room name").is_err());
    assert!(validate_identifier(&"é".repeat(24), "room name").is_ok());
    assert!(validate_identifier(&"é".repeat(25), "room name").is_err());
    assert!(validate_secret("s3cret", "player password").is_ok());
    let newline = validate_secret("a\nb", "player password").unwrap_err();
    assert_eq!(newline.body.message, "player password must contain 1 to 128 single-line characters");
    assert!(validate_secret("", "player password").is_err());
}

#[test]
fn match_does_not_start_before_three_players_join() {
    let mut room = lobby();
    join_room(&mut room, "Ada", "players", 0).unwrap();
    join_room(&mut room, "Bert", "players", 0).unwrap();
    assert_eq!(room.seats.len(), 2);
    assert_eq!(room.lifecycle, Lifecycle::Lobby);
    assert!(room.game.is_none());
    assert_eq!(room.revision, 2);
}

#[test]
fn third_join_atomically_starts_and_persists_the_match() {
    let mut room = lobby();
    join_room(&mut room, "Ada", "players", 0).unwrap();
    join_room(&mut room, "Bert", "players", 0).unwrap();
    let outcome = join_room(&mut room, "Celina", "players", 0).unwrap();
    let joined = outcome.joined;
    assert!(outcome.started);
    assert_eq!(joined.seat, Seat(2));
    assert_eq!(joined.name, "Celina");
    assert!(!joined.token.is_empty());
    assert_eq!(room.seats.len(), 3);
    assert_eq!(room.lifecycle, Lifecycle::Running);
    assert!(room.game.is_some());
    assert_eq!(room.revision, 3);
    assert_eq!(room.round_audits.len(), 1);
    assert_eq!(room.seats[2].token, joined.token);
}

#[test]
fn joining_refusals_and_reconnects() {
    let mut room = lobby();
    let ada = join_room(&mut room, "Ada", "players", 0).unwrap().joined;
    assert_eq!(ada.token.len(), 32);
    assert!(ada.token.chars().all(|c| c.is_ascii_hexdigit() && !c.is_ascii_uppercase()));
    assert_eq!(join_room(&mut room, "Eve", "wrong", 0).unwrap_err().status, 401);
    assert_eq!(join_room(&mut room, "Ada", "players", 0).unwrap_err().body.code, "name_in_use");
    assert_eq!(join_room(&mut room, "", "players", 0).unwrap_err().body.code, "invalid_identifier");
    let again = join_room(&mut room, "Anything", &ada.token, 0).unwrap();
    assert!(!again.new_seat);
    assert_eq!(again.joined.seat, Seat(0));
    assert_eq!(room.revision, 1);
    let mut full = self::room();
    assert_eq!(join_room(&mut full, "Dora", "players", 0).unwrap_err().body.code, "room_full");
    full.lifecycle = Lifecycle::Running;
    assert_eq!(join_room(&mut full, "Dora", "players", 0).unwrap_err().body.code, "match_started");
    full.deleted = true;
    assert_eq!(join_room(&mut full, "Dora", "players", 0).unwrap_err().status, 404);
}

#[test]
fn join_response_encodes_the_player_address() {
    let seat = SeatIdentity { name: "Ada Lovelace/ß".into(), token: "t".into() };
    let joined = join_response("table", 1, &seat);
    assert_eq!(joined.seat, Seat(1));
    assert_eq!(joined.player_url, "/room/table/player/2/Ada%20Lovelace%2F%C3%9F");
}

#[test]
fn leaving_frees_a_lobby_seat_only() {
    let mut room = room();
    let (index, departed) = leave_room(&mut room, "token-Bert").unwrap();
    assert_eq!(index, 1);
    assert_eq!(departed.name, "Bert");
    assert_eq!(room.seats.len(), 2);
    assert_eq!(room.revision, 1);
    assert_eq!(leave_room(&mut room, "token-Bert").unwrap_err().status, 401);
    room.lifecycle = Lifecycle::Running;
    assert_eq!(leave_room(&mut room, "token-Ada").unwrap_err().body.code, "match_started");
}

#[test]
fn referee_credential_is_generated_when_absent_or_empty_and_honors_explicit_input() {
    let empty = create_room("empty".into(), "players".into(), String::new(), None, None, 9).unwrap();
    let other = create_room("other".into(), "players".into(), String::new(), None, None, 9).unwrap();
    let explicit = create_room(
        "explicit".into(),
        "players".into(),
        "chosen-referee-secret".into(),
        None,
        None,
        9,
    )
    .unwrap();
    for generated in [&empty.referee_password, &other.referee_password] {
        assert_eq!(generated.len(), 32);
        assert!(generated.chars().all(|c| c.is_ascii_hexdigit()));
    }
    assert_ne!(empty.referee_password, other.referee_password);
    assert_eq!(explicit.referee_password, "chosen-referee-secret");
    assert_eq!(explicit.base_seed, 9);
}

#[test]
fn room_creation_validates_config_and_seed() {
    let bad = Config { target_score: 1_000, lock_score: 1_000, ..Config::default() };
    let error = create_room("t".into(), "p".into(), String::new(), None, Some(bad), 0).unwrap_err();
    assert_eq!(error.body.code, "invalid_config");
    let error = create_room("t".into(), "p".into(), String::new(), Some("x".into()), None, 0).unwrap_err();
    assert_eq!(error.body.code, "invalid_seed");
    let room = create_room("t".into(), "p".into(), "r".into(), Some("0x10".into()), None, 0).unwrap();
    assert_eq!(room.base_seed, 16);
    assert_eq!(room.lifecycle, Lifecycle::Lobby);
    let created = created_room(&room);
    assert_eq!(created.observer_url, "/room/t");
    assert_eq!(created.referee_url, "/room/t/referee");
    let summary = room_summary(&self::room());
    assert_eq!(summary.seats, vec!["Ada", "Bert", "Celina"]);
}

#[test]
fn presentation_advances_with_the_clock() {
    let mut p = deal_presentation(0, 0);
    update_presentation(&mut p, 1_000);
    assert_eq!(p.stage, PresentationStage::Shuffling);
    update_presentation(&mut p, 2_000 + 250 * 5 + 10);
    assert_eq!(p.stage, PresentationStage::Dealing);
    assert_eq!(p.visible_deal_cards, 5);
    update_presentation(&mut p, 8_000);
    assert_eq!(p.stage, PresentationStage::Ready);
    assert_eq!(p.visible_deal_cards, 24);
    let trick = [GameEvent { kind: EventKind::Trick, message: "t".into() }];
    assert_eq!(presentation_delay(&Action::Pass, &trick), 1_200);
    assert_eq!(presentation_delay(&Action::Pass, &[]), 350);
    assert_eq!(presentation_delay(&Action::ContinueAfterTalon, &[]), 1_000);
    assert_eq!(presentation_delay(&Action::Surrender, &[]), 300);
}

#[test]
fn player_actions_wait_for_the_table_and_then_apply() {
    let mut room = room();
    start_match(&mut room, 0).unwrap();
    let gate = room.presentation.gate_until_ms;
    let turn = turn_of(&room);
    let idle = Seat((turn.0 + 1) % 3);
    let early = apply_player_action(&mut room, turn, "c1".into(), 0, Action::Pass, gate - 1).unwrap_err();
    assert_eq!(early.body.code, "presentation_wait");
    assert_eq!(room.revision, 0);
    let stale = apply_player_action(&mut room, turn, "c1".into(), 3, Action::Pass, gate).unwrap_err();
    assert_eq!(stale.body.code, "revision_conflict");
    let refused = apply_player_action(&mut room, idle, "c1".into(), 0, Action::Pass, gate).unwrap_err();
    assert_eq!(refused.body.code, "rule_violation");
    assert_eq!(refused.body.message, "it is not that player's turn");
    let ServerMessage::Updated { revision, events, .. } =
        apply_player_action(&mut room, turn, "c1".into(), 0, Action::Pass, gate).unwrap()
    else {
        panic!()
    };
    assert_eq!(revision, 1);
    assert!(!events.is_empty());
    assert_eq!(room.presentation.gate_until_ms, gate + 350);
    let retry = apply_player_action(&mut room, turn, "c1".into(), 0, Action::Pass, gate).unwrap();
    assert!(matches!(retry, ServerMessage::Snapshot(_)));
    assert_eq!(room.revision, 1);
}

#[test]
fn http_actions_need_the_seat_token_and_no_live_socket() {
    let mut room = room();
    start_match(&mut room, 0).unwrap();
    let gate = room.presentation.gate_until_ms;
    let turn = turn_of(&room);
    let token = token_of(turn);
    let wrong = room_action(&mut room, turn, "nope", "c".into(), 0, Action::Pass, gate).unwrap_err();
    assert_eq!(wrong.status, 401);
    let bad_seat = room_action(&mut room, Seat(3), "nope", "c".into(), 0, Action::Pass, gate).unwrap_err();
    assert_eq!(bad_seat.body.code, "invalid_seat");
    let generation = connect_player(&mut room, turn);
    assert_eq!(generation, 1);
    let socket = room_action(&mut room, turn, &token, "c".into(), 0, Action::Pass, gate).unwrap_err();
    assert_eq!(socket.body.code, "use_controlling_socket");
    disconnect_player(&mut room, turn);
    assert!(room_action(&mut room, turn, &token, "c".into(), 0, Action::Pass, gate).is_ok());
}

#[test]
fn socket_messages_follow_the_controlling_connection() {
    let mut room = room();
    start_match(&mut room, 0).unwrap();
    let gate = room.presentation.gate_until_ms;
    let turn = turn_of(&room);
    let token = token_of(turn);
    let first = connect_player(&mut room, turn);
    let second = connect_player(&mut room, turn);
    assert_eq!(second, first + 1);
    let pong = socket_reply(&mut room, false, None, 0, None, Some(ClientMessage::Ping), gate).unwrap();
    assert!(matches!(pong, ServerMessage::Pong));
    let act = || ClientMessage::Act { command_id: "c".into(), expected_revision: 0, action: Action::Pass };
    let stale = socket_reply(&mut room, true, Some(turn), first, Some(&token), Some(act()), gate).unwrap();
    let ServerMessage::Error(error) = stale else { panic!() };
    assert_eq!(error.code, "superseded_connection");
    let observer = socket_reply(&mut room, false, None, 0, None, Some(act()), gate).unwrap();
    let ServerMessage::Error(error) = observer else { panic!() };
    assert_eq!(error.code, "invalid_message");
    let missing = socket_reply(&mut room, true, Some(turn), second, None, Some(act()), gate).unwrap();
    let ServerMessage::Error(error) = missing else { panic!() };
    assert_eq!(error.code, "unauthorized");
    let done = socket_reply(&mut room, true, Some(turn), second, Some(&token), Some(act()), gate).unwrap();
    assert!(matches!(done, ServerMessage::Updated { revision: 1, .. }));
    assert!(socket_reply(&mut room, true, Some(turn), second, None, None, gate).is_some());
}

#[test]
fn referee_controls_the_lifecycle() {
    let mut room = room();
    let wrong = room_admin(&mut room, "nope", "a".into(), 0, AdminAction::Start, 0).unwrap_err();
    assert_eq!(wrong.status, 401);
    let illegal = room_admin(&mut room, "referee", "a".into(), 0, AdminAction::Pause, 0).unwrap_err();
    assert_eq!(illegal.body.code, "illegal_admin_action");
    room_admin(&mut room, "referee", "a".into(), 0, AdminAction::Start, 0).unwrap();
    assert_eq!(room.lifecycle, Lifecycle::Running);
    assert_eq!(room.revision, 1);
    room_admin(&mut room, "referee", "b".into(), 1, AdminAction::Pause, 0).unwrap();
    assert_eq!(room.lifecycle, Lifecycle::Paused);
    let again = room_admin(&mut room, "referee", "b".into(), 9, AdminAction::Pause, 0).unwrap();
    assert!(matches!(again, ServerMessage::Snapshot(_)));
    room_admin(&mut room, "referee", "c".into(), 2, AdminAction::Abort, 0).unwrap();
    assert_eq!(room.lifecycle, Lifecycle::Aborted);
    room_admin(&mut room, "referee", "d".into(), 3, AdminAction::Rematch, 0).unwrap();
    assert_eq!(room.match_index, 1);
    assert_eq!(room.lifecycle, Lifecycle::Running);
    assert_eq!(room.round_audits[0].match_index, 1);
    room_admin(&mut room, "referee", "e".into(), 4, AdminAction::AdvancePresentation, 0).unwrap();
    assert_eq!(room.presentation, Presentation::default());
}

#[test]
fn views_by_role() {
    let room = room();
    assert!(matches!(make_view(&room, None, None, None, 0).unwrap(), RoleView::Observer(_)));
    assert_eq!(make_view(&room, Some("player"), None, None, 0).unwrap_err().body.code, "seat_required");
    assert_eq!(make_view(&room, Some("player"), Some(0), Some("bad"), 0).unwrap_err().status, 401);
    assert!(matches!(
        make_view(&room, Some("player"), Some(0), Some("token-Ada"), 0).unwrap(),
        RoleView::Player { seat: Seat(0), .. }
    ));
    assert_eq!(make_view(&room, Some("referee"), None, None, 0).unwrap_err().status, 401);
    assert_eq!(make_view(&room, Some("judge"), None, None, 0).unwrap_err().body.code, "unknown_role");
    let RoleView::Observer(view) = make_view(&room, None, None, None, 0).unwrap() else { panic!() };
    let names: Vec<&str> = view.players.iter().map(|p| p.name.as_str()).collect();
    assert_eq!(names, vec!["Ada", "Bert", "Celina"]);
}

#[test]
fn next_round_is_only_dealt_after_a_finished_round() {
    let mut room = room();
    start_match(&mut room, 0).unwrap();
    assert!(!round_finished(room.game.as_ref().unwrap()));
    assert!(!advance_round(&mut room, 0, 10_000));
    assert_eq!(room.revision, 0);
    assert!(!advance_round(&mut room, 5, 10_000));
}

#[test]
fn clock_values() {
    assert_eq!(time_seed(1, 5), 4_294_967_301);
    assert_eq!(time_seed(0x1_0000_0000, 0), 1);
    assert_eq!(now_ms(2, 345), 2_345);
    assert_eq!(now_ms(u64::MAX / 1_000 + 1, 0), u64::MAX);
}

#[test]
fn room_deletion_rejects_non_loopback_peers_without_changing_state() {
    let mut room = room();
    let error = mille::server::lobby::delete_room(&mut room, false).unwrap_err();
    assert_eq!(error.status, 403);
    assert_eq!(error.body.code, "forbidden");
    assert!(!room.deleted);
}

#[test]
fn loopback_deletion_marks_the_room_deleted() {
    let mut room = room();
    room.connections = [1, 0, 2];
    assert_eq!(mille::server::lobby::delete_room(&mut room, true).unwrap(), 3);
    assert!(room.deleted);
    assert_eq!(join_room(&mut room, "Dora", "players", 0).unwrap_err().status, 404);
    assert_eq!(leave_room(&mut room, "token-Ada").unwrap_err().body.code, "room_not_found");
}
