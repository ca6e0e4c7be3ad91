use mille::cards::{Card, Rank, Suit};
use mille::tysiac::rules::new_play;
use mille::tysiac::{Action, RoundPhase};
use mille::protocol::{project_player, project_public, Lifecycle, PublicCard, RoleView};
use mille::tysiac::{game_deck, Config, EventKind, GameEvent, Match, MatchPhase, Seat};

fn game() -> Match {
    let mut game = Match::new(["Ada", "Bert", "Celina"].map(String::from), Config::default(), Seat(0));
    game.deal_ordered(12, &game_deck()).unwrap();
    game
}

fn hands(game: &Match) -> [Vec<Card>; 3] {
    let MatchPhase::Round(round) = &game.phase else {
        panic!("expected a dealt round")
    };
    round.hands.clone()
}

#[test]
fn observer_json_contains_backs_but_no_hands_or_seed() {
    let game = game();
    let view = project_public("table".into(), 1, Lifecycle::Running, Some(&game), &[true; 3]);
    let public = view.game.expect("a dealt round is public");
    assert_eq!(public.talon, vec![PublicCard::Back; 3]);
    assert!(public.open_hands.is_empty());
    assert_eq!(view.room_name, "table");
    assert!(view.players.iter().all(|p| p.card_count == 7));
}

#[test]
fn player_projection_contains_only_their_hand() {
    let game = game();
    let RoleView::Player { own_hand, public, .. } =
        project_player("table".into(), 1, Lifecycle::Running, Some(&game), &[true; 3], Seat(1))
    else {
        panic!()
    };
    let dealt = hands(&game);
    assert_eq!(own_hand, dealt[1]);
    let shown = public.game.unwrap();
    assert!(shown.open_hands.is_empty());
    for card in &dealt[0] {
        assert!(!shown.talon.contains(&PublicCard::Face(*card)));
        assert!(!shown.current_trick.iter().any(|p| p.card == *card));
    }
}

#[test]
fn private_transfer_events_are_not_in_public_history() {
    let mut game = game();
    game.events.push(GameEvent {
        kind: EventKind::Transfer,
        message: "seat 1 gives A♥ to seat 2".into(),
    });
    let view = project_public("table".into(), 1, Lifecycle::Running, Some(&game), &[false; 3]);
    assert!(view.history.iter().all(|event| event.kind != EventKind::Transfer));
    assert!(game.events.iter().any(|event| event.kind == EventKind::Transfer));
}

#[test]
fn lobby_view_has_no_game_and_default_config() {
    let view = project_public("lobby".into(), 0, Lifecycle::Lobby, None, &[false; 3]);
    assert!(view.game.is_none());
    assert!(view.players.is_empty());
    assert!(view.history.is_empty());
    assert_eq!(view.config, Config::default());
    assert_eq!(view.presentation.stage, "ready");
    assert_eq!(view.presentation.visible_deal_cards, 24);
}

#[test]
fn projection_reports_phase_and_connections() {
    let game = game();
    let view = project_public("table".into(), 4, Lifecycle::Running, Some(&game), &[true, false, true]);
    assert_eq!(view.revision, 4);
    assert_eq!(view.game.unwrap().phase, "auction");
    let connected: Vec<bool> = view.players.iter().map(|p| p.connected).collect();
    assert_eq!(connected, vec![true, false, true]);
    let names: Vec<&str> = view.players.iter().map(|p| p.name.as_str()).collect();
    assert_eq!(names, vec!["Ada", "Bert", "Celina"]);
}

#[test]
fn player_outside_a_running_match_has_no_actions() {
    let game = game();
    let RoleView::Player { legal_actions, .. } =
        project_player("table".into(), 1, Lifecycle::Paused, Some(&game), &[true; 3], Seat(1))
    else {
        panic!()
    };
    assert!(legal_actions.is_empty());
    let RoleView::Player { legal_actions, .. } =
        project_player("table".into(), 1, Lifecycle::Running, Some(&game), &[true; 3], Seat(2))
    else {
        panic!()
    };
    assert!(!legal_actions.is_empty());
}

#[test]
fn a_rejected_claim_shows_only_the_claimant_hand() {
    let mut game = game();
    let MatchPhase::Round(round) = &mut game.phase else { panic!() };
    round.hands = [
        vec![Card { rank: Rank::Nine, suit: Suit::Clubs }],
        vec![Card { rank: Rank::Ace, suit: Suit::Hearts }],
        vec![Card { rank: Rank::Ten, suit: Suit::Spades }],
    ];
    round.phase = RoundPhase::Play(new_play(Seat(1), 100));
    game.apply(Seat(1), Action::ClaimRemaining).unwrap();
    game.apply(Seat(2), Action::VoteOnClaim { accept: false }).unwrap();
    let view = project_public("table".into(), 3, Lifecycle::Running, Some(&game), &[true; 3]);
    let shown = view.game.unwrap().open_hands;
    assert_eq!(shown, vec![(Seat(1), vec![Card { rank: Rank::Ace, suit: Suit::Hearts }])]);
}
