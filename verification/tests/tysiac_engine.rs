use std::collections::BTreeSet;

use mille::cards::{Card, Deck, PlayedCard, Rank, Suit};
use mille::tysiac::challenge::validate_proof;
use mille::tysiac::rules::{distribute_deal, has_all_nines, new_play, suppress_locked_defenders};
use mille::tysiac::seeding::deal_shuffle_seed;
use mille::tysiac::{
    card_points, game_deck, game_rank_strength, legal_cards, marriage_value, round_to_ten,
    support_ceiling, Action, ApplyOutcome, Auction, Config, Contract, EventKind, GameEvent, Gift,
    Match, MatchPhase, Round, RoundPhase, RoundResult, RuleError, Seat, SeededDeal,
    TalonVisibility, Transfer,
};

fn card(rank: Rank, suit: Suit) -> Card {
    Card { rank, suit }
}

fn names() -> [String; 3] {
    ["Ada", "Bert", "Celina"].map(String::from)
}

fn dealt() -> Match {
    let mut game = Match::new(names(), Config::default(), Seat(0));
    game.deal_ordered(7, &game_deck()).unwrap();
    game
}

fn active_round(game: &Match) -> &Round {
    let MatchPhase::Round(round) = &game.phase else {
        panic!("test expected an active round")
    };
    round
}

fn shuffled_order(seed: u64, attempt: u64) -> Vec<Card> {
    let mut deck = Deck::from_cards(game_deck()).unwrap();
    deck.shuffle_with_seed(deal_shuffle_seed(seed, attempt));
    deck.cards().to_vec()
}

fn order_has_forbidden_hand(order: &[Card]) -> bool {
    distribute_deal(order).0.iter().any(|hand| has_all_nines(hand))
}

#[test]
fn scoring_table_is_exact_and_each_suit_has_thirty() {
    assert_eq!(game_rank_strength(Rank::Nine), 0);
    assert!(game_rank_strength(Rank::Ace) > game_rank_strength(Rank::Ten));
    for suit in [Suit::Clubs, Suit::Diamonds, Suit::Hearts, Suit::Spades] {
        assert_eq!(
            game_deck()
                .into_iter()
                .filter(|card| card.suit == suit)
                .map(card_points)
                .sum::<u16>(),
            30
        );
    }
    assert_eq!(game_deck().into_iter().map(card_points).sum::<u16>(), 120);
}

#[test]
fn marriage_values_and_support_are_exact() {
    let hand = vec![
        card(Rank::Queen, Suit::Spades),
        card(Rank::King, Suit::Spades),
        card(Rank::Queen, Suit::Hearts),
        card(Rank::King, Suit::Hearts),
    ];
    assert_eq!(marriage_value(Suit::Spades), 40);
    assert_eq!(marriage_value(Suit::Clubs), 60);
    assert_eq!(marriage_value(Suit::Diamonds), 80);
    assert_eq!(marriage_value(Suit::Hearts), 100);
    assert_eq!(support_ceiling(&hand), 260);
}

#[test]
fn interleaved_deal_places_three_specific_talon_cards() {
    let game = dealt();
    let MatchPhase::Round(round) = game.phase else {
        panic!()
    };
    assert_eq!(round.talon, vec![game_deck()[2], game_deck()[6], game_deck()[10]]);
    assert_eq!(round.hands.iter().map(Vec::len).collect::<Vec<_>>(), [7, 7, 7]);
    let RoundPhase::Auction(auction) = round.phase else {
        panic!()
    };
    assert_eq!(auction.opener, Seat(1));
    assert_eq!(auction.highest_bid, 100);
    assert_eq!(auction.turn, Seat(2));
}

#[test]
fn auction_is_exact_steps_and_pass_is_permanent() {
    let mut game = dealt();
    assert_eq!(game.apply(Seat(1), Action::Bid { points: 110 }), Err(RuleError::NotYourTurn));
    assert_eq!(game.apply(Seat(2), Action::Bid { points: 120 }), Err(RuleError::InvalidBidStep));
    game.apply(Seat(2), Action::Bid { points: 110 }).unwrap();
    game.apply(Seat(0), Action::Pass).unwrap();
    game.apply(Seat(1), Action::Pass).unwrap();
    let RoundPhase::Talon(talon) = &active_round(&game).phase else {
        panic!()
    };
    assert_eq!(talon.contractor, Seat(2));
    assert_eq!(talon.auction_bid, 110);
}

#[test]
fn bids_above_support_are_rejected() {
    let mut game = dealt();
    assert_eq!(
        game.apply(Seat(2), Action::Bid { points: 110 }),
        Ok(ApplyOutcome {
            events: vec![GameEvent { kind: EventKind::Auction, message: "seat 3 bids 110".into() }]
        })
    );
    game.apply(Seat(0), Action::Bid { points: 120 }).unwrap();
    assert_eq!(game.apply(Seat(1), Action::Bid { points: 130 }), Err(RuleError::UnsupportedPoints));
}

#[test]
fn proof_is_sequential_and_smallest_sufficient() {
    let hand = vec![
        card(Rank::Queen, Suit::Clubs),
        card(Rank::King, Suit::Clubs),
        card(Rank::Queen, Suit::Hearts),
        card(Rank::King, Suit::Hearts),
    ];
    assert_eq!(validate_proof(&hand, 180, &[Suit::Clubs]), Ok(()));
    assert_eq!(validate_proof(&hand, 180, &[Suit::Hearts]), Ok(()));
    assert_eq!(
        validate_proof(&hand, 180, &[Suit::Clubs, Suit::Hearts]),
        Err(RuleError::InvalidProof)
    );
    assert_eq!(validate_proof(&hand, 230, &[Suit::Hearts]), Err(RuleError::InvalidProof));
    assert_eq!(validate_proof(&hand, 230, &[Suit::Clubs, Suit::Hearts]), Ok(()));

    let only_small_marriages = vec![
        card(Rank::Queen, Suit::Clubs),
        card(Rank::King, Suit::Clubs),
        card(Rank::Queen, Suit::Spades),
        card(Rank::King, Suit::Spades),
    ];
    assert_eq!(
        validate_proof(&only_small_marriages, 190, &[Suit::Clubs, Suit::Spades]),
        Ok(())
    );
}

#[test]
fn legal_play_follows_and_beats_only_when_led_suit_is_winning() {
    let hand = vec![
        card(Rank::Nine, Suit::Clubs),
        card(Rank::Ace, Suit::Clubs),
        card(Rank::Ace, Suit::Hearts),
    ];
    let trick = vec![PlayedCard { player: Seat(0), card: card(Rank::King, Suit::Clubs) }];
    assert_eq!(legal_cards(&hand, &trick, None), vec![card(Rank::Ace, Suit::Clubs)]);

    let trumped = vec![
        PlayedCard { player: Seat(0), card: card(Rank::King, Suit::Clubs) },
        PlayedCard { player: Seat(1), card: card(Rank::Nine, Suit::Hearts) },
    ];
    assert_eq!(
        legal_cards(&hand, &trumped, Some(Suit::Hearts)),
        vec![card(Rank::Nine, Suit::Clubs), card(Rank::Ace, Suit::Clubs)]
    );
}

#[test]
fn void_player_may_discard_without_trumping() {
    let hand = vec![card(Rank::Nine, Suit::Spades), card(Rank::Ace, Suit::Hearts)];
    let trick = vec![PlayedCard { player: Seat(0), card: card(Rank::Ace, Suit::Clubs) }];
    assert_eq!(legal_cards(&hand, &trick, Some(Suit::Hearts)), hand);
}

#[test]
fn rounding_uses_five_up() {
    assert_eq!(round_to_ten(44), 40);
    assert_eq!(round_to_ten(45), 50);
    assert_eq!(round_to_ten(46), 50);
}

#[test]
fn first_surrender_is_free_then_costs_bid_and_dealer_rotates() {
    let mut game = dealt();
    game.apply(Seat(2), Action::Pass).unwrap();
    game.apply(Seat(0), Action::Pass).unwrap();
    game.apply(Seat(1), Action::Surrender).unwrap();
    let RoundPhase::RoundFinished(result) = &active_round(&game).phase else {
        panic!()
    };
    assert_eq!(result.deltas, [60, 0, 60]);
    game.acknowledge_round().unwrap();
    assert_eq!(game.dealer, Seat(1));

    game.deal_ordered(8, &game_deck()).unwrap();
    game.apply(Seat(0), Action::Pass).unwrap();
    game.apply(Seat(1), Action::Pass).unwrap();
    game.apply(Seat(2), Action::Surrender).unwrap();
    let RoundPhase::RoundFinished(result) = &active_round(&game).phase else {
        panic!()
    };
    assert_eq!(result.deltas, [60, 60, 0]);
}

#[test]
fn claim_rejection_opens_claimant_hand_and_resumes_same_lead() {
    let mut game = dealt();
    let MatchPhase::Round(round) = &mut game.phase else {
        panic!()
    };
    round.hands = std::array::from_fn(|_| vec![card(Rank::Nine, Suit::Clubs)]);
    round.phase = RoundPhase::Play(new_play(Seat(1), 100));
    game.apply(Seat(1), Action::ClaimRemaining).unwrap();
    game.apply(Seat(2), Action::VoteOnClaim { accept: false }).unwrap();
    let RoundPhase::Play(play) = &active_round(&game).phase else {
        panic!()
    };
    assert!(play.open_hands[Seat(1).index()]);
    assert_eq!(play.turn, Seat(1));
}

#[test]
fn accepted_claim_awards_every_unplayed_card_without_new_marriages() {
    let mut game = dealt();
    let MatchPhase::Round(round) = &mut game.phase else {
        panic!()
    };
    round.hands = [
        vec![card(Rank::Queen, Suit::Hearts)],
        vec![card(Rank::King, Suit::Hearts)],
        vec![card(Rank::Ace, Suit::Clubs)],
    ];
    round.phase = RoundPhase::Play(new_play(Seat(0), 100));
    game.apply(Seat(0), Action::ClaimRemaining).unwrap();
    game.apply(Seat(1), Action::VoteOnClaim { accept: true }).unwrap();
    game.apply(Seat(2), Action::VoteOnClaim { accept: true }).unwrap();
    let RoundPhase::RoundFinished(result) = &active_round(&game).phase else {
        panic!()
    };
    assert_eq!(result.raw_points[0], 18);
    assert_eq!(result.deltas[0], -100);
}

#[test]
fn locked_defender_cannot_gain_but_can_lose_as_contractor() {
    let mut game = Match::new(names(), Config::default(), Seat(0));
    game.players[0].score = 900;
    game.deal_ordered(1, &game_deck()).unwrap();
    let MatchPhase::Round(round) = &mut game.phase else {
        panic!()
    };
    assert!(round.locked_at_start[0]);
    let mut deltas = [60, -100, 60];
    suppress_locked_defenders(&mut deltas, round.locked_at_start, Seat(1));
    assert_eq!(deltas, [0, -100, 60]);
    let mut contractor_deltas = [-100, 60, 60];
    suppress_locked_defenders(&mut contractor_deltas, round.locked_at_start, Seat(0));
    assert_eq!(contractor_deltas[0], -100);
}

#[test]
fn seed_derivation_separates_matches_and_rounds() {
    let a = Match::derive_round_seed(42, 0, 0);
    assert_eq!(a, Match::derive_round_seed(42, 0, 0));
    assert_ne!(a, Match::derive_round_seed(42, 0, 1));
    assert_ne!(a, Match::derive_round_seed(42, 1, 0));
}

#[test]
fn seeded_deal_retries_a_first_shuffle_with_all_four_nines() {
    let rejected = shuffled_order(62, 0);
    let (rejected_hands, _) = distribute_deal(&rejected);
    assert!(has_all_nines(&rejected_hands[Seat(0).index()]));

    let mut game = Match::new(names(), Config::default(), Seat(0));
    let SeededDeal { order: accepted, four_nines_reshuffles } =
        game.deal_seeded_with_report(62).unwrap();
    assert_eq!(four_nines_reshuffles, 1);
    assert_eq!(
        accepted,
        vec![
            card(Rank::Nine, Suit::Clubs),
            card(Rank::Ace, Suit::Diamonds),
            card(Rank::Queen, Suit::Hearts),
            card(Rank::Ten, Suit::Spades),
            card(Rank::Ten, Suit::Hearts),
            card(Rank::Ace, Suit::Clubs),
            card(Rank::King, Suit::Spades),
            card(Rank::Jack, Suit::Diamonds),
            card(Rank::Jack, Suit::Clubs),
            card(Rank::Nine, Suit::Spades),
            card(Rank::Ace, Suit::Spades),
            card(Rank::Ace, Suit::Hearts),
            card(Rank::Jack, Suit::Hearts),
            card(Rank::Jack, Suit::Spades),
            card(Rank::King, Suit::Diamonds),
            card(Rank::Nine, Suit::Hearts),
            card(Rank::King, Suit::Clubs),
            card(Rank::Queen, Suit::Clubs),
            card(Rank::Queen, Suit::Spades),
            card(Rank::Nine, Suit::Diamonds),
            card(Rank::Queen, Suit::Diamonds),
            card(Rank::Ten, Suit::Clubs),
            card(Rank::Ten, Suit::Diamonds),
            card(Rank::King, Suit::Hearts),
        ]
    );
    assert_ne!(accepted, rejected);
    assert_eq!(
        game.events,
        [
            GameEvent {
                kind: EventKind::Deal,
                message: "1 invalid all-four-nines deal was reshuffled".into(),
            },
            GameEvent { kind: EventKind::Deal, message: "round dealt; dealer is seat 1".into() },
            GameEvent { kind: EventKind::Auction, message: "seat 2 opens at 100".into() },
        ]
    );

    let round = active_round(&game);
    assert_eq!(round.seed, 62);
    assert!(!round.hands.iter().any(|hand| has_all_nines(hand)));

    let accepted_cards = accepted.iter().copied().collect::<BTreeSet<_>>();
    let round_cards = round
        .hands
        .iter()
        .flatten()
        .chain(&round.talon)
        .copied()
        .collect::<BTreeSet<_>>();
    assert_eq!(accepted.len(), 24);
    assert_eq!(accepted_cards, game_deck().into_iter().collect());
    assert_eq!(round_cards, accepted_cards);
}

#[test]
fn seeded_deal_can_retry_more_than_once() {
    assert!(order_has_forbidden_hand(&shuffled_order(9_773, 0)));
    assert!(order_has_forbidden_hand(&shuffled_order(9_773, 1)));
    assert!(!order_has_forbidden_hand(&shuffled_order(9_773, 2)));

    let mut game = Match::new(names(), Config::default(), Seat(0));
    let report = game.deal_seeded_with_report(9_773).unwrap();
    assert_eq!(report.four_nines_reshuffles, 2);
    assert_eq!(report.order, shuffled_order(9_773, 2));
    assert_eq!(
        game.events.first(),
        Some(&GameEvent {
            kind: EventKind::Deal,
            message: "2 invalid all-four-nines deals were reshuffled".into(),
        })
    );
    assert_eq!(game.events.len(), 3);
}

#[test]
fn seeded_redeal_is_reproducible_from_the_original_round_seed() {
    let mut first = Match::new(names(), Config::default(), Seat(0));
    let mut second = Match::new(names(), Config::default(), Seat(0));
    let first_order = first.deal_seeded(9_773).unwrap();
    let second_order = second.deal_seeded(9_773).unwrap();

    assert_eq!(first_order, second_order);
    assert_eq!(first, second);
    assert_eq!(active_round(&first).seed, 9_773);
}

#[test]
fn accepted_seeded_deals_never_give_one_player_all_nines() {
    for seed in 0..1_000 {
        let mut game = Match::new(names(), Config::default(), Seat(0));
        let accepted = game.deal_seeded(seed).unwrap();
        assert!(!order_has_forbidden_hand(&accepted), "seed {seed}");
        assert!(
            !active_round(&game).hands.iter().any(|hand| has_all_nines(hand)),
            "seed {seed}"
        );
    }
}

#[test]
fn valid_seed_keeps_the_legacy_golden_order() {
    let mut game = Match::new(names(), Config::default(), Seat(0));
    let labels = game.deal_seeded(0).unwrap().iter().map(|c| c.to_string()).collect::<Vec<_>>();
    assert_eq!(
        labels,
        [
            "K♦", "K♠", "9♥", "J♣", "Q♠", "A♥", "9♠", "K♥", "10♣", "A♠", "J♦", "J♥", "9♦", "10♥",
            "Q♦", "A♦", "10♠", "10♦", "J♠", "A♣", "Q♥", "9♣", "Q♣", "K♣",
        ]
    );
}

#[test]
fn talon_can_be_hidden_only_for_a_winning_bid_of_one_hundred() {
    let mut game = Match::new(
        names(),
        Config { talon_visibility: TalonVisibility::HideAtOneHundred, ..Config::default() },
        Seat(0),
    );
    game.deal_ordered(1, &game_deck()).unwrap();
    game.apply(Seat(2), Action::Pass).unwrap();
    game.apply(Seat(0), Action::Pass).unwrap();
    let active_round = active_round(&game);
    let RoundPhase::Talon(talon) = &active_round.phase else {
        panic!()
    };
    assert!(!talon.public);
    assert!(active_round.publicly_revealed.is_empty());
}

#[test]
fn passed_opponent_still_gets_sequential_proof_choice() {
    let mut game = dealt();
    let MatchPhase::Round(round) = &mut game.phase else {
        panic!()
    };
    round.hands[0] = vec![card(Rank::Queen, Suit::Spades), card(Rank::King, Suit::Spades)];
    round.phase = RoundPhase::Auction(Auction {
        opener: Seat(1),
        turn: Seat(0),
        highest_bidder: Seat(2),
        highest_bid: 120,
        active: [true, false, true],
        proof: None,
        revealed_marriages: [Vec::new(), Vec::new(), Vec::new()],
    });
    game.apply(Seat(0), Action::Bid { points: 130 }).unwrap();
    let RoundPhase::Auction(auction) = &active_round(&game).phase else {
        panic!()
    };
    assert_eq!(auction.proof.as_ref().unwrap().responder(), Some(Seat(1)));
    game.apply(Seat(1), Action::RespondToProof { reveal: false }).unwrap();
    let RoundPhase::Auction(auction) = &active_round(&game).phase else {
        panic!()
    };
    assert_eq!(auction.proof.as_ref().unwrap().responder(), Some(Seat(2)));
}

#[test]
fn valid_transfer_leaves_every_player_with_eight_and_invalid_gifts_are_atomic() {
    let mut game = dealt();
    let MatchPhase::Round(round) = &mut game.phase else {
        panic!()
    };
    round.hands[0] = game_deck()[..10].to_vec();
    round.hands[1] = game_deck()[10..17].to_vec();
    round.hands[2] = game_deck()[17..24].to_vec();
    round.phase = RoundPhase::Transfer(Transfer { contractor: Seat(0), auction_bid: 100 });
    let first = round.hands[0][0];
    let second = round.hands[0][1];
    assert_eq!(
        game.apply(
            Seat(0),
            Action::Transfer {
                gifts: vec![
                    Gift { recipient: Seat(1), card: first },
                    Gift { recipient: Seat(1), card: second },
                ],
            },
        ),
        Err(RuleError::InvalidTransfer)
    );
    let MatchPhase::Round(round) = &game.phase else {
        panic!()
    };
    assert_eq!(round.hands[0].len(), 10);
    game.apply(
        Seat(0),
        Action::Transfer {
            gifts: vec![
                Gift { recipient: Seat(1), card: first },
                Gift { recipient: Seat(2), card: second },
            ],
        },
    )
    .unwrap();
    let MatchPhase::Round(round) = &game.phase else {
        panic!()
    };
    assert_eq!(round.hands.each_ref().map(Vec::len), [8, 8, 8]);
}

#[test]
fn final_contract_uses_the_final_eight_card_marriages() {
    let mut game = dealt();
    let MatchPhase::Round(round) = &mut game.phase else {
        panic!()
    };
    round.hands[0] = vec![
        card(Rank::Queen, Suit::Hearts),
        card(Rank::King, Suit::Hearts),
        card(Rank::Nine, Suit::Clubs),
    ];
    round.phase = RoundPhase::Contract(Contract {
        contractor: Seat(0),
        auction_bid: 100,
        points: 100,
        proof: None,
        revealed_marriages: Vec::new(),
    });
    assert_eq!(
        game.apply(Seat(0), Action::ConfirmContract { points: 230 }),
        Err(RuleError::UnsupportedPoints)
    );
    game.apply(Seat(0), Action::ConfirmContract { points: 220 }).unwrap();
    let RoundPhase::Contract(contract) = &active_round(&game).phase else {
        panic!()
    };
    assert_eq!(contract.points, 220);
    assert_eq!(contract.proof.as_ref().unwrap().responders, [Seat(1), Seat(2)]);
}

#[test]
fn leading_a_marriage_declares_immediately_even_when_the_trick_is_lost() {
    let mut game = dealt();
    let MatchPhase::Round(round) = &mut game.phase else {
        panic!()
    };
    round.hands = [
        vec![card(Rank::Queen, Suit::Hearts), card(Rank::King, Suit::Hearts)],
        vec![card(Rank::Ace, Suit::Hearts), card(Rank::Nine, Suit::Clubs)],
        vec![card(Rank::Nine, Suit::Hearts), card(Rank::Jack, Suit::Clubs)],
    ];
    round.phase = RoundPhase::Play(new_play(Seat(0), 100));
    game.apply(Seat(0), Action::PlayCard { card: card(Rank::Queen, Suit::Hearts) }).unwrap();
    game.apply(Seat(1), Action::PlayCard { card: card(Rank::Ace, Suit::Hearts) }).unwrap();
    game.apply(Seat(2), Action::PlayCard { card: card(Rank::Nine, Suit::Hearts) }).unwrap();
    let RoundPhase::Play(play) = &active_round(&game).phase else {
        panic!()
    };
    assert_eq!(play.leader, Seat(1));
    assert_eq!(play.trump, Some(Suit::Hearts));
    assert_eq!(play.marriage_points[0], 100);
}

#[test]
fn later_marriage_replaces_trump_and_cannot_be_declared_off_lead() {
    let mut game = dealt();
    let MatchPhase::Round(round) = &mut game.phase else {
        panic!()
    };
    round.hands = [
        vec![card(Rank::Nine, Suit::Hearts)],
        vec![card(Rank::Queen, Suit::Clubs), card(Rank::King, Suit::Clubs)],
        vec![card(Rank::Nine, Suit::Spades)],
    ];
    let mut play = new_play(Seat(0), 100);
    play.trump = Some(Suit::Hearts);
    play.leader = Seat(1);
    play.turn = Seat(1);
    round.phase = RoundPhase::Play(play);
    game.apply(Seat(1), Action::PlayCard { card: card(Rank::King, Suit::Clubs) }).unwrap();
    let RoundPhase::Play(play) = &active_round(&game).phase else {
        panic!()
    };
    assert_eq!(play.trump, Some(Suit::Clubs));
    assert_eq!(play.marriage_points[1], 60);
}

#[test]
fn contractor_score_is_exact_contract_or_negative_contract_and_never_raw_total() {
    let mut game = dealt();
    let mut made = new_play(Seat(0), 130);
    made.captured[0] = game_deck();
    made.marriage_points[0] = 100;
    let result = game.score_play([false; 3], &made);
    assert_eq!(result.raw_points[0], 220);
    assert_eq!(result.deltas[0], 130);

    let failed = new_play(Seat(1), 170);
    let result = game.score_play([false; 3], &failed);
    assert_eq!(result.deltas[1], -170);
}

#[test]
fn successful_contractor_has_winner_priority_and_target_ties_continue() {
    let mut game = dealt();
    let result = RoundResult {
        contractor: Seat(0),
        contract: 100,
        raw_points: [100, 0, 0],
        deltas: [100, 60, 0],
        scores: [1_000, 1_200, 20],
        surrendered: false,
    };
    let round = Round {
        seed: 0,
        dealer: Seat(0),
        locked_at_start: [false; 3],
        hands: std::array::from_fn(|_| Vec::new()),
        talon: Vec::new(),
        publicly_revealed: Vec::new(),
        phase: RoundPhase::RoundFinished(result),
    };
    game.finish_round(&round);
    assert_eq!(game.phase, MatchPhase::MatchFinished { winner: Seat(0) });

    let mut tied = dealt();
    let tied_result = RoundResult {
        contractor: Seat(2),
        contract: 100,
        raw_points: [60, 60, 0],
        deltas: [60, 60, -100],
        scores: [1_000, 1_000, 0],
        surrendered: false,
    };
    let tied_round = Round { phase: RoundPhase::RoundFinished(tied_result), ..round };
    tied.finish_round(&tied_round);
    assert!(!matches!(tied.phase, MatchPhase::MatchFinished { .. }));
}

#[test]
fn rejected_claim_can_be_made_again() {
    let mut game = dealt();
    let MatchPhase::Round(round) = &mut game.phase else {
        panic!()
    };
    round.hands = std::array::from_fn(|_| vec![card(Rank::Nine, Suit::Clubs)]);
    round.phase = RoundPhase::Play(new_play(Seat(0), 100));
    game.apply(Seat(0), Action::ClaimRemaining).unwrap();
    game.apply(Seat(1), Action::VoteOnClaim { accept: false }).unwrap();
    game.apply(Seat(0), Action::ClaimRemaining).unwrap();
    let RoundPhase::ClaimVote(vote) = &active_round(&game).phase else {
        panic!()
    };
    assert_eq!(vote.claimant, Seat(0));
    assert_eq!(vote.voters[0], Seat(1));
}

#[test]
fn surrender_is_available_only_before_transfer_and_repeat_costs_the_bid() {
    let mut game = dealt();
    game.players[1].free_surrender_used = true;
    game.apply(Seat(2), Action::Pass).unwrap();
    game.apply(Seat(0), Action::Pass).unwrap();
    game.apply(Seat(1), Action::Surrender).unwrap();
    let RoundPhase::RoundFinished(result) = &active_round(&game).phase else {
        panic!()
    };
    assert_eq!(result.deltas, [60, -100, 60]);

    let mut after = dealt();
    after.apply(Seat(2), Action::Pass).unwrap();
    after.apply(Seat(0), Action::Pass).unwrap();
    after.apply(Seat(1), Action::ContinueAfterTalon).unwrap();
    assert_eq!(after.apply(Seat(1), Action::Surrender), Err(RuleError::WrongPhase));
}

#[test]
fn every_deal_partitions_the_game_deck() {
    for seed in [0_u64, 62, 9773] {
        let mut game = Match::new(names(), Config::default(), Seat(0));
        let order = game.deal_seeded(seed).unwrap();
        let round = active_round(&game);
        assert_eq!(round.hands.each_ref().map(Vec::len), [7, 7, 7]);
        assert_eq!(round.talon.len(), 3);
        let mut dealt: Vec<Card> = round.hands.iter().flatten().copied().collect();
        dealt.extend(round.talon.iter().copied());
        let dealt: BTreeSet<Card> = dealt.into_iter().collect();
        let deck: BTreeSet<Card> = game_deck().into_iter().collect();
        assert_eq!(dealt, deck);
        assert_eq!(order.into_iter().collect::<BTreeSet<Card>>(), deck);
    }
}

#[test]
fn game_deck_is_worth_one_hundred_twenty() {
    let deck = game_deck();
    let total: u32 = deck.iter().map(|c| u32::from(card_points(*c))).sum();
    assert_eq!(total, 120);
    for suit in [Suit::Clubs, Suit::Diamonds, Suit::Hearts, Suit::Spades] {
        let per_suit: u32 =
            deck.iter().filter(|c| c.suit == suit).map(|c| u32::from(card_points(*c))).sum();
        assert_eq!(per_suit, 30);
    }
}
