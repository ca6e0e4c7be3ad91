//! The match state machine: dealing, every player action, scoring and the
//! end of a round.
use vstd::prelude::*;

use crate::cards::{lemma_seeded_shuffle_conserves, Card, Deck, PlayedCard, Rank, Suit};
use crate::tysiac::{
    Action, ApplyOutcome, Auction, ClaimVote, Config, Contract, GameEvent, Gift, Match, MatchPhase,
    Play, Player, Proof, ProofPurpose, Round, SeededDeal, RoundPhase, RoundResult, RuleError, Seat,
    Talon, TalonVisibility, Transfer,
};
use crate::tysiac::messages::{
    marriage_event, play_event, dealt_message, opens_message, reshuffle_message, bid_message,
    challenge_message, claim_message, contract_message, gift_message, marriage_message,
    pass_message, play_message, proof_response_message, proof_reveal_message, score_message,
    surrender_message, talon_message, trick_message, vote_message,
};
use crate::tysiac::model::{
    play_wf, card_limit, card_seqs, cards_in, event_models, MatchPhaseModel, match_wf,
    player_models, round_wf, scores_in_range, suit_sets, MatchModel, PlayModel, PlayerModel,
    ResultModel, RoundModel, RoundPhaseModel,
};
use crate::tysiac::rules::{
    lemma_trick_winner_seat, lemma_without_card, clone_cards, dealt_hands, distribute_deal,
    game_deck, game_deck_spec, has_all_nines, is_game_deck, lemma_game_deck_distinct,
    validate_game_deck, card_points, contains_suit, ensure_supported, game_trick_winner,
    legal_cards, marriage_card, marriage_value, mate, opponents_in_order, round_to_ten_spec,
    holds_card, lemma_sorted_hand_conserves, remove_card, round_to_ten, without_card, new_play,
    new_proof, next_active, revealed_ceiling, sort_hand, sorted_hand, suppress_locked_defenders,
};
use crate::tysiac::challenge::validate_proof;
use crate::tysiac::laws::{lemma_apply_keeps_wf, lemma_round_step_keeps_wf};
use crate::tysiac::seeding::deal_shuffle_seed;
use crate::tysiac::spec::{
    active_count, add_deltas, answered_proof, bid_spec, cards_of_plays, contract_spec,
    continue_spec, give, marriage_cards, pass_spec, play_deltas, points_sum, raw_points,
    respond_spec, reveal_spec, score_play_spec, scores_of, surrender_spec, talon_public,
    transfer_spec, valid_transfer, with_events, play_card_spec, claim_spec, vote_spec, acknowledged,
    advance_play, declares_marriage, declare_marriage, played_card, apply_spec, deal_order,
    deal_seed_bytes, deal_spec, dealt_round, finish_spec, first_clean_attempt, gives_all_nines,
    match_winner, reshuffle_reported, round_is_finished, round_step, settle_round, sole_leader,
};

verus! {

/// A round step's outcome agrees with its specification: on success the
/// match and round are the specified ones, on failure both are untouched.
pub open spec fn step_matches(
    expected: Result<(MatchModel, RoundModel), RuleError>,
    res: Result<(), RuleError>,
    m0: MatchModel,
    r0: RoundModel,
    m1: MatchModel,
    r1: RoundModel,
) -> bool {
    match expected {
        Ok((m, r)) => res is Ok && m1 == m && r1 == r,
        Err(e) => res == Err::<(), RuleError>(e) && m1 == m0 && r1 == r0,
    }
}

/// The phase a round holds while its real phase is being worked on.
pub open spec fn parked_phase() -> RoundPhase {
    RoundPhase::Transfer(Transfer { contractor: Seat(0), auction_bid: 0 })
}

fn take_phase(round: &mut Round) -> (ph: RoundPhase)
    ensures
        ph == old(round).phase,
        *final(round) == (Round { phase: parked_phase(), ..*old(round) }),
{
    let mut ph = RoundPhase::Transfer(Transfer { contractor: Seat(0), auction_bid: 0 });
    std::mem::swap(&mut ph, &mut round.phase);
    ph
}

proof fn lemma_suit_sets_index(v: [Vec<crate::cards::Suit>; 3], i: int)
    requires
        0 <= i < 3,
    ensures
        suit_sets(v)[i] == v[i]@.to_set(),
        suit_sets(v).len() == 3,
{
}

proof fn lemma_card_seqs_index(v: [Vec<Card>; 3], i: int)
    requires
        0 <= i < 3,
    ensures
        card_seqs(v)[i] == v[i]@,
        card_seqs(v).len() == 3,
{
}

/// Appends every card of `extra` to `hand`.
fn append_cards(hand: &mut Vec<Card>, extra: &[Card])
    ensures
        final(hand)@ == old(hand)@ + extra@,
{
    let mut i: usize = 0;
    while i < extra.len()
        invariant
            i <= extra@.len(),
            hand@ == old(hand)@ + extra@.take(i as int),
        decreases extra@.len() - i,
    {
        assert(extra@.take(i as int + 1) == extra@.take(i as int).push(extra@[i as int]));
        hand.push(extra[i]);
        i = i + 1;
    }
    assert(extra@.take(extra@.len() as int) =~= extra@);
}

/// Adds each card of `extra` that `cards` does not list yet.
fn extend_unique_cards(cards: &mut Vec<Card>, extra: &[Card])
    ensures
        final(cards)@.to_set() == old(cards)@.to_set().union(extra@.to_set()),
        old(cards)@.no_duplicates() ==> final(cards)@.no_duplicates(),
{
    let mut i: usize = 0;
    while i < extra.len()
        invariant
            i <= extra@.len(),
            cards@.to_set() == old(cards)@.to_set().union(extra@.take(i as int).to_set()),
            old(cards)@.no_duplicates() ==> cards@.no_duplicates(),
        decreases extra@.len() - i,
    {
        let c = extra[i];
        let ghost before = cards@;
        if !crate::tysiac::rules::holds_card(cards.as_slice(), c) {
            cards.push(c);
            proof {
                before.lemma_push_to_set_commute(c);
                assert forall|a: int, b: int|
                    #![trigger cards@[a], cards@[b]]
                    0 <= a < b < cards@.len() && before.no_duplicates() implies cards@[a] != cards@[b] by {
                    if b == before.len() {
                        assert(before.contains(cards@[a]));
                    }
                }
            }
        } else {
            assert(before.to_set().contains(c));
            assert(before.to_set().insert(c) =~= before.to_set());
        }
        assert(extra@.take(i as int + 1) == extra@.take(i as int).push(c));
        proof {
            extra@.take(i as int).lemma_push_to_set_commute(c);
        }
        assert(cards@.to_set() =~= old(cards)@.to_set().union(extra@.take(i as int + 1).to_set()));
        i = i + 1;
    }
    assert(extra@.take(extra@.len() as int) =~= extra@);
}

/// Number of seats still bidding.
fn count_active(active: [bool; 3]) -> (n: usize)
    ensures
        n == active_count(active@),
{
    let mut n: usize = 0;
    if active[0] {
        n = n + 1;
    }
    if active[1] {
        n = n + 1;
    }
    if active[2] {
        n = n + 1;
    }
    n
}

/// Adds each suit of `extra` that `suits` does not list yet.
fn extend_unique_suits(suits: &mut Vec<Suit>, extra: &[Suit])
    ensures
        final(suits)@.to_set() == old(suits)@.to_set().union(extra@.to_set()),
        old(suits)@.no_duplicates() ==> final(suits)@.no_duplicates(),
{
    let mut i: usize = 0;
    while i < extra.len()
        invariant
            i <= extra@.len(),
            suits@.to_set() == old(suits)@.to_set().union(extra@.take(i as int).to_set()),
            old(suits)@.no_duplicates() ==> suits@.no_duplicates(),
        decreases extra@.len() - i,
    {
        let s = extra[i];
        let ghost before = suits@;
        if !contains_suit(suits.as_slice(), s) {
            suits.push(s);
            proof {
                before.lemma_push_to_set_commute(s);
                assert forall|a: int, b: int|
                    #![trigger suits@[a], suits@[b]]
                    0 <= a < b < suits@.len() && before.no_duplicates() implies suits@[a] != suits@[b] by {
                    if b == before.len() {
                        assert(before.contains(suits@[a]));
                    }
                }
            }
        } else {
            assert(before.to_set().contains(s));
            assert(before.to_set().insert(s) =~= before.to_set());
        }
        assert(extra@.take(i as int + 1) == extra@.take(i as int).push(s));
        proof {
            extra@.take(i as int).lemma_push_to_set_commute(s);
        }
        assert(suits@.to_set() =~= old(suits)@.to_set().union(extra@.take(i as int + 1).to_set()));
        i = i + 1;
    }
    assert(extra@.take(extra@.len() as int) =~= extra@);
}

/// Marks the queen and king of every listed suit as publicly seen.
fn reveal_marriage_cards(cards: &mut Vec<Card>, suits: &[Suit])
    ensures
        final(cards)@.to_set() == old(cards)@.to_set().union(marriage_cards(suits@)),
        old(cards)@.no_duplicates() ==> final(cards)@.no_duplicates(),
{
    let mut i: usize = 0;
    assert(marriage_cards(suits@.take(0)) =~= Set::<Card>::empty());
    while i < suits.len()
        invariant
            i <= suits@.len(),
            cards@.to_set() == old(cards)@.to_set().union(marriage_cards(suits@.take(i as int))),
            old(cards)@.no_duplicates() ==> cards@.no_duplicates(),
        decreases suits@.len() - i,
    {
        let s = suits[i];
        let pair = [Card { rank: Rank::Queen, suit: s }, Card { rank: Rank::King, suit: s }];
        let ghost before = cards@;
        extend_unique_cards(cards, pair.as_slice());
        proof {
            let t = suits@.take(i as int + 1);
            assert(t == suits@.take(i as int).push(s));
            assert(pair@.to_set() =~= set![
                Card { rank: Rank::Queen, suit: s },
                Card { rank: Rank::King, suit: s }
            ]) by {
                assert(pair@[0] == Card { rank: Rank::Queen, suit: s });
                assert(pair@[1] == Card { rank: Rank::King, suit: s });
            }
            assert forall|c: Card| #[trigger] marriage_cards(t).contains(c) <==> marriage_cards(suits@.take(i as int)).union(pair@.to_set()).contains(c) by {
                if t.contains(c.suit) && c.suit != s {
                    let k = choose|k: int| 0 <= k < t.len() && t[k] == c.suit;
                    assert(suits@.take(i as int)[k] == c.suit);
                }
                if suits@.take(i as int).contains(c.suit) {
                    let k = choose|k: int| 0 <= k < i && suits@.take(i as int)[k] == c.suit;
                    assert(t[k] == c.suit);
                }
                if c.suit == s {
                    assert(t[i as int] == s);
                }
            }
            assert(marriage_cards(t) =~= marriage_cards(suits@.take(i as int)).union(pair@.to_set()));
            assert(cards@.to_set() =~= old(cards)@.to_set().union(marriage_cards(t)));
        }
        i = i + 1;
    }
    assert(suits@.take(suits@.len() as int) =~= suits@);
}

fn answer_proof(p: Proof, reveal: bool) -> (q: Proof)
    requires
        p.responder_index < 2,
    ensures
        q == answered_proof(p, reveal),
{
    if reveal {
        Proof { reveal_required: true, ..p }
    } else {
        Proof { responder_index: p.responder_index + 1, ..p }
    }
}

/// Appends the cards of a finished trick to a pile.
fn append_trick_cards(pile: &mut Vec<Card>, trick: &[PlayedCard<Seat>])
    ensures
        final(pile)@ == old(pile)@ + cards_of_plays(trick@),
{
    let mut i: usize = 0;
    while i < trick.len()
        invariant
            i <= trick@.len(),
            pile@ == old(pile)@ + cards_of_plays(trick@.take(i as int)),
        decreases trick@.len() - i,
    {
        assert(cards_of_plays(trick@.take(i as int + 1)) =~= cards_of_plays(trick@.take(i as int)).push(
            trick@[i as int].card,
        ));
        pile.push(trick[i].card);
        i = i + 1;
    }
    assert(trick@.take(trick@.len() as int) =~= trick@);
}

/// Card points of a pile.
fn pile_points(cards: &[Card]) -> (total: u16)
    requires
        cards@.len() <= card_limit(),
    ensures
        total == points_sum(cards@),
        total <= 11 * cards@.len(),
{
    let mut total: u16 = 0;
    let mut i: usize = 0;
    while i < cards.len()
        invariant
            i <= cards@.len(),
            cards@.len() <= card_limit(),
            total == points_sum(cards@.take(i as int)),
            total <= 11 * i,
        decreases cards@.len() - i,
    {
        let ghost t = cards@.take(i as int + 1);
        assert(t.drop_last() =~= cards@.take(i as int));
        assert(t.last() == cards@[i as int]);
        total = total + card_points(cards[i]);
        i = i + 1;
    }
    assert(cards@.take(cards@.len() as int) =~= cards@);
    total
}

/// One seat's score change before locks: the contractor's exact contract,
/// won or lost, or a defender's raw points rounded to ten.
fn round_delta(is_contractor: bool, made: bool, contract: u16, raw: u16) -> (d: i32)
    ensures
        d == (if is_contractor {
            if made {
                contract as i32
            } else {
                (-(contract as int)) as i32
            }
        } else {
            round_to_ten_spec(raw as int) as i32
        }),
{
    if is_contractor {
        if made {
            contract as i32
        } else {
            0 - (contract as i32)
        }
    } else {
        round_to_ten(raw as i32)
    }
}

/// Moves one gifted card from the giver's hand to the recipient's, which is
/// then sorted again.
#[verifier::rlimit(50)]
fn give_card(hands: &mut [Vec<Card>; 3], giver: Seat, gift: Gift)
    requires
        giver.is_valid(),
        gift.recipient.is_valid(),
        gift.recipient != giver,
        old(hands)[giver.0 as int]@.contains(gift.card),
    ensures
        card_seqs(*final(hands)) == give(card_seqs(*old(hands)), giver, gift),
{
    proof {
        reveal(give);
    }
    let ghost h0 = card_seqs(*old(hands));
    let ghost g = giver.0 as int;
    let ghost t = gift.recipient.0 as int;
    let ghost h1 = h0.update(g, without_card(h0[g], gift.card));
    let removed = remove_card(&mut hands[giver.index()], gift.card);
    assert(card_seqs(*hands) =~= h1);
    let ghost pushed = hands[t]@.push(gift.card);
    assert(h1[t] == hands[t]@);
    hands[gift.recipient.index()].push(gift.card);
    sort_hand(&mut hands[gift.recipient.index()]);
    assert(hands[t]@ == sorted_hand(h1[t].push(gift.card)));
    assert(card_seqs(*hands) =~= h1.update(t, sorted_hand(h1[t].push(gift.card))));
}

/// Two gifts, one distinct held card to each opponent.
fn validate_transfer(actor: Seat, hand: &[Card], gifts: &[Gift]) -> (r: Result<(), RuleError>)
    requires
        actor.is_valid(),
    ensures
        r is Ok <==> valid_transfer(actor, hand@, gifts@),
        r is Err ==> r == Err::<(), RuleError>(RuleError::InvalidTransfer),
{
    if gifts.len() != 2 {
        return Err(RuleError::InvalidTransfer);
    }
    let first = gifts[0];
    let second = gifts[1];
    if first.recipient.valid() && second.recipient.valid() && first.recipient != actor
        && second.recipient != actor && first.recipient != second.recipient
        && first.card != second.card && holds_card(hand, first.card) && holds_card(
        hand,
        second.card,
    ) {
        Ok(())
    } else {
        Err(RuleError::InvalidTransfer)
    }
}

/// The first `n` hands laid end to end.
pub open spec fn hands_prefix(hands: Seq<Seq<Card>>, n: int) -> Seq<Card>
    decreases n,
{
    if n <= 0 {
        Seq::empty()
    } else {
        hands_prefix(hands, n - 1) + hands[n - 1]
    }
}

fn copy_event(e: &GameEvent) -> (c: GameEvent)
    ensures
        c@ == e@,
{
    GameEvent { kind: e.kind, message: e.message.clone() }
}

/// The events recorded from position `start` on.
pub(crate) fn events_since(events: &Vec<GameEvent>, start: usize) -> (v: Vec<GameEvent>)
    requires
        start <= events@.len(),
    ensures
        event_models(v@) == event_models(events@).skip(start as int),
{
    let mut v: Vec<GameEvent> = Vec::new();
    let mut i: usize = start;
    while i < events.len()
        invariant
            start <= i <= events@.len(),
            event_models(v@) == event_models(events@).subrange(start as int, i as int),
        decreases events@.len() - i,
    {
        let e = copy_event(&events[i]);
        let ghost before = v@;
        v.push(e);
        assert(event_models(v@) =~= event_models(before).push(events@[i as int]@));
        assert(event_models(events@).subrange(start as int, i + 1) =~= event_models(events@).subrange(
            start as int,
            i as int,
        ).push(events@[i as int]@));
        i = i + 1;
    }
    assert(event_models(events@).subrange(start as int, events@.len() as int) =~= event_models(
        events@,
    ).skip(start as int));
    v
}

/// Whether seat `i` alone leads at or above the target.
fn sole_leader_at(scores: [i32; 3], target: i32, i: usize) -> (b: bool)
    requires
        i < 3,
    ensures
        b == sole_leader(scores@, target, i as int),
{
    let mut b = scores[i] >= target;
    let mut j: usize = 0;
    while j < 3
        invariant
            j <= 3,
            i < 3,
            b == (scores@[i as int] >= target && forall|k: int|
                0 <= k < j && k != i ==> #[trigger] scores@[k] < scores@[i as int]),
        decreases 3 - j,
    {
        if j != i && scores[j] >= scores[i] {
            b = false;
        }
        j = j + 1;
    }
    b
}

/// The winner a finished round produces, if any.
fn match_winner_of(result: &RoundResult, target: i32) -> (w: Option<Seat>)
    requires
        result.contractor.is_valid(),
    ensures
        w == match_winner(result@, target),
{
    let c = result.contractor.index();
    if !result.surrendered && result.deltas[c] > 0 && result.scores[c] >= target {
        return Some(result.contractor);
    }
    if sole_leader_at(result.scores, target, 0) {
        Some(Seat(0))
    } else if sole_leader_at(result.scores, target, 1) {
        Some(Seat(1))
    } else if sole_leader_at(result.scores, target, 2) {
        Some(Seat(2))
    } else {
        None
    }
}

proof fn lemma_deal_order_is_game_deck(seed: u64, attempt: u64)
    ensures
        is_game_deck(deal_order(seed, attempt)),
        deal_order(seed, attempt).len() == 24,
{
    broadcast use vstd::seq_lib::to_multiset_contains;
    let d = game_deck_spec();
    let o = deal_order(seed, attempt);
    lemma_game_deck_distinct();
    lemma_seeded_shuffle_conserves(deal_seed_bytes(seed, attempt), d);
    assert forall|c: Card| o.to_set().contains(c) <==> d.to_set().contains(c) by {
        if o.contains(c) {
            assert(o.to_multiset().count(c) > 0);
            assert(d.to_multiset().count(c) > 0);
        }
        if d.contains(c) {
            assert(d.to_multiset().count(c) > 0);
            assert(o.to_multiset().count(c) > 0);
        }
    }
    assert(o.to_set() =~= d.to_set());
}

/// The first deal attempt whose order gives no seat all four nines, with
/// that order; `None` once every attempt the counter can name has failed.
fn first_clean_deal(seed: u64) -> (r: Option<(Vec<Card>, u64)>)
    ensures
        r matches Some((order, n)) ==> order@ == deal_order(seed, n) && first_clean_attempt(seed, n),
        r is None ==> forall|a: u64| #[trigger] gives_all_nines(deal_order(seed, a)),
{
    let mut attempt: u64 = 0;
    loop
        invariant
            forall|a: u64| a < attempt ==> #[trigger] gives_all_nines(deal_order(seed, a)),
        decreases u64::MAX - attempt,
    {
        proof {
            lemma_game_deck_distinct();
        }
        let mut deck = match Deck::from_cards(game_deck()) {
            Ok(d) => d,
            Err(_) => {
                return None;
            },
        };
        deck.shuffle_with_seed(deal_shuffle_seed(seed, attempt));
        let order = clone_cards(deck.cards());
        proof {
            lemma_deal_order_is_game_deck(seed, attempt);
        }
        let (hands, _) = distribute_deal(order.as_slice());
        let forbidden = has_all_nines(hands[0].as_slice()) || has_all_nines(hands[1].as_slice())
            || has_all_nines(hands[2].as_slice());
        assert(forbidden == gives_all_nines(order@));
        if !forbidden {
            return Some((order, attempt));
        }
        if attempt == u64::MAX {
            return None;
        }
        attempt = attempt + 1;
    }
}

impl Match {
    fn push(&mut self, event: GameEvent)
        ensures
            final(self)@ == with_events(old(self)@, seq![event@]),
    {
        self.events.push(event);
        assert(event_models(self.events@) =~= event_models(old(self).events@) + seq![event@]);
        assert(self@ =~~= with_events(old(self)@, seq![event@]));
    }

    fn apply_bid(&mut self, actor: Seat, points: u16, round: &mut Round) -> (res: Result<(), RuleError>)
        requires
            actor.is_valid(),
            round_wf(old(round)@),
        ensures
            step_matches(
                bid_spec(old(self)@, old(round)@, actor, points),
                res,
                old(self)@,
                old(round)@,
                final(self)@,
                final(round)@,
            ),
    {
        proof {
            reveal(bid_spec);
        }
        let ph = take_phase(round);
        match ph {
            RoundPhase::Auction(mut auction) => {
                if auction.proof.is_some() {
                    round.phase = RoundPhase::Auction(auction);
                    return Err(RuleError::WrongPhase);
                }
                if actor != auction.turn {
                    round.phase = RoundPhase::Auction(auction);
                    return Err(RuleError::NotYourTurn);
                }
                if !auction.active[actor.index()] {
                    round.phase = RoundPhase::Auction(auction);
                    return Err(RuleError::AlreadyPassed);
                }
                if points != auction.highest_bid + 10 {
                    round.phase = RoundPhase::Auction(auction);
                    return Err(RuleError::InvalidBidStep);
                }
                proof {
                    lemma_card_seqs_index(round.hands, actor.0 as int);
                }
                match ensure_supported(round.hands[actor.index()].as_slice(), points) {
                    Err(e) => {
                        round.phase = RoundPhase::Auction(auction);
                        return Err(e);
                    },
                    Ok(()) => {},
                }
                let ghost m0 = self@;
                let ghost a0 = auction@;
                auction.highest_bid = points;
                auction.highest_bidder = actor;
                auction.turn = match next_active(actor, auction.active) {
                    Some(s) => s,
                    None => actor,
                };
                self.push(bid_message(actor, points));
                proof {
                    lemma_suit_sets_index(auction.revealed_marriages, actor.0 as int);
                }
                let challenged = points > revealed_ceiling(
                    auction.revealed_marriages[actor.index()].as_slice(),
                );
                if challenged {
                    auction.proof = Some(new_proof(ProofPurpose::Auction, actor, points));
                    self.push(challenge_message(actor, points));
                    assert(self@.events =~= m0.events + seq![
                        crate::tysiac::messages::bid_event(actor, points),
                        crate::tysiac::messages::challenge_event(actor, points)
                    ]);
                }
                round.phase = RoundPhase::Auction(auction);
                proof {
                    let expected = bid_spec(old(self)@, old(round)@, actor, points);
                    assert(expected is Ok);
                    assert(auction@ =~~= expected->Ok_0.1.phase->Auction_0);
                    assert(round@ =~~= expected->Ok_0.1);
                    assert(self@ =~~= expected->Ok_0.0);
                }
                Ok(())
            },
            other => {
                round.phase = other;
                Err(RuleError::WrongPhase)
            },
        }
    }

    fn apply_pass(&mut self, actor: Seat, round: &mut Round) -> (res: Result<(), RuleError>)
        requires
            actor.is_valid(),
            round_wf(old(round)@),
        ensures
            step_matches(
                pass_spec(old(self)@, old(round)@, actor),
                res,
                old(self)@,
                old(round)@,
                final(self)@,
                final(round)@,
            ),
    {
        proof {
            reveal(pass_spec);
        }
        let ph = take_phase(round);
        match ph {
            RoundPhase::Auction(mut auction) => {
                if auction.proof.is_some() {
                    round.phase = RoundPhase::Auction(auction);
                    return Err(RuleError::WrongPhase);
                }
                if actor != auction.turn {
                    round.phase = RoundPhase::Auction(auction);
                    return Err(RuleError::NotYourTurn);
                }
                if !auction.active[actor.index()] {
                    round.phase = RoundPhase::Auction(auction);
                    return Err(RuleError::AlreadyPassed);
                }
                let ghost expected = pass_spec(old(self)@, old(round)@, actor);
                auction.active[actor.index()] = false;
                self.push(pass_message(actor));
                assert(auction.active@ =~= old(round)@.phase->Auction_0.active.update(actor.0 as int, false));
                if count_active(auction.active) > 1 {
                    auction.turn = match next_active(actor, auction.active) {
                        Some(s) => s,
                        None => actor,
                    };
                    round.phase = RoundPhase::Auction(auction);
                    proof {
                        assert(auction@ =~~= expected->Ok_0.1.phase->Auction_0);
                        assert(round@ =~~= expected->Ok_0.1);
                    }
                    return Ok(());
                }
                let contractor = auction.highest_bidder;
                let auction_bid = auction.highest_bid;
                let ci = contractor.index();
                let ghost hands0 = round@.hands;
                append_cards(&mut round.hands[ci], round.talon.as_slice());
                sort_hand(&mut round.hands[ci]);
                let public = self.config.talon_visibility == TalonVisibility::AlwaysPublic
                    || auction_bid != 100;
                assert(public == talon_public(self.config, auction_bid));
                if public {
                    extend_unique_cards(&mut round.publicly_revealed, round.talon.as_slice());
                }
                round.phase = RoundPhase::Talon(Talon { contractor, auction_bid, public });
                let ghost m1 = self@;
                self.push(talon_message(contractor, auction_bid, public));
                proof {
                    assert(round@.hands =~~= hands0.update(
                        ci as int,
                        sorted_hand(hands0[ci as int] + round@.talon),
                    ));
                    assert(round@ =~~= expected->Ok_0.1);
                    assert(self@.events =~= old(self)@.events + seq![
                        crate::tysiac::messages::pass_event(actor),
                        crate::tysiac::messages::talon_event(contractor, auction_bid, public)
                    ]);
                    assert(self@ =~~= expected->Ok_0.0);
                }
                Ok(())
            },
            other => {
                round.phase = other;
                Err(RuleError::WrongPhase)
            },
        }
    }

    fn continue_after_talon(actor: Seat, round: &mut Round) -> (res: Result<(), RuleError>)
        requires
            round_wf(old(round)@),
        ensures
            forall|m: MatchModel|
                step_matches(
                    #[trigger] continue_spec(m, old(round)@, actor),
                    res,
                    m,
                    old(round)@,
                    m,
                    final(round)@,
                ),
    {
        proof {
            reveal(continue_spec);
        }
        let ph = take_phase(round);
        match ph {
            RoundPhase::Talon(talon) => {
                if actor != talon.contractor {
                    round.phase = RoundPhase::Talon(talon);
                    return Err(RuleError::NotYourTurn);
                }
                round.phase = RoundPhase::Transfer(
                    Transfer { contractor: talon.contractor, auction_bid: talon.auction_bid },
                );
                assert(round@ =~~= crate::tysiac::spec::with_phase(
                    old(round)@,
                    RoundPhaseModel::Transfer(
                        Transfer { contractor: talon.contractor, auction_bid: talon.auction_bid },
                    ),
                ));
                Ok(())
            },
            other => {
                round.phase = other;
                Err(RuleError::WrongPhase)
            },
        }
    }

    /// Moves every score by its delta and records the round result.
    fn apply_scores(
        &mut self,
        contractor: Seat,
        contract: u16,
        raw_points: [u16; 3],
        deltas: [i32; 3],
        surrendered: bool,
    ) -> (result: RoundResult)
        requires
            scores_in_range(old(self)@.players),
            forall|i: int| 0 <= i < 3 ==> -70_000 <= #[trigger] deltas[i] <= 70_000,
        ensures
            final(self)@ == (MatchModel {
                players: add_deltas(old(self)@.players, deltas@),
                ..old(self)@
            }),
            result@ == (ResultModel {
                contractor,
                contract,
                raw_points: raw_points@,
                deltas: deltas@,
                scores: scores_of(final(self)@.players),
                surrendered,
            }),
    {
        assert(old(self)@.players[0] == self.players[0]@);
        assert(old(self)@.players[1] == self.players[1]@);
        assert(old(self)@.players[2] == self.players[2]@);
        self.players[0].score = self.players[0].score + deltas[0];
        self.players[1].score = self.players[1].score + deltas[1];
        self.players[2].score = self.players[2].score + deltas[2];
        let result = RoundResult {
            contractor,
            contract,
            raw_points,
            deltas,
            scores: [self.players[0].score, self.players[1].score, self.players[2].score],
            surrendered,
        };
        proof {
            assert(player_models(self.players) =~~= add_deltas(old(self)@.players, deltas@));
            assert(self@ =~~= (MatchModel {
                players: add_deltas(old(self)@.players, deltas@),
                ..old(self)@
            }));
            assert(result@.scores =~= scores_of(self@.players));
        }
        result
    }

    fn apply_surrender(&mut self, actor: Seat, round: &mut Round) -> (res: Result<(), RuleError>)
        requires
            actor.is_valid(),
            round_wf(old(round)@),
            scores_in_range(old(self)@.players),
        ensures
            step_matches(
                surrender_spec(old(self)@, old(round)@, actor),
                res,
                old(self)@,
                old(round)@,
                final(self)@,
                final(round)@,
            ),
    {
        proof {
            reveal(surrender_spec);
        }
        let ph = take_phase(round);
        match ph {
            RoundPhase::Talon(talon) => {
                if actor != talon.contractor {
                    round.phase = RoundPhase::Talon(talon);
                    return Err(RuleError::NotYourTurn);
                }
                let ghost expected = surrender_spec(old(self)@, old(round)@, actor);
                let contractor = talon.contractor;
                let auction_bid = talon.auction_bid;
                let ci = contractor.index();
                let mut deltas: [i32; 3] = [60, 60, 60];
                let used = self.players[ci].free_surrender_used;
                assert(used == old(self)@.players[ci as int].free_surrender_used);
                if used {
                    deltas[ci] = 0 - (auction_bid as i32);
                } else {
                    deltas[ci] = 0;
                }
                self.players[ci].free_surrender_used = true;
                assert(deltas@ =~= crate::tysiac::spec::surrender_deltas(used, contractor, auction_bid));
                suppress_locked_defenders(&mut deltas, round.locked_at_start, contractor);
                proof {
                    assert(player_models(self.players) =~~= old(self)@.players.update(
                        ci as int,
                        PlayerModel { free_surrender_used: true, ..old(self)@.players[ci as int] },
                    ));
                }
                let result = self.apply_scores(contractor, auction_bid, [0, 0, 0], deltas, true);
                round.phase = RoundPhase::RoundFinished(result);
                self.push(surrender_message(contractor, auction_bid));
                proof {
                    assert(result@ =~~= expected->Ok_0.1.phase->RoundFinished_0);
                    assert(round@ =~~= expected->Ok_0.1);
                    assert(self@ =~~= expected->Ok_0.0);
                }
                Ok(())
            },
            other => {
                round.phase = other;
                Err(RuleError::WrongPhase)
            },
        }
    }

    fn apply_contract(&mut self, actor: Seat, points: u16, round: &mut Round) -> (res: Result<
        (),
        RuleError,
    >)
        requires
            actor.is_valid(),
            round_wf(old(round)@),
        ensures
            step_matches(
                contract_spec(old(self)@, old(round)@, actor, points),
                res,
                old(self)@,
                old(round)@,
                final(self)@,
                final(round)@,
            ),
    {
        proof {
            reveal(contract_spec);
        }
        let ph = take_phase(round);
        match ph {
            RoundPhase::Contract(mut contract) => {
                if contract.proof.is_some() {
                    round.phase = RoundPhase::Contract(contract);
                    return Err(RuleError::WrongPhase);
                }
                if actor != contract.contractor {
                    round.phase = RoundPhase::Contract(contract);
                    return Err(RuleError::NotYourTurn);
                }
                if points < contract.auction_bid || points % 10 != 0 {
                    round.phase = RoundPhase::Contract(contract);
                    return Err(RuleError::InvalidContract);
                }
                proof {
                    lemma_card_seqs_index(round.hands, actor.0 as int);
                }
                match ensure_supported(round.hands[actor.index()].as_slice(), points) {
                    Err(e) => {
                        round.phase = RoundPhase::Contract(contract);
                        return Err(e);
                    },
                    Ok(()) => {},
                }
                let ghost expected = contract_spec(old(self)@, old(round)@, actor, points);
                contract.points = points;
                self.push(contract_message(actor, points));
                if points > revealed_ceiling(contract.revealed_marriages.as_slice()) {
                    contract.proof = Some(new_proof(ProofPurpose::Contract, actor, points));
                    round.phase = RoundPhase::Contract(contract);
                } else {
                    round.phase = RoundPhase::Play(new_play(actor, points));
                }
                proof {
                    assert(round@ =~~= expected->Ok_0.1);
                }
                Ok(())
            },
            other => {
                round.phase = other;
                Err(RuleError::WrongPhase)
            },
        }
    }

    fn apply_proof_response(&mut self, actor: Seat, reveal: bool, round: &mut Round) -> (res: Result<
        (),
        RuleError,
    >)
        requires
            actor.is_valid(),
            round_wf(old(round)@),
        ensures
            step_matches(
                respond_spec(old(self)@, old(round)@, actor, reveal),
                res,
                old(self)@,
                old(round)@,
                final(self)@,
                final(round)@,
            ),
    {
        proof {
            reveal(respond_spec);
        }
        let ph = take_phase(round);
        match ph {
            RoundPhase::Auction(mut auction) => {
                if auction.proof.is_none() {
                    round.phase = RoundPhase::Auction(auction);
                    return Err(RuleError::WrongPhase);
                }
                let p = auction.proof.unwrap();
                let asked = match p.responder() {
                    Some(s) => s == actor,
                    None => false,
                };
                if p.reveal_required || !asked {
                    round.phase = RoundPhase::Auction(auction);
                    return Err(RuleError::NotProofResponder);
                }
                let ghost expected = respond_spec(old(self)@, old(round)@, actor, reveal);
                let p2 = answer_proof(p, reveal);
                self.push(proof_response_message(actor, reveal));
                if p2.responder_index == 2 && !p2.reveal_required {
                    auction.proof = None;
                } else {
                    auction.proof = Some(p2);
                }
                round.phase = RoundPhase::Auction(auction);
                proof {
                    assert(auction@ =~~= expected->Ok_0.1.phase->Auction_0);
                    assert(round@ =~~= expected->Ok_0.1);
                }
                Ok(())
            },
            RoundPhase::Contract(mut contract) => {
                if contract.proof.is_none() {
                    round.phase = RoundPhase::Contract(contract);
                    return Err(RuleError::WrongPhase);
                }
                let p = contract.proof.unwrap();
                let asked = match p.responder() {
                    Some(s) => s == actor,
                    None => false,
                };
                if p.reveal_required || !asked {
                    round.phase = RoundPhase::Contract(contract);
                    return Err(RuleError::NotProofResponder);
                }
                let ghost expected = respond_spec(old(self)@, old(round)@, actor, reveal);
                let p2 = answer_proof(p, reveal);
                self.push(proof_response_message(actor, reveal));
                if p2.responder_index == 2 && !p2.reveal_required {
                    round.phase = RoundPhase::Play(new_play(contract.contractor, contract.points));
                } else {
                    contract.proof = Some(p2);
                    round.phase = RoundPhase::Contract(contract);
                }
                proof {
                    assert(round@ =~~= expected->Ok_0.1);
                }
                Ok(())
            },
            other => {
                round.phase = other;
                Err(RuleError::WrongPhase)
            },
        }
    }

    fn apply_proof_reveal(&mut self, actor: Seat, suits: &[Suit], round: &mut Round) -> (res: Result<
        (),
        RuleError,
    >)
        requires
            actor.is_valid(),
            round_wf(old(round)@),
        ensures
            step_matches(
                reveal_spec(old(self)@, old(round)@, actor, suits@),
                res,
                old(self)@,
                old(round)@,
                final(self)@,
                final(round)@,
            ),
    {
        proof {
            reveal(reveal_spec);
        }
        let ph = take_phase(round);
        let pending = match &ph {
            RoundPhase::Auction(a) => a.proof,
            RoundPhase::Contract(c) => c.proof,
            _ => None,
        };
        if pending.is_none() {
            round.phase = ph;
            return Err(RuleError::WrongPhase);
        }
        let p = pending.unwrap();
        if actor != p.bidder || !p.reveal_required {
            round.phase = ph;
            return Err(RuleError::NotProofBidder);
        }
        proof {
            lemma_card_seqs_index(round.hands, actor.0 as int);
        }
        match validate_proof(round.hands[actor.index()].as_slice(), p.points, suits) {
            Err(e) => {
                round.phase = ph;
                return Err(e);
            },
            Ok(()) => {},
        }
        let ghost expected = reveal_spec(old(self)@, old(round)@, actor, suits@);
        reveal_marriage_cards(&mut round.publicly_revealed, suits);
        match ph {
            RoundPhase::Auction(mut auction) => {
                proof {
                    lemma_suit_sets_index(auction.revealed_marriages, actor.0 as int);
                }
                extend_unique_suits(&mut auction.revealed_marriages[actor.index()], suits);
                auction.proof = None;
                proof {
                    assert(suit_sets(auction.revealed_marriages) =~~= old(round)@.phase->Auction_0.revealed_marriages.update(
                        actor.0 as int,
                        old(round)@.phase->Auction_0.revealed_marriages[actor.0 as int].union(suits@.to_set()),
                    ));
                }
                round.phase = RoundPhase::Auction(auction);
            },
            RoundPhase::Contract(contract) => {
                round.phase = RoundPhase::Play(new_play(contract.contractor, contract.points));
            },
            other => {
                round.phase = other;
            },
        }
        self.push(proof_reveal_message(actor, suits));
        proof {
            assert(round@ =~~= expected->Ok_0.1);
        }
        Ok(())
    }

    #[verifier::rlimit(40)]
    fn apply_transfer(&mut self, actor: Seat, gifts: &[Gift], round: &mut Round) -> (res: Result<
        (),
        RuleError,
    >)
        requires
            actor.is_valid(),
            round_wf(old(round)@),
        ensures
            step_matches(
                transfer_spec(old(self)@, old(round)@, actor, gifts@),
                res,
                old(self)@,
                old(round)@,
                final(self)@,
                final(round)@,
            ),
    {
        proof {
            reveal(transfer_spec);
        }
        let ph = take_phase(round);
        match ph {
            RoundPhase::Transfer(transfer) => {
                if actor != transfer.contractor {
                    round.phase = RoundPhase::Transfer(transfer);
                    return Err(RuleError::NotYourTurn);
                }
                let a = actor.index();
                proof {
                    lemma_card_seqs_index(round.hands, a as int);
                }
                match validate_transfer(actor, round.hands[a].as_slice(), gifts) {
                    Err(e) => {
                        round.phase = RoundPhase::Transfer(transfer);
                        return Err(e);
                    },
                    Ok(()) => {},
                }
                let ghost expected = transfer_spec(old(self)@, old(round)@, actor, gifts@);
                let ghost hands0 = round@.hands;
                let g0 = gifts[0];
                let g1 = gifts[1];
                proof {
                    lemma_without_card(hands0[a as int], g0.card, g1.card);
                }
                give_card(&mut round.hands, actor, g0);
                self.push(gift_message(actor, g0.card, g0.recipient));
                proof {
                    reveal(give);
                    let h1 = give(hands0, actor, g0);
                    assert(h1[a as int] == without_card(hands0[a as int], g0.card));
                    lemma_card_seqs_index(round.hands, a as int);
                    assert(round.hands[a as int]@.contains(g1.card));
                }
                give_card(&mut round.hands, actor, g1);
                self.push(gift_message(actor, g1.card, g1.recipient));
                round.phase = RoundPhase::Contract(
                    Contract {
                        contractor: actor,
                        auction_bid: transfer.auction_bid,
                        points: transfer.auction_bid,
                        proof: None,
                        revealed_marriages: Vec::new(),
                    },
                );
                proof {
                    assert(round@ =~~= expected->Ok_0.1);
                    assert(self@ =~~= expected->Ok_0.0);
                }
                Ok(())
            },
            other => {
                round.phase = other;
                Err(RuleError::WrongPhase)
            },
        }
    }

    /// Scores a played-out round: raw points are captured card points plus
    /// declared marriages; the contractor gains or loses exactly the contract,
    /// defenders gain their raw points rounded to ten, and locked defenders
    /// gain nothing.
    pub fn score_play(&mut self, locked_at_start: [bool; 3], play: &Play) -> (result: RoundResult)
        requires
            scores_in_range(old(self)@.players),
            play.contractor.is_valid(),
            forall|i: int| 0 <= i < 3 ==> (#[trigger] play.captured[i])@.len() <= card_limit(),
            forall|i: int| 0 <= i < 3 ==> #[trigger] play.marriage_points[i] <= 50_000,
        ensures
            (final(self)@, result@) == score_play_spec(old(self)@, locked_at_start@, play@),
            forall|i: int|
                0 <= i < 3 ==> #[trigger] result@.raw_points[i] == points_sum(play@.captured[i])
                    + play.marriage_points[i],
            result@.deltas[play.contractor.0 as int] == if result@.raw_points[play.contractor.0 as int]
                >= play.contract {
                play.contract as int
            } else {
                -(play.contract as int)
            },
            forall|i: int|
                0 <= i < 3 && i != play.contractor.0 && !locked_at_start[i] ==> #[trigger] result@.deltas[i]
                    == (result@.raw_points[i] + 5) / 10 * 10,
            forall|i: int|
                0 <= i < 3 && i != play.contractor.0 && locked_at_start[i] ==> #[trigger] result@.deltas[i]
                    == 0,
    {
        let r0 = pile_points(play.captured[0].as_slice()) + play.marriage_points[0];
        let r1 = pile_points(play.captured[1].as_slice()) + play.marriage_points[1];
        let r2 = pile_points(play.captured[2].as_slice()) + play.marriage_points[2];
        let raw: [u16; 3] = [r0, r1, r2];
        proof {
            assert(forall|i: int|
                0 <= i < 3 ==> points_sum(#[trigger] play@.captured[i]) + play@.marriage_points[i]
                    <= u16::MAX);
            crate::tysiac::laws::lemma_round_scoring(self@, locked_at_start@, play@);
        }
        let c = play.contractor.index();
        let made = raw[c] >= play.contract;
        let mut deltas: [i32; 3] = [
            round_delta(c == 0, made, play.contract, raw[0]),
            round_delta(c == 1, made, play.contract, raw[1]),
            round_delta(c == 2, made, play.contract, raw[2]),
        ];
        proof {
            assert(raw@ =~= raw_points(play@));
            assert(deltas@ =~= play_deltas(play@, raw@));
        }
        suppress_locked_defenders(&mut deltas, locked_at_start, play.contractor);
        let result = self.apply_scores(play.contractor, play.contract, raw, deltas, false);
        self.push(score_message(raw, deltas));
        proof {
            let expected = score_play_spec(old(self)@, locked_at_start@, play@);
            assert(self@ =~~= expected.0);
            assert(result@ =~~= expected.1);
        }
        result
    }

    #[verifier::rlimit(60)]
    fn apply_card_play(&mut self, actor: Seat, card: Card, round: &mut Round) -> (res: Result<
        (),
        RuleError,
    >)
        requires
            actor.is_valid(),
            round_wf(old(round)@),
            scores_in_range(old(self)@.players),
        ensures
            step_matches(
                play_card_spec(old(self)@, old(round)@, actor, card),
                res,
                old(self)@,
                old(round)@,
                final(self)@,
                final(round)@,
            ),
    {
        proof {
            reveal(play_card_spec);
        }
        let ph = take_phase(round);
        match ph {
            RoundPhase::Play(mut play) => {
                if actor != play.turn {
                    round.phase = RoundPhase::Play(play);
                    return Err(RuleError::NotYourTurn);
                }
                let a = actor.index();
                proof {
                    lemma_card_seqs_index(round.hands, a as int);
                }
                if !holds_card(round.hands[a].as_slice(), card) {
                    round.phase = RoundPhase::Play(play);
                    return Err(RuleError::CardNotHeld);
                }
                let legal = legal_cards(round.hands[a].as_slice(), play.trick.as_slice(), play.trump);
                if !holds_card(legal.as_slice(), card) {
                    round.phase = RoundPhase::Play(play);
                    return Err(RuleError::IllegalPlay);
                }
                let ghost expected = play_card_spec(old(self)@, old(round)@, actor, card);
                self.play_held_card(play, actor, card, round);
                proof {
                    assert(round@ =~~= expected->Ok_0.1);
                    assert(self@ =~~= expected->Ok_0.0);
                }
                Ok(())
            },
            other => {
                round.phase = other;
                Err(RuleError::WrongPhase)
            },
        }
    }

    /// Plays a held, legal card: declares a marriage it leads, moves it to the
    /// trick, and advances the trick.
    #[verifier::rlimit(40)]
    fn play_held_card(&mut self, play: Play, actor: Seat, card: Card, round: &mut Round)
        requires
            actor.is_valid(),
            actor == play.turn,
            play_wf(play@, old(round)@.hands),
            old(round)@.hands.len() == 3,
            old(round)@.hands[actor.0 as int].contains(card),
            scores_in_range(old(self)@.players),
        ensures
            (final(self)@, final(round)@) == played_card(old(self)@, old(round)@, play@, actor, card),
    {
        let mut play = play;
        let a = actor.index();
        proof {
            lemma_card_seqs_index(round.hands, a as int);
        }
        let ghost p0 = play@;
        let ghost hand0 = round.hands[a as int]@;
        let ghost m0 = self@;
        let declares = play.trick.len() == 0 && marriage_card(card) && holds_card(
            round.hands[a].as_slice(),
            mate(card),
        );
        assert(declares == declares_marriage(p0, hand0, card));
        if declares {
            proof {
                lemma_suit_sets_index(play.declared_marriages, a as int);
                assert(hand0.len() >= 1);
                assert(p0.marriage_points[a as int] + 100 * hand0.len() <= 50_000);
            }
            play.trump = Some(card.suit);
            let single = [card.suit];
            extend_unique_suits(&mut play.declared_marriages[a], single.as_slice());
            proof {
                assert(single@.to_set() =~= set![card.suit]) by {
                    assert(single@[0] == card.suit);
                }
                assert(suit_sets(play.declared_marriages) =~~= p0.declared_marriages.update(
                    a as int,
                    p0.declared_marriages[a as int].insert(card.suit),
                ));
            }
            play.marriage_points[a] = play.marriage_points[a] + marriage_value(card.suit);
            self.push(marriage_message(actor, card.suit));
            assert(play@ =~~= declare_marriage(p0, actor, card.suit));
        }
        let ghost p1 = play@;
        let removed = remove_card(&mut round.hands[a], card);
        play.trick.push(PlayedCard { player: actor, card });
        self.push(play_message(actor, card));
        proof {
            lemma_without_card(hand0, card, card);
            assert(round@.hands =~~= old(round)@.hands.update(a as int, without_card(hand0, card)));
            assert(play@.marriage_points[a as int] + 100 * round@.hands[a as int].len() <= 50_000);
            assert(forall|i: int| 0 <= i < 3 ==> #[trigger] play@.marriage_points[i] + 100 * round@.hands[i].len() <= 50_000);
            assert(forall|i: int| 0 <= i < play@.trick.len() ==> (#[trigger] play@.trick[i]).player.is_valid()) by {
                assert forall|i: int| 0 <= i < play@.trick.len() implies (#[trigger] play@.trick[i]).player.is_valid() by {
                    if i < p1.trick.len() {
                        assert(play@.trick[i] == p1.trick[i]);
                    }
                }
            }
            assert(play@ =~~= PlayModel { trick: p1.trick.push(PlayedCard { player: actor, card }), ..p1 });
            assert(self@.events =~= m0.events + (if declares {
                seq![marriage_event(actor, card.suit), play_event(actor, card)]
            } else {
                seq![play_event(actor, card)]
            }));
        }
        self.advance_play(play, actor, round);
    }

    #[verifier::rlimit(40)]
    fn advance_play(&mut self, play: Play, actor: Seat, round: &mut Round)
        requires
            actor.is_valid(),
            play@.trick.len() <= 3,
            play@.trick.len() > 0,
            forall|i: int| 0 <= i < play@.trick.len() ==> (#[trigger] play@.trick[i]).player.is_valid(),
            play@.contractor.is_valid(),
            play@.captured.len() == 3,
            cards_in(old(round)@.hands) + cards_in(play@.captured) + play@.trick.len() <= card_limit(),
            forall|i: int| 0 <= i < 3 ==> #[trigger] play@.marriage_points[i] + 100 * old(round)@.hands[i].len() <= 50_000,
            scores_in_range(old(self)@.players),
        ensures
            (final(self)@, final(round)@) == advance_play(old(self)@, old(round)@, play@, actor),
    {
        let ghost p1 = play@;
        let mut play = play;
        if play.trick.len() < 3 {
            play.turn = actor.next();
            round.phase = RoundPhase::Play(play);
            proof {
                assert(round@ =~~= advance_play(old(self)@, old(round)@, p1, actor).1);
            }
            return;
        }
        let winner = game_trick_winner(play.trick.as_slice(), play.trump).player;
        proof {
            lemma_trick_winner_seat(play.trick@, play.trump);
        }
        let w = winner.index();
        let mut completed: Vec<PlayedCard<Seat>> = Vec::new();
        std::mem::swap(&mut completed, &mut play.trick);
        proof {
            lemma_card_seqs_index(play.captured, w as int);
        }
        append_trick_cards(&mut play.captured[w], completed.as_slice());
        play.last_trick = completed;
        play.leader = winner;
        play.turn = winner;
        self.push(trick_message(winner));
        proof {
            assert(card_seqs(play.captured) =~~= p1.captured.update(
                w as int,
                p1.captured[w as int] + cards_of_plays(play.last_trick@),
            ));
        }
        if round.hands[0].len() == 0 && round.hands[1].len() == 0 && round.hands[2].len() == 0 {
            proof {
                lemma_card_seqs_index(play.captured, 0);
                lemma_card_seqs_index(play.captured, 1);
                lemma_card_seqs_index(play.captured, 2);
                lemma_card_seqs_index(round.hands, 0);
                lemma_card_seqs_index(round.hands, 1);
                lemma_card_seqs_index(round.hands, 2);
                assert(forall|i: int| 0 <= i < 3 ==> (#[trigger] play.captured[i])@.len() <= card_limit());
                assert(forall|i: int| 0 <= i < 3 ==> #[trigger] play.marriage_points[i] <= 50_000) by {
                    assert(p1.marriage_points[0] + 100 * old(round)@.hands[0].len() <= 50_000);
                    assert(p1.marriage_points[1] + 100 * old(round)@.hands[1].len() <= 50_000);
                    assert(p1.marriage_points[2] + 100 * old(round)@.hands[2].len() <= 50_000);
                }
            }
            let result = self.score_play(round.locked_at_start, &play);
            round.phase = RoundPhase::RoundFinished(result);
        } else {
            round.phase = RoundPhase::Play(play);
        }
        proof {
            let expected = advance_play(old(self)@, old(round)@, p1, actor);
            assert(round@ =~~= expected.1);
            assert(self@ =~~= expected.0);
        }
    }

    fn apply_claim(&mut self, actor: Seat, round: &mut Round) -> (res: Result<(), RuleError>)
        requires
            actor.is_valid(),
            round_wf(old(round)@),
        ensures
            step_matches(
                claim_spec(old(self)@, old(round)@, actor),
                res,
                old(self)@,
                old(round)@,
                final(self)@,
                final(round)@,
            ),
    {
        proof {
            reveal(claim_spec);
        }
        let ph = take_phase(round);
        match ph {
            RoundPhase::Play(play) => {
                if actor != play.leader || actor != play.turn || play.trick.len() != 0 {
                    round.phase = RoundPhase::Play(play);
                    return Err(RuleError::CannotClaim);
                }
                let ghost expected = claim_spec(old(self)@, old(round)@, actor);
                let voters = opponents_in_order(actor);
                round.phase = RoundPhase::ClaimVote(
                    ClaimVote { play, claimant: actor, voters, voter_index: 0 },
                );
                self.push(claim_message(actor));
                proof {
                    assert(round@ =~~= expected->Ok_0.1);
                }
                Ok(())
            },
            other => {
                round.phase = other;
                Err(RuleError::WrongPhase)
            },
        }
    }

    #[verifier::rlimit(40)]
    fn apply_claim_vote(&mut self, actor: Seat, accept: bool, round: &mut Round) -> (res: Result<
        (),
        RuleError,
    >)
        requires
            actor.is_valid(),
            round_wf(old(round)@),
            scores_in_range(old(self)@.players),
        ensures
            step_matches(
                vote_spec(old(self)@, old(round)@, actor, accept),
                res,
                old(self)@,
                old(round)@,
                final(self)@,
                final(round)@,
            ),
    {
        proof {
            reveal(vote_spec);
        }
        let ph = take_phase(round);
        match ph {
            RoundPhase::ClaimVote(mut vote) => {
                if vote.voter_index >= 2 {
                    round.phase = RoundPhase::ClaimVote(vote);
                    return Err(RuleError::WrongPhase);
                }
                if actor != vote.voters[vote.voter_index] {
                    round.phase = RoundPhase::ClaimVote(vote);
                    return Err(RuleError::NotClaimVoter);
                }
                let ghost expected = vote_spec(old(self)@, old(round)@, actor, accept);
                self.push(vote_message(actor, accept));
                let c = vote.claimant.index();
                if !accept {
                    vote.play.open_hands[c] = true;
                    round.phase = RoundPhase::Play(vote.play);
                } else if vote.voter_index + 1 == 2 {
                    let ghost hands0 = round@.hands;
                    let ghost captured0 = vote.play@.captured;
                    let ghost vote0 = vote;
                    proof {
                        lemma_card_seqs_index(vote.play.captured, c as int);
                    }
                    let mut i: usize = 0;
                    while i < 3
                        invariant
                            i <= 3,
                            c < 3,
                            hands0.len() == 3,
                            forall|j: int| 0 <= j < i ==> (#[trigger] round.hands[j])@.len() == 0,
                            forall|j: int| i <= j < 3 ==> (#[trigger] round.hands[j])@ == hands0[j],
                            forall|j: int| 0 <= j < 3 && j != c ==> (#[trigger] vote.play.captured[j])@ == captured0[j],
                            vote.play.captured[c as int]@ == captured0[c as int] + hands_prefix(hands0, i as int),
                            round.seed == old(round).seed,
                            round.dealer == old(round).dealer,
                            round.locked_at_start == old(round).locked_at_start,
                            round.talon == old(round).talon,
                            round.publicly_revealed == old(round).publicly_revealed,
                            vote == (ClaimVote {
                                play: Play { captured: vote.play.captured, ..vote0.play },
                                ..vote0
                            }),
                        decreases 3 - i,
                    {
                        let mut taken: Vec<Card> = Vec::new();
                        std::mem::swap(&mut taken, &mut round.hands[i]);
                        append_cards(&mut vote.play.captured[c], taken.as_slice());
                        i = i + 1;
                    }
                    proof {
                        reveal_with_fuel(hands_prefix, 4);
                        assert(hands_prefix(hands0, 3) =~= hands0[0] + hands0[1] + hands0[2]);
                        lemma_card_seqs_index(vote.play.captured, 0);
                        lemma_card_seqs_index(vote.play.captured, 1);
                        lemma_card_seqs_index(vote.play.captured, 2);
                        assert(forall|i: int| 0 <= i < 3 ==> (#[trigger] vote.play.captured[i])@.len() <= card_limit());
                        assert(forall|i: int| 0 <= i < 3 ==> #[trigger] vote.play.marriage_points[i] <= 50_000) by {
                            assert(vote.play@.marriage_points[0] + 100 * hands0[0].len() <= 50_000);
                            assert(vote.play@.marriage_points[1] + 100 * hands0[1].len() <= 50_000);
                            assert(vote.play@.marriage_points[2] + 100 * hands0[2].len() <= 50_000);
                        }
                    }
                    let result = self.score_play(round.locked_at_start, &vote.play);
                    round.phase = RoundPhase::RoundFinished(result);
                    proof {
                        assert(hands_prefix(hands0, 3) =~= hands0[0] + hands0[1] + hands0[2]);
                        assert(card_seqs(vote.play.captured) =~~= captured0.update(
                            c as int,
                            captured0[c as int] + hands0[0] + hands0[1] + hands0[2],
                        ));
                    }
                } else {
                    vote.voter_index = vote.voter_index + 1;
                    round.phase = RoundPhase::ClaimVote(vote);
                }
                proof {
                    assert(round@ =~~= expected->Ok_0.1);
                    assert(self@ =~~= expected->Ok_0.0);
                }
                Ok(())
            },
            other => {
                round.phase = other;
                Err(RuleError::WrongPhase)
            },
        }
    }

    fn apply_to_round(&mut self, actor: Seat, action: Action, round: &mut Round) -> (res: Result<
        (),
        RuleError,
    >)
        requires
            actor.is_valid(),
            round_wf(old(round)@),
            scores_in_range(old(self)@.players),
        ensures
            step_matches(
                round_step(old(self)@, old(round)@, actor, action@),
                res,
                old(self)@,
                old(round)@,
                final(self)@,
                final(round)@,
            ),
    {
        match action {
            Action::Bid { points } => self.apply_bid(actor, points, round),
            Action::Pass => self.apply_pass(actor, round),
            Action::RespondToProof { reveal } => self.apply_proof_response(actor, reveal, round),
            Action::RevealProof { suits } => self.apply_proof_reveal(actor, suits.as_slice(), round),
            Action::ContinueAfterTalon => Self::continue_after_talon(actor, round),
            Action::Surrender => self.apply_surrender(actor, round),
            Action::Transfer { gifts } => self.apply_transfer(actor, gifts.as_slice(), round),
            Action::ConfirmContract { points } => self.apply_contract(actor, points, round),
            Action::PlayCard { card } => self.apply_card_play(actor, card, round),
            Action::ClaimRemaining => self.apply_claim(actor, round),
            Action::VoteOnClaim { accept } => self.apply_claim_vote(actor, accept, round),
        }
    }

    /// Ends the match when a finished round produced a winner.
    pub fn finish_round(&mut self, round: &Round)
        requires
            round_wf(round@),
        ensures
            final(self)@ == finish_spec(old(self)@, round@),
    {
        match &round.phase {
            RoundPhase::RoundFinished(result) => {
                match match_winner_of(result, self.config.target_score) {
                    Some(winner) => {
                        self.phase = MatchPhase::MatchFinished { winner };
                        assert(self@ =~~= finish_spec(old(self)@, round@));
                    },
                    None => {},
                }
            },
            _ => {},
        }
    }

    /// Applies one authoritative player action.
    ///
    /// A refused action leaves the match exactly as it was.
    pub fn apply(&mut self, actor: Seat, action: Action) -> (r: Result<ApplyOutcome, RuleError>)
        requires
            match_wf(old(self)@),
            scores_in_range(old(self)@.players),
        ensures
            match apply_spec(old(self)@, actor, action@) {
                Ok(m) => r is Ok && final(self)@ == m && event_models(r->Ok_0.events@)
                    == m.events.skip(old(self)@.events.len() as int),
                Err(e) => r == Err::<ApplyOutcome, RuleError>(e) && final(self)@ == old(self)@,
            },
            match_wf(final(self)@),
    {
        proof {
            lemma_apply_keeps_wf(old(self)@, actor, action@);
        }
        if !actor.valid() {
            return Err(RuleError::InvalidSeat);
        }
        let start = self.events.len();
        let mut phase = MatchPhase::WaitingForDeal;
        std::mem::swap(&mut phase, &mut self.phase);
        match phase {
            MatchPhase::Round(boxed) => {
                let mut round: Round = *boxed;
                let ghost m0 = self@;
                let ghost r0 = round@;
                let ghost act = action@;
                assert(m0 == (MatchModel { phase: MatchPhaseModel::WaitingForDeal, ..old(self)@ }));
                let res = self.apply_to_round(actor, action, &mut round);
                match res {
                    Err(e) => {
                        self.phase = MatchPhase::Round(Box::new(round));
                        assert(self@ =~~= old(self)@);
                        return Err(e);
                    },
                    Ok(()) => {},
                }
                let ghost m1 = self@;
                proof {
                    lemma_round_step_keeps_wf(m0, r0, actor, act);
                }
                self.finish_round(&round);
                let finished = match self.phase {
                    MatchPhase::MatchFinished { .. } => true,
                    _ => false,
                };
                if !finished {
                    self.phase = MatchPhase::Round(Box::new(round));
                }
                proof {
                    assert(self@ =~~= settle_round(m1, round@));
                }
                let events = events_since(&self.events, start);
                Ok(ApplyOutcome { events })
            },
            other => {
                self.phase = other;
                assert(self@ =~~= old(self)@);
                Err(RuleError::WrongPhase)
            },
        }
    }

    /// Advances after a displayed round result. The dealer always rotates.
    pub fn acknowledge_round(&mut self) -> (r: Result<(), RuleError>)
        requires
            match_wf(old(self)@),
            old(self).round_index < u64::MAX,
        ensures
            round_is_finished(old(self)@) ==> r is Ok && final(self)@ == acknowledged(old(self)@),
            !round_is_finished(old(self)@) ==> r == Err::<(), RuleError>(RuleError::WrongPhase)
                && final(self)@ == old(self)@,
            match_wf(final(self)@),
    {
        let finished = match &self.phase {
            MatchPhase::Round(round) => match &round.phase {
                RoundPhase::RoundFinished(_) => true,
                _ => false,
            },
            _ => false,
        };
        if !finished {
            return Err(RuleError::WrongPhase);
        }
        self.dealer = self.dealer.next();
        self.round_index = self.round_index + 1;
        self.phase = MatchPhase::WaitingForDeal;
        assert(self@ =~~= acknowledged(old(self)@));
        Ok(())
    }

    /// A new match awaiting its first deal, every score at zero.
    pub fn new(names: [String; 3], config: Config, dealer: Seat) -> (m: Match)
        ensures
            m@ == (MatchModel {
                config,
                players: seq![
                    PlayerModel { name: names[0]@, score: 0, free_surrender_used: false },
                    PlayerModel { name: names[1]@, score: 0, free_surrender_used: false },
                    PlayerModel { name: names[2]@, score: 0, free_surrender_used: false }
                ],
                dealer,
                match_index: 0,
                round_index: 0,
                phase: MatchPhaseModel::WaitingForDeal,
                events: Seq::empty(),
            }),
    {
        let m = Match {
            config,
            players: [
                Player { name: names[0].clone(), score: 0, free_surrender_used: false },
                Player { name: names[1].clone(), score: 0, free_surrender_used: false },
                Player { name: names[2].clone(), score: 0, free_surrender_used: false },
            ],
            dealer,
            match_index: 0,
            round_index: 0,
            phase: MatchPhase::WaitingForDeal,
            events: Vec::new(),
        };
        assert(m@ =~~= (MatchModel {
            config,
            players: seq![
                PlayerModel { name: names[0]@, score: 0, free_surrender_used: false },
                PlayerModel { name: names[1]@, score: 0, free_surrender_used: false },
                PlayerModel { name: names[2]@, score: 0, free_surrender_used: false }
            ],
            dealer,
            match_index: 0,
            round_index: 0,
            phase: MatchPhaseModel::WaitingForDeal,
            events: Seq::empty(),
        }));
        m
    }

    /// Deals an explicitly ordered 24-card game deck, exactly as given.
    pub fn deal_ordered(&mut self, seed: u64, deck: &[Card]) -> (r: Result<(), RuleError>)
        requires
            match_wf(old(self)@),
        ensures
            !(old(self)@.phase is WaitingForDeal) ==> r == Err::<(), RuleError>(RuleError::CannotDeal)
                && final(self)@ == old(self)@,
            old(self)@.phase is WaitingForDeal && !is_game_deck(deck@) ==> r == Err::<
                (),
                RuleError,
            >(RuleError::InvalidDeck) && final(self)@ == old(self)@,
            old(self)@.phase is WaitingForDeal && is_game_deck(deck@) ==> r is Ok && final(self)@
                == deal_spec(old(self)@, seed, deck@),
            match_wf(final(self)@),
    {
        let waiting = match self.phase {
            MatchPhase::WaitingForDeal => true,
            _ => false,
        };
        if !waiting {
            return Err(RuleError::CannotDeal);
        }
        match validate_game_deck(deck) {
            Err(e) => {
                return Err(e);
            },
            Ok(()) => {},
        }
        let (mut hands, talon) = distribute_deal(deck);
        let ghost dealt = dealt_hands(deck@);
        assert(hands[0]@ == dealt[0] && hands[1]@ == dealt[1] && hands[2]@ == dealt[2]);
        sort_hand(&mut hands[0]);
        sort_hand(&mut hands[1]);
        sort_hand(&mut hands[2]);
        proof {
            lemma_sorted_hand_conserves(dealt[0]);
            lemma_sorted_hand_conserves(dealt[1]);
            lemma_sorted_hand_conserves(dealt[2]);
        }
        let opener = self.dealer.next();
        let target = self.config.target_score;
        let lock = self.config.lock_score;
        let locked_at_start = [
            self.players[0].score >= lock && self.players[0].score < target,
            self.players[1].score >= lock && self.players[1].score < target,
            self.players[2].score >= lock && self.players[2].score < target,
        ];
        let dealer = self.dealer;
        let round = Round {
            seed,
            dealer,
            locked_at_start,
            hands,
            talon,
            publicly_revealed: Vec::new(),
            phase: RoundPhase::Auction(
                Auction {
                    opener,
                    turn: opener.next(),
                    highest_bidder: opener,
                    highest_bid: 100,
                    active: [true, true, true],
                    proof: None,
                    revealed_marriages: [Vec::new(), Vec::new(), Vec::new()],
                },
            ),
        };
        proof {
            assert(round@ =~~= dealt_round(old(self)@, seed, deck@));
        }
        self.phase = MatchPhase::Round(Box::new(round));
        self.push(dealt_message(dealer));
        self.push(opens_message(opener));
        proof {
            assert(self@ =~~= deal_spec(old(self)@, seed, deck@));
        }
        Ok(())
    }

    /// Shuffles and deals the next round, reporting how many shuffles were
    /// rejected because a seat would have held all four nines.
    pub fn deal_seeded_with_report(&mut self, seed: u64) -> (r: Result<SeededDeal, RuleError>)
        requires
            match_wf(old(self)@),
        ensures
            !(old(self)@.phase is WaitingForDeal) ==> r == Err::<SeededDeal, RuleError>(
                RuleError::CannotDeal,
            ) && final(self)@ == old(self)@,
            old(self)@.phase is WaitingForDeal ==> match r {
                Ok(d) => {
                    &&& d.order@ == deal_order(seed, d.four_nines_reshuffles)
                    &&& first_clean_attempt(seed, d.four_nines_reshuffles)
                    &&& final(self)@ == deal_spec(
                        reshuffle_reported(old(self)@, d.four_nines_reshuffles),
                        seed,
                        d.order@,
                    )
                },
                Err(e) => {
                    &&& e == RuleError::CannotDeal
                    &&& final(self)@ == old(self)@
                    &&& forall|a: u64| #[trigger] gives_all_nines(deal_order(seed, a))
                },
            },
            match_wf(final(self)@),
    {
        let waiting = match self.phase {
            MatchPhase::WaitingForDeal => true,
            _ => false,
        };
        if !waiting {
            return Err(RuleError::CannotDeal);
        }
        match first_clean_deal(seed) {
            None => Err(RuleError::CannotDeal),
            Some((order, attempt)) => {
                proof {
                    lemma_deal_order_is_game_deck(seed, attempt);
                }
                if attempt > 0 {
                    self.push(reshuffle_message(attempt));
                }
                assert(self@ == reshuffle_reported(old(self)@, attempt));
                let dealt = self.deal_ordered(seed, order.as_slice());
                Ok(SeededDeal { order, four_nines_reshuffles: attempt })
            },
        }
    }

    /// Shuffles and deals the next round from a stable seed, returning the
    /// accepted card order.
    pub fn deal_seeded(&mut self, seed: u64) -> (r: Result<Vec<Card>, RuleError>)
        requires
            match_wf(old(self)@),
        ensures
            !(old(self)@.phase is WaitingForDeal) ==> r == Err::<Vec<Card>, RuleError>(
                RuleError::CannotDeal,
            ) && final(self)@ == old(self)@,
            old(self)@.phase is WaitingForDeal ==> match r {
                Ok(order) => exists|n: u64|
                    {
                        &&& order@ == deal_order(seed, n)
                        &&& #[trigger] first_clean_attempt(seed, n)
                        &&& final(self)@ == deal_spec(reshuffle_reported(old(self)@, n), seed, order@)
                    },
                Err(e) => {
                    &&& e == RuleError::CannotDeal
                    &&& final(self)@ == old(self)@
                    &&& forall|a: u64| #[trigger] gives_all_nines(deal_order(seed, a))
                },
            },
            match_wf(final(self)@),
    {
        match self.deal_seeded_with_report(seed) {
            Ok(deal) => Ok(deal.order),
            Err(e) => Err(e),
        }
    }
}

} // verus!
