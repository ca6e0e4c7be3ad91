//! The game's fixed tables and the rules that read a single hand or trick.
use vstd::prelude::*;

use crate::cards::{
    trick_winner, last_best_play, lemma_last_best_play_range, lemma_last_best_play_dominates,
    lemma_winner_follows_or_trumps, Card, PlayedCard, Rank, Suit, suit_of_index, CardSet,
};
use crate::tysiac::{Play, Proof, ProofPurpose, RuleError, Seat};
use crate::tysiac::model::PlayModel;

verus! {

/// Rank order within the game deck of each suit.
pub open spec fn game_rank_at(i: nat) -> Rank {
    if i == 0 {
        Rank::Nine
    } else if i == 1 {
        Rank::Jack
    } else if i == 2 {
        Rank::Queen
    } else if i == 3 {
        Rank::King
    } else if i == 4 {
        Rank::Ten
    } else {
        Rank::Ace
    }
}

/// The 24-card game deck: per suit nine, jack, queen, king, ten, ace.
pub open spec fn game_deck_spec() -> Seq<Card> {
    Seq::new(24, |k: int| Card { rank: game_rank_at((k % 6) as nat), suit: suit_of_index((k / 6) as nat) })
}

pub open spec fn is_game_rank(r: Rank) -> bool {
    r == Rank::Nine || r == Rank::Jack || r == Rank::Queen || r == Rank::King || r == Rank::Ten
        || r == Rank::Ace
}

pub proof fn lemma_game_deck_contains(c: Card)
    ensures
        game_deck_spec().contains(c) <==> is_game_rank(c.rank),
{
    let d = game_deck_spec();
    if is_game_rank(c.rank) {
        let s: int = match c.suit {
            Suit::Clubs => 0,
            Suit::Diamonds => 1,
            Suit::Hearts => 2,
            Suit::Spades => 3,
        };
        let r: int = match c.rank {
            Rank::Nine => 0,
            Rank::Jack => 1,
            Rank::Queen => 2,
            Rank::King => 3,
            Rank::Ten => 4,
            _ => 5,
        };
        let k = s * 6 + r;
        assert(k / 6 == s && k % 6 == r);
        assert(d[k] == c);
    }
    if d.contains(c) {
        let k = choose|k: int| 0 <= k < 24 && d[k] == c;
        assert(is_game_rank(d[k].rank));
    }
}

pub proof fn lemma_game_deck_distinct()
    ensures
        game_deck_spec().no_duplicates(),
        game_deck_spec().len() == 24,
{
    let d = game_deck_spec();
    assert forall|i: int, j: int| 0 <= i < 24 && 0 <= j < 24 && i != j implies d[i] != d[j] by {
        if d[i] == d[j] {
            assert(i / 6 == j / 6);
            assert(i % 6 == j % 6);
            assert(i == (i / 6) * 6 + i % 6);
            assert(j == (j / 6) * 6 + j % 6);
        }
    }
}

fn game_rank_from_index(i: usize) -> (r: Rank)
    requires
        i < 6,
    ensures
        r == game_rank_at(i as nat),
{
    if i == 0 {
        Rank::Nine
    } else if i == 1 {
        Rank::Jack
    } else if i == 2 {
        Rank::Queen
    } else if i == 3 {
        Rank::King
    } else if i == 4 {
        Rank::Ten
    } else {
        Rank::Ace
    }
}

fn suit_from_index(i: usize) -> (s: Suit)
    requires
        i < 4,
    ensures
        s == suit_of_index(i as nat),
{
    if i == 0 {
        Suit::Clubs
    } else if i == 1 {
        Suit::Diamonds
    } else if i == 2 {
        Suit::Hearts
    } else {
        Suit::Spades
    }
}

/// The 24 cards of the game, suit by suit.
pub fn game_deck() -> (d: Vec<Card>)
    ensures
        d@ == game_deck_spec(),
{
    let mut d: Vec<Card> = Vec::new();
    let mut k: usize = 0;
    while k < 24
        invariant
            k <= 24,
            d@ == game_deck_spec().take(k as int),
        decreases 24 - k,
    {
        let card = Card { rank: game_rank_from_index(k % 6), suit: suit_from_index(k / 6) };
        assert(d@.push(card) == game_deck_spec().take(k as int + 1));
        d.push(card);
        k = k + 1;
    }
    assert(game_deck_spec().take(24) == game_deck_spec());
    d
}

/// A deck is the game deck when it holds each of the 24 game cards once.
pub open spec fn is_game_deck(deck: Seq<Card>) -> bool {
    deck.len() == 24 && deck.to_set() == game_deck_spec().to_set()
}

/// Validates the exact 24 unique cards used by this game.
pub fn validate_game_deck(deck: &[Card]) -> (r: Result<(), RuleError>)
    ensures
        r is Ok <==> is_game_deck(deck@),
        r is Err ==> r == Err::<(), RuleError>(RuleError::InvalidDeck),
{
    let mut seen = CardSet::empty();
    let mut i: usize = 0;
    let mut ok = true;
    while i < deck.len()
        invariant
            i <= deck@.len(),
            ok ==> seen@ == deck@.take(i as int).to_set(),
            ok ==> forall|c: Card| seen@.contains(c) ==> is_game_rank(c.rank),
            !ok ==> !(deck@.to_set() == game_deck_spec().to_set()),
        decreases deck@.len() - i,
    {
        let card = deck[i];
        if ok {
            let ghost prefix = deck@.take(i as int);
            assert(deck@.take(i as int + 1) == prefix.push(card));
            if !is_game_rank_exec(card.rank) {
                ok = false;
                proof {
                    lemma_game_deck_contains(card);
                    assert(deck@.to_set().contains(card));
                }
            } else {
                let _ = seen.insert(card);
                proof {
                    assert forall|x: Card| prefix.push(card).to_set().contains(x)
                        <==> prefix.to_set().insert(card).contains(x) by {
                        if prefix.contains(x) {
                            let j = choose|j: int| 0 <= j < prefix.len() && prefix[j] == x;
                            assert(prefix.push(card)[j] == x);
                        }
                        if x == card {
                            assert(prefix.push(card)[prefix.len() as int] == x);
                        }
                        if prefix.push(card).contains(x) && x != card {
                            let j = choose|j: int|
                                0 <= j < prefix.push(card).len() && prefix.push(card)[j] == x;
                            assert(prefix[j] == x);
                        }
                    }
                    assert(prefix.push(card).to_set() =~= prefix.to_set().insert(card));
                }
            }
        }
        i = i + 1;
    }
    assert(deck@.take(deck@.len() as int) == deck@);
    if !ok {
        return Err(RuleError::InvalidDeck);
    }
    let n = seen.len();
    proof {
        lemma_game_deck_distinct();
        game_deck_spec().unique_seq_to_set();
        if seen@ == game_deck_spec().to_set() {
            assert(n == 24);
        } else {
            // every seen card is a game card, so a missing game card makes the set smaller
            assert(seen@.subset_of(game_deck_spec().to_set())) by {
                assert forall|c: Card| seen@.contains(c) implies game_deck_spec().to_set().contains(c) by {
                    lemma_game_deck_contains(c);
                }
            }
            vstd::set_lib::lemma_len_subset(seen@, game_deck_spec().to_set());
            if seen@.len() == 24 {
                vstd::set_lib::lemma_subset_equality(seen@, game_deck_spec().to_set());
            }
        }
    }
    if deck.len() == 24 && n == 24 {
        Ok(())
    } else {
        Err(RuleError::InvalidDeck)
    }
}

fn is_game_rank_exec(r: Rank) -> (b: bool)
    ensures
        b == is_game_rank(r),
{
    match r {
        Rank::Nine | Rank::Jack | Rank::Queen | Rank::King | Rank::Ten | Rank::Ace => true,
        _ => false,
    }
}

pub open spec fn card_points_spec(c: Card) -> nat {
    match c.rank {
        Rank::Jack => 2,
        Rank::Queen => 3,
        Rank::King => 4,
        Rank::Ten => 10,
        Rank::Ace => 11,
        _ => 0,
    }
}

pub fn card_points(card: Card) -> (p: u16)
    ensures
        p == card_points_spec(card),
{
    match card.rank {
        Rank::Nine | Rank::Two | Rank::Three | Rank::Four | Rank::Five | Rank::Six | Rank::Seven
        | Rank::Eight => 0,
        Rank::Jack => 2,
        Rank::Queen => 3,
        Rank::King => 4,
        Rank::Ten => 10,
        Rank::Ace => 11,
    }
}

pub open spec fn marriage_value_spec(s: Suit) -> nat {
    match s {
        Suit::Spades => 40,
        Suit::Clubs => 60,
        Suit::Diamonds => 80,
        Suit::Hearts => 100,
    }
}

pub fn marriage_value(suit: Suit) -> (v: u16)
    ensures
        v == marriage_value_spec(suit),
{
    match suit {
        Suit::Spades => 40,
        Suit::Clubs => 60,
        Suit::Diamonds => 80,
        Suit::Hearts => 100,
    }
}

/// Whether a hand holds both the queen and the king of `suit`.
pub open spec fn has_marriage(hand: Seq<Card>, suit: Suit) -> bool {
    hand.contains(Card { rank: Rank::Queen, suit }) && hand.contains(Card { rank: Rank::King, suit })
}

/// The suits of the marriages a hand holds, in suit order.
pub open spec fn marriages_spec(hand: Seq<Card>) -> Seq<Suit> {
    seq![Suit::Clubs, Suit::Diamonds, Suit::Hearts, Suit::Spades].filter(
        |s: Suit| has_marriage(hand, s),
    )
}

pub proof fn lemma_filter_step<A>(s: Seq<A>, i: int, pred: spec_fn(A) -> bool)
    requires
        0 <= i < s.len(),
    ensures
        s.take(i + 1).filter(pred) == (if pred(s[i]) {
            s.take(i).filter(pred).push(s[i])
        } else {
            s.take(i).filter(pred)
        }),
{
    let t = s.take(i + 1);
    assert(t.drop_last() =~= s.take(i));
    assert(t.last() == s[i]);
    assert(t.len() > 0);
    reveal_with_fuel(Seq::filter, 2);
    assert(t.filter(pred) == (if pred(t.last()) {
        t.drop_last().filter(pred).push(t.last())
    } else {
        t.drop_last().filter(pred)
    }));
}

/// Total value of a set of marriages.
pub open spec fn marriage_total(suits: Set<Suit>) -> nat {
    (if suits.contains(Suit::Clubs) { 60nat } else { 0nat })
        + (if suits.contains(Suit::Diamonds) { 80nat } else { 0nat })
        + (if suits.contains(Suit::Hearts) { 100nat } else { 0nat })
        + (if suits.contains(Suit::Spades) { 40nat } else { 0nat })
}

pub open spec fn held_marriages(hand: Seq<Card>) -> Set<Suit> {
    Set::new(|s: Suit| has_marriage(hand, s))
}

/// The highest bid or contract a hand supports.
pub open spec fn support_ceiling_spec(hand: Seq<Card>) -> nat {
    120 + marriage_total(held_marriages(hand))
}

fn contains_card(hand: &[Card], card: Card) -> (b: bool)
    ensures
        b == hand@.contains(card),
{
    let mut i: usize = 0;
    while i < hand.len()
        invariant
            i <= hand@.len(),
            forall|j: int| 0 <= j < i ==> hand@[j] != card,
        decreases hand@.len() - i,
    {
        if hand[i] == card {
            return true;
        }
        i = i + 1;
    }
    false
}

pub fn holds_card(hand: &[Card], card: Card) -> (b: bool)
    ensures
        b == hand@.contains(card),
{
    contains_card(hand, card)
}

fn has_marriage_exec(hand: &[Card], suit: Suit) -> (b: bool)
    ensures
        b == has_marriage(hand@, suit),
{
    contains_card(hand, Card { rank: Rank::Queen, suit }) && contains_card(
        hand,
        Card { rank: Rank::King, suit },
    )
}

/// The suits in which the hand holds a marriage, in suit order.
pub fn marriages(hand: &[Card]) -> (m: Vec<Suit>)
    ensures
        m@ == marriages_spec(hand@),
{
    let ghost all = seq![Suit::Clubs, Suit::Diamonds, Suit::Hearts, Suit::Spades];
    let ghost pred = |s: Suit| has_marriage(hand@, s);
    let mut m: Vec<Suit> = Vec::new();
    let suits = [Suit::Clubs, Suit::Diamonds, Suit::Hearts, Suit::Spades];
    let mut i: usize = 0;
    assert(all.take(0).filter(pred) =~= Seq::<Suit>::empty());
    while i < 4
        invariant
            i <= 4,
            suits@ == all,
            m@ == all.take(i as int).filter(pred),
            pred == (|s: Suit| has_marriage(hand@, s)),
        decreases 4 - i,
    {
        let suit = suits[i];
        proof {
            lemma_filter_step(all, i as int, pred);
        }
        if has_marriage_exec(hand, suit) {
            m.push(suit);
        }
        i = i + 1;
    }
    assert(all.take(4) =~= all);
    m
}

pub proof fn lemma_marriages_set(hand: Seq<Card>)
    ensures
        marriages_spec(hand).to_set() == held_marriages(hand),
        marriages_spec(hand).no_duplicates(),
{
    let all = seq![Suit::Clubs, Suit::Diamonds, Suit::Hearts, Suit::Spades];
    let pred = |s: Suit| has_marriage(hand, s);
    let f = all.filter(pred);
    assert(all.drop_last() =~= seq![Suit::Clubs, Suit::Diamonds, Suit::Hearts]);
    assert(all.drop_last().drop_last() =~= seq![Suit::Clubs, Suit::Diamonds]);
    assert(all.drop_last().drop_last().drop_last() =~= seq![Suit::Clubs]);
    assert(seq![Suit::Clubs].drop_last() =~= Seq::<Suit>::empty());
    reveal_with_fuel(Seq::filter, 5);
    assert forall|s: Suit| f.contains(s) <==> held_marriages(hand).contains(s) by {
        broadcast use vstd::seq_lib::group_filter_ensures;
        if held_marriages(hand).contains(s) {
            let k: int = match s {
                Suit::Clubs => 0,
                Suit::Diamonds => 1,
                Suit::Hearts => 2,
                Suit::Spades => 3,
            };
            assert(all[k] == s);
        }
    }
    assert(f.to_set() =~= held_marriages(hand));
}

/// Total value of the marriages a list names, each suit counted once.
pub fn total_of_suits(suits: &[Suit]) -> (t: u16)
    ensures
        t == marriage_total(suits@.to_set()),
{
    let mut t: u16 = 0;
    if contains_suit(suits, Suit::Clubs) {
        t = t + 60;
    }
    if contains_suit(suits, Suit::Diamonds) {
        t = t + 80;
    }
    if contains_suit(suits, Suit::Hearts) {
        t = t + 100;
    }
    if contains_suit(suits, Suit::Spades) {
        t = t + 40;
    }
    t
}

pub fn contains_suit(suits: &[Suit], suit: Suit) -> (b: bool)
    ensures
        b == suits@.contains(suit),
        b == suits@.to_set().contains(suit),
{
    let mut i: usize = 0;
    while i < suits.len()
        invariant
            i <= suits@.len(),
            forall|j: int| 0 <= j < i ==> suits@[j] != suit,
        decreases suits@.len() - i,
    {
        if suits[i] == suit {
            return true;
        }
        i = i + 1;
    }
    false
}

/// The highest bid or contract the marriages in `hand` support.
pub fn support_ceiling(hand: &[Card]) -> (c: u16)
    ensures
        c == support_ceiling_spec(hand@),
{
    let held = marriages(hand);
    proof {
        lemma_marriages_set(hand@);
    }
    120 + total_of_suits(held.as_slice())
}

/// The ceiling granted by marriages already shown.
pub fn revealed_ceiling(suits: &[Suit]) -> (c: u16)
    ensures
        c == 120 + marriage_total(suits@.to_set()),
{
    120 + total_of_suits(suits)
}

pub open spec fn round_to_ten_spec(points: int) -> int {
    if points >= 0 {
        ((points + 5) / 10) * 10
    } else {
        -((((-points) + 5) / 10) * 10)
    }
}

/// Rounds to the nearest multiple of ten, halves away from zero.
pub fn round_to_ten(points: i32) -> (r: i32)
    requires
        -2_000_000_000 <= points <= 2_000_000_000,
    ensures
        r == round_to_ten_spec(points as int),
{
    if points >= 0 {
        ((points + 5) / 10) * 10
    } else {
        let q = ((0 - points) + 5) / 10;
        let r = 0 - q * 10;
        r
    }
}

pub open spec fn strength_spec(r: Rank) -> u8 {
    match r {
        Rank::Jack => 1,
        Rank::Queen => 2,
        Rank::King => 3,
        Rank::Ten => 4,
        Rank::Ace => 5,
        _ => 0,
    }
}

pub fn game_rank_strength(rank: Rank) -> (s: u8)
    ensures
        s == strength_spec(rank),
{
    match rank {
        Rank::Nine | Rank::Two | Rank::Three | Rank::Four | Rank::Five | Rank::Six | Rank::Seven
        | Rank::Eight => 0,
        Rank::Jack => 1,
        Rank::Queen => 2,
        Rank::King => 3,
        Rank::Ten => 4,
        Rank::Ace => 5,
    }
}

/// Game strengths of the cards of a trick.
pub open spec fn trick_strengths(trick: Seq<PlayedCard<Seat>>) -> Seq<u8> {
    Seq::new(trick.len(), |j: int| strength_spec(trick[j].card.rank))
}

/// The play that currently wins a non-empty trick under the game's strengths.
pub open spec fn trick_leader_play(trick: Seq<PlayedCard<Seat>>, trump: Option<Suit>) -> PlayedCard<Seat> {
    trick[last_best_play(trick, trick_strengths(trick), trump, trick.len())]
}

/// The trick winner under the game's rank strength.
pub fn game_trick_winner(trick: &[PlayedCard<Seat>], trump: Option<Suit>) -> (w: PlayedCard<Seat>)
    requires
        trick@.len() > 0,
    ensures
        w == trick_leader_play(trick@, trump),
{
    let r = trick_winner(trick, trump, game_rank_strength);
    proof {
        let ks = choose|ks: Seq<u8>|
            {
                &&& ks.len() == trick@.len()
                &&& forall|j: int|
                    0 <= j < ks.len() ==> call_ensures(
                        game_rank_strength,
                        (trick@[j].card.rank,),
                        #[trigger] ks[j],
                    )
                &&& r == Some(trick@[last_best_play(trick@, ks, trump, trick@.len())])
            };
        assert forall|j: int| 0 <= j < ks.len() implies ks[j] == trick_strengths(trick@)[j] by {
            assert(call_ensures(game_rank_strength, (trick@[j].card.rank,), ks[j]));
        }
        assert(ks =~= trick_strengths(trick@));
    }
    match r {
        Some(w) => w,
        None => trick[0],
    }
}

/// The cards a player may play to the current trick: follow the led suit, and
/// beat the winning led-suit card when possible; trumping is never forced.
pub open spec fn legal_cards_spec(hand: Seq<Card>, trick: Seq<PlayedCard<Seat>>, trump: Option<Suit>) -> Seq<Card> {
    if trick.len() == 0 {
        hand
    } else {
        let lead = trick[0].card.suit;
        let led = hand.filter(|c: Card| c.suit == lead);
        if led.len() == 0 {
            hand
        } else {
            let winner = trick_leader_play(trick, trump).card;
            if winner.suit != lead {
                led
            } else {
                let higher = led.filter(
                    |c: Card| strength_spec(c.rank) > strength_spec(winner.rank),
                );
                if higher.len() == 0 {
                    led
                } else {
                    higher
                }
            }
        }
    }
}

fn copy_cards(cards: &[Card]) -> (v: Vec<Card>)
    ensures
        v@ == cards@,
{
    let mut v: Vec<Card> = Vec::new();
    let mut i: usize = 0;
    while i < cards.len()
        invariant
            i <= cards@.len(),
            v@ == cards@.take(i as int),
        decreases cards@.len() - i,
    {
        assert(cards@.take(i as int + 1) == v@.push(cards@[i as int]));
        v.push(cards[i]);
        i = i + 1;
    }
    assert(cards@.take(cards@.len() as int) == cards@);
    v
}

pub fn clone_cards(cards: &[Card]) -> (v: Vec<Card>)
    ensures
        v@ == cards@,
{
    copy_cards(cards)
}

fn cards_of_suit(hand: &[Card], suit: Suit) -> (v: Vec<Card>)
    ensures
        v@ == hand@.filter(|c: Card| c.suit == suit),
{
    let ghost pred = |c: Card| c.suit == suit;
    let mut v: Vec<Card> = Vec::new();
    let mut i: usize = 0;
    assert(hand@.take(0).filter(pred) =~= Seq::<Card>::empty());
    while i < hand.len()
        invariant
            i <= hand@.len(),
            v@ == hand@.take(i as int).filter(pred),
            pred == (|c: Card| c.suit == suit),
        decreases hand@.len() - i,
    {
        proof {
            lemma_filter_step(hand@, i as int, pred);
        }
        if hand[i].suit == suit {
            v.push(hand[i]);
        }
        i = i + 1;
    }
    assert(hand@.take(hand@.len() as int) =~= hand@);
    v
}

fn cards_stronger_than(cards: &[Card], floor: u8) -> (v: Vec<Card>)
    ensures
        v@ == cards@.filter(|c: Card| strength_spec(c.rank) > floor),
{
    let ghost pred = |c: Card| strength_spec(c.rank) > floor;
    let mut v: Vec<Card> = Vec::new();
    let mut i: usize = 0;
    assert(cards@.take(0).filter(pred) =~= Seq::<Card>::empty());
    while i < cards.len()
        invariant
            i <= cards@.len(),
            v@ == cards@.take(i as int).filter(pred),
            pred == (|c: Card| strength_spec(c.rank) > floor),
        decreases cards@.len() - i,
    {
        proof {
            lemma_filter_step(cards@, i as int, pred);
        }
        if game_rank_strength(cards[i].rank) > floor {
            v.push(cards[i]);
        }
        i = i + 1;
    }
    assert(cards@.take(cards@.len() as int) =~= cards@);
    v
}

/// The cards of `hand` that may legally be played to `trick`.
pub fn legal_cards(hand: &[Card], trick: &[PlayedCard<Seat>], trump: Option<Suit>) -> (v: Vec<Card>)
    ensures
        v@ == legal_cards_spec(hand@, trick@, trump),
{
    if trick.len() == 0 {
        return copy_cards(hand);
    }
    let lead = trick[0].card.suit;
    let led_cards = cards_of_suit(hand, lead);
    if led_cards.len() == 0 {
        return copy_cards(hand);
    }
    let winner = game_trick_winner(trick, trump).card;
    if winner.suit != lead {
        return led_cards;
    }
    let higher = cards_stronger_than(led_cards.as_slice(), game_rank_strength(winner.rank));
    if higher.len() == 0 {
        led_cards
    } else {
        higher
    }
}

/// Bids and contracts are multiples of ten from 100 up to what the hand supports.
pub open spec fn supported(hand: Seq<Card>, points: u16) -> bool {
    points <= support_ceiling_spec(hand) && points >= 100 && points % 10 == 0
}

pub fn ensure_supported(hand: &[Card], points: u16) -> (r: Result<(), RuleError>)
    ensures
        r is Ok <==> supported(hand@, points),
        r is Err ==> r == Err::<(), RuleError>(RuleError::UnsupportedPoints),
{
    if points <= support_ceiling(hand) && points >= 100 && points % 10 == 0 {
        Ok(())
    } else {
        Err(RuleError::UnsupportedPoints)
    }
}

pub open spec fn opponents_spec(seat: Seat) -> [Seat; 2] {
    [seat.following(), seat.following().following()]
}

pub fn opponents_in_order(seat: Seat) -> (o: [Seat; 2])
    requires
        seat.0 < 250,
    ensures
        o == opponents_spec(seat),
{
    let first = seat.next();
    [first, first.next()]
}

pub open spec fn new_proof_spec(purpose: ProofPurpose, bidder: Seat, points: u16) -> Proof {
    Proof {
        purpose,
        bidder,
        points,
        responders: opponents_spec(bidder),
        responder_index: 0,
        reveal_required: false,
    }
}

pub fn new_proof(purpose: ProofPurpose, bidder: Seat, points: u16) -> (p: Proof)
    requires
        bidder.0 < 250,
    ensures
        p == new_proof_spec(purpose, bidder, points),
{
    Proof {
        purpose,
        bidder,
        points,
        responders: opponents_in_order(bidder),
        responder_index: 0,
        reveal_required: false,
    }
}

pub open spec fn new_play_spec(contractor: Seat, contract: u16) -> PlayModel {
    PlayModel {
        contractor,
        contract,
        leader: contractor,
        turn: contractor,
        trump: None,
        trick: Seq::empty(),
        last_trick: Seq::empty(),
        captured: seq![Seq::empty(), Seq::empty(), Seq::empty()],
        marriage_points: seq![0u16, 0u16, 0u16],
        declared_marriages: seq![Set::empty(), Set::empty(), Set::empty()],
        open_hands: seq![false, false, false],
    }
}

/// The opening state of trick play for a confirmed contract.
pub fn new_play(contractor: Seat, contract: u16) -> (p: Play)
    ensures
        p@ =~~= new_play_spec(contractor, contract),
{
    let p = Play {
        contractor,
        contract,
        leader: contractor,
        turn: contractor,
        trump: None,
        trick: Vec::new(),
        last_trick: Vec::new(),
        captured: [Vec::new(), Vec::new(), Vec::new()],
        marriage_points: [0, 0, 0],
        declared_marriages: [Vec::new(), Vec::new(), Vec::new()],
        open_hands: [false, false, false],
    };
    assert(p@.captured =~~= new_play_spec(contractor, contract).captured);
    assert(p@.declared_marriages =~~= new_play_spec(contractor, contract).declared_marriages);
    assert(p@.marriage_points =~= seq![0u16, 0u16, 0u16]);
    assert(p@.open_hands =~= seq![false, false, false]);
    p
}

/// Deltas after locked defenders lose any gain.
pub open spec fn suppress_spec(deltas: Seq<i32>, locked: Seq<bool>, contractor: Seat) -> Seq<i32> {
    Seq::new(
        3,
        |i: int|
            if i != contractor.0 && locked[i] && deltas[i] > 0 {
                0i32
            } else {
                deltas[i]
            },
    )
}

/// A defender who was locked at the start of the round cannot gain points.
pub fn suppress_locked_defenders(deltas: &mut [i32; 3], locked: [bool; 3], contractor: Seat)
    ensures
        final(deltas)@ == suppress_spec(old(deltas)@, locked@, contractor),
{
    let ghost before = deltas@;
    let mut i: usize = 0;
    while i < 3
        invariant
            i <= 3,
            forall|j: int| 0 <= j < i ==> deltas@[j] == suppress_spec(before, locked@, contractor)[j],
            forall|j: int| i <= j < 3 ==> deltas@[j] == before[j],
        decreases 3 - i,
    {
        if i != contractor.0 as usize && locked[i] && deltas[i] > 0 {
            deltas[i] = 0;
        }
        i = i + 1;
    }
    assert(deltas@ =~= suppress_spec(before, locked@, contractor));
}

/// The first active seat after `after`, going round the table.
pub open spec fn next_active_spec(after: Seat, active: Seq<bool>) -> Option<Seat> {
    let a = after.following();
    let b = a.following();
    let c = b.following();
    if active[a.0 as int] {
        Some(a)
    } else if active[b.0 as int] {
        Some(b)
    } else if active[c.0 as int] {
        Some(c)
    } else {
        None
    }
}

pub fn next_active(after: Seat, active: [bool; 3]) -> (s: Option<Seat>)
    requires
        after.0 < 250,
    ensures
        s == next_active_spec(after, active@),
{
    let a = after.next();
    let b = a.next();
    let c = b.next();
    if active[a.index()] {
        Some(a)
    } else if active[b.index()] {
        Some(b)
    } else if active[c.index()] {
        Some(c)
    } else {
        None
    }
}

pub open spec fn is_marriage_card(c: Card) -> bool {
    c.rank == Rank::Queen || c.rank == Rank::King
}

/// The other half of a marriage.
pub open spec fn mate_spec(c: Card) -> Card {
    Card { rank: if c.rank == Rank::Queen { Rank::King } else { Rank::Queen }, suit: c.suit }
}

pub fn marriage_card(card: Card) -> (b: bool)
    ensures
        b == is_marriage_card(card),
{
    match card.rank {
        Rank::Queen | Rank::King => true,
        _ => false,
    }
}

pub fn mate(card: Card) -> (m: Card)
    ensures
        m == mate_spec(card),
{
    Card { rank: if card.rank == Rank::Queen { Rank::King } else { Rank::Queen }, suit: card.suit }
}

/// Position of the first copy of `card`.
pub open spec fn first_index_of(hand: Seq<Card>, card: Card) -> int {
    choose|i: int| 0 <= i < hand.len() && hand[i] == card && forall|j: int| 0 <= j < i ==> hand[j] != card
}

/// A hand with the first copy of `card` taken out.
pub open spec fn without_card(hand: Seq<Card>, card: Card) -> Seq<Card> {
    hand.remove(first_index_of(hand, card))
}

pub fn remove_card(hand: &mut Vec<Card>, card: Card) -> (r: Result<(), RuleError>)
    ensures
        old(hand)@.contains(card) ==> r is Ok && final(hand)@ == without_card(old(hand)@, card),
        !old(hand)@.contains(card) ==> r == Err::<(), RuleError>(RuleError::CardNotHeld)
            && final(hand)@ == old(hand)@,
{
    let mut i: usize = 0;
    while i < hand.len()
        invariant
            i <= hand@.len(),
            hand@ == old(hand)@,
            forall|j: int| 0 <= j < i ==> hand@[j] != card,
        decreases hand@.len() - i,
    {
        if hand[i] == card {
            proof {
                let k = first_index_of(hand@, card);
                assert(0 <= k < hand@.len() && hand@[k] == card && forall|j: int| 0 <= j < k ==> hand@[j] != card);
                if k < i {
                    assert(hand@[k] != card);
                }
                if k > i {
                    assert(hand@[i as int] != card);
                }
            }
            hand.remove(i);
            return Ok(());
        }
        i = i + 1;
    }
    Err(RuleError::CardNotHeld)
}

/// Key by which hands are sorted: suit group, then strength.
pub open spec fn hand_key(c: Card) -> nat {
    let group: nat = match c.suit {
        Suit::Spades => 0,
        Suit::Clubs => 1,
        Suit::Diamonds => 2,
        Suit::Hearts => 3,
    };
    group * 10 + strength_spec(c.rank) as nat
}

/// Where a card goes in an ordered hand: after every card whose key is not greater.
pub open spec fn insert_pos(s: Seq<Card>, c: Card) -> nat
    decreases s.len(),
{
    if s.len() == 0 || hand_key(s.last()) <= hand_key(c) {
        s.len()
    } else {
        insert_pos(s.drop_last(), c)
    }
}

/// A hand ordered by `hand_key`, keeping cards with equal keys in their
/// original order.
pub open spec fn sorted_hand(s: Seq<Card>) -> Seq<Card>
    decreases s.len(),
{
    if s.len() == 0 {
        s
    } else {
        let rest = sorted_hand(s.drop_last());
        rest.insert(insert_pos(rest, s.last()) as int, s.last())
    }
}

pub proof fn lemma_insert_pos_range(s: Seq<Card>, c: Card)
    ensures
        insert_pos(s, c) <= s.len(),
    decreases s.len(),
{
    if s.len() > 0 {
        lemma_insert_pos_range(s.drop_last(), c);
    }
}

pub proof fn lemma_sorted_hand_conserves(s: Seq<Card>)
    ensures
        sorted_hand(s).len() == s.len(),
        sorted_hand(s).to_multiset() =~= s.to_multiset(),
    decreases s.len(),
{
    broadcast use vstd::seq_lib::to_multiset_insert, vstd::seq_lib::to_multiset_build;
    if s.len() > 0 {
        let rest = sorted_hand(s.drop_last());
        lemma_sorted_hand_conserves(s.drop_last());
        lemma_insert_pos_range(rest, s.last());
        assert(s.drop_last().push(s.last()) =~= s);
    }
}

fn hand_key_exec(c: Card) -> (k: u8)
    ensures
        k == hand_key(c),
{
    let group: u8 = match c.suit {
        Suit::Spades => 0,
        Suit::Clubs => 1,
        Suit::Diamonds => 2,
        Suit::Hearts => 3,
    };
    group * 10 + game_rank_strength(c.rank)
}

/// Orders a hand by suit group (spades, clubs, diamonds, hearts) and strength.
pub fn sort_hand(hand: &mut Vec<Card>)
    ensures
        final(hand)@ == sorted_hand(old(hand)@),
{
    let input = copy_cards(hand.as_slice());
    let mut out: Vec<Card> = Vec::new();
    let mut i: usize = 0;
    while i < input.len()
        invariant
            i <= input@.len(),
            input@ == old(hand)@,
            out@ == sorted_hand(input@.take(i as int)),
        decreases input@.len() - i,
    {
        let c = input[i];
        assert(input@.take(i as int + 1).drop_last() =~= input@.take(i as int));
        let mut p = out.len();
        assert(out@.take(out@.len() as int) =~= out@);
        while p > 0 && hand_key_exec(out[p - 1]) > hand_key_exec(c)
            invariant
                p <= out@.len(),
                insert_pos(out@, c) == insert_pos(out@.take(p as int), c),
            decreases p,
        {
            assert(out@.take(p as int).drop_last() =~= out@.take(p - 1));
            assert(out@.take(p as int).last() == out@[p - 1]);
            p = p - 1;
        }
        proof {
            assert(insert_pos(out@.take(p as int), c) == p) by {
                if p > 0 {
                    assert(out@.take(p as int).last() == out@[p - 1]);
                }
            }
            assert(out@.take(out@.len() as int) =~= out@);
        }
        out.insert(p, c);
        i = i + 1;
    }
    assert(input@.take(input@.len() as int) =~= input@);
    *hand = out;
}

/// Deals a 24-card order: three circuits of seat one, seat two, a talon card,
/// seat three; then four circuits of one card to each seat.
pub open spec fn dealt_hands(d: Seq<Card>) -> Seq<Seq<Card>> {
    seq![
        seq![d[0], d[4], d[8], d[12], d[15], d[18], d[21]],
        seq![d[1], d[5], d[9], d[13], d[16], d[19], d[22]],
        seq![d[3], d[7], d[11], d[14], d[17], d[20], d[23]]
    ]
}

pub open spec fn dealt_talon(d: Seq<Card>) -> Seq<Card> {
    seq![d[2], d[6], d[10]]
}

pub fn distribute_deal(deck: &[Card]) -> (r: ([Vec<Card>; 3], Vec<Card>))
    requires
        deck@.len() >= 24,
    ensures
        seq![r.0[0]@, r.0[1]@, r.0[2]@] == dealt_hands(deck@),
        r.1@ == dealt_talon(deck@),
{
    let mut h0: Vec<Card> = Vec::new();
    let mut h1: Vec<Card> = Vec::new();
    let mut h2: Vec<Card> = Vec::new();
    let mut talon: Vec<Card> = Vec::new();
    let mut cursor: usize = 0;
    let mut round: usize = 0;
    while round < 3
        invariant
            round <= 3,
            cursor == 4 * round,
            deck@.len() >= 24,
            h0@ == Seq::new(round as nat, |k: int| deck@[4 * k]),
            h1@ == Seq::new(round as nat, |k: int| deck@[4 * k + 1]),
            talon@ == Seq::new(round as nat, |k: int| deck@[4 * k + 2]),
            h2@ == Seq::new(round as nat, |k: int| deck@[4 * k + 3]),
        decreases 3 - round,
    {
        h0.push(deck[cursor]);
        h1.push(deck[cursor + 1]);
        talon.push(deck[cursor + 2]);
        h2.push(deck[cursor + 3]);
        cursor = cursor + 4;
        round = round + 1;
        assert(h0@ =~= Seq::new(round as nat, |k: int| deck@[4 * k]));
        assert(h1@ =~= Seq::new(round as nat, |k: int| deck@[4 * k + 1]));
        assert(talon@ =~= Seq::new(round as nat, |k: int| deck@[4 * k + 2]));
        assert(h2@ =~= Seq::new(round as nat, |k: int| deck@[4 * k + 3]));
    }
    let mut round: usize = 0;
    while round < 4
        invariant
            round <= 4,
            cursor == 12 + 3 * round,
            deck@.len() >= 24,
            h0@ == Seq::new(3, |k: int| deck@[4 * k]) + Seq::new(round as nat, |k: int| deck@[12 + 3 * k]),
            h1@ == Seq::new(3, |k: int| deck@[4 * k + 1]) + Seq::new(round as nat, |k: int| deck@[13 + 3 * k]),
            h2@ == Seq::new(3, |k: int| deck@[4 * k + 3]) + Seq::new(round as nat, |k: int| deck@[14 + 3 * k]),
            talon@ == Seq::new(3, |k: int| deck@[4 * k + 2]),
        decreases 4 - round,
    {
        h0.push(deck[cursor]);
        h1.push(deck[cursor + 1]);
        h2.push(deck[cursor + 2]);
        cursor = cursor + 3;
        round = round + 1;
        assert(h0@ =~= Seq::new(3, |k: int| deck@[4 * k]) + Seq::new(round as nat, |k: int| deck@[12 + 3 * k]));
        assert(h1@ =~= Seq::new(3, |k: int| deck@[4 * k + 1]) + Seq::new(round as nat, |k: int| deck@[13 + 3 * k]));
        assert(h2@ =~= Seq::new(3, |k: int| deck@[4 * k + 3]) + Seq::new(round as nat, |k: int| deck@[14 + 3 * k]));
    }
    let hands = [h0, h1, h2];
    assert(hands[0]@ =~= dealt_hands(deck@)[0]);
    assert(hands[1]@ =~= dealt_hands(deck@)[1]);
    assert(hands[2]@ =~= dealt_hands(deck@)[2]);
    assert(talon@ =~= dealt_talon(deck@));
    assert(seq![hands[0]@, hands[1]@, hands[2]@] =~= dealt_hands(deck@));
    (hands, talon)
}

pub open spec fn holds_all_nines(hand: Seq<Card>) -> bool {
    &&& hand.contains(Card { rank: Rank::Nine, suit: Suit::Clubs })
    &&& hand.contains(Card { rank: Rank::Nine, suit: Suit::Diamonds })
    &&& hand.contains(Card { rank: Rank::Nine, suit: Suit::Hearts })
    &&& hand.contains(Card { rank: Rank::Nine, suit: Suit::Spades })
}

/// Whether a hand holds the nine of every suit.
pub fn has_all_nines(hand: &[Card]) -> (b: bool)
    ensures
        b == holds_all_nines(hand@),
{
    let r = contains_card(hand, Card { rank: Rank::Nine, suit: Suit::Clubs })
        && contains_card(hand, Card { rank: Rank::Nine, suit: Suit::Diamonds })
        && contains_card(hand, Card { rank: Rank::Nine, suit: Suit::Hearts })
        && contains_card(hand, Card { rank: Rank::Nine, suit: Suit::Spades });
    r
}

/// Taking a held card out shortens the hand by one and keeps every other card.
pub proof fn lemma_without_card(hand: Seq<Card>, card: Card, other: Card)
    requires
        hand.contains(card),
    ensures
        without_card(hand, card).len() == hand.len() - 1,
        other != card && hand.contains(other) ==> without_card(hand, card).contains(other),
{
    let k = first_index_of(hand, card);
    let j0 = choose|j: int| 0 <= j < hand.len() && hand[j] == card;
    lemma_first_occurrence(hand, card, j0);
    if other != card && hand.contains(other) {
        let j = choose|j: int| 0 <= j < hand.len() && hand[j] == other;
        if j < k {
            assert(without_card(hand, card)[j] == other);
        } else {
            assert(j != k);
            assert(without_card(hand, card)[j - 1] == other);
        }
    }
}

pub proof fn lemma_first_occurrence(hand: Seq<Card>, card: Card, j: int)
    requires
        0 <= j < hand.len(),
        hand[j] == card,
    ensures
        exists|i: int|
            0 <= i < hand.len() && hand[i] == card && forall|k: int| 0 <= k < i ==> hand[k] != card,
    decreases j,
{
    if exists|k: int| 0 <= k < j && hand[k] == card {
        let k = choose|k: int| 0 <= k < j && hand[k] == card;
        lemma_first_occurrence(hand, card, k);
    } else {
        assert(forall|k: int| 0 <= k < j ==> hand[k] != card);
    }
}

/// A trick whose plays all come from real seats is won by a real seat.
/// Whether `c` is of the led suit and stronger than every card of the led
/// suit played to the trick so far.
pub open spec fn beats_led_cards(c: Card, trick: Seq<PlayedCard<Seat>>) -> bool {
    &&& c.suit == trick[0].card.suit
    &&& forall|i: int|
        0 <= i < trick.len() && (#[trigger] trick[i]).card.suit == c.suit ==> strength_spec(c.rank)
            > strength_spec(trick[i].card.rank)
}

/// A hand that can beat the trick must: where no trump of another suit lies in
/// the trick and the hand holds a led-suit card stronger than every led-suit
/// card played, the legal cards are exactly the hand's cards of the led suit
/// that are stronger than every led-suit card played.
pub proof fn lemma_must_beat_the_trick(
    hand: Seq<Card>,
    trick: Seq<PlayedCard<Seat>>,
    trump: Option<Suit>,
    h: Card,
)
    requires
        trick.len() > 0,
        forall|i: int|
            0 <= i < trick.len() && trump == Some((#[trigger] trick[i]).card.suit) ==> trick[i].card.suit
                == trick[0].card.suit,
        hand.contains(h),
        beats_led_cards(h, trick),
    ensures
        forall|c: Card|
            #[trigger] legal_cards_spec(hand, trick, trump).contains(c) <==> hand.contains(c)
                && beats_led_cards(c, trick),
{
    let lead = trick[0].card.suit;
    let led_pred = |x: Card| x.suit == lead;
    let led = hand.filter(led_pred);
    let ks = trick_strengths(trick);
    lemma_winner_follows_or_trumps(trick, ks, trump, trick.len());
    lemma_last_best_play_range(trick, ks, trump, trick.len());
    let w = last_best_play(trick, ks, trump, trick.len());
    let winner = trick[w].card;
    assert(winner == trick_leader_play(trick, trump).card);
    assert(winner.suit == lead);
    // The winner is the strongest led-suit card of the trick.
    assert forall|i: int| 0 <= i < trick.len() && (#[trigger] trick[i]).card.suit == lead implies strength_spec(
        winner.rank,
    ) >= strength_spec(trick[i].card.rank) by {
        lemma_last_best_play_dominates(trick, ks, trump, trick.len(), i);
    }
    // Beating the winner is beating every led-suit card.
    assert forall|c: Card| c.suit == lead implies (strength_spec(c.rank) > strength_spec(winner.rank)
        <==> beats_led_cards(c, trick)) by {
        if strength_spec(c.rank) > strength_spec(winner.rank) {
            assert forall|i: int|
                0 <= i < trick.len() && (#[trigger] trick[i]).card.suit == c.suit implies strength_spec(
                c.rank,
            ) > strength_spec(trick[i].card.rank) by {
                assert(trick[i].card.suit == lead);
            }
        }
        if beats_led_cards(c, trick) {
            assert(trick[w].card.suit == c.suit);
        }
    }
    hand.lemma_filter_contains(led_pred, hand.index_of(h));
    assert(led.contains(h));
    assert(led.len() > 0);
    let higher_pred = |x: Card| strength_spec(x.rank) > strength_spec(winner.rank);
    let higher = led.filter(higher_pred);
    led.lemma_filter_contains(higher_pred, led.index_of(h));
    assert(higher.contains(h));
    assert(legal_cards_spec(hand, trick, trump) == higher);
    assert forall|c: Card| #[trigger] legal_cards_spec(hand, trick, trump).contains(c) <==> hand.contains(c)
        && beats_led_cards(c, trick) by {
        if higher.contains(c) {
            let k = higher.index_of(c);
            led.lemma_filter_pred(higher_pred, k);
            led.lemma_filter_contains_rev(higher_pred, c);
            let k2 = led.index_of(c);
            hand.lemma_filter_pred(led_pred, k2);
            hand.lemma_filter_contains_rev(led_pred, c);
        }
        if hand.contains(c) && beats_led_cards(c, trick) {
            hand.lemma_filter_contains(led_pred, hand.index_of(c));
            led.lemma_filter_contains(higher_pred, led.index_of(c));
        }
    }
}

pub proof fn lemma_trick_winner_seat(trick: Seq<PlayedCard<Seat>>, trump: Option<Suit>)
    requires
        trick.len() > 0,
        forall|i: int| 0 <= i < trick.len() ==> (#[trigger] trick[i]).player.is_valid(),
    ensures
        trick_leader_play(trick, trump).player.is_valid(),
        trick.contains(trick_leader_play(trick, trump)),
{
    lemma_last_best_play_range(trick, trick_strengths(trick), trump, trick.len());
    let k = last_best_play(trick, trick_strengths(trick), trump, trick.len());
    assert(trick[k] == trick_leader_play(trick, trump));
}

} // verus!
