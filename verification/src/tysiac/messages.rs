//! The text of every event the engine records.
use vstd::prelude::*;

use crate::cards::{card_text, Card, Suit};
use crate::text::{decimal, list_text, push_decimal, push_triple};
use crate::tysiac::{EventKind, GameEvent, Seat};
use crate::tysiac::model::EventModel;
use crate::tysiac::rules::marriage_value_spec;

verus! {

/// "seat N", counting seats from one.
pub open spec fn seat_text(s: Seat) -> Seq<char> {
    "seat "@ + decimal((s.0 + 1) as nat)
}

pub open spec fn suit_name(s: Suit) -> Seq<char> {
    match s {
        Suit::Clubs => "Clubs"@,
        Suit::Diamonds => "Diamonds"@,
        Suit::Hearts => "Hearts"@,
        Suit::Spades => "Spades"@,
    }
}

pub open spec fn suit_items_text(suits: Seq<Suit>) -> Seq<char>
    decreases suits.len(),
{
    if suits.len() == 0 {
        Seq::empty()
    } else if suits.len() == 1 {
        suit_name(suits[0])
    } else {
        suit_items_text(suits.drop_last()) + ", "@ + suit_name(suits.last())
    }
}

/// A bracketed list of suit names, such as `[Clubs, Hearts]`.
pub open spec fn suit_list_text(suits: Seq<Suit>) -> Seq<char> {
    "["@ + suit_items_text(suits) + "]"@
}

pub open spec fn event(kind: EventKind, message: Seq<char>) -> EventModel {
    EventModel { kind, message }
}

pub open spec fn reshuffle_event(count: u64) -> EventModel {
    event(
        EventKind::Deal,
        decimal(count as nat) + if count == 1 {
            " invalid all-four-nines deal was reshuffled"@
        } else {
            " invalid all-four-nines deals were reshuffled"@
        },
    )
}

pub open spec fn dealt_event(dealer: Seat) -> EventModel {
    event(EventKind::Deal, "round dealt; dealer is "@ + seat_text(dealer))
}

pub open spec fn opens_event(opener: Seat) -> EventModel {
    event(EventKind::Auction, seat_text(opener) + " opens at 100"@)
}

pub open spec fn bid_event(seat: Seat, points: u16) -> EventModel {
    event(EventKind::Auction, seat_text(seat) + " bids "@ + decimal(points as nat))
}

pub open spec fn pass_event(seat: Seat) -> EventModel {
    event(EventKind::Auction, seat_text(seat) + " passes"@)
}

pub open spec fn challenge_event(seat: Seat, points: u16) -> EventModel {
    event(EventKind::Proof, seat_text(seat) + " may be challenged for bid "@ + decimal(points as nat))
}

pub open spec fn proof_response_event(seat: Seat, reveal: bool) -> EventModel {
    event(
        EventKind::Proof,
        seat_text(seat) + if reveal {
            " requests proof"@
        } else {
            " waives proof"@
        },
    )
}

pub open spec fn proof_reveal_event(seat: Seat, suits: Seq<Suit>) -> EventModel {
    event(EventKind::Proof, seat_text(seat) + " proves support with "@ + suit_list_text(suits))
}

pub open spec fn talon_event(seat: Seat, bid: u16, public: bool) -> EventModel {
    event(
        EventKind::Talon,
        seat_text(seat) + " wins the auction at "@ + decimal(bid as nat) + "; talon is "@ + if public {
            "public"@
        } else {
            "hidden"@
        },
    )
}

pub open spec fn surrender_event(seat: Seat, bid: u16) -> EventModel {
    event(EventKind::Score, seat_text(seat) + " surrenders at "@ + decimal(bid as nat))
}

pub open spec fn gift_event(seat: Seat, card: Card, to: Seat) -> EventModel {
    event(EventKind::Transfer, seat_text(seat) + " gives "@ + card_text(card) + " to "@ + seat_text(to))
}

pub open spec fn contract_event(seat: Seat, points: u16) -> EventModel {
    event(EventKind::Contract, seat_text(seat) + " declares contract "@ + decimal(points as nat))
}

pub open spec fn marriage_event(seat: Seat, suit: Suit) -> EventModel {
    event(
        EventKind::Marriage,
        seat_text(seat) + " declares "@ + suit_name(suit) + " for "@ + decimal(marriage_value_spec(suit))
            + " points; trump changes"@,
    )
}

pub open spec fn play_event(seat: Seat, card: Card) -> EventModel {
    event(EventKind::Play, seat_text(seat) + " plays "@ + card_text(card))
}

pub open spec fn trick_event(seat: Seat) -> EventModel {
    event(EventKind::Trick, seat_text(seat) + " takes the trick"@)
}

pub open spec fn claim_event(seat: Seat) -> EventModel {
    event(EventKind::Claim, seat_text(seat) + " claims all remaining tricks"@)
}

pub open spec fn vote_event(seat: Seat, accept: bool) -> EventModel {
    event(
        EventKind::Claim,
        seat_text(seat) + if accept {
            " accepts the claim"@
        } else {
            " rejects the claim"@
        },
    )
}

pub open spec fn score_event(raw: Seq<u16>, deltas: Seq<i32>) -> EventModel {
    event(
        EventKind::Score,
        "round scores raw "@ + list_text(seq![raw[0] as int, raw[1] as int, raw[2] as int])
            + ", deltas "@ + list_text(seq![deltas[0] as int, deltas[1] as int, deltas[2] as int]),
    )
}

fn push_seat(s: &mut String, seat: Seat)
    requires
        seat.0 < 255,
    ensures
        final(s)@ == old(s)@ + seat_text(seat),
{
    s.append("seat ");
    push_decimal(s, (seat.0 + 1) as u64);
    assert(final(s)@ =~= old(s)@ + seat_text(seat));
}

fn seat_event(kind: EventKind, seat: Seat, rest: &str) -> (e: GameEvent)
    requires
        seat.0 < 255,
    ensures
        e@ == event(kind, seat_text(seat) + rest@),
{
    let mut s = String::new();
    push_seat(&mut s, seat);
    s.append(rest);
    assert(s@ =~= seat_text(seat) + rest@);
    GameEvent { kind, message: s }
}

fn seat_number_event(kind: EventKind, seat: Seat, middle: &str, n: u64) -> (e: GameEvent)
    requires
        seat.0 < 255,
    ensures
        e@ == event(kind, seat_text(seat) + middle@ + decimal(n as nat)),
{
    let mut s = String::new();
    push_seat(&mut s, seat);
    s.append(middle);
    push_decimal(&mut s, n);
    assert(s@ =~= seat_text(seat) + middle@ + decimal(n as nat));
    GameEvent { kind, message: s }
}

pub fn reshuffle_message(count: u64) -> (e: GameEvent)
    ensures
        e@ == reshuffle_event(count),
{
    let mut s = String::new();
    push_decimal(&mut s, count);
    if count == 1 {
        s.append(" invalid all-four-nines deal was reshuffled");
    } else {
        s.append(" invalid all-four-nines deals were reshuffled");
    }
    assert(s@ =~= reshuffle_event(count).message);
    GameEvent { kind: EventKind::Deal, message: s }
}

pub fn dealt_message(dealer: Seat) -> (e: GameEvent)
    requires
        dealer.0 < 255,
    ensures
        e@ == dealt_event(dealer),
{
    let mut s = String::new();
    s.append("round dealt; dealer is ");
    push_seat(&mut s, dealer);
    assert(s@ =~= dealt_event(dealer).message);
    GameEvent { kind: EventKind::Deal, message: s }
}

pub fn opens_message(opener: Seat) -> (e: GameEvent)
    requires
        opener.0 < 255,
    ensures
        e@ == opens_event(opener),
{
    seat_event(EventKind::Auction, opener, " opens at 100")
}

pub fn bid_message(seat: Seat, points: u16) -> (e: GameEvent)
    requires
        seat.0 < 255,
    ensures
        e@ == bid_event(seat, points),
{
    seat_number_event(EventKind::Auction, seat, " bids ", points as u64)
}

pub fn pass_message(seat: Seat) -> (e: GameEvent)
    requires
        seat.0 < 255,
    ensures
        e@ == pass_event(seat),
{
    seat_event(EventKind::Auction, seat, " passes")
}

pub fn challenge_message(seat: Seat, points: u16) -> (e: GameEvent)
    requires
        seat.0 < 255,
    ensures
        e@ == challenge_event(seat, points),
{
    seat_number_event(EventKind::Proof, seat, " may be challenged for bid ", points as u64)
}

pub fn proof_response_message(seat: Seat, reveal: bool) -> (e: GameEvent)
    requires
        seat.0 < 255,
    ensures
        e@ == proof_response_event(seat, reveal),
{
    if reveal {
        seat_event(EventKind::Proof, seat, " requests proof")
    } else {
        seat_event(EventKind::Proof, seat, " waives proof")
    }
}

fn suit_str(suit: Suit) -> (s: &'static str)
    ensures
        s@ == suit_name(suit),
{
    match suit {
        Suit::Clubs => "Clubs",
        Suit::Diamonds => "Diamonds",
        Suit::Hearts => "Hearts",
        Suit::Spades => "Spades",
    }
}

fn push_suit_list(s: &mut String, suits: &[Suit])
    ensures
        final(s)@ == old(s)@ + suit_list_text(suits@),
{
    let ghost start = s@;
    s.append("[");
    let mut i: usize = 0;
    while i < suits.len()
        invariant
            i <= suits@.len(),
            s@ == start + "["@ + suit_items_text(suits@.take(i as int)),
        decreases suits@.len() - i,
    {
        let ghost prefix = suits@.take(i as int);
        assert(suits@.take(i as int + 1).drop_last() =~= prefix);
        if i > 0 {
            s.append(", ");
        }
        s.append(suit_str(suits[i]));
        assert(s@ =~= start + "["@ + suit_items_text(suits@.take(i as int + 1))) by {
            if i == 0 {
                assert(suits@.take(1) =~= seq![suits@[0]]);
            }
        }
        i = i + 1;
    }
    s.append("]");
    assert(suits@.take(suits@.len() as int) =~= suits@);
    assert(s@ =~= start + suit_list_text(suits@));
}

pub fn proof_reveal_message(seat: Seat, suits: &[Suit]) -> (e: GameEvent)
    requires
        seat.0 < 255,
    ensures
        e@ == proof_reveal_event(seat, suits@),
{
    let mut s = String::new();
    push_seat(&mut s, seat);
    s.append(" proves support with ");
    push_suit_list(&mut s, suits);
    assert(s@ =~= proof_reveal_event(seat, suits@).message);
    GameEvent { kind: EventKind::Proof, message: s }
}

pub fn talon_message(seat: Seat, bid: u16, public: bool) -> (e: GameEvent)
    requires
        seat.0 < 255,
    ensures
        e@ == talon_event(seat, bid, public),
{
    let mut s = String::new();
    push_seat(&mut s, seat);
    s.append(" wins the auction at ");
    push_decimal(&mut s, bid as u64);
    s.append("; talon is ");
    if public {
        s.append("public");
    } else {
        s.append("hidden");
    }
    assert(s@ =~= talon_event(seat, bid, public).message);
    GameEvent { kind: EventKind::Talon, message: s }
}

pub fn surrender_message(seat: Seat, bid: u16) -> (e: GameEvent)
    requires
        seat.0 < 255,
    ensures
        e@ == surrender_event(seat, bid),
{
    seat_number_event(EventKind::Score, seat, " surrenders at ", bid as u64)
}

pub fn gift_message(seat: Seat, card: Card, to: Seat) -> (e: GameEvent)
    requires
        seat.0 < 255,
        to.0 < 255,
    ensures
        e@ == gift_event(seat, card, to),
{
    let mut s = String::new();
    push_seat(&mut s, seat);
    s.append(" gives ");
    let text = card.to_string();
    s.append(text.as_str());
    s.append(" to ");
    push_seat(&mut s, to);
    assert(s@ =~= gift_event(seat, card, to).message);
    GameEvent { kind: EventKind::Transfer, message: s }
}

pub fn contract_message(seat: Seat, points: u16) -> (e: GameEvent)
    requires
        seat.0 < 255,
    ensures
        e@ == contract_event(seat, points),
{
    seat_number_event(EventKind::Contract, seat, " declares contract ", points as u64)
}

pub fn marriage_message(seat: Seat, suit: Suit) -> (e: GameEvent)
    requires
        seat.0 < 255,
    ensures
        e@ == marriage_event(seat, suit),
{
    let mut s = String::new();
    push_seat(&mut s, seat);
    s.append(" declares ");
    s.append(suit_str(suit));
    s.append(" for ");
    let value: u64 = match suit {
        Suit::Spades => 40,
        Suit::Clubs => 60,
        Suit::Diamonds => 80,
        Suit::Hearts => 100,
    };
    push_decimal(&mut s, value);
    s.append(" points; trump changes");
    assert(s@ =~= marriage_event(seat, suit).message);
    GameEvent { kind: EventKind::Marriage, message: s }
}

pub fn play_message(seat: Seat, card: Card) -> (e: GameEvent)
    requires
        seat.0 < 255,
    ensures
        e@ == play_event(seat, card),
{
    let mut s = String::new();
    push_seat(&mut s, seat);
    s.append(" plays ");
    let text = card.to_string();
    s.append(text.as_str());
    assert(s@ =~= play_event(seat, card).message);
    GameEvent { kind: EventKind::Play, message: s }
}

pub fn trick_message(seat: Seat) -> (e: GameEvent)
    requires
        seat.0 < 255,
    ensures
        e@ == trick_event(seat),
{
    seat_event(EventKind::Trick, seat, " takes the trick")
}

pub fn claim_message(seat: Seat) -> (e: GameEvent)
    requires
        seat.0 < 255,
    ensures
        e@ == claim_event(seat),
{
    seat_event(EventKind::Claim, seat, " claims all remaining tricks")
}

pub fn vote_message(seat: Seat, accept: bool) -> (e: GameEvent)
    requires
        seat.0 < 255,
    ensures
        e@ == vote_event(seat, accept),
{
    if accept {
        seat_event(EventKind::Claim, seat, " accepts the claim")
    } else {
        seat_event(EventKind::Claim, seat, " rejects the claim")
    }
}

pub fn score_message(raw: [u16; 3], deltas: [i32; 3]) -> (e: GameEvent)
    ensures
        e@ == score_event(raw@, deltas@),
{
    let mut s = String::new();
    s.append("round scores raw ");
    push_triple(&mut s, raw[0] as i64, raw[1] as i64, raw[2] as i64);
    s.append(", deltas ");
    push_triple(&mut s, deltas[0] as i64, deltas[1] as i64, deltas[2] as i64);
    assert(s@ =~= score_event(raw@, deltas@).message);
    GameEvent { kind: EventKind::Score, message: s }
}

} // verus!
