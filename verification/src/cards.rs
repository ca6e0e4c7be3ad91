//! Reusable primitives for standard playing-card games.
//!
//! Game-specific rank strength, scoring, following rules, and trump policy stay
//! in the consuming game module.
use vstd::prelude::*;

use crate::draws::{chacha12_draw, chacha12_u64_at};


verus! {

/// The four French suits. Declaration order is never inferred from this enum.
#[derive(Clone, Copy, Debug, PartialEq, Eq, Hash, PartialOrd, Ord, Structural)]
pub enum Suit {
    Clubs,
    Diamonds,
    Hearts,
    Spades,
}

/// Position of a suit in the canonical deck order.
pub open spec fn suit_index(s: Suit) -> nat {
    match s {
        Suit::Clubs => 0,
        Suit::Diamonds => 1,
        Suit::Hearts => 2,
        Suit::Spades => 3,
    }
}

pub open spec fn suit_of_index(i: nat) -> Suit {
    if i == 0 {
        Suit::Clubs
    } else if i == 1 {
        Suit::Diamonds
    } else if i == 2 {
        Suit::Hearts
    } else {
        Suit::Spades
    }
}

pub open spec fn suit_symbol_spec(s: Suit) -> char {
    match s {
        Suit::Clubs => '♣',
        Suit::Diamonds => '♦',
        Suit::Hearts => '♥',
        Suit::Spades => '♠',
    }
}

impl Suit {
    pub const ALL: [Suit; 4] = [Suit::Clubs, Suit::Diamonds, Suit::Hearts, Suit::Spades];

    pub fn symbol(self) -> (c: char)
        ensures
            c == suit_symbol_spec(self),
    {
        match self {
            Suit::Clubs => '♣',
            Suit::Diamonds => '♦',
            Suit::Hearts => '♥',
            Suit::Spades => '♠',
        }
    }

    pub fn index(self) -> (i: u8)
        ensures
            i == suit_index(self),
    {
        match self {
            Suit::Clubs => 0,
            Suit::Diamonds => 1,
            Suit::Hearts => 2,
            Suit::Spades => 3,
        }
    }
}

/// Standard ranks. Games must provide their own strength table.
#[derive(Clone, Copy, Debug, PartialEq, Eq, Hash, PartialOrd, Ord, Structural)]
pub enum Rank {
    Two,
    Three,
    Four,
    Five,
    Six,
    Seven,
    Eight,
    Nine,
    Ten,
    Jack,
    Queen,
    King,
    Ace,
}

pub open spec fn rank_index(r: Rank) -> nat {
    match r {
        Rank::Two => 0,
        Rank::Three => 1,
        Rank::Four => 2,
        Rank::Five => 3,
        Rank::Six => 4,
        Rank::Seven => 5,
        Rank::Eight => 6,
        Rank::Nine => 7,
        Rank::Ten => 8,
        Rank::Jack => 9,
        Rank::Queen => 10,
        Rank::King => 11,
        Rank::Ace => 12,
    }
}

pub open spec fn rank_of_index(i: nat) -> Rank {
    if i == 0 {
        Rank::Two
    } else if i == 1 {
        Rank::Three
    } else if i == 2 {
        Rank::Four
    } else if i == 3 {
        Rank::Five
    } else if i == 4 {
        Rank::Six
    } else if i == 5 {
        Rank::Seven
    } else if i == 6 {
        Rank::Eight
    } else if i == 7 {
        Rank::Nine
    } else if i == 8 {
        Rank::Ten
    } else if i == 9 {
        Rank::Jack
    } else if i == 10 {
        Rank::Queen
    } else if i == 11 {
        Rank::King
    } else {
        Rank::Ace
    }
}

/// The printed label of a rank.
pub open spec fn rank_label_spec(r: Rank) -> Seq<char> {
    match r {
        Rank::Two => "2"@,
        Rank::Three => "3"@,
        Rank::Four => "4"@,
        Rank::Five => "5"@,
        Rank::Six => "6"@,
        Rank::Seven => "7"@,
        Rank::Eight => "8"@,
        Rank::Nine => "9"@,
        Rank::Ten => "10"@,
        Rank::Jack => "J"@,
        Rank::Queen => "Q"@,
        Rank::King => "K"@,
        Rank::Ace => "A"@,
    }
}

impl Rank {
    pub const ALL: [Rank; 13] = [
        Rank::Two,
        Rank::Three,
        Rank::Four,
        Rank::Five,
        Rank::Six,
        Rank::Seven,
        Rank::Eight,
        Rank::Nine,
        Rank::Ten,
        Rank::Jack,
        Rank::Queen,
        Rank::King,
        Rank::Ace,
    ];

    pub fn label(self) -> (s: &'static str)
        ensures
            s@ == rank_label_spec(self),
    {
        match self {
            Rank::Two => "2",
            Rank::Three => "3",
            Rank::Four => "4",
            Rank::Five => "5",
            Rank::Six => "6",
            Rank::Seven => "7",
            Rank::Eight => "8",
            Rank::Nine => "9",
            Rank::Ten => "10",
            Rank::Jack => "J",
            Rank::Queen => "Q",
            Rank::King => "K",
            Rank::Ace => "A",
        }
    }

    pub fn index(self) -> (i: u8)
        ensures
            i == rank_index(self),
    {
        match self {
            Rank::Two => 0,
            Rank::Three => 1,
            Rank::Four => 2,
            Rank::Five => 3,
            Rank::Six => 4,
            Rank::Seven => 5,
            Rank::Eight => 6,
            Rank::Nine => 7,
            Rank::Ten => 8,
            Rank::Jack => 9,
            Rank::Queen => 10,
            Rank::King => 11,
            Rank::Ace => 12,
        }
    }
}

#[derive(Clone, Copy, Debug, PartialEq, Eq, Hash, PartialOrd, Ord, Structural)]
pub struct Card {
    pub rank: Rank,
    pub suit: Suit,
}

/// Position of a card in the standard 52-card order (suit-major).
pub open spec fn card_index(c: Card) -> nat {
    suit_index(c.suit) * 13 + rank_index(c.rank)
}

pub open spec fn card_at_index(k: nat) -> Card {
    Card { rank: rank_of_index(k % 13), suit: suit_of_index(k / 13) }
}

/// The text a card prints as: rank label followed by the suit symbol.
pub open spec fn card_text(c: Card) -> Seq<char> {
    rank_label_spec(c.rank).push(suit_symbol_spec(c.suit))
}

/// Distinct cards have distinct positions, and positions name cards.
pub proof fn lemma_card_index(c: Card)
    ensures
        card_index(c) < 52,
        card_at_index(card_index(c)) == c,
{
    let k = card_index(c);
    assert(k / 13 == suit_index(c.suit) && k % 13 == rank_index(c.rank)) by (nonlinear_arith)
        requires
            k == suit_index(c.suit) * 13 + rank_index(c.rank),
            rank_index(c.rank) < 13,
    ;
}

pub proof fn lemma_index_card(k: nat)
    requires
        k < 52,
    ensures
        card_index(card_at_index(k)) == k,
{
    assert(k == (k / 13) * 13 + k % 13) by (nonlinear_arith);
    assert(k / 13 < 4) by (nonlinear_arith)
        requires
            k < 52,
    ;
}

pub proof fn lemma_card_index_injective(a: Card, b: Card)
    ensures
        card_index(a) == card_index(b) <==> a == b,
{
    lemma_card_index(a);
    lemma_card_index(b);
}

impl Card {
    pub fn new(rank: Rank, suit: Suit) -> (c: Card)
        ensures
            c == (Card { rank, suit }),
    {
        Card { rank, suit }
    }

    pub fn bit_index(self) -> (i: u8)
        ensures
            i == card_index(self),
            i < 52,
    {
        self.suit.index() * 13 + self.rank.index()
    }

    /// The card's printed form, such as `10♥`.
    pub fn to_string(&self) -> (s: String)
        ensures
            s@ == card_text(*self),
    {
        let mut s = String::new();
        s.append(self.rank.label());
        let sym = match self.suit {
            Suit::Clubs => "♣",
            Suit::Diamonds => "♦",
            Suit::Hearts => "♥",
            Suit::Spades => "♠",
        };
        proof {
            reveal_strlit("♣");
            reveal_strlit("♦");
            reveal_strlit("♥");
            reveal_strlit("♠");
        }
        s.append(sym);
        s
    }
}

#[derive(Clone, Copy, Debug, PartialEq, Eq, Structural)]
pub enum CardSetError {
    Duplicate,
    Missing,
}

/// Whether bit `i` of `bits` is set.
pub open spec fn bit_is_set(bits: u64, i: nat) -> bool {
    (bits >> (i as u64)) & 1u64 == 1u64
}

proof fn lemma_mask_test(b: u64, i: u64)
    requires
        i < 64,
    ensures
        (b & (1u64 << i)) != 0u64 <==> ((b >> i) & 1u64) == 1u64,
{
    assert((b & (1u64 << i)) != 0u64 <==> ((b >> i) & 1u64) == 1u64) by (bit_vector)
        requires
            i < 64,
    ;
}

proof fn lemma_mask_set(b: u64, i: u64, j: u64)
    requires
        i < 64,
        j < 64,
    ensures
        (((b | (1u64 << i)) >> j) & 1u64 == 1u64) == (j == i || ((b >> j) & 1u64) == 1u64),
{
    assert((((b | (1u64 << i)) >> j) & 1u64 == 1u64) == (j == i || ((b >> j) & 1u64) == 1u64))
        by (bit_vector)
        requires
            i < 64,
            j < 64,
    ;
}

proof fn lemma_mask_clear(b: u64, i: u64, j: u64)
    requires
        i < 64,
        j < 64,
    ensures
        (((b & !(1u64 << i)) >> j) & 1u64 == 1u64) == (j != i && ((b >> j) & 1u64) == 1u64),
{
    assert((((b & !(1u64 << i)) >> j) & 1u64 == 1u64) == (j != i && ((b >> j) & 1u64) == 1u64))
        by (bit_vector)
        requires
            i < 64,
            j < 64,
    ;
}

proof fn lemma_zero_bits(j: u64)
    requires
        j < 64,
    ensures
        ((0u64 >> j) & 1u64) != 1u64,
{
    assert(((0u64 >> j) & 1u64) != 1u64) by (bit_vector);
}

/// A compact set for one standard 52-card deck.
#[derive(Clone, Copy, Debug, PartialEq, Eq)]
pub struct CardSet(u64);

impl View for CardSet {
    type V = Set<Card>;

    closed spec fn view(&self) -> Set<Card> {
        Set::new(|c: Card| bit_is_set(self.0, card_index(c)))
    }
}

/// Cards of the set whose position is below `k`.
pub open spec fn prefix_cards(bits: u64, k: nat) -> Set<Card> {
    Set::new(|c: Card| card_index(c) < k && bit_is_set(bits, card_index(c)))
}

impl CardSet {
    pub fn empty() -> (s: CardSet)
        ensures
            s@ == Set::<Card>::empty(),
    {
        let s = CardSet(0);
        assert forall|c: Card| !s@.contains(c) by {
            lemma_card_index(c);
            lemma_zero_bits(card_index(c) as u64);
        }
        assert(s@ =~= Set::<Card>::empty());
        s
    }

    /// Number of cards in the set.
    pub fn len(self) -> (n: usize)
        ensures
            self@.finite(),
            n == self@.len(),
    {
        let mut n: usize = 0;
        let mut k: u64 = 0;
        assert(prefix_cards(self.0, 0) =~= Set::<Card>::empty());
        while k < 52
            invariant
                k <= 52,
                n <= k,
                prefix_cards(self.0, k as nat).finite(),
                n == prefix_cards(self.0, k as nat).len(),
            decreases 52 - k,
        {
            let ghost before = prefix_cards(self.0, k as nat);
            let ghost c = card_at_index(k as nat);
            proof {
                lemma_index_card(k as nat);
            }
            let set = (self.0 >> k) & 1u64 == 1u64;
            if set {
                assert(prefix_cards(self.0, (k + 1) as nat) =~= before.insert(c)) by {
                    assert forall|d: Card| prefix_cards(self.0, (k + 1) as nat).contains(d)
                        <==> before.insert(c).contains(d) by {
                        lemma_card_index_injective(d, c);
                    }
                }
                n = n + 1;
            } else {
                assert(prefix_cards(self.0, (k + 1) as nat) =~= before) by {
                    assert forall|d: Card| prefix_cards(self.0, (k + 1) as nat).contains(d)
                        <==> before.contains(d) by {
                        lemma_card_index_injective(d, c);
                    }
                }
            }
            k = k + 1;
        }
        assert(prefix_cards(self.0, 52) =~= self@) by {
            assert forall|d: Card| prefix_cards(self.0, 52).contains(d) <==> self@.contains(d) by {
                lemma_card_index(d);
            }
        }
        n
    }

    pub fn is_empty(self) -> (b: bool)
        ensures
            b <==> self@ == Set::<Card>::empty(),
    {
        let n = self.len();
        if n == 0 {
            assert(self@ =~= Set::<Card>::empty());
        }
        n == 0
    }

    pub fn contains(self, card: Card) -> (b: bool)
        ensures
            b == self@.contains(card),
    {
        let i = card.bit_index();
        proof {
            lemma_mask_test(self.0, i as u64);
        }
        self.0 & (1u64 << i) != 0
    }

    /// Adds one card; fails with `Duplicate` when it is already present.
    pub fn insert(&mut self, card: Card) -> (r: Result<(), CardSetError>)
        ensures
            old(self)@.contains(card) ==> r == Err::<(), CardSetError>(CardSetError::Duplicate)
                && *final(self) == *old(self),
            !old(self)@.contains(card) ==> r is Ok && final(self)@ == old(self)@.insert(card),
    {
        if self.contains(card) {
            return Err(CardSetError::Duplicate);
        }
        let i = card.bit_index();
        let ghost before = *self;
        self.0 = self.0 | (1u64 << i);
        assert forall|c: Card| self@.contains(c) <==> before@.insert(card).contains(c) by {
            lemma_card_index(c);
            lemma_mask_set(before.0, i as u64, card_index(c) as u64);
            lemma_card_index_injective(c, card);
        }
        assert(self@ =~= before@.insert(card));
        Ok(())
    }

    /// Removes one card; fails with `Missing` when it is absent.
    pub fn remove(&mut self, card: Card) -> (r: Result<(), CardSetError>)
        ensures
            !old(self)@.contains(card) ==> r == Err::<(), CardSetError>(CardSetError::Missing)
                && *final(self) == *old(self),
            old(self)@.contains(card) ==> r is Ok && final(self)@ == old(self)@.remove(card),
    {
        if !self.contains(card) {
            return Err(CardSetError::Missing);
        }
        let i = card.bit_index();
        let ghost before = *self;
        self.0 = self.0 & !(1u64 << i);
        assert forall|c: Card| self@.contains(c) <==> before@.remove(card).contains(c) by {
            lemma_card_index(c);
            lemma_mask_clear(before.0, i as u64, card_index(c) as u64);
            lemma_card_index_injective(c, card);
        }
        assert(self@ =~= before@.remove(card));
        Ok(())
    }

    /// The cards of the set in standard deck order.
    pub fn iter(self) -> (v: Vec<Card>)
        ensures
            forall|c: Card| v@.contains(c) <==> self@.contains(c),
            forall|i: int, j: int|
                0 <= i < j < v@.len() ==> card_index(v@[i]) < card_index(v@[j]),
    {
        let mut v: Vec<Card> = Vec::new();
        let mut k: u64 = 0;
        while k < 52
            invariant
                k <= 52,
                forall|c: Card| v@.contains(c) <==> (card_index(c) < k && self@.contains(c)),
                forall|i: int| 0 <= i < v@.len() ==> card_index(#[trigger] v@[i]) < k,
                forall|i: int, j: int|
                    0 <= i < j < v@.len() ==> card_index(v@[i]) < card_index(v@[j]),
            decreases 52 - k,
        {
            proof {
                lemma_index_card(k as nat);
            }
            let card = Card { rank: rank_from_index((k % 13) as u8), suit: suit_from_index((k / 13) as u8) };
            assert(card == card_at_index(k as nat));
            let ghost before = v@;
            if (self.0 >> k) & 1u64 == 1u64 {
                v.push(card);
                assert forall|c: Card| v@.contains(c) <==> (card_index(c) < k + 1 && self@.contains(c)) by {
                    lemma_card_index_injective(c, card);
                    if v@.contains(c) && !before.contains(c) {
                        assert(c == card);
                    }
                    if c == card {
                        assert(v@[v@.len() - 1] == c);
                    } else if before.contains(c) {
                        let i = choose|i: int| 0 <= i < before.len() && before[i] == c;
                        assert(v@[i] == c);
                    }
                }
            } else {
                assert forall|c: Card| v@.contains(c) <==> (card_index(c) < k + 1 && self@.contains(c)) by {
                    lemma_card_index_injective(c, card);
                }
            }
            k = k + 1;
        }
        assert forall|c: Card| v@.contains(c) <==> self@.contains(c) by {
            lemma_card_index(c);
        }
        v
    }

    /// Builds a set while checking uniqueness.
    pub fn try_from_cards(cards: &[Card]) -> (r: Result<CardSet, CardSetError>)
        ensures
            cards@.no_duplicates() ==> r is Ok && r->Ok_0@ == cards@.to_set(),
            !cards@.no_duplicates() ==> r == Err::<CardSet, CardSetError>(CardSetError::Duplicate),
    {
        let mut set = CardSet::empty();
        let mut i: usize = 0;
        while i < cards.len()
            invariant
                i <= cards@.len(),
                set@ == cards@.take(i as int).to_set(),
                cards@.take(i as int).no_duplicates(),
            decreases cards@.len() - i,
        {
            let card = cards[i];
            let ghost prefix = cards@.take(i as int);
            assert(cards@.take(i as int + 1) == prefix.push(card));
            match set.insert(card) {
                Ok(()) => {},
                Err(e) => {
                    proof {
                        let j = choose|j: int| 0 <= j < prefix.len() && prefix[j] == card;
                        assert(cards@[j] == cards@[i as int]);
                    }
                    return Err(e);
                },
            }
            proof {
                assert forall|x: Card| prefix.push(card).to_set().contains(x)
                    <==> prefix.to_set().insert(card).contains(x) by {
                    if prefix.contains(x) {
                        let j = choose|j: int| 0 <= j < prefix.len() && prefix[j] == x;
                        assert(prefix.push(card)[j] == x);
                    }
                    if x == card {
                        assert(prefix.push(card)[prefix.len() as int] == x);
                    }
                    if prefix.push(card).contains(x) && x != card {
                        let j = choose|j: int| 0 <= j < prefix.push(card).len() && prefix.push(card)[j] == x;
                        assert(prefix[j] == x);
                    }
                }
                assert(prefix.push(card).to_set() =~= prefix.to_set().insert(card));
                assert forall|a: int, b: int|
                    0 <= a < b < prefix.push(card).len() implies prefix.push(card)[a]
                        != prefix.push(card)[b] by {
                    if b == prefix.len() {
                        assert(prefix.contains(prefix[a]));
                    }
                }
            }
            i = i + 1;
        }
        assert(cards@.take(cards@.len() as int) == cards@);
        Ok(set)
    }
}

fn suit_from_index(i: u8) -> (s: Suit)
    requires
        i < 4,
    ensures
        s == suit_of_index(i as nat),
{
    if i == 0 {
        Suit::Clubs
    } else if i == 1 {
        Suit::Diamonds
    } else if i == 2 {
        Suit::Hearts
    } else {
        Suit::Spades
    }
}

fn rank_from_index(i: u8) -> (r: Rank)
    requires
        i < 13,
    ensures
        r == rank_of_index(i as nat),
{
    match i {
        0 => Rank::Two,
        1 => Rank::Three,
        2 => Rank::Four,
        3 => Rank::Five,
        4 => Rank::Six,
        5 => Rank::Seven,
        6 => Rank::Eight,
        7 => Rank::Nine,
        8 => Rank::Ten,
        9 => Rank::Jack,
        10 => Rank::Queen,
        11 => Rank::King,
        _ => Rank::Ace,
    }
}


#[derive(Clone, Copy, Debug, PartialEq, Eq, Structural)]
pub enum DeckError {
    Duplicate,
    Empty,
}

/// The standard 52 cards in suit-major order.
pub open spec fn standard_order() -> Seq<Card> {
    Seq::new(52, |k: int| card_at_index(k as nat))
}

/// Cards below which a 64-bit draw is accepted for a pick among `upper` slots.
pub open spec fn rejection_zone(upper: nat) -> nat
    recommends
        upper > 0,
{
    (u64::MAX - (u64::MAX as nat % upper)) as nat
}

/// The draw that a uniform pick below `upper` accepts, searching the stream of
/// `seed` from draw number `pos`: the picked index and the next draw number.
/// The search gives up once the draw counter is exhausted.
pub open spec fn pick_below(seed: Seq<u8>, upper: nat, pos: nat) -> Option<(nat, nat)>
    decreases u64::MAX - pos,
{
    if pos >= u64::MAX || upper == 0 {
        None
    } else {
        let value = chacha12_u64_at(seed, (2 * pos) as u128);
        if (value as nat) < rejection_zone(upper) {
            Some(((value as nat) % upper, pos + 1))
        } else {
            pick_below(seed, upper, pos + 1)
        }
    }
}

/// Exchanges two positions of a sequence.
pub open spec fn swap_at<A>(s: Seq<A>, i: int, j: int) -> Seq<A> {
    s.update(i, s[j]).update(j, s[i])
}

/// Fisher–Yates from slot `upper` down to slot 1, drawing from draw `pos` on.
pub open spec fn shuffled_from(seed: Seq<u8>, cards: Seq<Card>, upper: nat, pos: nat) -> Seq<Card>
    decreases upper,
{
    if upper == 0 {
        cards
    } else {
        match pick_below(seed, upper + 1, pos) {
            Some((selected, next)) => shuffled_from(
                seed,
                swap_at(cards, upper as int, selected as int),
                (upper - 1) as nat,
                next,
            ),
            None => cards,
        }
    }
}

/// The order a deck has after `shuffle_with_seed(seed)`.
pub open spec fn seeded_shuffle(seed: Seq<u8>, cards: Seq<Card>) -> Seq<Card> {
    if cards.len() == 0 {
        cards
    } else {
        shuffled_from(seed, cards, (cards.len() - 1) as nat, 0)
    }
}

pub proof fn lemma_swap_conserves<A>(s: Seq<A>, i: int, j: int)
    requires
        0 <= i < s.len(),
        0 <= j < s.len(),
    ensures
        swap_at(s, i, j).len() == s.len(),
        swap_at(s, i, j).to_multiset() =~= s.to_multiset(),
{
    broadcast use vstd::seq_lib::to_multiset_update, vstd::seq_lib::to_multiset_contains;
    let t = s.update(i, s[j]);
    assert(t.to_multiset() =~= s.to_multiset().remove(s[i]).insert(s[j]));
    assert(t.update(j, s[i]).to_multiset() =~= t.to_multiset().remove(t[j]).insert(s[i]));
    assert(s.contains(s[i]));
    assert(s.to_multiset().count(s[i]) > 0);
}

proof fn lemma_shuffled_from_conserves(seed: Seq<u8>, cards: Seq<Card>, upper: nat, pos: nat)
    requires
        upper < cards.len(),
    ensures
        shuffled_from(seed, cards, upper, pos).len() == cards.len(),
        shuffled_from(seed, cards, upper, pos).to_multiset() =~= cards.to_multiset(),
    decreases upper,
{
    if upper > 0 {
        match pick_below(seed, upper + 1, pos) {
            Some((selected, next)) => {
                lemma_pick_below_range(seed, upper + 1, pos);
                lemma_swap_conserves(cards, upper as int, selected as int);
                lemma_shuffled_from_conserves(
                    seed,
                    swap_at(cards, upper as int, selected as int),
                    (upper - 1) as nat,
                    next,
                );
            },
            None => {},
        }
    }
}

proof fn lemma_pick_below_range(seed: Seq<u8>, upper: nat, pos: nat)
    ensures
        pick_below(seed, upper, pos) matches Some((selected, next)) ==> selected < upper && pos
            < next <= u64::MAX,
    decreases u64::MAX - pos,
{
    if pos < u64::MAX && upper > 0 {
        lemma_pick_below_range(seed, upper, pos + 1);
    }
}

/// A seeded shuffle only reorders the deck: every card keeps its multiplicity.
pub proof fn lemma_seeded_shuffle_conserves(seed: Seq<u8>, cards: Seq<Card>)
    ensures
        seeded_shuffle(seed, cards).len() == cards.len(),
        seeded_shuffle(seed, cards).to_multiset() =~= cards.to_multiset(),
{
    if cards.len() > 0 {
        lemma_shuffled_from_conserves(seed, cards, (cards.len() - 1) as nat, 0);
    }
}

/// Picks an index below `upper` from the stream of `seed`, starting at draw `pos`.
fn uniform_below(seed: [u8; 32], upper: usize, pos: u64) -> (r: Option<(usize, u64)>)
    requires
        upper > 0,
    ensures
        r matches Some((selected, next)) ==> pick_below(seed@, upper as nat, pos as nat) == Some(
            (selected as nat, next as nat),
        ),
        r is None ==> pick_below(seed@, upper as nat, pos as nat) is None,
{
    let upper64 = upper as u64;
    let zone = u64::MAX - (u64::MAX % upper64);
    let mut draw = pos;
    while draw < u64::MAX
        invariant
            upper64 == upper,
            upper > 0,
            zone == rejection_zone(upper as nat),
            pos <= draw,
            pick_below(seed@, upper as nat, pos as nat) == pick_below(
                seed@,
                upper as nat,
                draw as nat,
            ),
        decreases u64::MAX - draw,
    {
        let value = chacha12_draw(seed, (draw as u128) * 2);
        if value < zone {
            let selected = (value % upper64) as usize;
            return Some((selected, draw + 1));
        }
        draw = draw + 1;
    }
    None
}

#[derive(Clone, Debug, PartialEq, Eq)]
pub struct Deck {
    cards: Vec<Card>,
}

impl View for Deck {
    type V = Seq<Card>;

    closed spec fn view(&self) -> Seq<Card> {
        self.cards@
    }
}

impl Deck {
    /// Builds a non-empty deck containing no duplicate cards.
    pub fn from_cards(cards: Vec<Card>) -> (r: Result<Deck, DeckError>)
        ensures
            cards@.len() == 0 ==> r == Err::<Deck, DeckError>(DeckError::Empty),
            cards@.len() > 0 && !cards@.no_duplicates() ==> r == Err::<Deck, DeckError>(
                DeckError::Duplicate,
            ),
            cards@.len() > 0 && cards@.no_duplicates() ==> r is Ok && r->Ok_0@ == cards@,
    {
        if cards.len() == 0 {
            return Err(DeckError::Empty);
        }
        match CardSet::try_from_cards(cards.as_slice()) {
            Ok(_) => Ok(Deck { cards }),
            Err(_) => Err(DeckError::Duplicate),
        }
    }

    /// All 52 cards, suit by suit, each suit from two to ace.
    pub fn standard() -> (d: Deck)
        ensures
            d@ == standard_order(),
    {
        let mut cards: Vec<Card> = Vec::new();
        let mut k: u8 = 0;
        while k < 52
            invariant
                k <= 52,
                cards@ == standard_order().take(k as int),
            decreases 52 - k,
        {
            let card = Card { rank: rank_from_index(k % 13), suit: suit_from_index(k / 13) };
            assert(cards@.push(card) == standard_order().take(k as int + 1));
            cards.push(card);
            k = k + 1;
        }
        assert(standard_order().take(52) == standard_order());
        Deck { cards }
    }

    pub fn len(&self) -> (n: usize)
        ensures
            n == self@.len(),
    {
        self.cards.len()
    }

    pub fn is_empty(&self) -> (b: bool)
        ensures
            b <==> self@.len() == 0,
    {
        self.cards.len() == 0
    }

    pub fn cards(&self) -> (s: &[Card])
        ensures
            s@ == self@,
    {
        self.cards.as_slice()
    }

    /// Takes the last card.
    pub fn draw(&mut self) -> (c: Option<Card>)
        ensures
            old(self)@.len() == 0 ==> c is None && final(self)@ == old(self)@,
            old(self)@.len() > 0 ==> c == Some(old(self)@.last()) && final(self)@
                == old(self)@.drop_last(),
    {
        self.cards.pop()
    }

    /// Stable Fisher–Yates shuffle driven by a ChaCha12 stream.
    ///
    /// Both the generator and unbiased index selection are fixed so seeded games
    /// remain reproducible.
    pub fn shuffle_with_seed(&mut self, seed: [u8; 32])
        ensures
            final(self)@ == seeded_shuffle(seed@, old(self)@),
    {
        let n = self.cards.len();
        if n == 0 {
            return;
        }
        let mut upper: usize = n - 1;
        let mut pos: u64 = 0;
        while upper > 0
            invariant
                upper < n,
                n == self.cards@.len(),
                seeded_shuffle(seed@, old(self)@) == shuffled_from(
                    seed@,
                    self.cards@,
                    upper as nat,
                    pos as nat,
                ),
            decreases upper,
        {
            match uniform_below(seed, upper + 1, pos) {
                Some((selected, next)) => {
                    proof {
                        lemma_pick_below_range(seed@, (upper + 1) as nat, pos as nat);
                    }
                    let a = self.cards[upper];
                    let b = self.cards[selected];
                    self.cards[upper] = b;
                    self.cards[selected] = a;
                    pos = next;
                    upper = upper - 1;
                },
                None => {
                    return;
                },
            }
        }
    }
}

#[derive(Clone, Copy, Debug, PartialEq, Eq)]
pub struct PlayedCard<P> {
    pub player: P,
    pub card: Card,
}

/// How a play ranks within a trick: trumps above the led suit above the rest.
pub open spec fn trick_category(c: Card, led: Suit, trump: Option<Suit>) -> nat {
    if trump == Some(c.suit) {
        2
    } else if c.suit == led {
        1
    } else {
        0
    }
}

/// Whether play `j` ranks at least as high as play `w` under the strengths `ks`.
pub open spec fn ranks_at_least<P>(
    plays: Seq<PlayedCard<P>>,
    ks: Seq<u8>,
    trump: Option<Suit>,
    j: int,
    w: int,
) -> bool {
    let led = plays[0].card.suit;
    let cj = trick_category(plays[j].card, led, trump);
    let cw = trick_category(plays[w].card, led, trump);
    cj > cw || (cj == cw && ks[j] >= ks[w])
}

/// Index of the last highest-ranked play among the first `n` plays.
pub open spec fn last_best_play<P>(plays: Seq<PlayedCard<P>>, ks: Seq<u8>, trump: Option<Suit>, n: nat) -> int
    decreases n,
{
    if n <= 1 {
        0
    } else {
        let w = last_best_play(plays, ks, trump, (n - 1) as nat);
        if ranks_at_least(plays, ks, trump, n - 1, w) {
            n - 1
        } else {
            w
        }
    }
}

pub proof fn lemma_last_best_play_range<P>(plays: Seq<PlayedCard<P>>, ks: Seq<u8>, trump: Option<Suit>, n: nat)
    ensures
        n >= 1 ==> 0 <= last_best_play(plays, ks, trump, n) < n,
        n == 0 ==> last_best_play(plays, ks, trump, n) == 0,
    decreases n,
{
    if n > 1 {
        lemma_last_best_play_range(plays, ks, trump, (n - 1) as nat);
    }
}

pub proof fn lemma_last_best_play_ext<P>(
    plays: Seq<PlayedCard<P>>,
    ks1: Seq<u8>,
    ks2: Seq<u8>,
    trump: Option<Suit>,
    n: nat,
)
    requires
        n <= ks1.len(),
        n <= ks2.len(),
        forall|i: int| 0 <= i < n ==> ks1[i] == ks2[i],
    ensures
        last_best_play(plays, ks1, trump, n) == last_best_play(plays, ks2, trump, n),
    decreases n,
{
    if n > 1 {
        lemma_last_best_play_ext(plays, ks1, ks2, trump, (n - 1) as nat);
        lemma_last_best_play_range(plays, ks1, trump, (n - 1) as nat);
    }
}

/// The play that wins a trick was made in the led suit or in trump: a card
/// of any other suit never takes the trick, whatever its rank.
pub proof fn lemma_winner_follows_or_trumps<P>(
    plays: Seq<PlayedCard<P>>,
    ks: Seq<u8>,
    trump: Option<Suit>,
    n: nat,
)
    requires
        1 <= n <= plays.len(),
    ensures
        ({
            let w = plays[last_best_play(plays, ks, trump, n)].card;
            w.suit == plays[0].card.suit || trump == Some(w.suit)
        }),
    decreases n,
{
    lemma_last_best_play_range(plays, ks, trump, n);
    lemma_best_play_category(plays, ks, trump, n);
}

/// The winning play ranks at least as high as every play before it: a higher
/// category, or the same category and at least the same strength.
pub proof fn lemma_last_best_play_dominates<P>(
    plays: Seq<PlayedCard<P>>,
    ks: Seq<u8>,
    trump: Option<Suit>,
    n: nat,
    j: int,
)
    requires
        1 <= n <= plays.len(),
        0 <= j < n,
    ensures
        ranks_at_least(plays, ks, trump, last_best_play(plays, ks, trump, n), j),
    decreases n,
{
    if n > 1 {
        if j < n - 1 {
            lemma_last_best_play_dominates(plays, ks, trump, (n - 1) as nat, j);
        } else {
            lemma_last_best_play_range(plays, ks, trump, (n - 1) as nat);
        }
    }
}

proof fn lemma_best_play_category<P>(plays: Seq<PlayedCard<P>>, ks: Seq<u8>, trump: Option<Suit>, n: nat)
    requires
        1 <= n <= plays.len(),
    ensures
        trick_category(plays[last_best_play(plays, ks, trump, n)].card, plays[0].card.suit, trump) >= 1,
    decreases n,
{
    if n > 1 {
        lemma_best_play_category(plays, ks, trump, (n - 1) as nat);
    }
}

fn is_trump(trump: Option<Suit>, suit: Suit) -> (b: bool)
    ensures
        b == (trump == Some(suit)),
{
    match trump {
        Some(t) => t == suit,
        None => false,
    }
}

/// Return the winning play for a complete or partial trick.
///
/// Off-suit non-trumps never win; among equally ranked plays the last one
/// wins. Rank strength is supplied by the game.
pub fn trick_winner<P: Copy, F: Fn(Rank) -> u8>(
    plays: &[PlayedCard<P>],
    trump: Option<Suit>,
    strength: F,
) -> (r: Option<PlayedCard<P>>)
    requires
        forall|rank: Rank| call_requires(strength, (rank,)),
    ensures
        plays@.len() == 0 ==> r is None,
        plays@.len() > 0 ==> exists|ks: Seq<u8>|
            {
                &&& ks.len() == plays@.len()
                &&& forall|j: int|
                    0 <= j < ks.len() ==> call_ensures(strength, (plays@[j].card.rank,), #[trigger] ks[j])
                &&& r == Some(plays@[last_best_play(plays@, ks, trump, plays@.len())])
            },
        plays@.len() > 0 ==> (r matches Some(w) && (w.card.suit == plays@[0].card.suit || trump
            == Some(w.card.suit))),
{
    if plays.len() == 0 {
        return None;
    }
    let led = plays[0].card.suit;
    let first = strength(plays[0].card.rank);
    let ghost mut ks: Seq<u8> = seq![first];
    let mut best: usize = 0;
    let mut best_category: u8 = if is_trump(trump, plays[0].card.suit) { 2 } else { 1 };
    let mut best_strength: u8 = first;
    let mut j: usize = 1;
    while j < plays.len()
        invariant
            1 <= j <= plays@.len(),
            led == plays@[0].card.suit,
            ks.len() == j,
            forall|i: int| 0 <= i < j ==> call_ensures(strength, (plays@[i].card.rank,), #[trigger] ks[i]),
            forall|rank: Rank| call_requires(strength, (rank,)),
            best == last_best_play(plays@, ks, trump, j as nat),
            best < j,
            best_category == trick_category(plays@[best as int].card, led, trump),
            best_strength == ks[best as int],
        decreases plays@.len() - j,
    {
        let card = plays[j].card;
        let s = strength(card.rank);
        let category: u8 = if is_trump(trump, card.suit) {
            2
        } else if card.suit == led {
            1
        } else {
            0
        };
        proof {
            let old_ks = ks;
            ks = ks.push(s);
            lemma_last_best_play_ext(plays@, old_ks, ks, trump, j as nat);
        }
        if category > best_category || (category == best_category && s >= best_strength) {
            best = j;
            best_category = category;
            best_strength = s;
        }
        j = j + 1;
    }
    proof {
        lemma_winner_follows_or_trumps(plays@, ks, trump, plays@.len());
    }
    Some(plays[best])
}

} // verus!
