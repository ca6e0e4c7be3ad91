use mille::cards::{trick_winner, Card, CardSet, CardSetError, Deck, PlayedCard, Rank, Suit};

fn card(rank: Rank, suit: Suit) -> Card {
    Card::new(rank, suit)
}

#[test]
fn standard_deck_contains_every_card_once() {
    let deck = Deck::standard();
    assert_eq!(deck.len(), 52);
    let set = CardSet::try_from_cards(deck.cards()).unwrap();
    assert_eq!(set.len(), 52);
}

#[test]
fn set_rejects_duplicates_and_missing_removals() {
    let ace = card(Rank::Ace, Suit::Hearts);
    let mut set = CardSet::empty();
    assert_eq!(set.insert(ace), Ok(()));
    assert_eq!(set.insert(ace), Err(CardSetError::Duplicate));
    assert_eq!(set.remove(ace), Ok(()));
    assert_eq!(set.remove(ace), Err(CardSetError::Missing));
}

#[test]
fn seeded_shuffle_is_reproducible_and_conservative() {
    let seed = [42; 32];
    let mut first = Deck::standard();
    let mut second = Deck::standard();
    first.shuffle_with_seed(seed);
    second.shuffle_with_seed(seed);
    assert_eq!(first, second);
    assert_eq!(CardSet::try_from_cards(first.cards()).unwrap().len(), 52);
}

#[test]
fn seed_has_a_golden_prefix() {
    let mut deck = Deck::standard();
    deck.shuffle_with_seed([7; 32]);
    let labels: Vec<String> = deck.cards()[..5].iter().map(|c| c.to_string()).collect();
    assert_eq!(labels, ["4♣", "2♠", "7♣", "A♠", "8♦"]);
}

#[test]
fn trump_beats_led_suit_and_off_suit_loses() {
    let plays = [
        PlayedCard { player: 1, card: card(Rank::Ace, Suit::Spades) },
        PlayedCard { player: 2, card: card(Rank::Jack, Suit::Hearts) },
        PlayedCard { player: 3, card: card(Rank::King, Suit::Clubs) },
    ];
    let winner = trick_winner(&plays, Some(Suit::Hearts), Rank::index).unwrap();
    assert_eq!(winner.player, 2);
    let winner = trick_winner(&plays, None, Rank::index).unwrap();
    assert_eq!(winner.player, 1);
}

#[test]
fn empty_trick_has_no_winner() {
    let plays: [PlayedCard<u8>; 0] = [];
    assert!(trick_winner(&plays, Some(Suit::Hearts), Rank::index).is_none());
}

#[test]
fn card_labels_and_positions() {
    assert_eq!(card(Rank::Ten, Suit::Hearts).to_string(), "10♥");
    assert_eq!(card(Rank::Two, Suit::Clubs).bit_index(), 0);
    assert_eq!(card(Rank::Ace, Suit::Spades).bit_index(), 51);
    assert_eq!(Suit::Diamonds.symbol(), '♦');
    assert_eq!(Rank::Queen.label(), "Q");
}

#[test]
fn set_iterates_in_suit_then_rank_order() {
    let cards = [
        card(Rank::King, Suit::Spades),
        card(Rank::Two, Suit::Hearts),
        card(Rank::Ace, Suit::Clubs),
    ];
    let set = CardSet::try_from_cards(&cards).unwrap();
    assert_eq!(
        set.iter(),
        vec![
            card(Rank::Ace, Suit::Clubs),
            card(Rank::Two, Suit::Hearts),
            card(Rank::King, Suit::Spades)
        ]
    );
    assert!(set.contains(card(Rank::Two, Suit::Hearts)));
    assert!(!set.contains(card(Rank::Two, Suit::Spades)));
    assert!(!set.is_empty());
    assert_eq!(
        CardSet::try_from_cards(&[cards[0], cards[0]]),
        Err(CardSetError::Duplicate)
    );
}

#[test]
fn deck_rejects_empty_and_duplicate_input_and_draws_from_the_end() {
    assert_eq!(Deck::from_cards(Vec::new()), Err(mille::cards::DeckError::Empty));
    let ace = card(Rank::Ace, Suit::Hearts);
    assert_eq!(Deck::from_cards(vec![ace, ace]), Err(mille::cards::DeckError::Duplicate));
    let mut deck = Deck::from_cards(vec![ace, card(Rank::Nine, Suit::Clubs)]).unwrap();
    assert_eq!(deck.draw(), Some(card(Rank::Nine, Suit::Clubs)));
    assert_eq!(deck.draw(), Some(ace));
    assert_eq!(deck.draw(), None);
    assert!(deck.is_empty());
}
