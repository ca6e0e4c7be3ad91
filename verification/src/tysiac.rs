//! Authoritative rules engine for three-player Tysiąc.
//!
//! The engine contains no networking, clocks, animation, or authentication. Every
//! client submits the same [`Action`] values.
use vstd::prelude::*;

use crate::cards::{Card, PlayedCard, Suit};

pub mod rules;
pub mod model;
pub mod messages;
pub mod spec;
pub mod engine;
pub mod challenge;
pub mod seeding;
pub mod laws;
pub mod legal;
pub mod snapshot;

pub use rules::{
    card_points, game_deck, game_rank_strength, legal_cards, marriage_value, marriages,
    round_to_ten, support_ceiling, validate_game_deck,
};
pub use legal::legal_actions;

verus! {

pub const PLAYER_COUNT: usize = 3;

pub const HAND_SIZE: usize = 8;

#[derive(Clone, Copy, Debug, Eq, PartialEq, Ord, PartialOrd, Hash, Structural)]
pub struct Seat(pub u8);

impl Seat {
    pub open spec fn is_valid(self) -> bool {
        self.0 < 3
    }

    /// The seat after this one, clockwise.
    pub open spec fn following(self) -> Seat {
        Seat(((self.0 + 1) % 3) as u8)
    }

    pub fn index(self) -> (i: usize)
        ensures
            i == self.0,
    {
        self.0 as usize
    }

    pub fn next(self) -> (s: Seat)
        requires
            self.0 < u8::MAX,
        ensures
            s == self.following(),
    {
        Seat((self.0 + 1) % 3)
    }

    pub fn valid(self) -> (b: bool)
        ensures
            b == self.is_valid(),
    {
        self.0 < 3
    }
}

#[derive(Clone, Copy, Debug, Eq, PartialEq, Structural)]
pub enum TalonVisibility {
    AlwaysPublic,
    HideAtOneHundred,
}

#[derive(Clone, Copy, Debug, Eq, PartialEq, Structural)]
pub struct Config {
    pub target_score: i32,
    pub lock_score: i32,
    pub talon_visibility: TalonVisibility,
}

impl Default for Config {
    fn default() -> (c: Self)
        ensures
            c == (Config {
                target_score: 1_000,
                lock_score: 900,
                talon_visibility: TalonVisibility::AlwaysPublic,
            }),
    {
        Config { target_score: 1_000, lock_score: 900, talon_visibility: TalonVisibility::AlwaysPublic }
    }
}

#[derive(Clone, Debug, Eq, PartialEq)]
pub struct Player {
    pub name: String,
    pub score: i32,
    pub free_surrender_used: bool,
}

#[derive(Clone, Debug, Eq, PartialEq)]
pub struct Match {
    pub config: Config,
    pub players: [Player; 3],
    pub dealer: Seat,
    pub match_index: u64,
    pub round_index: u64,
    pub phase: MatchPhase,
    pub events: Vec<GameEvent>,
}

#[derive(Clone, Debug, Eq, PartialEq)]
pub enum MatchPhase {
    WaitingForDeal,
    Round(Box<Round>),
    MatchFinished { winner: Seat },
}

#[derive(Clone, Debug, Eq, PartialEq)]
pub struct Round {
    pub seed: u64,
    pub dealer: Seat,
    pub locked_at_start: [bool; 3],
    pub hands: [Vec<Card>; 3],
    pub talon: Vec<Card>,
    /// Cards every observer has seen face up, each listed once.
    pub publicly_revealed: Vec<Card>,
    pub phase: RoundPhase,
}

#[derive(Clone, Debug, Eq, PartialEq)]
pub enum RoundPhase {
    Auction(Auction),
    Talon(Talon),
    Transfer(Transfer),
    Contract(Contract),
    Play(Play),
    ClaimVote(ClaimVote),
    RoundFinished(RoundResult),
}

#[derive(Clone, Debug, Eq, PartialEq)]
pub struct Auction {
    pub opener: Seat,
    pub turn: Seat,
    pub highest_bidder: Seat,
    pub highest_bid: u16,
    pub active: [bool; 3],
    pub proof: Option<Proof>,
    /// Per seat, the suits of marriages already shown, each listed once.
    pub revealed_marriages: [Vec<Suit>; 3],
}

#[derive(Clone, Copy, Debug, Eq, PartialEq, Structural)]
pub enum ProofPurpose {
    Auction,
    Contract,
}

#[derive(Clone, Copy, Debug, Eq, PartialEq)]
pub struct Proof {
    pub purpose: ProofPurpose,
    pub bidder: Seat,
    pub points: u16,
    pub responders: [Seat; 2],
    pub responder_index: usize,
    pub reveal_required: bool,
}

/// The opponent currently asked whether to demand a proof, if any.
pub open spec fn proof_responder(p: Proof) -> Option<Seat> {
    if !p.reveal_required && p.responder_index < 2 {
        Some(p.responders[p.responder_index as int])
    } else {
        None
    }
}

impl Proof {
    pub fn responder(&self) -> (r: Option<Seat>)
        ensures
            r == proof_responder(*self),
    {
        if !self.reveal_required && self.responder_index < 2 {
            Some(self.responders[self.responder_index])
        } else {
            None
        }
    }
}

#[derive(Clone, Copy, Debug, Eq, PartialEq, Structural)]
pub struct Talon {
    pub contractor: Seat,
    pub auction_bid: u16,
    pub public: bool,
}

#[derive(Clone, Copy, Debug, Eq, PartialEq, Structural)]
pub struct Transfer {
    pub contractor: Seat,
    pub auction_bid: u16,
}

#[derive(Clone, Debug, Eq, PartialEq)]
pub struct Contract {
    pub contractor: Seat,
    pub auction_bid: u16,
    pub points: u16,
    pub proof: Option<Proof>,
    /// Suits of marriages already shown for the contract, each listed once.
    pub revealed_marriages: Vec<Suit>,
}

#[derive(Clone, Debug, Eq, PartialEq)]
pub struct Play {
    pub contractor: Seat,
    pub contract: u16,
    pub leader: Seat,
    pub turn: Seat,
    pub trump: Option<Suit>,
    pub trick: Vec<PlayedCard<Seat>>,
    pub last_trick: Vec<PlayedCard<Seat>>,
    pub captured: [Vec<Card>; 3],
    pub marriage_points: [u16; 3],
    /// Per seat, the suits of marriages declared in play, each listed once.
    pub declared_marriages: [Vec<Suit>; 3],
    pub open_hands: [bool; 3],
}

#[derive(Clone, Debug, Eq, PartialEq)]
pub struct ClaimVote {
    pub play: Play,
    pub claimant: Seat,
    pub voters: [Seat; 2],
    pub voter_index: usize,
}

#[derive(Clone, Copy, Debug, Eq, PartialEq)]
pub struct RoundResult {
    pub contractor: Seat,
    pub contract: u16,
    pub raw_points: [u16; 3],
    pub deltas: [i32; 3],
    pub scores: [i32; 3],
    pub surrendered: bool,
}

#[derive(Clone, Debug, Eq, PartialEq)]
pub enum Action {
    Bid { points: u16 },
    Pass,
    RespondToProof { reveal: bool },
    RevealProof { suits: Vec<Suit> },
    ContinueAfterTalon,
    Surrender,
    Transfer { gifts: Vec<Gift> },
    ConfirmContract { points: u16 },
    PlayCard { card: Card },
    ClaimRemaining,
    VoteOnClaim { accept: bool },
}

#[derive(Clone, Copy, Debug, Eq, PartialEq, Structural)]
pub struct Gift {
    pub recipient: Seat,
    pub card: Card,
}

#[derive(Clone, Debug, Eq, PartialEq)]
pub struct GameEvent {
    pub kind: EventKind,
    pub message: String,
}

#[derive(Clone, Copy, Debug, Eq, PartialEq, Structural)]
pub enum EventKind {
    Deal,
    Auction,
    Proof,
    Talon,
    Transfer,
    Contract,
    Marriage,
    Play,
    Trick,
    Claim,
    Score,
}

#[derive(Clone, Copy, Debug, Eq, PartialEq, Structural)]
pub enum RuleError {
    InvalidSeat,
    WrongPhase,
    NotYourTurn,
    InvalidBidStep,
    UnsupportedPoints,
    AlreadyPassed,
    NotProofResponder,
    NotProofBidder,
    InvalidProof,
    InvalidContract,
    InvalidTransfer,
    CardNotHeld,
    IllegalPlay,
    CannotClaim,
    NotClaimVoter,
    InvalidDeck,
    CannotDeal,
}

/// The human-readable explanation of a rule error.
pub open spec fn rule_error_text(e: RuleError) -> Seq<char> {
    match e {
        RuleError::InvalidSeat => "seat does not exist"@,
        RuleError::WrongPhase => "that action is not legal in the current phase"@,
        RuleError::NotYourTurn => "it is not that player's turn"@,
        RuleError::InvalidBidStep => "bid must be exactly ten above the current bid"@,
        RuleError::UnsupportedPoints => "bid or contract is above the marriages in hand"@,
        RuleError::AlreadyPassed => "player has already passed"@,
        RuleError::NotProofResponder => "proof response is not expected from this player"@,
        RuleError::NotProofBidder => "proof reveal is not expected from this player"@,
        RuleError::InvalidProof => "proof is not a smallest sufficient set of held marriages"@,
        RuleError::InvalidContract => "contract must be a multiple of ten and at least the auction bid"@,
        RuleError::InvalidTransfer => "gift list must give one distinct held card to each opponent"@,
        RuleError::CardNotHeld => "card is not in the player's hand"@,
        RuleError::IllegalPlay => "card does not satisfy follow-suit and beat-if-possible rules"@,
        RuleError::CannotClaim => "a claim can be made only by the leader before a trick starts"@,
        RuleError::NotClaimVoter => "claim vote is not expected from this player"@,
        RuleError::InvalidDeck => "deck must contain each of the 24 game cards exactly once"@,
        RuleError::CannotDeal => "a round is already active or the match has ended"@,
    }
}

impl RuleError {
    /// The error's explanation, as the game reports it.
    pub fn to_string(&self) -> (s: String)
        ensures
            s@ == rule_error_text(*self),
    {
        let text = match self {
            RuleError::InvalidSeat => "seat does not exist",
            RuleError::WrongPhase => "that action is not legal in the current phase",
            RuleError::NotYourTurn => "it is not that player's turn",
            RuleError::InvalidBidStep => "bid must be exactly ten above the current bid",
            RuleError::UnsupportedPoints => "bid or contract is above the marriages in hand",
            RuleError::AlreadyPassed => "player has already passed",
            RuleError::NotProofResponder => "proof response is not expected from this player",
            RuleError::NotProofBidder => "proof reveal is not expected from this player",
            RuleError::InvalidProof => "proof is not a smallest sufficient set of held marriages",
            RuleError::InvalidContract => "contract must be a multiple of ten and at least the auction bid",
            RuleError::InvalidTransfer => "gift list must give one distinct held card to each opponent",
            RuleError::CardNotHeld => "card is not in the player's hand",
            RuleError::IllegalPlay => "card does not satisfy follow-suit and beat-if-possible rules",
            RuleError::CannotClaim => "a claim can be made only by the leader before a trick starts",
            RuleError::NotClaimVoter => "claim vote is not expected from this player",
            RuleError::InvalidDeck => "deck must contain each of the 24 game cards exactly once",
            RuleError::CannotDeal => "a round is already active or the match has ended",
        };
        String::from_str(text)
    }
}

#[derive(Clone, Debug, Eq, PartialEq)]
pub struct ApplyOutcome {
    pub events: Vec<GameEvent>,
}

#[derive(Clone, Debug, Eq, PartialEq)]
pub struct SeededDeal {
    pub order: Vec<Card>,
    pub four_nines_reshuffles: u64,
}

} // verus!
