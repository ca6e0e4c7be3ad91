//! Mathematical views of the engine's state: sequences for hands and tricks,
//! sets for revealed cards and marriages.
use vstd::prelude::*;

use crate::cards::{Card, PlayedCard, Suit};
use crate::tysiac::{
    Action, Auction, ClaimVote, Config, Contract, EventKind, GameEvent, Gift, Match, MatchPhase,
    Play, Player, Proof, Round, RoundPhase, RoundResult, Seat, Talon, Transfer,
};

verus! {

#[verifier::ext_equal]
pub struct PlayerModel {
    pub name: Seq<char>,
    pub score: i32,
    pub free_surrender_used: bool,
}

#[verifier::ext_equal]
pub struct EventModel {
    pub kind: EventKind,
    pub message: Seq<char>,
}

#[verifier::ext_equal]
pub struct AuctionModel {
    pub opener: Seat,
    pub turn: Seat,
    pub highest_bidder: Seat,
    pub highest_bid: u16,
    pub active: Seq<bool>,
    pub proof: Option<Proof>,
    pub revealed_marriages: Seq<Set<Suit>>,
}

#[verifier::ext_equal]
pub struct ContractModel {
    pub contractor: Seat,
    pub auction_bid: u16,
    pub points: u16,
    pub proof: Option<Proof>,
    pub revealed_marriages: Set<Suit>,
}

#[verifier::ext_equal]
pub struct PlayModel {
    pub contractor: Seat,
    pub contract: u16,
    pub leader: Seat,
    pub turn: Seat,
    pub trump: Option<Suit>,
    pub trick: Seq<PlayedCard<Seat>>,
    pub last_trick: Seq<PlayedCard<Seat>>,
    pub captured: Seq<Seq<Card>>,
    pub marriage_points: Seq<u16>,
    pub declared_marriages: Seq<Set<Suit>>,
    pub open_hands: Seq<bool>,
}

#[verifier::ext_equal]
pub struct ClaimVoteModel {
    pub play: PlayModel,
    pub claimant: Seat,
    pub voters: Seq<Seat>,
    pub voter_index: usize,
}

#[verifier::ext_equal]
pub struct ResultModel {
    pub contractor: Seat,
    pub contract: u16,
    pub raw_points: Seq<u16>,
    pub deltas: Seq<i32>,
    pub scores: Seq<i32>,
    pub surrendered: bool,
}

#[verifier::ext_equal]
pub enum RoundPhaseModel {
    Auction(AuctionModel),
    Talon(Talon),
    Transfer(Transfer),
    Contract(ContractModel),
    Play(PlayModel),
    ClaimVote(ClaimVoteModel),
    RoundFinished(ResultModel),
}

#[verifier::ext_equal]
pub struct RoundModel {
    pub seed: u64,
    pub dealer: Seat,
    pub locked_at_start: Seq<bool>,
    pub hands: Seq<Seq<Card>>,
    pub talon: Seq<Card>,
    pub publicly_revealed: Set<Card>,
    pub phase: RoundPhaseModel,
}

#[verifier::ext_equal]
pub enum MatchPhaseModel {
    WaitingForDeal,
    Round(RoundModel),
    MatchFinished { winner: Seat },
}

#[verifier::ext_equal]
pub struct MatchModel {
    pub config: Config,
    pub players: Seq<PlayerModel>,
    pub dealer: Seat,
    pub match_index: u64,
    pub round_index: u64,
    pub phase: MatchPhaseModel,
    pub events: Seq<EventModel>,
}

#[verifier::ext_equal]
pub enum ActionModel {
    Bid { points: u16 },
    Pass,
    RespondToProof { reveal: bool },
    RevealProof { suits: Seq<Suit> },
    ContinueAfterTalon,
    Surrender,
    Transfer { gifts: Seq<Gift> },
    ConfirmContract { points: u16 },
    PlayCard { card: Card },
    ClaimRemaining,
    VoteOnClaim { accept: bool },
}

impl View for Player {
    type V = PlayerModel;

    open spec fn view(&self) -> PlayerModel {
        PlayerModel { name: self.name@, score: self.score, free_surrender_used: self.free_surrender_used }
    }
}

impl View for GameEvent {
    type V = EventModel;

    open spec fn view(&self) -> EventModel {
        EventModel { kind: self.kind, message: self.message@ }
    }
}

pub open spec fn suit_sets(v: [Vec<Suit>; 3]) -> Seq<Set<Suit>> {
    seq![v[0]@.to_set(), v[1]@.to_set(), v[2]@.to_set()]
}

pub open spec fn card_seqs(v: [Vec<Card>; 3]) -> Seq<Seq<Card>> {
    seq![v[0]@, v[1]@, v[2]@]
}

impl View for Auction {
    type V = AuctionModel;

    open spec fn view(&self) -> AuctionModel {
        AuctionModel {
            opener: self.opener,
            turn: self.turn,
            highest_bidder: self.highest_bidder,
            highest_bid: self.highest_bid,
            active: self.active@,
            proof: self.proof,
            revealed_marriages: suit_sets(self.revealed_marriages),
        }
    }
}

impl View for Contract {
    type V = ContractModel;

    open spec fn view(&self) -> ContractModel {
        ContractModel {
            contractor: self.contractor,
            auction_bid: self.auction_bid,
            points: self.points,
            proof: self.proof,
            revealed_marriages: self.revealed_marriages@.to_set(),
        }
    }
}

impl View for Play {
    type V = PlayModel;

    open spec fn view(&self) -> PlayModel {
        PlayModel {
            contractor: self.contractor,
            contract: self.contract,
            leader: self.leader,
            turn: self.turn,
            trump: self.trump,
            trick: self.trick@,
            last_trick: self.last_trick@,
            captured: card_seqs(self.captured),
            marriage_points: self.marriage_points@,
            declared_marriages: suit_sets(self.declared_marriages),
            open_hands: self.open_hands@,
        }
    }
}

impl View for ClaimVote {
    type V = ClaimVoteModel;

    open spec fn view(&self) -> ClaimVoteModel {
        ClaimVoteModel {
            play: self.play@,
            claimant: self.claimant,
            voters: self.voters@,
            voter_index: self.voter_index,
        }
    }
}

impl View for RoundResult {
    type V = ResultModel;

    open spec fn view(&self) -> ResultModel {
        ResultModel {
            contractor: self.contractor,
            contract: self.contract,
            raw_points: self.raw_points@,
            deltas: self.deltas@,
            scores: self.scores@,
            surrendered: self.surrendered,
        }
    }
}

impl View for RoundPhase {
    type V = RoundPhaseModel;

    open spec fn view(&self) -> RoundPhaseModel {
        match self {
            RoundPhase::Auction(a) => RoundPhaseModel::Auction(a@),
            RoundPhase::Talon(t) => RoundPhaseModel::Talon(*t),
            RoundPhase::Transfer(t) => RoundPhaseModel::Transfer(*t),
            RoundPhase::Contract(c) => RoundPhaseModel::Contract(c@),
            RoundPhase::Play(p) => RoundPhaseModel::Play(p@),
            RoundPhase::ClaimVote(v) => RoundPhaseModel::ClaimVote(v@),
            RoundPhase::RoundFinished(r) => RoundPhaseModel::RoundFinished(r@),
        }
    }
}

impl View for Round {
    type V = RoundModel;

    open spec fn view(&self) -> RoundModel {
        RoundModel {
            seed: self.seed,
            dealer: self.dealer,
            locked_at_start: self.locked_at_start@,
            hands: card_seqs(self.hands),
            talon: self.talon@,
            publicly_revealed: self.publicly_revealed@.to_set(),
            phase: self.phase@,
        }
    }
}

impl View for MatchPhase {
    type V = MatchPhaseModel;

    open spec fn view(&self) -> MatchPhaseModel {
        match self {
            MatchPhase::WaitingForDeal => MatchPhaseModel::WaitingForDeal,
            MatchPhase::Round(r) => MatchPhaseModel::Round((**r)@),
            MatchPhase::MatchFinished { winner } => MatchPhaseModel::MatchFinished { winner: *winner },
        }
    }
}

pub open spec fn event_models(v: Seq<GameEvent>) -> Seq<EventModel> {
    Seq::new(v.len(), |i: int| v[i]@)
}

pub open spec fn player_models(p: [Player; 3]) -> Seq<PlayerModel> {
    seq![p[0]@, p[1]@, p[2]@]
}

impl View for Match {
    type V = MatchModel;

    open spec fn view(&self) -> MatchModel {
        MatchModel {
            config: self.config,
            players: player_models(self.players),
            dealer: self.dealer,
            match_index: self.match_index,
            round_index: self.round_index,
            phase: self.phase@,
            events: event_models(self.events@),
        }
    }
}

impl View for Action {
    type V = ActionModel;

    open spec fn view(&self) -> ActionModel {
        match self {
            Action::Bid { points } => ActionModel::Bid { points: *points },
            Action::Pass => ActionModel::Pass,
            Action::RespondToProof { reveal } => ActionModel::RespondToProof { reveal: *reveal },
            Action::RevealProof { suits } => ActionModel::RevealProof { suits: suits@ },
            Action::ContinueAfterTalon => ActionModel::ContinueAfterTalon,
            Action::Surrender => ActionModel::Surrender,
            Action::Transfer { gifts } => ActionModel::Transfer { gifts: gifts@ },
            Action::ConfirmContract { points } => ActionModel::ConfirmContract { points: *points },
            Action::PlayCard { card } => ActionModel::PlayCard { card: *card },
            Action::ClaimRemaining => ActionModel::ClaimRemaining,
            Action::VoteOnClaim { accept } => ActionModel::VoteOnClaim { accept: *accept },
        }
    }
}

/// Largest score magnitude the engine accepts; beyond it score arithmetic
/// could overflow.
pub open spec fn score_limit() -> int {
    0x4000_0000
}

/// Most cards a round may hold across hands, talon, tricks and captures;
/// beyond it point sums could overflow.
pub open spec fn card_limit() -> int {
    500
}

/// Number of cards in three piles.
pub open spec fn cards_in(piles: Seq<Seq<Card>>) -> int {
    (piles[0].len() + piles[1].len() + piles[2].len()) as int
}

pub open spec fn proof_wf(p: Proof) -> bool {
    &&& p.bidder.is_valid()
    &&& p.responders[0].is_valid()
    &&& p.responders[1].is_valid()
    &&& p.responder_index <= 2
    &&& p.points <= 60_000
}

pub open spec fn option_proof_wf(p: Option<Proof>) -> bool {
    match p {
        Some(p) => proof_wf(p),
        None => true,
    }
}

/// A winning auction bid: a multiple of ten from 100 on.
pub open spec fn bid_wf(bid: u16) -> bool {
    100 <= bid <= 60_000 && bid % 10 == 0
}

/// Trick play with valid seats, counted cards, and room for every marriage
/// still in hand.
pub open spec fn play_wf(p: PlayModel, hands: Seq<Seq<Card>>) -> bool {
    &&& p.contractor.is_valid()
    &&& p.leader.is_valid()
    &&& p.turn.is_valid()
    &&& p.trick.len() < 3
    &&& forall|i: int| 0 <= i < p.trick.len() ==> (#[trigger] p.trick[i]).player.is_valid()
    &&& p.captured.len() == 3
    &&& p.marriage_points.len() == 3
    &&& p.declared_marriages.len() == 3
    &&& p.open_hands.len() == 3
    &&& cards_in(hands) + cards_in(p.captured) + p.trick.len() <= card_limit()
    &&& forall|i: int|
        0 <= i < 3 ==> #[trigger] p.marriage_points[i] + 100 * hands[i].len() <= 50_000
}

pub open spec fn phase_wf(ph: RoundPhaseModel, hands: Seq<Seq<Card>>, talon: Seq<Card>) -> bool {
    match ph {
        RoundPhaseModel::Auction(a) => {
            &&& cards_in(hands) + talon.len() <= card_limit()
            &&& a.opener.is_valid()
            &&& a.turn.is_valid()
            &&& a.highest_bidder.is_valid()
            &&& 100 <= a.highest_bid <= 60_000
            &&& a.highest_bid % 10 == 0
            &&& a.active.len() == 3
            &&& option_proof_wf(a.proof)
            &&& a.revealed_marriages.len() == 3
        },
        RoundPhaseModel::Talon(t) => {
            &&& cards_in(hands) <= card_limit()
            &&& t.contractor.is_valid()
            &&& bid_wf(t.auction_bid)
        },
        RoundPhaseModel::Transfer(t) => {
            &&& cards_in(hands) <= card_limit()
            &&& t.contractor.is_valid()
            &&& bid_wf(t.auction_bid)
        },
        RoundPhaseModel::Contract(c) => {
            &&& cards_in(hands) <= card_limit()
            &&& c.contractor.is_valid()
            &&& bid_wf(c.auction_bid)
            &&& option_proof_wf(c.proof)
        },
        RoundPhaseModel::Play(p) => play_wf(p, hands),
        RoundPhaseModel::ClaimVote(v) => {
            &&& play_wf(v.play, hands)
            &&& v.claimant.is_valid()
            &&& v.voters.len() == 2
            &&& v.voters[0].is_valid()
            &&& v.voters[1].is_valid()
        },
        RoundPhaseModel::RoundFinished(r) => {
            &&& r.contractor.is_valid()
            &&& r.raw_points.len() == 3
            &&& r.deltas.len() == 3
            &&& r.scores.len() == 3
        },
    }
}

pub open spec fn round_wf(r: RoundModel) -> bool {
    &&& r.dealer.is_valid()
    &&& r.locked_at_start.len() == 3
    &&& r.hands.len() == 3
    &&& phase_wf(r.phase, r.hands, r.talon)
}

/// Every score lies far enough from the `i32` limits for one more round.
pub open spec fn scores_in_range(players: Seq<PlayerModel>) -> bool {
    &&& players.len() == 3
    &&& forall|i: int|
        0 <= i < 3 ==> -score_limit() <= (#[trigger] players[i]).score <= score_limit()
}

/// The states the engine works on: valid seats everywhere and every pile
/// within the card limit.
pub open spec fn match_wf(m: MatchModel) -> bool {
    &&& m.players.len() == 3
    &&& m.dealer.is_valid()
    &&& match m.phase {
        MatchPhaseModel::Round(r) => round_wf(r),
        _ => true,
    }
}

} // verus!
