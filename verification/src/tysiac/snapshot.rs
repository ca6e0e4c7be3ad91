//! Field-by-field copies of the engine state: each copy has the same view as
//! the value it was made from.
use vstd::prelude::*;

use crate::cards::{Card, PlayedCard, Suit};
use crate::tysiac::Gift;
use crate::tysiac::challenge::copy_suits;
use crate::tysiac::engine::events_since;
use crate::tysiac::model::{card_seqs, event_models, player_models, suit_sets};
use crate::tysiac::rules::clone_cards;
use crate::tysiac::{
    Action, Auction, ClaimVote, Contract, Match, MatchPhase, Play, Player, Round, RoundPhase, Seat,
};

verus! {

fn copy_plays(plays: &[PlayedCard<Seat>]) -> (v: Vec<PlayedCard<Seat>>)
    ensures
        v@ == plays@,
{
    let mut v: Vec<PlayedCard<Seat>> = Vec::new();
    let mut i: usize = 0;
    while i < plays.len()
        invariant
            i <= plays@.len(),
            v@ == plays@.take(i as int),
        decreases plays@.len() - i,
    {
        assert(plays@.take(i as int + 1) == plays@.take(i as int).push(plays@[i as int]));
        v.push(plays[i]);
        i = i + 1;
    }
    assert(plays@.take(plays@.len() as int) == plays@);
    v
}

fn copy_hands(hands: &[Vec<Card>; 3]) -> (h: [Vec<Card>; 3])
    ensures
        card_seqs(h) == card_seqs(*hands),
{
    let h = [
        clone_cards(hands[0].as_slice()),
        clone_cards(hands[1].as_slice()),
        clone_cards(hands[2].as_slice()),
    ];
    assert(card_seqs(h) =~= card_seqs(*hands));
    h
}

fn copy_suit_lists(lists: &[Vec<Suit>; 3]) -> (l: [Vec<Suit>; 3])
    ensures
        suit_sets(l) == suit_sets(*lists),
{
    let l = [
        copy_suits(lists[0].as_slice()),
        copy_suits(lists[1].as_slice()),
        copy_suits(lists[2].as_slice()),
    ];
    assert(suit_sets(l) =~= suit_sets(*lists));
    l
}

fn copy_play(p: &Play) -> (c: Play)
    ensures
        c@ == p@,
{
    Play {
        contractor: p.contractor,
        contract: p.contract,
        leader: p.leader,
        turn: p.turn,
        trump: p.trump,
        trick: copy_plays(p.trick.as_slice()),
        last_trick: copy_plays(p.last_trick.as_slice()),
        captured: copy_hands(&p.captured),
        marriage_points: p.marriage_points,
        declared_marriages: copy_suit_lists(&p.declared_marriages),
        open_hands: p.open_hands,
    }
}

fn copy_round_phase(ph: &RoundPhase) -> (c: RoundPhase)
    ensures
        c@ == ph@,
{
    match ph {
        RoundPhase::Auction(a) => RoundPhase::Auction(
            Auction {
                opener: a.opener,
                turn: a.turn,
                highest_bidder: a.highest_bidder,
                highest_bid: a.highest_bid,
                active: a.active,
                proof: a.proof,
                revealed_marriages: copy_suit_lists(&a.revealed_marriages),
            },
        ),
        RoundPhase::Talon(t) => RoundPhase::Talon(*t),
        RoundPhase::Transfer(t) => RoundPhase::Transfer(*t),
        RoundPhase::Contract(c) => RoundPhase::Contract(
            Contract {
                contractor: c.contractor,
                auction_bid: c.auction_bid,
                points: c.points,
                proof: c.proof,
                revealed_marriages: copy_suits(c.revealed_marriages.as_slice()),
            },
        ),
        RoundPhase::Play(p) => RoundPhase::Play(copy_play(p)),
        RoundPhase::ClaimVote(v) => RoundPhase::ClaimVote(
            ClaimVote {
                play: copy_play(&v.play),
                claimant: v.claimant,
                voters: v.voters,
                voter_index: v.voter_index,
            },
        ),
        RoundPhase::RoundFinished(r) => RoundPhase::RoundFinished(*r),
    }
}

fn copy_round(r: &Round) -> (c: Round)
    ensures
        c@ == r@,
{
    Round {
        seed: r.seed,
        dealer: r.dealer,
        locked_at_start: r.locked_at_start,
        hands: copy_hands(&r.hands),
        talon: clone_cards(r.talon.as_slice()),
        publicly_revealed: clone_cards(r.publicly_revealed.as_slice()),
        phase: copy_round_phase(&r.phase),
    }
}

fn copy_player(p: &Player) -> (c: Player)
    ensures
        c@ == p@,
{
    Player { name: p.name.clone(), score: p.score, free_surrender_used: p.free_surrender_used }
}

impl Match {
    /// A copy of the whole match: same players, phase, hands and history.
    pub fn snapshot(&self) -> (m: Match)
        ensures
            m@ == self@,
    {
        let phase = match &self.phase {
            MatchPhase::WaitingForDeal => MatchPhase::WaitingForDeal,
            MatchPhase::Round(r) => MatchPhase::Round(Box::new(copy_round(r))),
            MatchPhase::MatchFinished { winner } => MatchPhase::MatchFinished { winner: *winner },
        };
        let players = [
            copy_player(&self.players[0]),
            copy_player(&self.players[1]),
            copy_player(&self.players[2]),
        ];
        let events = events_since(&self.events, 0);
        let m = Match {
            config: self.config,
            players,
            dealer: self.dealer,
            match_index: self.match_index,
            round_index: self.round_index,
            phase,
            events,
        };
        assert(player_models(m.players) =~= player_models(self.players));
        assert(event_models(self.events@).skip(0) =~= event_models(self.events@));
        m
    }
}

fn copy_gifts(gifts: &[Gift]) -> (v: Vec<Gift>)
    ensures
        v@ == gifts@,
{
    let mut v: Vec<Gift> = Vec::new();
    let mut i: usize = 0;
    while i < gifts.len()
        invariant
            i <= gifts@.len(),
            v@ == gifts@.take(i as int),
        decreases gifts@.len() - i,
    {
        assert(gifts@.take(i as int + 1) == gifts@.take(i as int).push(gifts@[i as int]));
        v.push(gifts[i]);
        i = i + 1;
    }
    assert(gifts@.take(gifts@.len() as int) == gifts@);
    v
}

impl Action {
    /// A copy of the action with the same view.
    pub fn duplicate(&self) -> (a: Action)
        ensures
            a@ == self@,
    {
        match self {
            Action::Bid { points } => Action::Bid { points: *points },
            Action::Pass => Action::Pass,
            Action::RespondToProof { reveal } => Action::RespondToProof { reveal: *reveal },
            Action::RevealProof { suits } => Action::RevealProof { suits: copy_suits(suits.as_slice()) },
            Action::ContinueAfterTalon => Action::ContinueAfterTalon,
            Action::Surrender => Action::Surrender,
            Action::Transfer { gifts } => Action::Transfer { gifts: copy_gifts(gifts.as_slice()) },
            Action::ConfirmContract { points } => Action::ConfirmContract { points: *points },
            Action::PlayCard { card } => Action::PlayCard { card: *card },
            Action::ClaimRemaining => Action::ClaimRemaining,
            Action::VoteOnClaim { accept } => Action::VoteOnClaim { accept: *accept },
        }
    }
}

} // verus!
