//! What each action does to a match, stated over the model.
use vstd::prelude::*;

use crate::cards::{Card, PlayedCard, Rank, Suit};
use crate::tysiac::{
    proof_responder, Config, Gift, Proof, ProofPurpose, RuleError, Seat, Talon, TalonVisibility,
    Transfer,
};
use crate::tysiac::model::{
    ActionModel, AuctionModel, ClaimVoteModel, ContractModel, EventModel, MatchModel,
    MatchPhaseModel, PlayModel, PlayerModel, ResultModel, RoundModel, RoundPhaseModel,
};
use crate::draws::blake3_digest;
use crate::cards::seeded_shuffle;
use vstd::bytes::{spec_u64_from_le_bytes, spec_u64_to_le_bytes};
use crate::tysiac::messages::{
    dealt_event, opens_event, reshuffle_event, bid_event, challenge_event, claim_event,
    contract_event, gift_event, marriage_event, pass_event, play_event, proof_response_event,
    proof_reveal_event, score_event, surrender_event, talon_event, trick_event, vote_event,
};
use crate::tysiac::rules::{
    card_points_spec, legal_cards_spec, marriage_total, marriage_value_spec, marriages_spec,
    mate_spec, is_marriage_card, new_play_spec, new_proof_spec, next_active_spec, opponents_spec,
    round_to_ten_spec, sorted_hand, suppress_spec, supported, trick_leader_play, without_card,
    dealt_hands, dealt_talon, game_deck_spec, holds_all_nines,
};

verus! {

pub open spec fn with_events(m: MatchModel, es: Seq<EventModel>) -> MatchModel {
    MatchModel { events: m.events + es, ..m }
}

pub open spec fn with_phase(r: RoundModel, ph: RoundPhaseModel) -> RoundModel {
    RoundModel { phase: ph, ..r }
}

/// Number of seats still in the auction.
pub open spec fn active_count(active: Seq<bool>) -> nat {
    (if active[0] { 1nat } else { 0nat }) + (if active[1] { 1nat } else { 0nat }) + (if active[2] {
        1nat
    } else {
        0nat
    })
}

#[verifier::opaque]
pub open spec fn bid_spec(m: MatchModel, r: RoundModel, actor: Seat, points: u16) -> Result<
    (MatchModel, RoundModel),
    RuleError,
> {
    match r.phase {
        RoundPhaseModel::Auction(a) => {
            if a.proof is Some {
                Err(RuleError::WrongPhase)
            } else if actor != a.turn {
                Err(RuleError::NotYourTurn)
            } else if !a.active[actor.0 as int] {
                Err(RuleError::AlreadyPassed)
            } else if points != a.highest_bid + 10 {
                Err(RuleError::InvalidBidStep)
            } else if !supported(r.hands[actor.0 as int], points) {
                Err(RuleError::UnsupportedPoints)
            } else {
                let challenged = points > 120 + marriage_total(a.revealed_marriages[actor.0 as int]);
                let a2 = AuctionModel {
                    highest_bid: points,
                    highest_bidder: actor,
                    turn: next_active_spec(actor, a.active)->Some_0,
                    proof: if challenged {
                        Some(new_proof_spec(ProofPurpose::Auction, actor, points))
                    } else {
                        a.proof
                    },
                    ..a
                };
                let es = if challenged {
                    seq![bid_event(actor, points), challenge_event(actor, points)]
                } else {
                    seq![bid_event(actor, points)]
                };
                Ok((with_events(m, es), with_phase(r, RoundPhaseModel::Auction(a2))))
            }
        },
        _ => Err(RuleError::WrongPhase),
    }
}

pub open spec fn talon_public(config: Config, bid: u16) -> bool {
    config.talon_visibility == TalonVisibility::AlwaysPublic || bid != 100
}

#[verifier::opaque]
pub open spec fn pass_spec(m: MatchModel, r: RoundModel, actor: Seat) -> Result<(MatchModel, RoundModel), RuleError> {
    match r.phase {
        RoundPhaseModel::Auction(a) => {
            if a.proof is Some {
                Err(RuleError::WrongPhase)
            } else if actor != a.turn {
                Err(RuleError::NotYourTurn)
            } else if !a.active[actor.0 as int] {
                Err(RuleError::AlreadyPassed)
            } else {
                let active = a.active.update(actor.0 as int, false);
                if active_count(active) > 1 {
                    let a2 = AuctionModel {
                        active,
                        turn: next_active_spec(actor, active)->Some_0,
                        ..a
                    };
                    Ok(
                        (
                            with_events(m, seq![pass_event(actor)]),
                            with_phase(r, RoundPhaseModel::Auction(a2)),
                        ),
                    )
                } else {
                    let c = a.highest_bidder;
                    let bid = a.highest_bid;
                    let public = talon_public(m.config, bid);
                    let r2 = RoundModel {
                        hands: r.hands.update(c.0 as int, sorted_hand(r.hands[c.0 as int] + r.talon)),
                        publicly_revealed: if public {
                            r.publicly_revealed.union(r.talon.to_set())
                        } else {
                            r.publicly_revealed
                        },
                        phase: RoundPhaseModel::Talon(Talon { contractor: c, auction_bid: bid, public }),
                        ..r
                    };
                    Ok((with_events(m, seq![pass_event(actor), talon_event(c, bid, public)]), r2))
                }
            }
        },
        _ => Err(RuleError::WrongPhase),
    }
}

/// The proof awaiting an answer in the current phase, if the phase has one.
pub open spec fn pending_proof(ph: RoundPhaseModel) -> Option<Proof> {
    match ph {
        RoundPhaseModel::Auction(a) => a.proof,
        RoundPhaseModel::Contract(c) => c.proof,
        _ => None,
    }
}

pub open spec fn answered_proof(p: Proof, reveal: bool) -> Proof {
    if reveal {
        Proof { reveal_required: true, ..p }
    } else {
        Proof { responder_index: (p.responder_index + 1) as usize, ..p }
    }
}

pub open spec fn proof_settled(p: Proof) -> bool {
    !p.reveal_required && p.responder_index == 2
}

#[verifier::opaque]
pub open spec fn respond_spec(m: MatchModel, r: RoundModel, actor: Seat, reveal: bool) -> Result<
    (MatchModel, RoundModel),
    RuleError,
> {
    match r.phase {
        RoundPhaseModel::Auction(_) | RoundPhaseModel::Contract(_) => {
            match pending_proof(r.phase) {
                None => Err(RuleError::WrongPhase),
                Some(p) => {
                    if p.reveal_required || proof_responder(p) != Some(actor) {
                        Err(RuleError::NotProofResponder)
                    } else {
                        let p2 = answered_proof(p, reveal);
                        let phase = match r.phase {
                            RoundPhaseModel::Auction(a) => RoundPhaseModel::Auction(
                                AuctionModel {
                                    proof: if proof_settled(p2) {
                                        None
                                    } else {
                                        Some(p2)
                                    },
                                    ..a
                                },
                            ),
                            RoundPhaseModel::Contract(c) => if proof_settled(p2) {
                                RoundPhaseModel::Play(new_play_spec(c.contractor, c.points))
                            } else {
                                RoundPhaseModel::Contract(ContractModel { proof: Some(p2), ..c })
                            },
                            _ => r.phase,
                        };
                        Ok(
                            (
                                with_events(m, seq![proof_response_event(actor, reveal)]),
                                with_phase(r, phase),
                            ),
                        )
                    }
                },
            }
        },
        _ => Err(RuleError::WrongPhase),
    }
}

/// The queen and king of every listed suit.
pub open spec fn marriage_cards(suits: Seq<Suit>) -> Set<Card> {
    Set::new(
        |c: Card|
            suits.contains(c.suit) && (c.rank == Rank::Queen || c.rank == Rank::King),
    )
}

/// Index `mask` names the held marriages whose bit is set.
pub open spec fn mask_subset(held: Seq<Suit>, mask: nat) -> Seq<Suit>
    decreases held.len(),
{
    if held.len() == 0 {
        Seq::empty()
    } else {
        let prefix = mask_subset(held.drop_last(), mask);
        if (mask / vstd::arithmetic::power2::pow2((held.len() - 1) as nat)) % 2 == 1 {
            prefix.push(held.last())
        } else {
            prefix
        }
    }
}

/// Whether marriages worth `suits` support `points`.
pub open spec fn sufficient(suits: Seq<Suit>, points: u16) -> bool {
    120 + marriage_total(suits.to_set()) >= points
}

/// Whether fewer than `k` of the held marriages would already support `points`.
pub open spec fn smaller_proof_exists(held: Seq<Suit>, points: u16, k: nat) -> bool {
    exists|mask: nat|
        mask < vstd::arithmetic::power2::pow2(held.len()) && #[trigger] mask_subset(held, mask).len() < k
            && sufficient(mask_subset(held, mask), points)
}

/// A proof names distinct held marriages that support the points, and no
/// smaller set of held marriages would.
pub open spec fn valid_proof(hand: Seq<Card>, points: u16, suits: Seq<Suit>) -> bool {
    let held = marriages_spec(hand);
    &&& suits.no_duplicates()
    &&& suits.to_set().subset_of(held.to_set())
    &&& sufficient(suits, points)
    &&& !smaller_proof_exists(held, points, suits.len())
}

#[verifier::opaque]
pub open spec fn reveal_spec(m: MatchModel, r: RoundModel, actor: Seat, suits: Seq<Suit>) -> Result<
    (MatchModel, RoundModel),
    RuleError,
> {
    match pending_proof(r.phase) {
        None => Err(RuleError::WrongPhase),
        Some(p) => {
            if actor != p.bidder || !p.reveal_required {
                Err(RuleError::NotProofBidder)
            } else if !valid_proof(r.hands[actor.0 as int], p.points, suits) {
                Err(RuleError::InvalidProof)
            } else {
                let phase = match r.phase {
                    RoundPhaseModel::Auction(a) => RoundPhaseModel::Auction(
                        AuctionModel {
                            revealed_marriages: a.revealed_marriages.update(
                                actor.0 as int,
                                a.revealed_marriages[actor.0 as int].union(suits.to_set()),
                            ),
                            proof: None,
                            ..a
                        },
                    ),
                    RoundPhaseModel::Contract(c) => RoundPhaseModel::Play(
                        new_play_spec(c.contractor, c.points),
                    ),
                    _ => r.phase,
                };
                let r2 = RoundModel {
                    publicly_revealed: r.publicly_revealed.union(marriage_cards(suits)),
                    phase,
                    ..r
                };
                Ok((with_events(m, seq![proof_reveal_event(actor, suits)]), r2))
            }
        },
    }
}

#[verifier::opaque]
pub open spec fn continue_spec(m: MatchModel, r: RoundModel, actor: Seat) -> Result<
    (MatchModel, RoundModel),
    RuleError,
> {
    match r.phase {
        RoundPhaseModel::Talon(t) => {
            if actor != t.contractor {
                Err(RuleError::NotYourTurn)
            } else {
                Ok(
                    (
                        m,
                        with_phase(
                            r,
                            RoundPhaseModel::Transfer(
                                Transfer { contractor: t.contractor, auction_bid: t.auction_bid },
                            ),
                        ),
                    ),
                )
            }
        },
        _ => Err(RuleError::WrongPhase),
    }
}

/// Players after each score moves by its delta.
pub open spec fn add_deltas(players: Seq<PlayerModel>, deltas: Seq<i32>) -> Seq<PlayerModel> {
    Seq::new(
        3,
        |i: int| PlayerModel { score: (players[i].score + deltas[i]) as i32, ..players[i] },
    )
}

pub open spec fn scores_of(players: Seq<PlayerModel>) -> Seq<i32> {
    Seq::new(3, |i: int| players[i].score)
}

/// Deltas of a surrender: each defender gains 60; a first surrender costs the
/// contractor nothing, a later one the auction bid.
pub open spec fn surrender_deltas(used: bool, c: Seat, bid: u16) -> Seq<i32> {
    Seq::new(
        3,
        |i: int|
            if i == c.0 {
                if used {
                    (-(bid as int)) as i32
                } else {
                    0i32
                }
            } else {
                60i32
            },
    )
}

#[verifier::opaque]
pub open spec fn surrender_spec(m: MatchModel, r: RoundModel, actor: Seat) -> Result<
    (MatchModel, RoundModel),
    RuleError,
> {
    match r.phase {
        RoundPhaseModel::Talon(t) => {
            if actor != t.contractor {
                Err(RuleError::NotYourTurn)
            } else {
                let c = t.contractor;
                let bid = t.auction_bid;
                let used = m.players[c.0 as int].free_surrender_used;
                let deltas = suppress_spec(surrender_deltas(used, c, bid), r.locked_at_start, c);
                let flagged = m.players.update(
                    c.0 as int,
                    PlayerModel { free_surrender_used: true, ..m.players[c.0 as int] },
                );
                let players = add_deltas(flagged, deltas);
                let result = ResultModel {
                    contractor: c,
                    contract: bid,
                    raw_points: seq![0u16, 0u16, 0u16],
                    deltas,
                    scores: scores_of(players),
                    surrendered: true,
                };
                Ok(
                    (
                        MatchModel {
                            players,
                            events: m.events.push(surrender_event(c, bid)),
                            ..m
                        },
                        with_phase(r, RoundPhaseModel::RoundFinished(result)),
                    ),
                )
            }
        },
        _ => Err(RuleError::WrongPhase),
    }
}

/// Two gifts, one distinct held card to each opponent.
pub open spec fn valid_transfer(actor: Seat, hand: Seq<Card>, gifts: Seq<Gift>) -> bool {
    &&& gifts.len() == 2
    &&& gifts[0].recipient.is_valid()
    &&& gifts[1].recipient.is_valid()
    &&& gifts[0].recipient != actor
    &&& gifts[1].recipient != actor
    &&& gifts[0].recipient != gifts[1].recipient
    &&& gifts[0].card != gifts[1].card
    &&& hand.contains(gifts[0].card)
    &&& hand.contains(gifts[1].card)
}

#[verifier::opaque]
pub open spec fn give(hands: Seq<Seq<Card>>, actor: Seat, g: Gift) -> Seq<Seq<Card>> {
    let h = hands.update(actor.0 as int, without_card(hands[actor.0 as int], g.card));
    h.update(g.recipient.0 as int, sorted_hand(h[g.recipient.0 as int].push(g.card)))
}

#[verifier::opaque]
pub open spec fn transfer_spec(m: MatchModel, r: RoundModel, actor: Seat, gifts: Seq<Gift>) -> Result<
    (MatchModel, RoundModel),
    RuleError,
> {
    match r.phase {
        RoundPhaseModel::Transfer(t) => {
            if actor != t.contractor {
                Err(RuleError::NotYourTurn)
            } else if !valid_transfer(actor, r.hands[actor.0 as int], gifts) {
                Err(RuleError::InvalidTransfer)
            } else {
                let hands = give(give(r.hands, actor, gifts[0]), actor, gifts[1]);
                let c = ContractModel {
                    contractor: actor,
                    auction_bid: t.auction_bid,
                    points: t.auction_bid,
                    proof: None,
                    revealed_marriages: Set::empty(),
                };
                Ok(
                    (
                        with_events(
                            m,
                            seq![
                                gift_event(actor, gifts[0].card, gifts[0].recipient),
                                gift_event(actor, gifts[1].card, gifts[1].recipient)
                            ],
                        ),
                        RoundModel { hands, phase: RoundPhaseModel::Contract(c), ..r },
                    ),
                )
            }
        },
        _ => Err(RuleError::WrongPhase),
    }
}

#[verifier::opaque]
pub open spec fn contract_spec(m: MatchModel, r: RoundModel, actor: Seat, points: u16) -> Result<
    (MatchModel, RoundModel),
    RuleError,
> {
    match r.phase {
        RoundPhaseModel::Contract(c) => {
            if c.proof is Some {
                Err(RuleError::WrongPhase)
            } else if actor != c.contractor {
                Err(RuleError::NotYourTurn)
            } else if points < c.auction_bid || points % 10 != 0 {
                Err(RuleError::InvalidContract)
            } else if !supported(r.hands[actor.0 as int], points) {
                Err(RuleError::UnsupportedPoints)
            } else {
                let phase = if points > 120 + marriage_total(c.revealed_marriages) {
                    RoundPhaseModel::Contract(
                        ContractModel {
                            points,
                            proof: Some(new_proof_spec(ProofPurpose::Contract, actor, points)),
                            ..c
                        },
                    )
                } else {
                    RoundPhaseModel::Play(new_play_spec(actor, points))
                };
                Ok((with_events(m, seq![contract_event(actor, points)]), with_phase(r, phase)))
            }
        },
        _ => Err(RuleError::WrongPhase),
    }
}

/// Card points of a pile.
pub open spec fn points_sum(s: Seq<Card>) -> nat
    decreases s.len(),
{
    if s.len() == 0 {
        0
    } else {
        points_sum(s.drop_last()) + card_points_spec(s.last())
    }
}

/// Raw round points: captured card points plus declared marriages.
pub open spec fn raw_points(p: PlayModel) -> Seq<u16> {
    Seq::new(3, |i: int| (points_sum(p.captured[i]) + p.marriage_points[i]) as u16)
}

/// Deltas of a played-out round before locks apply: the contractor gains or
/// loses exactly the contract, defenders gain their rounded raw points.
pub open spec fn play_deltas(p: PlayModel, raw: Seq<u16>) -> Seq<i32> {
    Seq::new(
        3,
        |i: int|
            if i == p.contractor.0 {
                if raw[i] >= p.contract {
                    p.contract as i32
                } else {
                    (-(p.contract as int)) as i32
                }
            } else {
                round_to_ten_spec(raw[i] as int) as i32
            },
    )
}

/// Scores a played-out round, recording the score event.
pub open spec fn score_play_spec(m: MatchModel, locked: Seq<bool>, p: PlayModel) -> (MatchModel, ResultModel) {
    let raw = raw_points(p);
    let deltas = suppress_spec(play_deltas(p, raw), locked, p.contractor);
    let players = add_deltas(m.players, deltas);
    let result = ResultModel {
        contractor: p.contractor,
        contract: p.contract,
        raw_points: raw,
        deltas,
        scores: scores_of(players),
        surrendered: false,
    };
    (MatchModel { players, events: m.events.push(score_event(raw, deltas)), ..m }, result)
}

pub open spec fn cards_of_plays(t: Seq<PlayedCard<Seat>>) -> Seq<Card> {
    Seq::new(t.len(), |i: int| t[i].card)
}

pub open spec fn declares_marriage(p: PlayModel, hand: Seq<Card>, card: Card) -> bool {
    p.trick.len() == 0 && is_marriage_card(card) && hand.contains(mate_spec(card))
}

pub open spec fn all_empty(hands: Seq<Seq<Card>>) -> bool {
    hands[0].len() == 0 && hands[1].len() == 0 && hands[2].len() == 0
}

#[verifier::opaque]
pub open spec fn play_card_spec(m: MatchModel, r: RoundModel, actor: Seat, card: Card) -> Result<
    (MatchModel, RoundModel),
    RuleError,
> {
    match r.phase {
        RoundPhaseModel::Play(p) => {
            let hand = r.hands[actor.0 as int];
            if actor != p.turn {
                Err(RuleError::NotYourTurn)
            } else if !hand.contains(card) {
                Err(RuleError::CardNotHeld)
            } else if !legal_cards_spec(hand, p.trick, p.trump).contains(card) {
                Err(RuleError::IllegalPlay)
            } else {
                Ok(played_card(m, r, p, actor, card))
            }
        },
        _ => Err(RuleError::WrongPhase),
    }
}

/// The trick state after `actor` leads a marriage card of a held marriage:
/// its suit becomes trump and its value counts for the seat.
pub open spec fn declare_marriage(p: PlayModel, actor: Seat, suit: Suit) -> PlayModel {
    let a = actor.0 as int;
    PlayModel {
        trump: Some(suit),
        declared_marriages: p.declared_marriages.update(a, p.declared_marriages[a].insert(suit)),
        marriage_points: p.marriage_points.update(
            a,
            (p.marriage_points[a] + marriage_value_spec(suit)) as u16,
        ),
        ..p
    }
}

/// What an accepted card play does: a possible marriage declaration, the card
/// moving from hand to trick, and the trick advancing.
pub open spec fn played_card(m: MatchModel, r: RoundModel, p: PlayModel, actor: Seat, card: Card) -> (
    MatchModel,
    RoundModel,
) {
    let hand = r.hands[actor.0 as int];
    let declares = declares_marriage(p, hand, card);
    let p1 = if declares {
        declare_marriage(p, actor, card.suit)
    } else {
        p
    };
    let es = if declares {
        seq![marriage_event(actor, card.suit), play_event(actor, card)]
    } else {
        seq![play_event(actor, card)]
    };
    advance_play(
        with_events(m, es),
        RoundModel { hands: r.hands.update(actor.0 as int, without_card(hand, card)), ..r },
        PlayModel { trick: p1.trick.push(PlayedCard { player: actor, card }), ..p1 },
        actor,
    )
}

/// After a card joins the trick: the next seat plays, or a full trick goes to
/// its winner, who leads next, and the round is scored once every hand is
/// empty.
pub open spec fn advance_play(m: MatchModel, r: RoundModel, p: PlayModel, actor: Seat) -> (
    MatchModel,
    RoundModel,
) {
    if p.trick.len() < 3 {
        (m, with_phase(r, RoundPhaseModel::Play(PlayModel { turn: actor.following(), ..p })))
    } else {
        let w = trick_leader_play(p.trick, p.trump).player;
        let p2 = PlayModel {
            trick: Seq::empty(),
            captured: p.captured.update(w.0 as int, p.captured[w.0 as int] + cards_of_plays(p.trick)),
            last_trick: p.trick,
            leader: w,
            turn: w,
            ..p
        };
        let m2 = MatchModel { events: m.events.push(trick_event(w)), ..m };
        if all_empty(r.hands) {
            let (m3, result) = score_play_spec(m2, r.locked_at_start, p2);
            (m3, with_phase(r, RoundPhaseModel::RoundFinished(result)))
        } else {
            (m2, with_phase(r, RoundPhaseModel::Play(p2)))
        }
    }
}

#[verifier::opaque]
pub open spec fn claim_spec(m: MatchModel, r: RoundModel, actor: Seat) -> Result<
    (MatchModel, RoundModel),
    RuleError,
> {
    match r.phase {
        RoundPhaseModel::Play(p) => {
            if actor != p.leader || actor != p.turn || p.trick.len() != 0 {
                Err(RuleError::CannotClaim)
            } else {
                let o = opponents_spec(actor);
                let v = ClaimVoteModel {
                    play: p,
                    claimant: actor,
                    voters: seq![o[0], o[1]],
                    voter_index: 0,
                };
                Ok(
                    (
                        with_events(m, seq![claim_event(actor)]),
                        with_phase(r, RoundPhaseModel::ClaimVote(v)),
                    ),
                )
            }
        },
        _ => Err(RuleError::WrongPhase),
    }
}

#[verifier::opaque]
pub open spec fn vote_spec(m: MatchModel, r: RoundModel, actor: Seat, accept: bool) -> Result<
    (MatchModel, RoundModel),
    RuleError,
> {
    match r.phase {
        RoundPhaseModel::ClaimVote(v) => {
            if v.voter_index >= 2 {
                Err(RuleError::WrongPhase)
            } else if actor != v.voters[v.voter_index as int] {
                Err(RuleError::NotClaimVoter)
            } else {
                let m1 = with_events(m, seq![vote_event(actor, accept)]);
                let c = v.claimant.0 as int;
                if !accept {
                    let p = PlayModel { open_hands: v.play.open_hands.update(c, true), ..v.play };
                    Ok((m1, with_phase(r, RoundPhaseModel::Play(p))))
                } else if v.voter_index + 1 == 2 {
                    let p = PlayModel {
                        captured: v.play.captured.update(
                            c,
                            v.play.captured[c] + r.hands[0] + r.hands[1] + r.hands[2],
                        ),
                        ..v.play
                    };
                    let (m2, result) = score_play_spec(m1, r.locked_at_start, p);
                    Ok(
                        (
                            m2,
                            RoundModel {
                                hands: seq![Seq::empty(), Seq::empty(), Seq::empty()],
                                phase: RoundPhaseModel::RoundFinished(result),
                                ..r
                            },
                        ),
                    )
                } else {
                    let v2 = ClaimVoteModel { voter_index: (v.voter_index + 1) as usize, ..v };
                    Ok((m1, with_phase(r, RoundPhaseModel::ClaimVote(v2))))
                }
            }
        },
        _ => Err(RuleError::WrongPhase),
    }
}

/// What one action does to the round in play.
pub open spec fn round_step(m: MatchModel, r: RoundModel, actor: Seat, action: ActionModel) -> Result<
    (MatchModel, RoundModel),
    RuleError,
> {
    match action {
        ActionModel::Bid { points } => bid_spec(m, r, actor, points),
        ActionModel::Pass => pass_spec(m, r, actor),
        ActionModel::RespondToProof { reveal } => respond_spec(m, r, actor, reveal),
        ActionModel::RevealProof { suits } => reveal_spec(m, r, actor, suits),
        ActionModel::ContinueAfterTalon => continue_spec(m, r, actor),
        ActionModel::Surrender => surrender_spec(m, r, actor),
        ActionModel::Transfer { gifts } => transfer_spec(m, r, actor, gifts),
        ActionModel::ConfirmContract { points } => contract_spec(m, r, actor, points),
        ActionModel::PlayCard { card } => play_card_spec(m, r, actor, card),
        ActionModel::ClaimRemaining => claim_spec(m, r, actor),
        ActionModel::VoteOnClaim { accept } => vote_spec(m, r, actor, accept),
    }
}

/// Whether seat `i` alone leads the table at or above the target.
pub open spec fn sole_leader(scores: Seq<i32>, target: i32, i: int) -> bool {
    &&& scores[i] >= target
    &&& forall|j: int| 0 <= j < 3 && j != i ==> scores[j] < scores[i]
}

/// The match winner after a round: a contractor who made the contract and
/// reached the target wins outright; otherwise the sole highest score at or
/// above the target wins; ties at the top let play continue.
pub open spec fn match_winner(res: ResultModel, target: i32) -> Option<Seat> {
    let c = res.contractor;
    if !res.surrendered && res.deltas[c.0 as int] > 0 && res.scores[c.0 as int] >= target {
        Some(c)
    } else if sole_leader(res.scores, target, 0) {
        Some(Seat(0))
    } else if sole_leader(res.scores, target, 1) {
        Some(Seat(1))
    } else if sole_leader(res.scores, target, 2) {
        Some(Seat(2))
    } else {
        None
    }
}

/// The match after a round step: a finished round may end the match.
pub open spec fn settle_round(m: MatchModel, r: RoundModel) -> MatchModel {
    match r.phase {
        RoundPhaseModel::RoundFinished(res) => match match_winner(res, m.config.target_score) {
            Some(w) => MatchModel { phase: MatchPhaseModel::MatchFinished { winner: w }, ..m },
            None => MatchModel { phase: MatchPhaseModel::Round(r), ..m },
        },
        _ => MatchModel { phase: MatchPhaseModel::Round(r), ..m },
    }
}

/// What `Match::apply` does: the next match, or the rule the action breaks.
pub open spec fn apply_spec(m: MatchModel, actor: Seat, action: ActionModel) -> Result<MatchModel, RuleError> {
    if !actor.is_valid() {
        Err(RuleError::InvalidSeat)
    } else {
        match m.phase {
            MatchPhaseModel::Round(r) => match round_step(
                MatchModel { phase: MatchPhaseModel::WaitingForDeal, ..m },
                r,
                actor,
                action,
            ) {
                Err(e) => Err(e),
                Ok((m1, r1)) => Ok(settle_round(m1, r1)),
            },
            _ => Err(RuleError::WrongPhase),
        }
    }
}

/// Whether a score at the start of a round locks a defender: at or above the
/// lock score but still below the target.
pub open spec fn locked(config: Config, score: i32) -> bool {
    score >= config.lock_score && score < config.target_score
}

/// The round that an accepted 24-card order deals: hands sorted, the talon
/// aside, and the seat after the dealer opening the auction at 100.
pub open spec fn dealt_round(m: MatchModel, seed: u64, deck: Seq<Card>) -> RoundModel {
    let opener = m.dealer.following();
    let hands = dealt_hands(deck);
    RoundModel {
        seed,
        dealer: m.dealer,
        locked_at_start: Seq::new(3, |i: int| locked(m.config, m.players[i].score)),
        hands: seq![sorted_hand(hands[0]), sorted_hand(hands[1]), sorted_hand(hands[2])],
        talon: dealt_talon(deck),
        publicly_revealed: Set::empty(),
        phase: RoundPhaseModel::Auction(
            AuctionModel {
                opener,
                turn: opener.following(),
                highest_bidder: opener,
                highest_bid: 100,
                active: seq![true, true, true],
                proof: None,
                revealed_marriages: seq![Set::empty(), Set::empty(), Set::empty()],
            },
        ),
    }
}

/// The match after dealing `deck`, with the two deal events recorded.
pub open spec fn deal_spec(m: MatchModel, seed: u64, deck: Seq<Card>) -> MatchModel {
    MatchModel {
        phase: MatchPhaseModel::Round(dealt_round(m, seed, deck)),
        events: m.events + seq![dealt_event(m.dealer), opens_event(m.dealer.following())],
        ..m
    }
}

/// The 32-byte shuffle seed of a deal attempt: the round seed itself, little
/// endian and zero padded, for the first attempt; a BLAKE3 digest separated by
/// domain for every retry.
pub open spec fn deal_seed_bytes(seed: u64, attempt: u64) -> Seq<u8> {
    if attempt == 0 {
        spec_u64_to_le_bytes(seed) + Seq::new(24, |i: int| 0u8)
    } else {
        blake3_digest(deal_retry_tag() + spec_u64_to_le_bytes(seed) + spec_u64_to_le_bytes(attempt))
    }
}

/// The ASCII bytes of `mille/deal-retry-seed/v1`.
pub open spec fn deal_retry_tag() -> Seq<u8> {
    seq![
        109u8, 105, 108, 108, 101, 47, 100, 101, 97, 108, 45, 114, 101, 116, 114, 121, 45, 115,
        101, 101, 100, 47, 118, 49
    ]
}

/// The ASCII bytes of `mille/round-seed/v1`.
pub open spec fn round_seed_tag() -> Seq<u8> {
    seq![109u8, 105, 108, 108, 101, 47, 114, 111, 117, 110, 100, 45, 115, 101, 101, 100, 47, 118, 49]
}

/// The seed of one round: the first eight bytes, little endian, of the BLAKE3
/// digest of the domain tag and the three counters.
pub open spec fn round_seed(base_seed: u64, match_index: u64, round_index: u64) -> u64 {
    spec_u64_from_le_bytes(
        blake3_digest(
            round_seed_tag() + spec_u64_to_le_bytes(base_seed) + spec_u64_to_le_bytes(match_index)
                + spec_u64_to_le_bytes(round_index),
        ).take(8),
    )
}

/// The card order of one deal attempt.
pub open spec fn deal_order(seed: u64, attempt: u64) -> Seq<Card> {
    seeded_shuffle(deal_seed_bytes(seed, attempt), game_deck_spec())
}

/// Whether an order would deal some seat all four nines.
pub open spec fn gives_all_nines(order: Seq<Card>) -> bool {
    let hands = dealt_hands(order);
    holds_all_nines(hands[0]) || holds_all_nines(hands[1]) || holds_all_nines(hands[2])
}

/// Attempt `n` is the first whose deal gives no seat all four nines.
pub open spec fn first_clean_attempt(seed: u64, n: u64) -> bool {
    &&& !gives_all_nines(deal_order(seed, n))
    &&& forall|a: u64| a < n ==> #[trigger] gives_all_nines(deal_order(seed, a))
}

/// The match before the accepted deal: one event reports rejected deals.
pub open spec fn reshuffle_reported(m: MatchModel, rejected: u64) -> MatchModel {
    if rejected > 0 {
        with_events(m, seq![reshuffle_event(rejected)])
    } else {
        m
    }
}

/// The match after its finished round is shown: the dealer rotates, the
/// round counter advances, and the next deal is awaited.
pub open spec fn acknowledged(m: MatchModel) -> MatchModel {
    MatchModel {
        dealer: m.dealer.following(),
        round_index: (m.round_index + 1) as u64,
        phase: MatchPhaseModel::WaitingForDeal,
        ..m
    }
}

/// Whether the match shows a finished round.
pub open spec fn round_is_finished(m: MatchModel) -> bool {
    m.phase matches MatchPhaseModel::Round(r) && r.phase is RoundFinished
}

/// What recording a round's end does: a winner ends the match.
pub open spec fn finish_spec(m: MatchModel, r: RoundModel) -> MatchModel {
    match r.phase {
        RoundPhaseModel::RoundFinished(res) => match match_winner(res, m.config.target_score) {
            Some(w) => MatchModel { phase: MatchPhaseModel::MatchFinished { winner: w }, ..m },
            None => m,
        },
        _ => m,
    }
}

} // verus!
