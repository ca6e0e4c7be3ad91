//! What holds of the engine across actions: accepted actions keep every state
//! well formed, refused ones change nothing.
use vstd::prelude::*;

use crate::cards::{lemma_swap_conserves, swap_at, Card, PlayedCard, Suit};
use crate::tysiac::{Gift, Seat};
use crate::tysiac::model::{
    ActionModel, AuctionModel, MatchModel, MatchPhaseModel, PlayModel, RoundModel, RoundPhaseModel,
    card_limit, cards_in, match_wf, play_wf, round_wf,
};
use crate::tysiac::rules::{
    lemma_sorted_hand_conserves, lemma_trick_winner_seat, lemma_without_card, marriage_total,
    new_play_spec, next_active_spec, held_marriages, trick_leader_play, without_card, dealt_hands,
    dealt_talon, game_deck_spec,
};
use crate::tysiac::spec::{
    advance_play, apply_spec, bid_spec, claim_spec, contract_spec, continue_spec, declare_marriage,
    declares_marriage, give, pass_spec, played_card, play_card_spec, respond_spec, reveal_spec,
    round_step, score_play_spec, surrender_spec, transfer_spec, valid_transfer, vote_spec,
    with_events, dealt_round, points_sum, first_clean_attempt, gives_all_nines, deal_order,
};

verus! {

/// A step leaves the table as it was, apart from scores and new events.
pub open spec fn table_kept(m: MatchModel, m2: MatchModel) -> bool {
    &&& m2.config == m.config
    &&& m2.dealer == m.dealer
    &&& m2.match_index == m.match_index
    &&& m2.round_index == m.round_index
    &&& m2.phase == m.phase
    &&& m2.players.len() == 3
    &&& m.events.is_prefix_of(m2.events)
}

proof fn lemma_seat_cycle(s: Seat)
    requires
        s.is_valid(),
    ensures
        s.following().is_valid(),
        s.following().following().is_valid(),
        s.following().following().following() == s,
        s.following() != s,
        s.following().following() != s,
{
}

proof fn lemma_events_kept(m: MatchModel, es: Seq<crate::tysiac::model::EventModel>)
    requires
        m.players.len() == 3,
    ensures
        table_kept(m, with_events(m, es)),
{
    assert((m.events + es).subrange(0, m.events.len() as int) =~= m.events);
}

proof fn lemma_kept_trans(a: MatchModel, b: MatchModel, c: MatchModel)
    requires
        table_kept(a, b),
        table_kept(b, c),
    ensures
        table_kept(a, c),
{
    assert(c.events.subrange(0, a.events.len() as int) =~= b.events.subrange(
        0,
        a.events.len() as int,
    ));
}

proof fn lemma_marriage_total_bound(s: Set<Suit>)
    ensures
        marriage_total(s) <= 280,
{
}

proof fn lemma_new_play_wf(c: Seat, contract: u16, hands: Seq<Seq<Card>>)
    requires
        c.is_valid(),
        hands.len() == 3,
        cards_in(hands) <= card_limit(),
    ensures
        play_wf(new_play_spec(c, contract), hands),
{
    let p = new_play_spec(c, contract);
    assert(cards_in(p.captured) == 0);
    assert forall|i: int| 0 <= i < 3 implies #[trigger] p.marriage_points[i] + 100 * hands[i].len()
        <= 50_000 by {
        assert(hands[i].len() <= card_limit());
    }
}

proof fn lemma_bid_keeps(m: MatchModel, r: RoundModel, actor: Seat, points: u16)
    requires
        round_wf(r),
        actor.is_valid(),
        m.players.len() == 3,
    ensures
        bid_spec(m, r, actor, points) matches Ok((m2, r2)) ==> round_wf(r2) && table_kept(m, m2),
{
    reveal(bid_spec);
    lemma_seat_cycle(actor);
    match bid_spec(m, r, actor, points) {
        Ok((m2, r2)) => {
            let a = r.phase->Auction_0;
            lemma_marriage_total_bound(held_marriages(r.hands[actor.0 as int]));
            assert(next_active_spec(actor, a.active) is Some);
            lemma_seat_cycle(actor.following());
            let es = m2.events.subrange(m.events.len() as int, m2.events.len() as int);
            assert(m2 == with_events(m, es)) by {
                assert(m2.events =~= m.events + es);
            }
            lemma_events_kept(m, es);
        },
        Err(_) => {},
    }
}

proof fn lemma_pass_keeps(m: MatchModel, r: RoundModel, actor: Seat)
    requires
        round_wf(r),
        actor.is_valid(),
        m.players.len() == 3,
    ensures
        pass_spec(m, r, actor) matches Ok((m2, r2)) ==> round_wf(r2) && table_kept(m, m2),
{
    reveal(pass_spec);
    lemma_seat_cycle(actor);
    lemma_seat_cycle(actor.following());
    match pass_spec(m, r, actor) {
        Ok((m2, r2)) => {
            let a = r.phase->Auction_0;
            let c = a.highest_bidder;
            let es = m2.events.subrange(m.events.len() as int, m2.events.len() as int);
            assert(m2 == with_events(m, es)) by {
                assert(m2.events =~= m.events + es);
            }
            lemma_events_kept(m, es);
            lemma_sorted_hand_conserves(r.hands[c.0 as int] + r.talon);
        },
        Err(_) => {},
    }
}

proof fn lemma_respond_keeps(m: MatchModel, r: RoundModel, actor: Seat, reveal_it: bool)
    requires
        round_wf(r),
        actor.is_valid(),
        m.players.len() == 3,
    ensures
        respond_spec(m, r, actor, reveal_it) matches Ok((m2, r2)) ==> round_wf(r2) && table_kept(
            m,
            m2,
        ),
{
    reveal(respond_spec);
    match respond_spec(m, r, actor, reveal_it) {
        Ok((m2, r2)) => {
            let es = m2.events.subrange(m.events.len() as int, m2.events.len() as int);
            assert(m2 == with_events(m, es)) by {
                assert(m2.events =~= m.events + es);
            }
            lemma_events_kept(m, es);
            match r.phase {
                RoundPhaseModel::Contract(c) => {
                    lemma_new_play_wf(c.contractor, c.points, r.hands);
                },
                _ => {},
            }
        },
        Err(_) => {},
    }
}

proof fn lemma_reveal_keeps(m: MatchModel, r: RoundModel, actor: Seat, suits: Seq<Suit>)
    requires
        round_wf(r),
        actor.is_valid(),
        m.players.len() == 3,
    ensures
        reveal_spec(m, r, actor, suits) matches Ok((m2, r2)) ==> round_wf(r2) && table_kept(m, m2),
{
    reveal(reveal_spec);
    match reveal_spec(m, r, actor, suits) {
        Ok((m2, r2)) => {
            let es = m2.events.subrange(m.events.len() as int, m2.events.len() as int);
            assert(m2 == with_events(m, es)) by {
                assert(m2.events =~= m.events + es);
            }
            lemma_events_kept(m, es);
            match r.phase {
                RoundPhaseModel::Contract(c) => {
                    lemma_new_play_wf(c.contractor, c.points, r.hands);
                },
                _ => {},
            }
        },
        Err(_) => {},
    }
}

proof fn lemma_continue_keeps(m: MatchModel, r: RoundModel, actor: Seat)
    requires
        round_wf(r),
        m.players.len() == 3,
    ensures
        continue_spec(m, r, actor) matches Ok((m2, r2)) ==> round_wf(r2) && table_kept(m, m2),
{
    reveal(continue_spec);
    assert(m.events.subrange(0, m.events.len() as int) =~= m.events);
}

proof fn lemma_surrender_keeps(m: MatchModel, r: RoundModel, actor: Seat)
    requires
        round_wf(r),
        m.players.len() == 3,
    ensures
        surrender_spec(m, r, actor) matches Ok((m2, r2)) ==> round_wf(r2) && table_kept(m, m2),
{
    reveal(surrender_spec);
    match surrender_spec(m, r, actor) {
        Ok((m2, r2)) => {
            assert(m2.events.subrange(0, m.events.len() as int) =~= m.events);
        },
        Err(_) => {},
    }
}

proof fn lemma_give_count(hands: Seq<Seq<Card>>, actor: Seat, g: Gift, other: Card)
    requires
        hands.len() == 3,
        actor.is_valid(),
        g.recipient.is_valid(),
        g.recipient != actor,
        hands[actor.0 as int].contains(g.card),
    ensures
        give(hands, actor, g).len() == 3,
        cards_in(give(hands, actor, g)) == cards_in(hands),
        other != g.card && hands[actor.0 as int].contains(other) ==> give(
            hands,
            actor,
            g,
        )[actor.0 as int].contains(other),
{
    reveal(give);
    let a = actor.0 as int;
    let t = g.recipient.0 as int;
    lemma_without_card(hands[a], g.card, other);
    let h = hands.update(a, without_card(hands[a], g.card));
    lemma_sorted_hand_conserves(h[t].push(g.card));
}

proof fn lemma_transfer_keeps(m: MatchModel, r: RoundModel, actor: Seat, gifts: Seq<Gift>)
    requires
        round_wf(r),
        actor.is_valid(),
        m.players.len() == 3,
    ensures
        transfer_spec(m, r, actor, gifts) matches Ok((m2, r2)) ==> round_wf(r2) && table_kept(
            m,
            m2,
        ),
{
    reveal(transfer_spec);
    match transfer_spec(m, r, actor, gifts) {
        Ok((m2, r2)) => {
            let es = m2.events.subrange(m.events.len() as int, m2.events.len() as int);
            assert(m2 == with_events(m, es)) by {
                assert(m2.events =~= m.events + es);
            }
            lemma_events_kept(m, es);
            lemma_give_count(r.hands, actor, gifts[0], gifts[1].card);
            let h1 = give(r.hands, actor, gifts[0]);
            lemma_give_count(h1, actor, gifts[1], gifts[1].card);
        },
        Err(_) => {},
    }
}

proof fn lemma_contract_keeps(m: MatchModel, r: RoundModel, actor: Seat, points: u16)
    requires
        round_wf(r),
        actor.is_valid(),
        m.players.len() == 3,
    ensures
        contract_spec(m, r, actor, points) matches Ok((m2, r2)) ==> round_wf(r2) && table_kept(
            m,
            m2,
        ),
{
    reveal(contract_spec);
    lemma_seat_cycle(actor);
    match contract_spec(m, r, actor, points) {
        Ok((m2, r2)) => {
            let es = m2.events.subrange(m.events.len() as int, m2.events.len() as int);
            assert(m2 == with_events(m, es)) by {
                assert(m2.events =~= m.events + es);
            }
            lemma_events_kept(m, es);
            lemma_marriage_total_bound(held_marriages(r.hands[actor.0 as int]));
            lemma_new_play_wf(actor, points, r.hands);
        },
        Err(_) => {},
    }
}

proof fn lemma_score_keeps(m: MatchModel, locked: Seq<bool>, p: PlayModel)
    requires
        m.players.len() == 3,
        p.contractor.is_valid(),
    ensures
        table_kept(m, score_play_spec(m, locked, p).0),
        score_play_spec(m, locked, p).1.contractor.is_valid(),
        score_play_spec(m, locked, p).1.raw_points.len() == 3,
        score_play_spec(m, locked, p).1.deltas.len() == 3,
        score_play_spec(m, locked, p).1.scores.len() == 3,
{
    let m2 = score_play_spec(m, locked, p).0;
    assert(m2.events.subrange(0, m.events.len() as int) =~= m.events);
}

/// What trick play needs of the state handed to `advance_play`.
pub open spec fn advance_ready(r: RoundModel, p: PlayModel, actor: Seat) -> bool {
    &&& actor.is_valid()
    &&& r.dealer.is_valid()
    &&& r.locked_at_start.len() == 3
    &&& r.hands.len() == 3
    &&& p.contractor.is_valid()
    &&& p.leader.is_valid()
    &&& 0 < p.trick.len() <= 3
    &&& forall|i: int| 0 <= i < p.trick.len() ==> (#[trigger] p.trick[i]).player.is_valid()
    &&& p.captured.len() == 3
    &&& p.marriage_points.len() == 3
    &&& p.declared_marriages.len() == 3
    &&& p.open_hands.len() == 3
    &&& cards_in(r.hands) + cards_in(p.captured) + p.trick.len() <= card_limit()
    &&& forall|i: int|
        0 <= i < 3 ==> #[trigger] p.marriage_points[i] + 100 * r.hands[i].len() <= 50_000
}

proof fn lemma_advance_keeps(m: MatchModel, r: RoundModel, p: PlayModel, actor: Seat)
    requires
        advance_ready(r, p, actor),
        m.players.len() == 3,
    ensures
        round_wf(advance_play(m, r, p, actor).1),
        table_kept(m, advance_play(m, r, p, actor).0),
{
    lemma_seat_cycle(actor);
    assert(m.events.subrange(0, m.events.len() as int) =~= m.events);
    if p.trick.len() >= 3 {
        lemma_trick_winner_seat(p.trick, p.trump);
        let w = trick_leader_play(p.trick, p.trump).player;
        let m2 = MatchModel { events: m.events.push(crate::tysiac::messages::trick_event(w)), ..m };
        assert(m2.events.subrange(0, m.events.len() as int) =~= m.events);
        let p2 = PlayModel {
            trick: Seq::empty(),
            captured: p.captured.update(
                w.0 as int,
                p.captured[w.0 as int] + crate::tysiac::spec::cards_of_plays(p.trick),
            ),
            last_trick: p.trick,
            leader: w,
            turn: w,
            ..p
        };
        assert(cards_in(p2.captured) == cards_in(p.captured) + p.trick.len());
        if crate::tysiac::spec::all_empty(r.hands) {
            lemma_score_keeps(m2, r.locked_at_start, p2);
            lemma_kept_trans(m, m2, score_play_spec(m2, r.locked_at_start, p2).0);
        }
    }
}

proof fn lemma_play_card_keeps(m: MatchModel, r: RoundModel, actor: Seat, card: Card)
    requires
        round_wf(r),
        actor.is_valid(),
        m.players.len() == 3,
    ensures
        play_card_spec(m, r, actor, card) matches Ok((m2, r2)) ==> round_wf(r2) && table_kept(
            m,
            m2,
        ),
{
    reveal(play_card_spec);
    match r.phase {
        RoundPhaseModel::Play(p) => {
            if play_card_spec(m, r, actor, card) is Ok {
                let a = actor.0 as int;
                let hand = r.hands[a];
                let declares = declares_marriage(p, hand, card);
                let p1 = if declares {
                    declare_marriage(p, actor, card.suit)
                } else {
                    p
                };
                let es = if declares {
                    seq![
                        crate::tysiac::messages::marriage_event(actor, card.suit),
                        crate::tysiac::messages::play_event(actor, card)
                    ]
                } else {
                    seq![crate::tysiac::messages::play_event(actor, card)]
                };
                let r1 = RoundModel { hands: r.hands.update(a, without_card(hand, card)), ..r };
                let p2 = PlayModel { trick: p1.trick.push(PlayedCard { player: actor, card }), ..p1 };
                lemma_without_card(hand, card, card);
                assert(hand.len() >= 1);
                assert(cards_in(r1.hands) == cards_in(r.hands) - 1);
                assert forall|i: int| 0 <= i < p2.trick.len() implies (#[trigger] p2.trick[i]).player.is_valid() by {
                    if i < p1.trick.len() {
                        assert(p2.trick[i] == p1.trick[i]);
                    }
                }
                assert forall|i: int| 0 <= i < 3 implies #[trigger] p2.marriage_points[i] + 100
                    * r1.hands[i].len() <= 50_000 by {
                    assert(p.marriage_points[i] + 100 * r.hands[i].len() <= 50_000);
                }
                assert(advance_ready(r1, p2, actor));
                lemma_events_kept(m, es);
                lemma_advance_keeps(with_events(m, es), r1, p2, actor);
                lemma_kept_trans(m, with_events(m, es), advance_play(with_events(m, es), r1, p2, actor).0);
                assert(play_card_spec(m, r, actor, card) == Ok::<(MatchModel, RoundModel), crate::tysiac::RuleError>(
                    played_card(m, r, p, actor, card),
                ));
            }
        },
        _ => {},
    }
}

proof fn lemma_claim_keeps(m: MatchModel, r: RoundModel, actor: Seat)
    requires
        round_wf(r),
        actor.is_valid(),
        m.players.len() == 3,
    ensures
        claim_spec(m, r, actor) matches Ok((m2, r2)) ==> round_wf(r2) && table_kept(m, m2),
{
    reveal(claim_spec);
    lemma_seat_cycle(actor);
    lemma_seat_cycle(actor.following());
    match claim_spec(m, r, actor) {
        Ok((m2, r2)) => {
            let es = m2.events.subrange(m.events.len() as int, m2.events.len() as int);
            assert(m2 == with_events(m, es)) by {
                assert(m2.events =~= m.events + es);
            }
            lemma_events_kept(m, es);
        },
        Err(_) => {},
    }
}

proof fn lemma_vote_keeps(m: MatchModel, r: RoundModel, actor: Seat, accept: bool)
    requires
        round_wf(r),
        actor.is_valid(),
        m.players.len() == 3,
    ensures
        vote_spec(m, r, actor, accept) matches Ok((m2, r2)) ==> round_wf(r2) && table_kept(m, m2),
{
    reveal(vote_spec);
    match vote_spec(m, r, actor, accept) {
        Ok((m2, r2)) => {
            let v = r.phase->ClaimVote_0;
            let m1 = with_events(m, seq![crate::tysiac::messages::vote_event(actor, accept)]);
            lemma_events_kept(m, seq![crate::tysiac::messages::vote_event(actor, accept)]);
            if accept && v.voter_index + 1 == 2 {
                let c = v.claimant.0 as int;
                let p = PlayModel {
                    captured: v.play.captured.update(
                        c,
                        v.play.captured[c] + r.hands[0] + r.hands[1] + r.hands[2],
                    ),
                    ..v.play
                };
                lemma_score_keeps(m1, r.locked_at_start, p);
                lemma_kept_trans(m, m1, m2);
            }
        },
        Err(_) => {},
    }
}

/// Every accepted action keeps the round well formed and leaves the table,
/// apart from scores and new events, as it was.
pub proof fn lemma_round_step_keeps_wf(m: MatchModel, r: RoundModel, actor: Seat, action: ActionModel)
    requires
        round_wf(r),
        actor.is_valid(),
        m.players.len() == 3,
    ensures
        round_step(m, r, actor, action) matches Ok((m2, r2)) ==> round_wf(r2) && table_kept(m, m2),
{
    match action {
        ActionModel::Bid { points } => lemma_bid_keeps(m, r, actor, points),
        ActionModel::Pass => lemma_pass_keeps(m, r, actor),
        ActionModel::RespondToProof { reveal } => lemma_respond_keeps(m, r, actor, reveal),
        ActionModel::RevealProof { suits } => lemma_reveal_keeps(m, r, actor, suits),
        ActionModel::ContinueAfterTalon => lemma_continue_keeps(m, r, actor),
        ActionModel::Surrender => lemma_surrender_keeps(m, r, actor),
        ActionModel::Transfer { gifts } => lemma_transfer_keeps(m, r, actor, gifts),
        ActionModel::ConfirmContract { points } => lemma_contract_keeps(m, r, actor, points),
        ActionModel::PlayCard { card } => lemma_play_card_keeps(m, r, actor, card),
        ActionModel::ClaimRemaining => lemma_claim_keeps(m, r, actor),
        ActionModel::VoteOnClaim { accept } => lemma_vote_keeps(m, r, actor, accept),
    }
}

/// Applying an action to a well-formed match yields a well-formed match, and
/// the event log only grows.
pub proof fn lemma_apply_keeps_wf(m: MatchModel, actor: Seat, action: ActionModel)
    requires
        match_wf(m),
    ensures
        apply_spec(m, actor, action) matches Ok(m2) ==> match_wf(m2) && m.events.is_prefix_of(
            m2.events,
        ) && m2.config == m.config && m2.dealer == m.dealer && m2.round_index == m.round_index,
{
    if actor.is_valid() {
        match m.phase {
            MatchPhaseModel::Round(r) => {
                let m0 = MatchModel { phase: MatchPhaseModel::WaitingForDeal, ..m };
                lemma_round_step_keeps_wf(m0, r, actor, action);
            },
            _ => {},
        }
    }
}

/// A defender locked at the start of the round never gains points, and the
/// contractor's delta is never touched by the lock rule.
pub proof fn lemma_locked_defenders_never_gain(deltas: Seq<i32>, locked: Seq<bool>, contractor: Seat, i: int)
    requires
        0 <= i < 3,
    ensures
        i != contractor.0 && locked[i] ==> crate::tysiac::rules::suppress_spec(
            deltas,
            locked,
            contractor,
        )[i] <= 0,
        i == contractor.0 ==> crate::tysiac::rules::suppress_spec(deltas, locked, contractor)[i]
            == deltas[i],
        deltas[i] <= 0 ==> crate::tysiac::rules::suppress_spec(deltas, locked, contractor)[i]
            == deltas[i],
{
}

/// A played-out round moves the contractor's score by exactly the contract:
/// up when the raw points reach it, down otherwise, never by the raw total.
pub proof fn lemma_contractor_scores_exactly(m: MatchModel, locked: Seq<bool>, p: PlayModel)
    requires
        p.contractor.is_valid(),
    ensures
        ({
            let result = score_play_spec(m, locked, p).1;
            let c = p.contractor.0 as int;
            result.deltas[c] == if result.raw_points[c] >= p.contract {
                p.contract as i32
            } else {
                (-(p.contract as int)) as i32
            }
        }),
{
}

/// Scoring a played-out round: each seat's raw points are its captured card
/// points plus its declared marriages; the contractor moves by exactly the
/// contract, a defender who is not locked gains its raw points rounded to the
/// nearest ten (a five rounds up), and a locked defender gains nothing.
pub proof fn lemma_round_scoring(m: MatchModel, locked: Seq<bool>, p: PlayModel)
    requires
        p.contractor.is_valid(),
        forall|i: int|
            0 <= i < 3 ==> points_sum(#[trigger] p.captured[i]) + p.marriage_points[i] <= u16::MAX,
    ensures
        ({
            let res = score_play_spec(m, locked, p).1;
            let c = p.contractor.0 as int;
            &&& forall|i: int|
                0 <= i < 3 ==> #[trigger] res.raw_points[i] == points_sum(p.captured[i])
                    + p.marriage_points[i]
            &&& res.deltas[c] == if res.raw_points[c] >= p.contract {
                p.contract as int
            } else {
                -(p.contract as int)
            }
            &&& forall|i: int|
                0 <= i < 3 && i != c && !locked[i] ==> #[trigger] res.deltas[i] == (res.raw_points[i]
                    + 5) / 10 * 10
            &&& forall|i: int| 0 <= i < 3 && i != c && locked[i] ==> #[trigger] res.deltas[i] == 0
        }),
{
    let res = score_play_spec(m, locked, p).1;
    assert forall|i: int| 0 <= i < 3 implies #[trigger] res.raw_points[i] == points_sum(p.captured[i])
        + p.marriage_points[i] by {
        assert(points_sum(p.captured[i]) + p.marriage_points[i] <= u16::MAX);
    }
}

/// A transfer hands one card to each opponent: the contractor ends two cards
/// down and each opponent one card up.
pub proof fn lemma_transfer_moves_two_cards(m: MatchModel, r: RoundModel, actor: Seat, gifts: Seq<Gift>)
    requires
        r.hands.len() == 3,
        actor.is_valid(),
    ensures
        transfer_spec(m, r, actor, gifts) is Ok ==> {
            let r2 = transfer_spec(m, r, actor, gifts)->Ok_0.1;
            &&& r2.hands[actor.0 as int].len() == r.hands[actor.0 as int].len() - 2
            &&& r2.hands[actor.following().0 as int].len() == r.hands[actor.following().0 as int].len() + 1
            &&& r2.hands[actor.following().following().0 as int].len()
                == r.hands[actor.following().following().0 as int].len() + 1
        },
{
    lemma_transfer_spec_shape(m, r, actor, gifts);
    lemma_seat_cycle(actor);
    if transfer_spec(m, r, actor, gifts) is Ok {
        let g0 = gifts[0];
        let g1 = gifts[1];
        assert(valid_transfer(actor, r.hands[actor.0 as int], gifts));
        let h1 = give(r.hands, actor, g0);
        let h2 = give(h1, actor, g1);
        assert(transfer_spec(m, r, actor, gifts)->Ok_0.1.hands == h2);
        lemma_give_lens(r.hands, actor, g0);
        lemma_give_count(r.hands, actor, g0, g1.card);
        lemma_give_lens(h1, actor, g1);
    }
}

proof fn lemma_transfer_spec_shape(m: MatchModel, r: RoundModel, actor: Seat, gifts: Seq<Gift>)
    ensures
        transfer_spec(m, r, actor, gifts) is Ok ==> {
            &&& valid_transfer(actor, r.hands[actor.0 as int], gifts)
            &&& transfer_spec(m, r, actor, gifts)->Ok_0.1.hands == give(
                give(r.hands, actor, gifts[0]),
                actor,
                gifts[1],
            )
        },
{
    reveal(transfer_spec);
}

proof fn lemma_give_lens(hands: Seq<Seq<Card>>, actor: Seat, g: Gift)
    requires
        hands.len() == 3,
        actor.is_valid(),
        g.recipient.is_valid(),
        g.recipient != actor,
        hands[actor.0 as int].contains(g.card),
    ensures
        forall|i: int|
            0 <= i < 3 ==> #[trigger] give(hands, actor, g)[i].len() == if i == actor.0 {
                hands[i].len() - 1
            } else if i == g.recipient.0 {
                hands[i].len() + 1int
            } else {
                hands[i].len() as int
            },
{
    reveal(give);
    let a = actor.0 as int;
    lemma_without_card(hands[a], g.card, g.card);
    let h = hands.update(a, without_card(hands[a], g.card));
    lemma_sorted_hand_conserves(h[g.recipient.0 as int].push(g.card));
}

/// A surrender before the transfer: each defender gains 60 unless locked; the
/// contractor's first surrender costs nothing, every later one the auction bid.
pub proof fn lemma_surrender_costs(m: MatchModel, r: RoundModel, actor: Seat)
    requires
        round_wf(r),
        m.players.len() == 3,
    ensures
        surrender_spec(m, r, actor) matches Ok((m2, r2)) ==> {
            let res = r2.phase->RoundFinished_0;
            let c = actor.0 as int;
            &&& res.surrendered
            &&& res.deltas[c] == if m.players[c].free_surrender_used {
                (-(r.phase->Talon_0.auction_bid as int)) as i32
            } else {
                0i32
            }
            &&& m2.players[c].free_surrender_used
            &&& forall|i: int| 0 <= i < 3 && i != c ==> #[trigger] res.deltas[i] == if r.locked_at_start[i] {
                0i32
            } else {
                60i32
            }
        },
{
    reveal(surrender_spec);
}

/// The deal's piles in dealing order, as one sequence.
pub open spec fn dealt_piles(d: Seq<Card>) -> Seq<Card> {
    dealt_hands(d)[0] + dealt_hands(d)[1] + dealt_hands(d)[2] + dealt_talon(d)
}

#[verifier::rlimit(40)]
proof fn lemma_dealt_piles_permute(d: Seq<Card>)
    requires
        d.len() == 24,
    ensures
        dealt_piles(d).to_multiset() =~= d.to_multiset(),
{
    let s0 = seq![
        d[0], d[1], d[2], d[3], d[4], d[5], d[6], d[7],
        d[8], d[9], d[10], d[11], d[12], d[13], d[14], d[15],
        d[16], d[17], d[18], d[19], d[20], d[21], d[22], d[23],
    ];
    assert(d =~= s0);
    let s1 = seq![
        d[0], d[4], d[2], d[3], d[1], d[5], d[6], d[7],
        d[8], d[9], d[10], d[11], d[12], d[13], d[14], d[15],
        d[16], d[17], d[18], d[19], d[20], d[21], d[22], d[23],
    ];
    assert(s1.to_multiset() =~= s0.to_multiset()) by {
        lemma_swap_conserves(s0, 1, 4);
        assert(swap_at(s0, 1, 4) =~= s1);
    }
    let s2 = seq![
        d[0], d[4], d[8], d[3], d[1], d[5], d[6], d[7],
        d[2], d[9], d[10], d[11], d[12], d[13], d[14], d[15],
        d[16], d[17], d[18], d[19], d[20], d[21], d[22], d[23],
    ];
    assert(s2.to_multiset() =~= s1.to_multiset()) by {
        lemma_swap_conserves(s1, 2, 8);
        assert(swap_at(s1, 2, 8) =~= s2);
    }
    let s3 = seq![
        d[0], d[4], d[8], d[12], d[1], d[5], d[6], d[7],
        d[2], d[9], d[10], d[11], d[3], d[13], d[14], d[15],
        d[16], d[17], d[18], d[19], d[20], d[21], d[22], d[23],
    ];
    assert(s3.to_multiset() =~= s2.to_multiset()) by {
        lemma_swap_conserves(s2, 3, 12);
        assert(swap_at(s2, 3, 12) =~= s3);
    }
    let s4 = seq![
        d[0], d[4], d[8], d[12], d[15], d[5], d[6], d[7],
        d[2], d[9], d[10], d[11], d[3], d[13], d[14], d[1],
        d[16], d[17], d[18], d[19], d[20], d[21], d[22], d[23],
    ];
    assert(s4.to_multiset() =~= s3.to_multiset()) by {
        lemma_swap_conserves(s3, 4, 15);
        assert(swap_at(s3, 4, 15) =~= s4);
    }
    let s5 = seq![
        d[0], d[4], d[8], d[12], d[15], d[18], d[6], d[7],
        d[2], d[9], d[10], d[11], d[3], d[13], d[14], d[1],
        d[16], d[17], d[5], d[19], d[20], d[21], d[22], d[23],
    ];
    assert(s5.to_multiset() =~= s4.to_multiset()) by {
        lemma_swap_conserves(s4, 5, 18);
        assert(swap_at(s4, 5, 18) =~= s5);
    }
    let s6 = seq![
        d[0], d[4], d[8], d[12], d[15], d[18], d[21], d[7],
        d[2], d[9], d[10], d[11], d[3], d[13], d[14], d[1],
        d[16], d[17], d[5], d[19], d[20], d[6], d[22], d[23],
    ];
    assert(s6.to_multiset() =~= s5.to_multiset()) by {
        lemma_swap_conserves(s5, 6, 21);
        assert(swap_at(s5, 6, 21) =~= s6);
    }
    let s7 = seq![
        d[0], d[4], d[8], d[12], d[15], d[18], d[21], d[1],
        d[2], d[9], d[10], d[11], d[3], d[13], d[14], d[7],
        d[16], d[17], d[5], d[19], d[20], d[6], d[22], d[23],
    ];
    assert(s7.to_multiset() =~= s6.to_multiset()) by {
        lemma_swap_conserves(s6, 7, 15);
        assert(swap_at(s6, 7, 15) =~= s7);
    }
    let s8 = seq![
        d[0], d[4], d[8], d[12], d[15], d[18], d[21], d[1],
        d[5], d[9], d[10], d[11], d[3], d[13], d[14], d[7],
        d[16], d[17], d[2], d[19], d[20], d[6], d[22], d[23],
    ];
    assert(s8.to_multiset() =~= s7.to_multiset()) by {
        lemma_swap_conserves(s7, 8, 18);
        assert(swap_at(s7, 8, 18) =~= s8);
    }
    let s9 = seq![
        d[0], d[4], d[8], d[12], d[15], d[18], d[21], d[1],
        d[5], d[9], d[13], d[11], d[3], d[10], d[14], d[7],
        d[16], d[17], d[2], d[19], d[20], d[6], d[22], d[23],
    ];
    assert(s9.to_multiset() =~= s8.to_multiset()) by {
        lemma_swap_conserves(s8, 10, 13);
        assert(swap_at(s8, 10, 13) =~= s9);
    }
    let s10 = seq![
        d[0], d[4], d[8], d[12], d[15], d[18], d[21], d[1],
        d[5], d[9], d[13], d[16], d[3], d[10], d[14], d[7],
        d[11], d[17], d[2], d[19], d[20], d[6], d[22], d[23],
    ];
    assert(s10.to_multiset() =~= s9.to_multiset()) by {
        lemma_swap_conserves(s9, 11, 16);
        assert(swap_at(s9, 11, 16) =~= s10);
    }
    let s11 = seq![
        d[0], d[4], d[8], d[12], d[15], d[18], d[21], d[1],
        d[5], d[9], d[13], d[16], d[19], d[10], d[14], d[7],
        d[11], d[17], d[2], d[3], d[20], d[6], d[22], d[23],
    ];
    assert(s11.to_multiset() =~= s10.to_multiset()) by {
        lemma_swap_conserves(s10, 12, 19);
        assert(swap_at(s10, 12, 19) =~= s11);
    }
    let s12 = seq![
        d[0], d[4], d[8], d[12], d[15], d[18], d[21], d[1],
        d[5], d[9], d[13], d[16], d[19], d[22], d[14], d[7],
        d[11], d[17], d[2], d[3], d[20], d[6], d[10], d[23],
    ];
    assert(s12.to_multiset() =~= s11.to_multiset()) by {
        lemma_swap_conserves(s11, 13, 22);
        assert(swap_at(s11, 13, 22) =~= s12);
    }
    let s13 = seq![
        d[0], d[4], d[8], d[12], d[15], d[18], d[21], d[1],
        d[5], d[9], d[13], d[16], d[19], d[22], d[3], d[7],
        d[11], d[17], d[2], d[14], d[20], d[6], d[10], d[23],
    ];
    assert(s13.to_multiset() =~= s12.to_multiset()) by {
        lemma_swap_conserves(s12, 14, 19);
        assert(swap_at(s12, 14, 19) =~= s13);
    }
    let s14 = seq![
        d[0], d[4], d[8], d[12], d[15], d[18], d[21], d[1],
        d[5], d[9], d[13], d[16], d[19], d[22], d[3], d[7],
        d[11], d[14], d[2], d[17], d[20], d[6], d[10], d[23],
    ];
    assert(s14.to_multiset() =~= s13.to_multiset()) by {
        lemma_swap_conserves(s13, 17, 19);
        assert(swap_at(s13, 17, 19) =~= s14);
    }
    let s15 = seq![
        d[0], d[4], d[8], d[12], d[15], d[18], d[21], d[1],
        d[5], d[9], d[13], d[16], d[19], d[22], d[3], d[7],
        d[11], d[14], d[17], d[2], d[20], d[6], d[10], d[23],
    ];
    assert(s15.to_multiset() =~= s14.to_multiset()) by {
        lemma_swap_conserves(s14, 18, 19);
        assert(swap_at(s14, 18, 19) =~= s15);
    }
    let s16 = seq![
        d[0], d[4], d[8], d[12], d[15], d[18], d[21], d[1],
        d[5], d[9], d[13], d[16], d[19], d[22], d[3], d[7],
        d[11], d[14], d[17], d[20], d[2], d[6], d[10], d[23],
    ];
    assert(s16.to_multiset() =~= s15.to_multiset()) by {
        lemma_swap_conserves(s15, 19, 20);
        assert(swap_at(s15, 19, 20) =~= s16);
    }
    let s17 = seq![
        d[0], d[4], d[8], d[12], d[15], d[18], d[21], d[1],
        d[5], d[9], d[13], d[16], d[19], d[22], d[3], d[7],
        d[11], d[14], d[17], d[20], d[23], d[6], d[10], d[2],
    ];
    assert(s17.to_multiset() =~= s16.to_multiset()) by {
        lemma_swap_conserves(s16, 20, 23);
        assert(swap_at(s16, 20, 23) =~= s17);
    }
    let s18 = seq![
        d[0], d[4], d[8], d[12], d[15], d[18], d[21], d[1],
        d[5], d[9], d[13], d[16], d[19], d[22], d[3], d[7],
        d[11], d[14], d[17], d[20], d[23], d[2], d[10], d[6],
    ];
    assert(s18.to_multiset() =~= s17.to_multiset()) by {
        lemma_swap_conserves(s17, 21, 23);
        assert(swap_at(s17, 21, 23) =~= s18);
    }
    let s19 = seq![
        d[0], d[4], d[8], d[12], d[15], d[18], d[21], d[1],
        d[5], d[9], d[13], d[16], d[19], d[22], d[3], d[7],
        d[11], d[14], d[17], d[20], d[23], d[2], d[6], d[10],
    ];
    assert(s19.to_multiset() =~= s18.to_multiset()) by {
        lemma_swap_conserves(s18, 22, 23);
        assert(swap_at(s18, 22, 23) =~= s19);
    }
    assert(dealt_piles(d) =~= s19);
}

/// A deal gives each seat seven cards and the talon three, and between them
/// they hold the 24 dealt cards, each as often as the deck does.
pub proof fn lemma_deal_partitions_the_deck(m: MatchModel, seed: u64, deck: Seq<Card>)
    requires
        deck.len() == 24,
    ensures
        dealt_round(m, seed, deck).hands[0].len() == 7,
        dealt_round(m, seed, deck).hands[1].len() == 7,
        dealt_round(m, seed, deck).hands[2].len() == 7,
        dealt_round(m, seed, deck).talon.len() == 3,
        (dealt_round(m, seed, deck).hands[0] + dealt_round(m, seed, deck).hands[1] + dealt_round(
            m,
            seed,
            deck,
        ).hands[2] + dealt_round(m, seed, deck).talon).to_multiset() =~= deck.to_multiset(),
{
    broadcast use vstd::seq_lib::lemma_multiset_commutative;
    let h = dealt_hands(deck);
    let r = dealt_round(m, seed, deck);
    lemma_sorted_hand_conserves(h[0]);
    lemma_sorted_hand_conserves(h[1]);
    lemma_sorted_hand_conserves(h[2]);
    lemma_dealt_piles_permute(deck);
    vstd::seq_lib::lemma_multiset_commutative(r.hands[0], r.hands[1]);
    vstd::seq_lib::lemma_multiset_commutative(r.hands[0] + r.hands[1], r.hands[2]);
    vstd::seq_lib::lemma_multiset_commutative(r.hands[0] + r.hands[1] + r.hands[2], r.talon);
    vstd::seq_lib::lemma_multiset_commutative(h[0], h[1]);
    vstd::seq_lib::lemma_multiset_commutative(h[0] + h[1], h[2]);
    vstd::seq_lib::lemma_multiset_commutative(h[0] + h[1] + h[2], dealt_talon(deck));
}

/// Points of the first cards of a suit in deck order: nine, jack, queen,
/// king, ten, ace.
spec fn suit_prefix_points(k: int) -> int {
    if k <= 0 {
        0
    } else if k == 1 {
        0
    } else if k == 2 {
        2
    } else if k == 3 {
        5
    } else if k == 4 {
        9
    } else if k == 5 {
        19
    } else {
        30
    }
}

proof fn lemma_points_sum_append(a: Seq<Card>, b: Seq<Card>)
    ensures
        points_sum(a + b) == points_sum(a) + points_sum(b),
    decreases b.len(),
{
    if b.len() == 0 {
        assert(a + b =~= a);
    } else {
        lemma_points_sum_append(a, b.drop_last());
        assert((a + b).drop_last() =~= a + b.drop_last());
    }
}

proof fn lemma_deck_prefix_points(k: nat)
    requires
        k <= 24,
    ensures
        points_sum(game_deck_spec().take(k as int)) == 30 * (k / 6) + suit_prefix_points(
            (k % 6) as int,
        ),
    decreases k,
{
    let deck = game_deck_spec();
    if k == 0 {
        assert(deck.take(0) =~= Seq::<Card>::empty());
    } else {
        lemma_deck_prefix_points((k - 1) as nat);
        assert(deck.take(k as int).drop_last() =~= deck.take(k - 1));
        assert(deck.take(k as int).last() == deck[k - 1]);
    }
}

/// The 24 game cards are worth 120 points, 30 in each suit.
pub proof fn lemma_game_deck_points()
    ensures
        points_sum(game_deck_spec()) == 120,
        forall|s: int|
            0 <= s < 4 ==> points_sum(#[trigger] game_deck_spec().subrange(6 * s, 6 * s + 6)) == 30,
{
    let deck = game_deck_spec();
    lemma_deck_prefix_points(24);
    assert(deck.take(24) =~= deck);
    assert forall|s: int| 0 <= s < 4 implies points_sum(
        #[trigger] game_deck_spec().subrange(6 * s, 6 * s + 6),
    ) == 30 by {
        lemma_deck_prefix_points((6 * s) as nat);
        lemma_deck_prefix_points((6 * s + 6) as nat);
        assert(deck.take(6 * s + 6) =~= deck.take(6 * s) + deck.subrange(6 * s, 6 * s + 6));
        lemma_points_sum_append(deck.take(6 * s), deck.subrange(6 * s, 6 * s + 6));
    }
}

/// The auction a match is in, if any.
pub open spec fn auction_of(m: MatchModel) -> Option<AuctionModel> {
    match m.phase {
        MatchPhaseModel::Round(r) => match r.phase {
            RoundPhaseModel::Auction(a) => Some(a),
            _ => None,
        },
        _ => None,
    }
}

/// A pass is permanent: a seat that has passed has every later bid refused.
pub proof fn lemma_pass_is_permanent(m: MatchModel, actor: Seat, points: u16)
    requires
        auction_of(m) matches Some(a) && actor.is_valid() && !a.active[actor.0 as int],
    ensures
        apply_spec(m, actor, ActionModel::Bid { points }) is Err,
{
    reveal(bid_spec);
}

/// Bids rise in exact steps of ten: an accepted bid is the current highest
/// bid plus ten, and becomes the new highest bid.
pub proof fn lemma_bids_rise_by_ten(m: MatchModel, actor: Seat, points: u16)
    requires
        auction_of(m) is Some,
        apply_spec(m, actor, ActionModel::Bid { points }) is Ok,
    ensures
        points == auction_of(m)->Some_0.highest_bid + 10,
{
    reveal(bid_spec);
}

/// A seed has one accepted deal: the first shuffle that gives no seat all
/// four nines is unique, so dealing again from the same round seed gives the
/// same cards.
pub proof fn lemma_seeded_deal_is_reproducible(seed: u64, first: u64, second: u64)
    requires
        first_clean_attempt(seed, first),
        first_clean_attempt(seed, second),
    ensures
        first == second,
        deal_order(seed, first) == deal_order(seed, second),
{
    if first < second {
        assert(gives_all_nines(deal_order(seed, first)));
    } else if second < first {
        assert(gives_all_nines(deal_order(seed, second)));
    }
}

} // verus!
