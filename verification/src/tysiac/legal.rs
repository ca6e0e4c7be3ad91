//! The concrete actions the engine currently accepts from a seat.
use vstd::prelude::*;

use crate::cards::{Card, PlayedCard, Suit};
use vstd::arithmetic::power2::pow2;
use crate::tysiac::{proof_responder, Action, Gift, Match, MatchPhase, Proof, RoundPhase, Seat};
use crate::tysiac::challenge::{
    all_subsets, copy_suits, has_len, shortest_len, smallest_proofs, smallest_proofs_spec,
    sufficient_subsets, suit_lists, supports,
};
use crate::tysiac::model::{
    ActionModel, MatchModel, MatchPhaseModel, RoundModel, RoundPhaseModel, match_wf, round_wf,
};
use crate::tysiac::rules::{
    held_marriages, legal_cards, legal_cards_spec, lemma_marriages_set, marriage_total,
    marriages_spec, opponents_in_order, opponents_spec, strength_spec, support_ceiling,
    support_ceiling_spec, trick_leader_play,
};
use crate::tysiac::spec::{
    apply_spec, bid_spec, claim_spec, contract_spec, continue_spec, mask_subset, pass_spec,
    pending_proof, play_card_spec, respond_spec, reveal_spec, round_step, smaller_proof_exists,
    sufficient, surrender_spec, transfer_spec, valid_proof, vote_spec,
};

verus! {

/// The models of a list of actions.
pub open spec fn action_models(v: Seq<Action>) -> Seq<ActionModel> {
    Seq::new(v.len(), |i: int| v[i]@)
}

/// What a seat may do about a pending proof: the challenged bidder shows one
/// of the smallest sufficient sets of marriages; the opponent being asked
/// waives or demands the proof.
pub open spec fn proof_actions(p: Proof, hand: Seq<Card>, actor: Seat) -> Seq<ActionModel> {
    if p.reveal_required && p.bidder == actor {
        let proofs = smallest_proofs_spec(hand, p.points);
        Seq::new(proofs.len(), |i: int| ActionModel::RevealProof { suits: proofs[i] })
    } else if proof_responder(p) == Some(actor) {
        seq![
            ActionModel::RespondToProof { reveal: false },
            ActionModel::RespondToProof { reveal: true }
        ]
    } else {
        Seq::empty()
    }
}

/// A transfer giving `first` to the first opponent and `second` to the other.
pub open spec fn transfer_choice(o: [Seat; 2], first: Card, second: Card) -> ActionModel {
    ActionModel::Transfer {
        gifts: seq![Gift { recipient: o[0], card: first }, Gift { recipient: o[1], card: second }],
    }
}

/// Transfers that give card `i` first, paired with each other card below `n`.
pub open spec fn transfer_row(hand: Seq<Card>, o: [Seat; 2], i: int, n: nat) -> Seq<ActionModel>
    decreases n,
{
    if n == 0 {
        Seq::empty()
    } else {
        let rest = transfer_row(hand, o, i, (n - 1) as nat);
        if n - 1 == i {
            rest
        } else {
            rest.push(transfer_choice(o, hand[i], hand[n - 1]))
        }
    }
}

/// Every transfer of two different hand positions, the first position below `n`.
pub open spec fn transfer_options(hand: Seq<Card>, o: [Seat; 2], n: nat) -> Seq<ActionModel>
    decreases n,
{
    if n == 0 {
        Seq::empty()
    } else {
        transfer_options(hand, o, (n - 1) as nat) + transfer_row(hand, o, n - 1, hand.len())
    }
}

/// Contracts from `from` up to `ceiling` in steps of ten.
pub open spec fn contract_options(from: int, ceiling: int) -> Seq<ActionModel>
    decreases ceiling + 10 - from,
{
    if from > ceiling {
        Seq::empty()
    } else {
        seq![ActionModel::ConfirmContract { points: from as u16 }] + contract_options(
            from + 10,
            ceiling,
        )
    }
}

pub open spec fn card_actions(cards: Seq<Card>) -> Seq<ActionModel> {
    Seq::new(cards.len(), |i: int| ActionModel::PlayCard { card: cards[i] })
}

/// The actions `legal_actions` offers a seat.
pub open spec fn legal_actions_spec(m: MatchModel, actor: Seat) -> Seq<ActionModel> {
    if !actor.is_valid() {
        Seq::empty()
    } else {
        match m.phase {
            MatchPhaseModel::Round(r) => {
                let hand = r.hands[actor.0 as int];
                match r.phase {
                    RoundPhaseModel::Auction(a) => match a.proof {
                        Some(p) => proof_actions(p, hand, actor),
                        None => if a.turn != actor || !a.active[actor.0 as int] {
                            Seq::empty()
                        } else if a.highest_bid + 10 <= support_ceiling_spec(hand) {
                            seq![
                                ActionModel::Bid { points: (a.highest_bid + 10) as u16 },
                                ActionModel::Pass
                            ]
                        } else {
                            seq![ActionModel::Pass]
                        },
                    },
                    RoundPhaseModel::Talon(t) => if t.contractor == actor {
                        seq![ActionModel::ContinueAfterTalon, ActionModel::Surrender]
                    } else {
                        Seq::empty()
                    },
                    RoundPhaseModel::Transfer(t) => if t.contractor == actor {
                        transfer_options(hand, opponents_spec(actor), hand.len())
                    } else {
                        Seq::empty()
                    },
                    RoundPhaseModel::Contract(c) => match c.proof {
                        Some(p) => proof_actions(p, hand, actor),
                        None => if c.contractor != actor {
                            Seq::empty()
                        } else {
                            contract_options(c.auction_bid as int, support_ceiling_spec(hand) as int)
                        },
                    },
                    RoundPhaseModel::Play(p) => if p.turn == actor {
                        card_actions(legal_cards_spec(hand, p.trick, p.trump)) + if p.trick.len()
                            == 0 && p.leader == actor {
                            seq![ActionModel::ClaimRemaining]
                        } else {
                            Seq::empty()
                        }
                    } else {
                        Seq::empty()
                    },
                    RoundPhaseModel::ClaimVote(v) => if v.voter_index < 2
                        && v.voters[v.voter_index as int] == actor {
                        seq![
                            ActionModel::VoteOnClaim { accept: false },
                            ActionModel::VoteOnClaim { accept: true }
                        ]
                    } else {
                        Seq::empty()
                    },
                    RoundPhaseModel::RoundFinished(_) => Seq::empty(),
                }
            },
            _ => Seq::empty(),
        }
    }
}

fn legal_proof_actions(proof: &Proof, hand: &[Card], actor: Seat) -> (v: Vec<Action>)
    ensures
        action_models(v@) == proof_actions(*proof, hand@, actor),
{
    if proof.reveal_required && proof.bidder == actor {
        let proofs = smallest_proofs(hand, proof.points);
        let ghost expected = smallest_proofs_spec(hand@, proof.points);
        let mut v: Vec<Action> = Vec::new();
        let mut i: usize = 0;
        while i < proofs.len()
            invariant
                i <= proofs@.len(),
                suit_lists(proofs@) == expected,
                action_models(v@) == Seq::new(
                    i as nat,
                    |k: int| ActionModel::RevealProof { suits: expected[k] },
                ),
            decreases proofs@.len() - i,
        {
            let suits = copy_suits(proofs[i].as_slice());
            let ghost before = v@;
            assert(expected[i as int] == proofs@[i as int]@);
            v.push(Action::RevealProof { suits });
            assert(action_models(v@) =~= action_models(before).push(
                ActionModel::RevealProof { suits: expected[i as int] },
            ));
            assert(action_models(v@) =~= Seq::new(
                (i + 1) as nat,
                |k: int| ActionModel::RevealProof { suits: expected[k] },
            ));
            i = i + 1;
        }
        assert(action_models(v@) =~= proof_actions(*proof, hand@, actor));
        v
    } else {
        let asked = match proof.responder() {
            Some(s) => s == actor,
            None => false,
        };
        if asked {
            let v = vec![
                Action::RespondToProof { reveal: false },
                Action::RespondToProof { reveal: true },
            ];
            assert(action_models(v@) =~= proof_actions(*proof, hand@, actor));
            v
        } else {
            let v: Vec<Action> = Vec::new();
            assert(action_models(v@) =~= proof_actions(*proof, hand@, actor));
            v
        }
    }
}

fn transfer_actions(hand: &[Card], actor: Seat) -> (v: Vec<Action>)
    requires
        actor.is_valid(),
    ensures
        action_models(v@) == transfer_options(hand@, opponents_spec(actor), hand@.len()),
{
    let o = opponents_in_order(actor);
    let mut v: Vec<Action> = Vec::new();
    let mut i: usize = 0;
    while i < hand.len()
        invariant
            i <= hand@.len(),
            o == opponents_spec(actor),
            action_models(v@) == transfer_options(hand@, o, i as nat),
        decreases hand@.len() - i,
    {
        let ghost base = action_models(v@);
        let mut j: usize = 0;
        while j < hand.len()
            invariant
                i < hand@.len(),
                j <= hand@.len(),
                action_models(v@) == base + transfer_row(hand@, o, i as int, j as nat),
            decreases hand@.len() - j,
        {
            if i != j {
                let ghost before = v@;
                v.push(
                    Action::Transfer {
                        gifts: vec![
                            Gift { recipient: o[0], card: hand[i] },
                            Gift { recipient: o[1], card: hand[j] },
                        ],
                    },
                );
                assert(action_models(v@) =~= action_models(before).push(
                    transfer_choice(o, hand@[i as int], hand@[j as int]),
                )) by {
                    assert(v@[before.len() as int]@ == transfer_choice(
                        o,
                        hand@[i as int],
                        hand@[j as int],
                    )) by {
                        let gifts = seq![
                            Gift { recipient: o[0], card: hand@[i as int] },
                            Gift { recipient: o[1], card: hand@[j as int] }
                        ];
                        assert(v@[before.len() as int]@ =~~= transfer_choice(
                            o,
                            hand@[i as int],
                            hand@[j as int],
                        ));
                    }
                }
            }
            j = j + 1;
        }
        i = i + 1;
    }
    v
}

fn contract_actions(from: u16, ceiling: u16) -> (v: Vec<Action>)
    requires
        ceiling <= 1000,
    ensures
        action_models(v@) == contract_options(from as int, ceiling as int),
{
    let mut v: Vec<Action> = Vec::new();
    let mut points: u16 = from;
    let ghost mut steps: int = 0;
    while points <= ceiling
        invariant
            ceiling <= 1000,
            points == from + 10 * steps,
            steps >= 0,
            from as int <= points,
            action_models(v@) + contract_options(points as int, ceiling as int) == contract_options(
                from as int,
                ceiling as int,
            ),
        decreases ceiling + 10 - points,
    {
        let ghost before = v@;
        v.push(Action::ConfirmContract { points });
        proof {
            assert(action_models(v@) =~= action_models(before).push(
                ActionModel::ConfirmContract { points },
            ));
            assert(action_models(v@) + contract_options(points + 10, ceiling as int) =~= action_models(before)
                + contract_options(points as int, ceiling as int));
            steps = steps + 1;
        }
        points = points + 10;
    }
    assert(action_models(v@) =~= action_models(v@) + contract_options(points as int, ceiling as int));
    v
}

fn card_play_actions(cards: &[Card]) -> (v: Vec<Action>)
    ensures
        action_models(v@) == card_actions(cards@),
{
    let mut v: Vec<Action> = Vec::new();
    let mut i: usize = 0;
    while i < cards.len()
        invariant
            i <= cards@.len(),
            action_models(v@) == card_actions(cards@.take(i as int)),
        decreases cards@.len() - i,
    {
        let ghost before = v@;
        v.push(Action::PlayCard { card: cards[i] });
        assert(action_models(v@) =~= action_models(before).push(
            ActionModel::PlayCard { card: cards@[i as int] },
        ));
        assert(action_models(v@) =~= card_actions(cards@.take(i as int + 1)));
        i = i + 1;
    }
    assert(cards@.take(cards@.len() as int) =~= cards@);
    v
}

/// Returns concrete actions the authoritative engine will currently accept from
/// a seat. Transfer choices are enumerated so every client receives the same
/// information.
pub fn legal_actions(game: &Match, actor: Seat) -> (v: Vec<Action>)
    requires
        match_wf(game@),
    ensures
        action_models(v@) == legal_actions_spec(game@, actor),
{
    let empty: Vec<Action> = Vec::new();
    assert(action_models(empty@) =~= Seq::<ActionModel>::empty());
    if !actor.valid() {
        return empty;
    }
    let round = match &game.phase {
        MatchPhase::Round(round) => round,
        _ => {
            return empty;
        },
    };
    let a = actor.index();
    let hand = round.hands[a].as_slice();
    assert(hand@ == game@.phase->Round_0.hands[a as int]);
    match &round.phase {
        RoundPhase::Auction(auction) => {
            let pending = auction.proof;
            match pending {
                Some(p) => legal_proof_actions(&p, hand, actor),
                None => {
                    if auction.turn != actor || !auction.active[a] {
                        return empty;
                    }
                    let points = auction.highest_bid + 10;
                    if points <= support_ceiling(hand) {
                        let v = vec![Action::Bid { points }, Action::Pass];
                        assert(action_models(v@) =~= legal_actions_spec(game@, actor));
                        v
                    } else {
                        let v = vec![Action::Pass];
                        assert(action_models(v@) =~= legal_actions_spec(game@, actor));
                        v
                    }
                },
            }
        },
        RoundPhase::Talon(talon) => {
            if talon.contractor == actor {
                let v = vec![Action::ContinueAfterTalon, Action::Surrender];
                assert(action_models(v@) =~= legal_actions_spec(game@, actor));
                v
            } else {
                empty
            }
        },
        RoundPhase::Transfer(transfer) => {
            if transfer.contractor == actor {
                transfer_actions(hand, actor)
            } else {
                empty
            }
        },
        RoundPhase::Contract(contract) => {
            let pending = contract.proof;
            match pending {
                Some(p) => legal_proof_actions(&p, hand, actor),
                None => {
                    if contract.contractor != actor {
                        return empty;
                    }
                    contract_actions(contract.auction_bid, support_ceiling(hand))
                },
            }
        },
        RoundPhase::Play(play) => {
            if play.turn != actor {
                return empty;
            }
            let legal = legal_cards(hand, play.trick.as_slice(), play.trump);
            let mut v = card_play_actions(legal.as_slice());
            if play.trick.len() == 0 && play.leader == actor {
                let ghost before = v@;
                v.push(Action::ClaimRemaining);
                assert(action_models(v@) =~= action_models(before) + seq![ActionModel::ClaimRemaining]);
            } else {
                assert(action_models(v@) =~= action_models(v@) + Seq::<ActionModel>::empty());
            }
            v
        },
        RoundPhase::ClaimVote(vote) => {
            if vote.voter_index < 2 && vote.voters[vote.voter_index] == actor {
                let v = vec![
                    Action::VoteOnClaim { accept: false },
                    Action::VoteOnClaim { accept: true },
                ];
                assert(action_models(v@) =~= legal_actions_spec(game@, actor));
                v
            } else {
                empty
            }
        },
        RoundPhase::RoundFinished(_) => empty,
    }
}

proof fn lemma_mask_subset_facts(held: Seq<Suit>, mask: nat)
    requires
        held.no_duplicates(),
    ensures
        mask_subset(held, mask).no_duplicates(),
        forall|s: Suit| mask_subset(held, mask).contains(s) ==> held.contains(s),
    decreases held.len(),
{
    if held.len() > 0 {
        let rest = held.drop_last();
        let prefix = mask_subset(rest, mask);
        assert(rest.no_duplicates()) by {
            assert forall|a: int, b: int| 0 <= a < b < rest.len() implies rest[a] != rest[b] by {
                assert(rest[a] == held[a] && rest[b] == held[b]);
            }
        }
        lemma_mask_subset_facts(rest, mask);
        assert forall|s: Suit| prefix.contains(s) implies held.contains(s) by {
            assert(rest.contains(s));
            let j = choose|j: int| 0 <= j < rest.len() && rest[j] == s;
            assert(held[j] == s);
        }
        assert(!rest.contains(held.last())) by {
            if rest.contains(held.last()) {
                let j = choose|j: int| 0 <= j < rest.len() && rest[j] == held.last();
                assert(held[j] == held[held.len() - 1]);
            }
        }
        let whole = prefix.push(held.last());
        assert forall|s: Suit| whole.contains(s) implies held.contains(s) by {
            if s != held.last() {
                let j = choose|j: int| 0 <= j < whole.len() && whole[j] == s;
                assert(prefix[j] == s);
            }
        }
        assert forall|a: int, b: int| 0 <= a < b < whole.len() implies whole[a] != whole[b] by {
            if b == prefix.len() {
                assert(prefix.contains(whole[a]));
            }
        }
    }
}

proof fn lemma_shortest_len_le(sets: Seq<Seq<Suit>>, x: Seq<Suit>)
    requires
        sets.contains(x),
    ensures
        shortest_len(sets) <= x.len(),
    decreases sets.len(),
{
    if sets.last() != x {
        let j = choose|j: int| 0 <= j < sets.len() && sets[j] == x;
        assert(sets.drop_last()[j] == x);
        lemma_shortest_len_le(sets.drop_last(), x);
    }
}

/// Every proof `legal_actions` offers a challenged bidder is one `apply`
/// accepts.
pub proof fn lemma_smallest_proof_valid(hand: Seq<Card>, points: u16, k: int)
    requires
        0 <= k < smallest_proofs_spec(hand, points).len(),
    ensures
        valid_proof(hand, points, smallest_proofs_spec(hand, points)[k]),
{
    let held = marriages_spec(hand);
    lemma_marriages_set(hand);
    let all = all_subsets(held);
    let candidates = sufficient_subsets(held, points);
    let min = shortest_len(candidates);
    let result = candidates.filter(has_len(min));
    let s = result[k];
    candidates.lemma_filter_pred(has_len(min), k);
    assert(result.contains(s));
    candidates.lemma_filter_contains_rev(has_len(min), s);
    let j = choose|j: int| 0 <= j < candidates.len() && candidates[j] == s;
    all.lemma_filter_pred(supports(points), j);
    assert(sufficient(s, points));
    all.lemma_filter_contains_rev(supports(points), s);
    let mask = choose|mask: int| 0 <= mask < all.len() && all[mask] == s;
    lemma_mask_subset_facts(held, mask as nat);
    assert(s.to_set().subset_of(held.to_set()));
    if smaller_proof_exists(held, points, s.len()) {
        let m2 = choose|m2: nat|
            m2 < pow2(held.len()) && #[trigger] mask_subset(held, m2).len() < s.len()
                && sufficient(mask_subset(held, m2), points);
        let t = mask_subset(held, m2);
        assert(all[m2 as int] == t);
        all.lemma_filter_contains(supports(points), m2 as int);
        lemma_shortest_len_le(candidates, t);
        assert(false);
    }
}

proof fn lemma_transfer_row_member(hand: Seq<Card>, o: [Seat; 2], i: int, n: nat, k: int)
    requires
        0 <= k < transfer_row(hand, o, i, n).len(),
    ensures
        exists|j: int|
            0 <= j < n && j != i && transfer_row(hand, o, i, n)[k] == transfer_choice(
                o,
                hand[i],
                hand[j],
            ),
    decreases n,
{
    let rest = transfer_row(hand, o, i, (n - 1) as nat);
    if n - 1 == i {
        lemma_transfer_row_member(hand, o, i, (n - 1) as nat, k);
    } else if k < rest.len() {
        lemma_transfer_row_member(hand, o, i, (n - 1) as nat, k);
    } else {
        assert(transfer_row(hand, o, i, n)[k] == transfer_choice(o, hand[i], hand[n - 1]));
    }
}

proof fn lemma_transfer_option_member(hand: Seq<Card>, o: [Seat; 2], n: nat, k: int)
    requires
        0 <= k < transfer_options(hand, o, n).len(),
        n <= hand.len(),
    ensures
        exists|i: int, j: int|
            0 <= i < hand.len() && 0 <= j < hand.len() && i != j && transfer_options(hand, o, n)[k]
                == transfer_choice(o, hand[i], hand[j]),
    decreases n,
{
    let prev = transfer_options(hand, o, (n - 1) as nat);
    let row = transfer_row(hand, o, n - 1, hand.len());
    if k < prev.len() {
        lemma_transfer_option_member(hand, o, (n - 1) as nat, k);
        assert(transfer_options(hand, o, n)[k] == prev[k]);
    } else {
        lemma_transfer_row_member(hand, o, n - 1, hand.len(), k - prev.len());
        assert(transfer_options(hand, o, n)[k] == row[k - prev.len()]);
    }
}

proof fn lemma_contract_option(from: int, ceiling: int, k: int)
    requires
        0 <= k < contract_options(from, ceiling).len(),
    ensures
        contract_options(from, ceiling)[k] == (ActionModel::ConfirmContract {
            points: (from + 10 * k) as u16,
        }),
        from + 10 * k <= ceiling,
    decreases ceiling + 10 - from,
{
    if from <= ceiling && k > 0 {
        lemma_contract_option(from + 10, ceiling, k - 1);
    }
}

proof fn lemma_legal_cards_held(hand: Seq<Card>, trick: Seq<PlayedCard<Seat>>, trump: Option<Suit>, c: Card)
    requires
        legal_cards_spec(hand, trick, trump).contains(c),
    ensures
        hand.contains(c),
{
    if trick.len() > 0 {
        let lead = trick[0].card.suit;
        let led_pred = |x: Card| x.suit == lead;
        let led = hand.filter(led_pred);
        if led.len() > 0 {
            let winner = trick_leader_play(trick, trump).card;
            if winner.suit == lead {
                let higher_pred = |x: Card| strength_spec(x.rank) > strength_spec(winner.rank);
                let higher = led.filter(higher_pred);
                if higher.len() > 0 {
                    led.lemma_filter_contains_rev(higher_pred, c);
                }
            }
            hand.lemma_filter_contains_rev(led_pred, c);
        }
    }
}

/// A transfer whose two gifts are the same card, which only a hand holding a
/// card twice can produce.
pub open spec fn gives_one_card_twice(a: ActionModel) -> bool {
    a matches ActionModel::Transfer { gifts } && gifts.len() == 2 && gifts[0].card == gifts[1].card
}

/// Every action `legal_actions` offers a seat is one `apply` accepts from it,
/// except a transfer of one card to both opponents, which a hand holding some
/// card twice would be offered.
pub proof fn lemma_legal_actions_accepted(m: MatchModel, actor: Seat, k: int)
    requires
        match_wf(m),
        0 <= k < legal_actions_spec(m, actor).len(),
        !gives_one_card_twice(legal_actions_spec(m, actor)[k]),
    ensures
        apply_spec(m, actor, legal_actions_spec(m, actor)[k]) is Ok,
{
    let r = m.phase->Round_0;
    let m0 = MatchModel { phase: MatchPhaseModel::WaitingForDeal, ..m };
    let hand = r.hands[actor.0 as int];
    assert(actor.following() != actor && actor.following().following() != actor);
    match r.phase {
        RoundPhaseModel::Auction(a) => {
            match a.proof {
                Some(p) => {
                    proof_action_accepted(m0, r, actor, p, k);
                },
                None => {
                    if a.highest_bid + 10 <= support_ceiling_spec(hand) {
                        auction_action_accepted(m0, r, actor, k);
                    } else {
                        auction_action_accepted(m0, r, actor, 1);
                    }
                },
            }
        },
        RoundPhaseModel::Talon(_) => {
            reveal(continue_spec);
            reveal(surrender_spec);
        },
        RoundPhaseModel::Transfer(t) => {
            transfer_action_accepted(m0, r, actor, k);
        },
        RoundPhaseModel::Contract(c) => {
            match c.proof {
                Some(p) => {
                    proof_action_accepted(m0, r, actor, p, k);
                },
                None => {
                    contract_action_accepted(m0, r, actor, k);
                },
            }
        },
        RoundPhaseModel::Play(p) => {
            play_action_accepted(m0, r, actor, k);
        },
        RoundPhaseModel::ClaimVote(_) => {
            reveal(vote_spec);
        },
        RoundPhaseModel::RoundFinished(_) => {},
    }
}

/// Every bid, pass, proof response, talon decision, contract, card, claim or
/// claim vote that `apply` accepts from a seat is among the actions
/// `legal_actions` offers that seat.
pub proof fn lemma_accepted_actions_offered(m: MatchModel, actor: Seat, action: ActionModel)
    requires
        match_wf(m),
        apply_spec(m, actor, action) is Ok,
        !(action is Transfer || action is RevealProof),
    ensures
        legal_actions_spec(m, actor).contains(action),
{
    let r = m.phase->Round_0;
    let m0 = MatchModel { phase: MatchPhaseModel::WaitingForDeal, ..m };
    assert(round_step(m0, r, actor, action) is Ok);
    match r.phase {
        RoundPhaseModel::Auction(a) => auction_offered(m, m0, r, actor, action),
        RoundPhaseModel::Contract(c) => contract_offered(m, m0, r, actor, action),
        RoundPhaseModel::Play(p) => play_offered(m, m0, r, actor, action),
        _ => other_offered(m, m0, r, actor, action),
    }
}

proof fn lemma_contract_options_len(from: int, ceiling: int)
    ensures
        contract_options(from, ceiling).len() == if from > ceiling {
            0
        } else {
            (ceiling - from) / 10 + 1
        },
    decreases ceiling + 10 - from,
{
    if from <= ceiling {
        lemma_contract_options_len(from + 10, ceiling);
    }
}

proof fn auction_offered(m: MatchModel, m0: MatchModel, r: RoundModel, actor: Seat, action: ActionModel)
    requires
        match_wf(m),
        actor.is_valid(),
        m.phase == MatchPhaseModel::Round(r),
        r.phase is Auction,
        round_step(m0, r, actor, action) is Ok,
        !(action is Transfer || action is RevealProof),
    ensures
        legal_actions_spec(m, actor).contains(action),
{
    let hand = r.hands[actor.0 as int];
    let legal = legal_actions_spec(m, actor);
    let a = r.phase->Auction_0;
    match action {
        ActionModel::Bid { points } => {
            reveal(bid_spec);
            assert(legal[0] == action);
        },
        ActionModel::Pass => {
            reveal(pass_spec);
            if a.highest_bid + 10 <= support_ceiling_spec(hand) {
                assert(legal[1] == action);
            } else {
                assert(legal[0] == action);
            }
        },
        ActionModel::RespondToProof { reveal: b } => {
            reveal(respond_spec);
            if b {
                assert(legal[1] == action);
            } else {
                assert(legal[0] == action);
            }
        },
        ActionModel::ContinueAfterTalon => {
            reveal(continue_spec);
        },
        ActionModel::Surrender => {
            reveal(surrender_spec);
        },
        ActionModel::ConfirmContract { points } => {
            reveal(contract_spec);
        },
        ActionModel::PlayCard { card } => {
            reveal(play_card_spec);
        },
        ActionModel::ClaimRemaining => {
            reveal(claim_spec);
        },
        ActionModel::VoteOnClaim { accept } => {
            reveal(vote_spec);
        },
        _ => {},
    }
}

proof fn contract_offered(m: MatchModel, m0: MatchModel, r: RoundModel, actor: Seat, action: ActionModel)
    requires
        match_wf(m),
        actor.is_valid(),
        m.phase == MatchPhaseModel::Round(r),
        r.phase is Contract,
        round_step(m0, r, actor, action) is Ok,
        !(action is Transfer || action is RevealProof),
    ensures
        legal_actions_spec(m, actor).contains(action),
{
    let hand = r.hands[actor.0 as int];
    let legal = legal_actions_spec(m, actor);
    match action {
        ActionModel::Bid { points } => {
            reveal(bid_spec);
        },
        ActionModel::Pass => {
            reveal(pass_spec);
        },
        ActionModel::RespondToProof { reveal: b } => {
            reveal(respond_spec);
            if b {
                assert(legal[1] == action);
            } else {
                assert(legal[0] == action);
            }
        },
        ActionModel::ContinueAfterTalon => {
            reveal(continue_spec);
        },
        ActionModel::Surrender => {
            reveal(surrender_spec);
        },
        ActionModel::ConfirmContract { points } => {
            reveal(contract_spec);
            let c = r.phase->Contract_0;
            let from = c.auction_bid as int;
            let ceiling = support_ceiling_spec(hand) as int;
            let k = (points - from) / 10;
            assert(from + 10 * k == points) by {
                assert(from % 10 == 0 && points % 10 == 0);
            }
            lemma_contract_options_len(from, ceiling);
            lemma_contract_option(from, ceiling, k);
            assert(legal[k] == action);
        },
        ActionModel::PlayCard { card } => {
            reveal(play_card_spec);
        },
        ActionModel::ClaimRemaining => {
            reveal(claim_spec);
        },
        ActionModel::VoteOnClaim { accept } => {
            reveal(vote_spec);
        },
        _ => {},
    }
}

proof fn play_offered(m: MatchModel, m0: MatchModel, r: RoundModel, actor: Seat, action: ActionModel)
    requires
        match_wf(m),
        actor.is_valid(),
        m.phase == MatchPhaseModel::Round(r),
        r.phase is Play,
        round_step(m0, r, actor, action) is Ok,
        !(action is Transfer || action is RevealProof),
    ensures
        legal_actions_spec(m, actor).contains(action),
{
    let hand = r.hands[actor.0 as int];
    let legal = legal_actions_spec(m, actor);
    let p = r.phase->Play_0;
    let lc = legal_cards_spec(hand, p.trick, p.trump);
    match action {
        ActionModel::Bid { points } => {
            reveal(bid_spec);
        },
        ActionModel::Pass => {
            reveal(pass_spec);
        },
        ActionModel::RespondToProof { reveal: b } => {
            reveal(respond_spec);
        },
        ActionModel::ContinueAfterTalon => {
            reveal(continue_spec);
        },
        ActionModel::Surrender => {
            reveal(surrender_spec);
        },
        ActionModel::ConfirmContract { points } => {
            reveal(contract_spec);
        },
        ActionModel::PlayCard { card } => {
            reveal(play_card_spec);
            let k = lc.index_of(card);
            assert(legal[k] == action);
        },
        ActionModel::ClaimRemaining => {
            reveal(claim_spec);
            assert(legal[card_actions(lc).len() as int] == action);
        },
        ActionModel::VoteOnClaim { accept } => {
            reveal(vote_spec);
        },
        _ => {},
    }
}

proof fn other_offered(m: MatchModel, m0: MatchModel, r: RoundModel, actor: Seat, action: ActionModel)
    requires
        match_wf(m),
        actor.is_valid(),
        m.phase == MatchPhaseModel::Round(r),
        !(r.phase is Auction || r.phase is Contract || r.phase is Play),
        round_step(m0, r, actor, action) is Ok,
        !(action is Transfer || action is RevealProof),
    ensures
        legal_actions_spec(m, actor).contains(action),
{
    let legal = legal_actions_spec(m, actor);
    match action {
        ActionModel::Bid { points } => {
            reveal(bid_spec);
        },
        ActionModel::Pass => {
            reveal(pass_spec);
        },
        ActionModel::RespondToProof { reveal: b } => {
            reveal(respond_spec);
        },
        ActionModel::ContinueAfterTalon => {
            reveal(continue_spec);
            assert(legal[0] == action);
        },
        ActionModel::Surrender => {
            reveal(surrender_spec);
            assert(legal[1] == action);
        },
        ActionModel::ConfirmContract { points } => {
            reveal(contract_spec);
        },
        ActionModel::PlayCard { card } => {
            reveal(play_card_spec);
        },
        ActionModel::ClaimRemaining => {
            reveal(claim_spec);
        },
        ActionModel::VoteOnClaim { accept } => {
            reveal(vote_spec);
            if accept {
                assert(legal[1] == action);
            } else {
                assert(legal[0] == action);
            }
        },
        _ => {},
    }
}

proof fn auction_action_accepted(m0: MatchModel, r: RoundModel, actor: Seat, k: int)
    requires
        round_wf(r),
        actor.is_valid(),
        r.phase matches RoundPhaseModel::Auction(a) && a.proof is None && a.turn == actor
            && a.active[actor.0 as int],
        0 <= k < 2,
        k == 0 ==> r.phase->Auction_0.highest_bid + 10 <= support_ceiling_spec(
            r.hands[actor.0 as int],
        ),
    ensures
        round_step(
            m0,
            r,
            actor,
            if k == 0 {
                ActionModel::Bid { points: (r.phase->Auction_0.highest_bid + 10) as u16 }
            } else {
                ActionModel::Pass
            },
        ) is Ok,
{
    reveal(bid_spec);
    reveal(pass_spec);
}

proof fn transfer_action_accepted(m0: MatchModel, r: RoundModel, actor: Seat, k: int)
    requires
        round_wf(r),
        actor.is_valid(),
        r.phase matches RoundPhaseModel::Transfer(t) && t.contractor == actor,
        0 <= k < transfer_options(
            r.hands[actor.0 as int],
            opponents_spec(actor),
            r.hands[actor.0 as int].len(),
        ).len(),
        !gives_one_card_twice(
            transfer_options(
                r.hands[actor.0 as int],
                opponents_spec(actor),
                r.hands[actor.0 as int].len(),
            )[k],
        ),
    ensures
        round_step(
            m0,
            r,
            actor,
            transfer_options(
                r.hands[actor.0 as int],
                opponents_spec(actor),
                r.hands[actor.0 as int].len(),
            )[k],
        ) is Ok,
{
    reveal(transfer_spec);
    let hand = r.hands[actor.0 as int];
    let o = opponents_spec(actor);
    lemma_transfer_option_member(hand, o, hand.len(), k);
    let (i, j) = choose|i: int, j: int|
        0 <= i < hand.len() && 0 <= j < hand.len() && i != j && transfer_options(hand, o, hand.len())[k]
            == transfer_choice(o, hand[i], hand[j]);
    assert(hand[i] != hand[j]);
    assert(hand.contains(hand[i]) && hand.contains(hand[j]));
}

proof fn contract_action_accepted(m0: MatchModel, r: RoundModel, actor: Seat, k: int)
    requires
        round_wf(r),
        actor.is_valid(),
        r.phase matches RoundPhaseModel::Contract(c) && c.proof is None && c.contractor == actor,
        0 <= k < contract_options(
            r.phase->Contract_0.auction_bid as int,
            support_ceiling_spec(r.hands[actor.0 as int]) as int,
        ).len(),
    ensures
        round_step(
            m0,
            r,
            actor,
            contract_options(
                r.phase->Contract_0.auction_bid as int,
                support_ceiling_spec(r.hands[actor.0 as int]) as int,
            )[k],
        ) is Ok,
{
    reveal(contract_spec);
    let c = r.phase->Contract_0;
    let hand = r.hands[actor.0 as int];
    marriage_total_small(held_marriages(hand));
    lemma_contract_option(c.auction_bid as int, support_ceiling_spec(hand) as int, k);
    assert((c.auction_bid + 10 * k) % 10 == 0) by {
        assert((c.auction_bid + 10 * k) % 10 == c.auction_bid % 10);
    }
}

proof fn play_action_accepted(m0: MatchModel, r: RoundModel, actor: Seat, k: int)
    requires
        round_wf(r),
        actor.is_valid(),
        r.phase matches RoundPhaseModel::Play(p) && p.turn == actor,
        0 <= k < card_actions(
            legal_cards_spec(
                r.hands[actor.0 as int],
                r.phase->Play_0.trick,
                r.phase->Play_0.trump,
            ),
        ).len() + if r.phase->Play_0.trick.len() == 0 && r.phase->Play_0.leader == actor {
            1int
        } else {
            0int
        },
    ensures
        round_step(
            m0,
            r,
            actor,
            (card_actions(
                legal_cards_spec(
                    r.hands[actor.0 as int],
                    r.phase->Play_0.trick,
                    r.phase->Play_0.trump,
                ),
            ) + if r.phase->Play_0.trick.len() == 0 && r.phase->Play_0.leader == actor {
                seq![ActionModel::ClaimRemaining]
            } else {
                Seq::empty()
            })[k],
        ) is Ok,
{
    reveal(play_card_spec);
    reveal(claim_spec);
    let p = r.phase->Play_0;
    let hand = r.hands[actor.0 as int];
    let legal = legal_cards_spec(hand, p.trick, p.trump);
    if k < legal.len() {
        assert(legal.contains(legal[k]));
        lemma_legal_cards_held(hand, p.trick, p.trump, legal[k]);
    }
}

proof fn marriage_total_small(s: Set<Suit>)
    ensures
        marriage_total(s) <= 280,
{
}

proof fn proof_action_accepted(m0: MatchModel, r: RoundModel, actor: Seat, p: Proof, k: int)
    requires
        round_wf(r),
        actor.is_valid(),
        pending_proof(r.phase) == Some(p),
        r.phase is Auction || r.phase is Contract,
        0 <= k < proof_actions(p, r.hands[actor.0 as int], actor).len(),
    ensures
        round_step(m0, r, actor, proof_actions(p, r.hands[actor.0 as int], actor)[k]) is Ok,
{
    reveal(respond_spec);
    reveal(reveal_spec);
    let hand = r.hands[actor.0 as int];
    if p.reveal_required && p.bidder == actor {
        lemma_smallest_proof_valid(hand, p.points, k);
    }
}

} // verus!
