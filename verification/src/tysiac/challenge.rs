//! Proofs of support: which sets of marriages a challenged bidder may show.
use vstd::prelude::*;
use vstd::arithmetic::power2::{lemma2_to64, pow2};

use crate::cards::{Card, Suit};
use crate::tysiac::RuleError;
use crate::tysiac::rules::{
    contains_suit, lemma_filter_step, lemma_marriages_set, marriages, marriages_spec,
    total_of_suits,
};
use crate::tysiac::spec::{mask_subset, smaller_proof_exists, sufficient, valid_proof};

verus! {

/// Every subset of the held marriages, in mask order.
pub open spec fn all_subsets(held: Seq<Suit>) -> Seq<Seq<Suit>> {
    Seq::new(pow2(held.len()), |mask: int| mask_subset(held, mask as nat))
}

/// Whether a set of marriages supports `points`.
pub open spec fn supports(points: u16) -> spec_fn(Seq<Suit>) -> bool {
    |s: Seq<Suit>| sufficient(s, points)
}

/// Whether a set of marriages has exactly `n` entries.
pub open spec fn has_len(n: nat) -> spec_fn(Seq<Suit>) -> bool {
    |s: Seq<Suit>| s.len() == n
}

/// The subsets of the held marriages that support `points`, in mask order.
pub open spec fn sufficient_subsets(held: Seq<Suit>, points: u16) -> Seq<Seq<Suit>> {
    all_subsets(held).filter(supports(points))
}

/// The length of the shortest entry, or `usize::MAX` when there is none.
pub open spec fn shortest_len(sets: Seq<Seq<Suit>>) -> nat
    decreases sets.len(),
{
    if sets.len() == 0 {
        usize::MAX as nat
    } else {
        let rest = shortest_len(sets.drop_last());
        if sets.last().len() < rest {
            sets.last().len()
        } else {
            rest
        }
    }
}

/// The proofs a challenged bidder may show: the sufficient subsets of the
/// held marriages with the fewest marriages, in mask order.
pub open spec fn smallest_proofs_spec(hand: Seq<Card>, points: u16) -> Seq<Seq<Suit>> {
    let candidates = sufficient_subsets(marriages_spec(hand), points);
    candidates.filter(has_len(shortest_len(candidates)))
}

proof fn lemma_held_small(hand: Seq<Card>)
    ensures
        marriages_spec(hand).len() <= 4,
        marriages_spec(hand).no_duplicates(),
{
    let all = seq![Suit::Clubs, Suit::Diamonds, Suit::Hearts, Suit::Spades];
    all.lemma_filter_len(|s: Suit| crate::tysiac::rules::has_marriage(hand, s));
    lemma_marriages_set(hand);
}

/// The held marriages whose bit is set in `mask`.
fn mask_suits(held: &[Suit], mask: u8) -> (v: Vec<Suit>)
    requires
        held@.len() <= 4,
    ensures
        v@ == mask_subset(held@, mask as nat),
{
    proof {
        lemma2_to64();
    }
    let mut v: Vec<Suit> = Vec::new();
    let mut k: usize = 0;
    let mut div: u8 = 1;
    assert(held@.take(0) =~= Seq::<Suit>::empty());
    while k < held.len()
        invariant
            k <= held@.len(),
            held@.len() <= 4,
            div as nat == pow2(k as nat),
            v@ == mask_subset(held@.take(k as int), mask as nat),
            pow2(0) == 1 && pow2(1) == 2 && pow2(2) == 4 && pow2(3) == 8 && pow2(4) == 16,
        decreases held@.len() - k,
    {
        let ghost t = held@.take(k as int + 1);
        assert(t.drop_last() =~= held@.take(k as int));
        assert(t.last() == held@[k as int]);
        assert(t.len() == k + 1);
        assert(mask_subset(t, mask as nat) == if (mask as nat / pow2(k as nat)) % 2 == 1 {
            mask_subset(held@.take(k as int), mask as nat).push(held@[k as int])
        } else {
            mask_subset(held@.take(k as int), mask as nat)
        });
        if (mask / div) % 2 == 1 {
            v.push(held[k]);
        }
        k = k + 1;
        div = div * 2;
    }
    assert(held@.take(held@.len() as int) =~= held@);
    v
}

/// Whether no suit occurs twice.
fn distinct_suits(suits: &[Suit]) -> (b: bool)
    ensures
        b == suits@.no_duplicates(),
{
    let mut i: usize = 0;
    while i < suits.len()
        invariant
            i <= suits@.len(),
            forall|a: int, b: int|
                #![trigger suits@[a], suits@[b]]
                0 <= a < b < suits@.len() && a < i ==> suits@[a] != suits@[b],
        decreases suits@.len() - i,
    {
        let mut j: usize = i + 1;
        while j < suits.len()
            invariant
                i < j <= suits@.len(),
                forall|a: int, b: int|
                    #![trigger suits@[a], suits@[b]]
                    0 <= a < b < suits@.len() && a < i ==> suits@[a] != suits@[b],
                forall|b: int| i < b < j ==> suits@[i as int] != #[trigger] suits@[b],
            decreases suits@.len() - j,
        {
            if suits[i] == suits[j] {
                return false;
            }
            j = j + 1;
        }
        i = i + 1;
    }
    true
}

/// Whether every listed suit is among `held`.
fn all_held(suits: &[Suit], held: &[Suit]) -> (b: bool)
    ensures
        b == suits@.to_set().subset_of(held@.to_set()),
{
    let mut i: usize = 0;
    while i < suits.len()
        invariant
            i <= suits@.len(),
            forall|a: int| 0 <= a < i ==> held@.contains(#[trigger] suits@[a]),
        decreases suits@.len() - i,
    {
        if !contains_suit(held, suits[i]) {
            assert(suits@.to_set().contains(suits@[i as int]));
            return false;
        }
        i = i + 1;
    }
    assert forall|s: Suit| suits@.to_set().contains(s) implies held@.to_set().contains(s) by {
        let a = choose|a: int| 0 <= a < suits@.len() && suits@[a] == s;
        assert(held@.contains(suits@[a]));
    }
    true
}

/// Checks that `suits` names distinct marriages held in `hand` that support
/// `points`, and that no smaller set of held marriages would.
pub fn validate_proof(hand: &[Card], points: u16, suits: &[Suit]) -> (r: Result<(), RuleError>)
    ensures
        r is Ok <==> valid_proof(hand@, points, suits@),
        r is Err ==> r == Err::<(), RuleError>(RuleError::InvalidProof),
{
    let held = marriages(hand);
    proof {
        lemma_held_small(hand@);
        lemma2_to64();
    }
    if !distinct_suits(suits) || !all_held(suits, held.as_slice()) {
        return Err(RuleError::InvalidProof);
    }
    let total = total_of_suits(suits);
    if 120 + total < points {
        return Err(RuleError::InvalidProof);
    }
    let n = held.len();
    let limit: u8 = if n == 0 {
        1
    } else if n == 1 {
        2
    } else if n == 2 {
        4
    } else if n == 3 {
        8
    } else {
        16
    };
    assert(limit == pow2(n as nat));
    let mut mask: u8 = 0;
    while mask < limit
        invariant
            mask <= limit,
            limit == pow2(held@.len()),
            held@ == marriages_spec(hand@),
            held@.len() <= 4,
            forall|m: nat|
                m < mask ==> !(#[trigger] mask_subset(held@, m).len() < suits@.len()
                    && sufficient(mask_subset(held@, m), points)),
        decreases limit - mask,
    {
        let sub = mask_suits(held.as_slice(), mask);
        if sub.len() < suits.len() && 120 + total_of_suits(sub.as_slice()) >= points {
            assert(mask_subset(held@, mask as nat).len() < suits@.len());
            assert(!valid_proof(hand@, points, suits@));
            return Err(RuleError::InvalidProof);
        }
        mask = mask + 1;
    }
    assert(!smaller_proof_exists(held@, points, suits@.len()));
    Ok(())
}

/// The suits of each list.
pub open spec fn suit_lists(v: Seq<Vec<Suit>>) -> Seq<Seq<Suit>> {
    Seq::new(v.len(), |i: int| v[i]@)
}

pub fn copy_suits(suits: &[Suit]) -> (v: Vec<Suit>)
    ensures
        v@ == suits@,
{
    let mut v: Vec<Suit> = Vec::new();
    let mut i: usize = 0;
    while i < suits.len()
        invariant
            i <= suits@.len(),
            v@ == suits@.take(i as int),
        decreases suits@.len() - i,
    {
        assert(suits@.take(i as int + 1) == suits@.take(i as int).push(suits@[i as int]));
        v.push(suits[i]);
        i = i + 1;
    }
    assert(suits@.take(suits@.len() as int) =~= suits@);
    v
}

/// Every proof a challenged bidder holding `hand` may show for `points`:
/// the sufficient sets of held marriages with the fewest marriages.
pub fn smallest_proofs(hand: &[Card], points: u16) -> (r: Vec<Vec<Suit>>)
    ensures
        suit_lists(r@) == smallest_proofs_spec(hand@, points),
{
    let held = marriages(hand);
    proof {
        lemma_held_small(hand@);
        lemma2_to64();
    }
    let n = held.len();
    let limit: u8 = if n == 0 {
        1
    } else if n == 1 {
        2
    } else if n == 2 {
        4
    } else if n == 3 {
        8
    } else {
        16
    };
    let ghost subsets = all_subsets(held@);
    assert(subsets.len() == limit);
    let mut valid: Vec<Vec<Suit>> = Vec::new();
    let mut mask: u8 = 0;
    assert(subsets.take(0).filter(supports(points)) =~= Seq::<Seq<Suit>>::empty());
    assert(suit_lists(valid@) =~= Seq::<Seq<Suit>>::empty());
    while mask < limit
        invariant
            mask <= limit,
            subsets == all_subsets(held@),
            subsets.len() == limit,
            held@.len() <= 4,
            suit_lists(valid@) == subsets.take(mask as int).filter(supports(points)),
        decreases limit - mask,
    {
        let sub = mask_suits(held.as_slice(), mask);
        proof {
            lemma_filter_step(subsets, mask as int, supports(points));
        }
        assert(subsets[mask as int] == sub@);
        if 120 + total_of_suits(sub.as_slice()) >= points {
            let ghost before = valid@;
            valid.push(sub);
            assert(suit_lists(valid@) =~= suit_lists(before).push(subsets[mask as int]));
        }
        mask = mask + 1;
    }
    assert(subsets.take(limit as int) =~= subsets);
    let ghost candidates = suit_lists(valid@);
    assert(candidates == sufficient_subsets(marriages_spec(hand@), points));
    let mut minimum: usize = usize::MAX;
    let mut i: usize = 0;
    assert(candidates.take(0) =~= Seq::<Seq<Suit>>::empty());
    while i < valid.len()
        invariant
            i <= valid@.len(),
            candidates == suit_lists(valid@),
            minimum == shortest_len(candidates.take(i as int)),
        decreases valid@.len() - i,
    {
        assert(candidates.take(i as int + 1).drop_last() =~= candidates.take(i as int));
        assert(candidates.take(i as int + 1).last() == valid@[i as int]@);
        if valid[i].len() < minimum {
            minimum = valid[i].len();
        }
        i = i + 1;
    }
    assert(candidates.take(valid@.len() as int) =~= candidates);
    let mut out: Vec<Vec<Suit>> = Vec::new();
    let mut j: usize = 0;
    assert(candidates.take(0).filter(has_len(minimum as nat)) =~= Seq::<Seq<Suit>>::empty());
    assert(suit_lists(out@) =~= Seq::<Seq<Suit>>::empty());
    while j < valid.len()
        invariant
            j <= valid@.len(),
            candidates == suit_lists(valid@),
            suit_lists(out@) == candidates.take(j as int).filter(has_len(minimum as nat)),
        decreases valid@.len() - j,
    {
        proof {
            lemma_filter_step(candidates, j as int, has_len(minimum as nat));
        }
        if valid[j].len() == minimum {
            let copy = copy_suits(valid[j].as_slice());
            let ghost before = out@;
            out.push(copy);
            assert(suit_lists(out@) =~= suit_lists(before).push(candidates[j as int]));
        }
        j = j + 1;
    }
    assert(candidates.take(valid@.len() as int) =~= candidates);
    out
}

} // verus!
