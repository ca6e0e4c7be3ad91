//! The audit trail of a deal, as logged when it is shuffled and as published
//! to the table when the match ends.
use vstd::prelude::*;

use crate::cards::{card_text, Card};
use crate::protocol::RoundAudit;
use crate::text::{decimal, push_decimal};

verus! {

/// Cards in their printed form, separated by single spaces.
pub open spec fn cards_text(cards: Seq<Card>) -> Seq<char>
    decreases cards.len(),
{
    if cards.len() == 0 {
        Seq::empty()
    } else if cards.len() == 1 {
        card_text(cards[0])
    } else {
        cards_text(cards.drop_last()) + " "@ + card_text(cards.last())
    }
}

/// Appends the cards in their printed form, separated by single spaces.
pub fn push_cards(s: &mut String, cards: &[Card])
    ensures
        final(s)@ == old(s)@ + cards_text(cards@),
{
    let ghost start = s@;
    let mut i: usize = 0;
    assert(cards@.take(0) =~= Seq::<Card>::empty());
    while i < cards.len()
        invariant
            i <= cards@.len(),
            s@ == start + cards_text(cards@.take(i as int)),
        decreases cards@.len() - i,
    {
        let ghost t = cards@.take(i as int + 1);
        assert(t.drop_last() =~= cards@.take(i as int));
        if i > 0 {
            s.append(" ");
        }
        let c = cards[i].to_string();
        s.append(c.as_str());
        proof {
            if i == 0 {
                assert(cards@.take(0) =~= Seq::<Card>::empty());
            }
        }
        assert(s@ =~= start + cards_text(t));
        i = i + 1;
    }
    assert(cards@.take(cards@.len() as int) =~= cards@);
}

/// The logged line of a shuffle: counters, seed, rejected deals and why,
/// and the accepted card order.
pub open spec fn shuffle_audit_text(a: RoundAudit) -> Seq<char> {
    "match="@ + decimal(a.match_index as nat) + " round="@ + decimal(a.round_index as nat)
        + " derived_seed="@ + decimal(a.derived_seed as nat) + " four_nines_reshuffles="@
        + decimal(a.four_nines_reshuffles as nat) + " reshuffle_reason="@ + (if a.four_nines_reshuffles
        == 0 {
        "none"@
    } else {
        "initial_hand_contained_all_four_nines"@
    }) + " accepted_deal_order="@ + cards_text(a.deal_order@)
}

pub fn shuffle_audit_detail(audit: &RoundAudit) -> (s: String)
    ensures
        s@ == shuffle_audit_text(*audit),
{
    let reason = if audit.four_nines_reshuffles == 0 {
        "none"
    } else {
        "initial_hand_contained_all_four_nines"
    };
    let mut s = String::from_str("match=");
    push_decimal(&mut s, audit.match_index);
    s.append(" round=");
    push_decimal(&mut s, audit.round_index);
    s.append(" derived_seed=");
    push_decimal(&mut s, audit.derived_seed);
    s.append(" four_nines_reshuffles=");
    push_decimal(&mut s, audit.four_nines_reshuffles);
    s.append(" reshuffle_reason=");
    s.append(reason);
    s.append(" accepted_deal_order=");
    push_cards(&mut s, audit.deal_order.as_slice());
    s
}

/// How many deals were rejected, in words.
pub open spec fn reshuffle_summary(count: u64) -> Seq<char> {
    if count == 0 {
        "no all-four-nines reshuffle was required"@
    } else if count == 1 {
        "1 deal was reshuffled because an initial hand contained all four nines"@
    } else {
        decimal(count as nat)
            + " deals were reshuffled because an initial hand contained all four nines"@
    }
}

/// The audit of one round as published to the table.
pub open spec fn published_audit_text(a: RoundAudit) -> Seq<char> {
    "published match "@ + decimal(a.match_index as nat) + " round "@ + decimal(
        a.round_index as nat,
    ) + ": seed "@ + decimal(a.derived_seed as nat) + ", "@ + reshuffle_summary(
        a.four_nines_reshuffles,
    ) + "; accepted deal "@ + cards_text(a.deal_order@)
}

pub fn published_round_audit_message(audit: &RoundAudit) -> (s: String)
    ensures
        s@ == published_audit_text(*audit),
{
    let mut s = String::from_str("published match ");
    push_decimal(&mut s, audit.match_index);
    s.append(" round ");
    push_decimal(&mut s, audit.round_index);
    s.append(": seed ");
    push_decimal(&mut s, audit.derived_seed);
    s.append(", ");
    if audit.four_nines_reshuffles == 0 {
        s.append("no all-four-nines reshuffle was required");
    } else if audit.four_nines_reshuffles == 1 {
        s.append("1 deal was reshuffled because an initial hand contained all four nines");
    } else {
        push_decimal(&mut s, audit.four_nines_reshuffles);
        s.append(" deals were reshuffled because an initial hand contained all four nines");
    }
    s.append("; accepted deal ");
    push_cards(&mut s, audit.deal_order.as_slice());
    s
}

} // verus!
