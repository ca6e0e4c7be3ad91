//! The table animation: how long a new deal is shown before input opens, how
//! far the deal has progressed at a given moment, and how long each action
//! holds the table.
use vstd::prelude::*;

use crate::protocol::PresentationView;
use crate::server::{
    Presentation, PresentationStage, DEAL_PRESENTATION_MS, FOUR_NINES_RESHUFFLE_PRESENTATION_MS,
    INITIAL_SHUFFLE_PRESENTATION_MS, MAX_PRESENTED_FOUR_NINES_RESHUFFLES,
};
use crate::tysiac::model::{event_models, ActionModel, EventModel};
use crate::tysiac::{Action, EventKind, GameEvent};

verus! {

/// Addition that stops at `u64::MAX`.
pub open spec fn sat_add(a: u64, b: u64) -> u64 {
    if a + b > u64::MAX {
        u64::MAX
    } else {
        (a + b) as u64
    }
}

/// Milliseconds between dealt cards appearing on the table.
pub const DEAL_CARD_INTERVAL_MS: u64 = 250;

/// Cards shown once a deal is complete.
pub const DEALT_CARDS: usize = 24;

/// The schedule for showing a fresh deal: the shuffle, one extra shuffle per
/// rejected all-four-nines deal (at most ten are shown), then the deal itself.
pub open spec fn deal_presentation_spec(now: u64, four_nines_reshuffles: u64) -> Presentation {
    let shown = if four_nines_reshuffles < 10 {
        four_nines_reshuffles
    } else {
        10
    };
    let started = sat_add(sat_add(now, 2_000), (shown * 2_000) as u64);
    Presentation {
        stage: PresentationStage::Shuffling,
        visible_deal_cards: 0,
        gate_until_ms: sat_add(started, 6_000),
        deal_started_ms: started,
    }
}

pub fn deal_presentation(now: u64, four_nines_reshuffles: u64) -> (p: Presentation)
    ensures
        p == deal_presentation_spec(now, four_nines_reshuffles),
{
    let shown = if four_nines_reshuffles < MAX_PRESENTED_FOUR_NINES_RESHUFFLES {
        four_nines_reshuffles
    } else {
        MAX_PRESENTED_FOUR_NINES_RESHUFFLES
    };
    let reshuffle_delay = shown * FOUR_NINES_RESHUFFLE_PRESENTATION_MS;
    let deal_started_ms = now.saturating_add(INITIAL_SHUFFLE_PRESENTATION_MS).saturating_add(
        reshuffle_delay,
    );
    Presentation {
        stage: PresentationStage::Shuffling,
        visible_deal_cards: 0,
        gate_until_ms: deal_started_ms.saturating_add(DEAL_PRESENTATION_MS),
        deal_started_ms,
    }
}

/// Cards dealt onto the table `elapsed` milliseconds into the deal.
pub open spec fn dealt_by(elapsed: u64) -> nat {
    if elapsed / 250 >= 24 {
        24
    } else {
        (elapsed / 250) as nat
    }
}

fn cards_dealt_by(elapsed: u64) -> (n: usize)
    ensures
        n == dealt_by(elapsed),
{
    let q = elapsed / DEAL_CARD_INTERVAL_MS;
    if q >= 24 {
        DEALT_CARDS
    } else {
        q as usize
    }
}

/// The animation at time `now`: shuffling until the deal starts, then one more
/// card on the table every interval, and ready once the input hold is over.
pub open spec fn presentation_at(p: Presentation, now: u64) -> Presentation {
    if p.stage == PresentationStage::Ready {
        p
    } else if now >= p.gate_until_ms {
        Presentation { stage: PresentationStage::Ready, visible_deal_cards: 24, ..p }
    } else if now < p.deal_started_ms {
        Presentation { stage: PresentationStage::Shuffling, ..p }
    } else {
        Presentation {
            stage: PresentationStage::Dealing,
            visible_deal_cards: dealt_by((now - p.deal_started_ms) as u64) as usize,
            ..p
        }
    }
}

/// Advances the animation to `now`.
pub fn update_presentation(p: &mut Presentation, now: u64)
    ensures
        *final(p) == presentation_at(*old(p), now),
{
    if p.stage == PresentationStage::Ready {
        return;
    }
    if now < p.deal_started_ms {
        p.stage = PresentationStage::Shuffling;
    } else {
        p.stage = PresentationStage::Dealing;
        p.visible_deal_cards = cards_dealt_by(now - p.deal_started_ms);
    }
    if now >= p.gate_until_ms {
        p.stage = PresentationStage::Ready;
        p.visible_deal_cards = DEALT_CARDS;
    }
}

/// What clients are told of the animation at `now`: its stage, how many
/// cards of the deal to show, and whether input is still held back.
pub open spec fn presentation_view_spec(p: Presentation, now: u64) -> (Seq<char>, nat, bool) {
    if p.stage == PresentationStage::Ready || now >= p.gate_until_ms {
        ("ready"@, 24, now < p.gate_until_ms)
    } else if now < p.deal_started_ms {
        ("shuffling"@, 0, true)
    } else {
        ("dealing"@, dealt_by((now - p.deal_started_ms) as u64), true)
    }
}

pub fn presentation_view(p: &Presentation, now: u64) -> (v: PresentationView)
    ensures
        (v.stage@, v.visible_deal_cards as nat, v.input_blocked) == presentation_view_spec(*p, now),
{
    let (stage, visible_deal_cards) = if p.stage == PresentationStage::Ready || now
        >= p.gate_until_ms {
        ("ready", DEALT_CARDS)
    } else if now < p.deal_started_ms {
        ("shuffling", 0)
    } else {
        ("dealing", cards_dealt_by(now - p.deal_started_ms))
    };
    PresentationView {
        stage: String::from_str(stage),
        visible_deal_cards,
        input_blocked: now < p.gate_until_ms,
    }
}

/// Whether any event closes a trick.
pub open spec fn closes_trick(events: Seq<EventModel>) -> bool {
    exists|i: int| 0 <= i < events.len() && (#[trigger] events[i]).kind == EventKind::Trick
}

/// How long the table is held after an action: longest when a trick closes,
/// then by the kind of action.
pub open spec fn presentation_delay_spec(action: ActionModel, events: Seq<EventModel>) -> u64 {
    if closes_trick(events) {
        1_200
    } else {
        match action {
            ActionModel::PlayCard { .. } => 700,
            ActionModel::Pass | ActionModel::Bid { .. } => 350,
            ActionModel::ContinueAfterTalon | ActionModel::Transfer { .. } => 1_000,
            _ => 300,
        }
    }
}

pub fn presentation_delay(action: &Action, events: &[GameEvent]) -> (d: u64)
    ensures
        d == presentation_delay_spec(action@, event_models(events@)),
{
    let mut trick = false;
    let mut i: usize = 0;
    while i < events.len()
        invariant
            i <= events@.len(),
            trick == exists|k: int| 0 <= k < i && (#[trigger] events@[k]).kind == EventKind::Trick,
        decreases events@.len() - i,
    {
        if events[i].kind == EventKind::Trick {
            trick = true;
        }
        i = i + 1;
    }
    proof {
        let m = event_models(events@);
        if trick {
            let k = choose|k: int| 0 <= k < events@.len() && (#[trigger] events@[k]).kind
                == EventKind::Trick;
            assert(m[k].kind == EventKind::Trick);
        } else {
            assert forall|k: int| 0 <= k < m.len() implies (#[trigger] m[k]).kind
                != EventKind::Trick by {
                assert(events@[k].kind != EventKind::Trick);
            }
        }
    }
    if trick {
        1_200
    } else {
        match action {
            Action::PlayCard { .. } => 700,
            Action::Pass | Action::Bid { .. } => 350,
            Action::ContinueAfterTalon | Action::Transfer { .. } => 1_000,
            _ => 300,
        }
    }
}

/// Input opens exactly when the input hold ends: before that every view keeps input
/// closed; from then on the view is ready and shows every card of the deal.
pub proof fn lemma_input_opens_when_the_hold_ends(p: Presentation, now: u64)
    ensures
        now < p.gate_until_ms ==> presentation_view_spec(p, now).2,
        now >= p.gate_until_ms ==> presentation_view_spec(p, now) == ("ready"@, 24nat, false),
        now >= p.gate_until_ms ==> presentation_at(p, now).stage == PresentationStage::Ready,
{
}

} // verus!
