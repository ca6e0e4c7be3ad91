//! Wire types shared by the game server and every client, and the projections
//! that decide what each audience may see of a match.
use vstd::prelude::*;

use crate::cards::{Card, PlayedCard, Suit};
use crate::tysiac::{
    proof_responder, Action, Config, EventKind, GameEvent, Match, MatchPhase, Play, Proof, Round,
    RoundPhase, Seat, ClaimVote, TalonVisibility,
};
use crate::tysiac::legal::{action_models, legal_actions_spec};
use crate::tysiac::legal::legal_actions;
use crate::tysiac::model::{
    ActionModel, EventModel, MatchModel, MatchPhaseModel, PlayModel, RoundModel, RoundPhaseModel,
    event_models, match_wf,
};
use crate::tysiac::rules::{clone_cards, holds_card};

verus! {

#[derive(Clone, Debug, Eq, PartialEq)]
pub enum ClientMessage {
    Authenticate { credential: String },
    Act { command_id: String, expected_revision: u64, action: Action },
    Admin { command_id: String, expected_revision: u64, action: AdminAction },
    Ping,
}

#[derive(Clone, Copy, Debug, Eq, PartialEq, Structural)]
pub enum AdminAction {
    Start,
    Pause,
    Resume,
    Abort,
    Rematch,
    AdvancePresentation,
}

#[derive(Clone, Debug, Eq, PartialEq)]
pub enum ServerMessage {
    Snapshot(RoleView),
    Updated { revision: u64, events: Vec<GameEvent>, view: RoleView },
    Error(ApiError),
    Pong,
}

#[derive(Clone, Debug, Eq, PartialEq)]
pub struct ApiError {
    pub code: String,
    pub message: String,
    pub current_revision: Option<u64>,
}

#[derive(Clone, Debug, Eq, PartialEq)]
pub enum RoleView {
    Observer(PublicView),
    Player { seat: Seat, own_hand: Vec<Card>, public: PublicView, legal_actions: Vec<Action> },
    Referee { state: Match, public: PublicView, base_seed: u64, round_audits: Vec<RoundAudit> },
}

#[derive(Clone, Debug, Eq, PartialEq)]
pub struct PublicView {
    pub room_name: String,
    pub revision: u64,
    pub lifecycle: Lifecycle,
    pub config: Config,
    pub players: Vec<PublicPlayer>,
    pub game: Option<PublicGame>,
    pub presentation: PresentationView,
    pub history: Vec<GameEvent>,
}

#[derive(Clone, Debug, Eq, PartialEq)]
pub struct PresentationView {
    pub stage: String,
    pub visible_deal_cards: usize,
    pub input_blocked: bool,
}

impl Default for PresentationView {
    fn default() -> (p: Self)
        ensures
            p.stage@ == "ready"@,
            p.visible_deal_cards == 24,
            !p.input_blocked,
    {
        PresentationView { stage: String::from_str("ready"), visible_deal_cards: 24, input_blocked: false }
    }
}

#[derive(Clone, Copy, Debug, Eq, PartialEq, Structural)]
pub enum Lifecycle {
    Lobby,
    Running,
    Paused,
    Finished,
    Aborted,
}

#[derive(Clone, Debug, Eq, PartialEq)]
pub struct PublicPlayer {
    pub seat: Seat,
    pub name: String,
    pub score: i32,
    pub connected: bool,
    pub card_count: usize,
}

#[derive(Clone, Debug, Eq, PartialEq)]
pub struct PublicGame {
    pub phase: String,
    pub dealer: Seat,
    pub turn: Option<Seat>,
    pub contractor: Option<Seat>,
    pub bid_or_contract: Option<u16>,
    pub trump: Option<Suit>,
    pub current_trick: Vec<PublicPlayed>,
    pub last_trick: Vec<PublicPlayed>,
    pub open_hands: Vec<(Seat, Vec<Card>)>,
    pub talon: Vec<PublicCard>,
}

#[derive(Clone, Copy, Debug, Eq, PartialEq, Structural)]
pub struct PublicPlayed {
    pub seat: Seat,
    pub card: Card,
}

#[derive(Clone, Debug, Eq, PartialEq)]
pub struct RoundAudit {
    pub match_index: u64,
    pub round_index: u64,
    pub derived_seed: u64,
    pub deal_order: Vec<Card>,
    pub four_nines_reshuffles: u64,
}

#[derive(Clone, Copy, Debug, Eq, PartialEq, Structural)]
pub enum PublicCard {
    Face(Card),
    Back,
}

#[verifier::ext_equal]
pub struct PublicPlayerModel {
    pub seat: Seat,
    pub name: Seq<char>,
    pub score: i32,
    pub connected: bool,
    pub card_count: nat,
}

#[verifier::ext_equal]
pub struct PublicGameModel {
    pub phase: Seq<char>,
    pub dealer: Seat,
    pub turn: Option<Seat>,
    pub contractor: Option<Seat>,
    pub bid_or_contract: Option<u16>,
    pub trump: Option<Suit>,
    pub current_trick: Seq<PublicPlayed>,
    pub last_trick: Seq<PublicPlayed>,
    pub open_hands: Seq<(Seat, Seq<Card>)>,
    pub talon: Seq<PublicCard>,
}

#[verifier::ext_equal]
pub struct PublicViewModel {
    pub room_name: Seq<char>,
    pub revision: u64,
    pub lifecycle: Lifecycle,
    pub config: Config,
    pub players: Seq<PublicPlayerModel>,
    pub game: Option<PublicGameModel>,
    pub stage: Seq<char>,
    pub visible_deal_cards: nat,
    pub input_blocked: bool,
    pub history: Seq<EventModel>,
}

impl View for PublicPlayer {
    type V = PublicPlayerModel;

    open spec fn view(&self) -> PublicPlayerModel {
        PublicPlayerModel {
            seat: self.seat,
            name: self.name@,
            score: self.score,
            connected: self.connected,
            card_count: self.card_count as nat,
        }
    }
}

pub open spec fn hand_models(v: Seq<(Seat, Vec<Card>)>) -> Seq<(Seat, Seq<Card>)> {
    Seq::new(v.len(), |i: int| (v[i].0, v[i].1@))
}

impl View for PublicGame {
    type V = PublicGameModel;

    open spec fn view(&self) -> PublicGameModel {
        PublicGameModel {
            phase: self.phase@,
            dealer: self.dealer,
            turn: self.turn,
            contractor: self.contractor,
            bid_or_contract: self.bid_or_contract,
            trump: self.trump,
            current_trick: self.current_trick@,
            last_trick: self.last_trick@,
            open_hands: hand_models(self.open_hands@),
            talon: self.talon@,
        }
    }
}

pub open spec fn player_rows(v: Seq<PublicPlayer>) -> Seq<PublicPlayerModel> {
    Seq::new(v.len(), |i: int| v[i]@)
}

pub open spec fn game_model(g: Option<PublicGame>) -> Option<PublicGameModel> {
    match g {
        Some(g) => Some(g@),
        None => None,
    }
}

impl View for PublicView {
    type V = PublicViewModel;

    open spec fn view(&self) -> PublicViewModel {
        PublicViewModel {
            room_name: self.room_name@,
            revision: self.revision,
            lifecycle: self.lifecycle,
            config: self.config,
            players: player_rows(self.players@),
            game: game_model(self.game),
            stage: self.presentation.stage@,
            visible_deal_cards: self.presentation.visible_deal_cards as nat,
            input_blocked: self.presentation.input_blocked,
            history: event_models(self.history@),
        }
    }
}

/// The wire name of a round phase.
pub open spec fn phase_name_spec(ph: RoundPhaseModel) -> Seq<char> {
    match ph {
        RoundPhaseModel::Auction(_) => "auction"@,
        RoundPhaseModel::Talon(_) => "talon"@,
        RoundPhaseModel::Transfer(_) => "transfer"@,
        RoundPhaseModel::Contract(_) => "contract"@,
        RoundPhaseModel::Play(_) => "play"@,
        RoundPhaseModel::ClaimVote(_) => "claim_vote"@,
        RoundPhaseModel::RoundFinished(_) => "round_finished"@,
    }
}

/// Whose move it is while a proof may be pending: the opponent being asked,
/// else the bidder who must reveal, else `otherwise`.
pub open spec fn proof_turn(p: Option<Proof>, otherwise: Seat) -> Option<Seat> {
    match p {
        Some(p) => match proof_responder(p) {
            Some(s) => Some(s),
            None => if p.reveal_required {
                Some(p.bidder)
            } else {
                Some(otherwise)
            },
        },
        None => Some(otherwise),
    }
}

pub open spec fn public_plays_spec(t: Seq<PlayedCard<Seat>>) -> Seq<PublicPlayed> {
    Seq::new(t.len(), |i: int| PublicPlayed { seat: t[i].player, card: t[i].card })
}

/// The talon as the table sees it: cards seen face up so far, backs otherwise.
pub open spec fn talon_view(r: RoundModel) -> Seq<PublicCard> {
    Seq::new(
        r.talon.len(),
        |i: int|
            if r.publicly_revealed.contains(r.talon[i]) {
                PublicCard::Face(r.talon[i])
            } else {
                PublicCard::Back
            },
    )
}

pub open spec fn open_hand_entry(p: PlayModel, hands: Seq<Seq<Card>>, i: int) -> Seq<(Seat, Seq<Card>)> {
    if p.open_hands[i] {
        seq![(Seat(i as u8), hands[i])]
    } else {
        Seq::empty()
    }
}

/// The hands a rejected claim turned face up, in seat order.
pub open spec fn open_hands_spec(p: PlayModel, hands: Seq<Seq<Card>>) -> Seq<(Seat, Seq<Card>)> {
    open_hand_entry(p, hands, 0) + open_hand_entry(p, hands, 1) + open_hand_entry(p, hands, 2)
}

/// The public state of a round: no hand and no seed, only what the table sees.
pub open spec fn project_round_spec(r: RoundModel) -> PublicGameModel {
    let base = PublicGameModel {
        phase: phase_name_spec(r.phase),
        dealer: r.dealer,
        turn: None,
        contractor: None,
        bid_or_contract: None,
        trump: None,
        current_trick: Seq::empty(),
        last_trick: Seq::empty(),
        open_hands: Seq::empty(),
        talon: talon_view(r),
    };
    match r.phase {
        RoundPhaseModel::Auction(a) => PublicGameModel {
            turn: proof_turn(a.proof, a.turn),
            contractor: Some(a.highest_bidder),
            bid_or_contract: Some(a.highest_bid),
            ..base
        },
        RoundPhaseModel::Talon(t) => PublicGameModel {
            turn: Some(t.contractor),
            contractor: Some(t.contractor),
            bid_or_contract: Some(t.auction_bid),
            talon: if t.public {
                Seq::new(r.talon.len(), |i: int| PublicCard::Face(r.talon[i]))
            } else {
                talon_view(r)
            },
            ..base
        },
        RoundPhaseModel::Transfer(t) => PublicGameModel {
            turn: Some(t.contractor),
            contractor: Some(t.contractor),
            bid_or_contract: Some(t.auction_bid),
            ..base
        },
        RoundPhaseModel::Contract(c) => PublicGameModel {
            turn: proof_turn(c.proof, c.contractor),
            contractor: Some(c.contractor),
            bid_or_contract: Some(c.points),
            ..base
        },
        RoundPhaseModel::Play(p) => PublicGameModel {
            turn: Some(p.turn),
            contractor: Some(p.contractor),
            bid_or_contract: Some(p.contract),
            trump: p.trump,
            current_trick: public_plays_spec(p.trick),
            last_trick: public_plays_spec(p.last_trick),
            open_hands: open_hands_spec(p, r.hands),
            ..base
        },
        RoundPhaseModel::ClaimVote(v) => PublicGameModel {
            turn: if v.voter_index < 2 {
                Some(v.voters[v.voter_index as int])
            } else {
                None
            },
            contractor: Some(v.play.contractor),
            bid_or_contract: Some(v.play.contract),
            trump: v.play.trump,
            last_trick: public_plays_spec(v.play.last_trick),
            ..base
        },
        RoundPhaseModel::RoundFinished(res) => PublicGameModel {
            contractor: Some(res.contractor),
            bid_or_contract: Some(res.contract),
            ..base
        },
    }
}

pub open spec fn project_game_spec(m: MatchModel) -> Option<PublicGameModel> {
    match m.phase {
        MatchPhaseModel::Round(r) => Some(project_round_spec(r)),
        _ => None,
    }
}

/// The players as the table sees them: names, scores, presence, card counts.
pub open spec fn public_players_spec(m: MatchModel, connected: Seq<bool>) -> Seq<PublicPlayerModel> {
    Seq::new(
        3,
        |i: int|
            PublicPlayerModel {
                seat: Seat(i as u8),
                name: m.players[i].name,
                score: m.players[i].score,
                connected: connected[i],
                card_count: match m.phase {
                    MatchPhaseModel::Round(r) => r.hands[i].len(),
                    _ => 0,
                },
            },
    )
}

/// Private events (the gifts of a transfer) never reach the public history.
pub open spec fn is_public_event(e: EventModel) -> bool {
    e.kind != EventKind::Transfer
}

pub open spec fn public_history_spec(events: Seq<EventModel>) -> Seq<EventModel> {
    events.filter(|e: EventModel| is_public_event(e))
}

pub open spec fn config_of(game: Option<MatchModel>) -> Config {
    match game {
        Some(m) => m.config,
        None => Config {
            target_score: 1_000,
            lock_score: 900,
            talon_visibility: TalonVisibility::AlwaysPublic,
        },
    }
}

/// What every observer of a room sees.
pub open spec fn project_public_spec(
    room_name: Seq<char>,
    revision: u64,
    lifecycle: Lifecycle,
    game: Option<MatchModel>,
    connected: Seq<bool>,
) -> PublicViewModel {
    PublicViewModel {
        room_name,
        revision,
        lifecycle,
        config: config_of(game),
        players: match game {
            Some(m) => public_players_spec(m, connected),
            None => Seq::empty(),
        },
        game: match game {
            Some(m) => project_game_spec(m),
            None => None,
        },
        stage: "ready"@,
        visible_deal_cards: 24,
        input_blocked: false,
        history: match game {
            Some(m) => public_history_spec(m.events),
            None => Seq::empty(),
        },
    }
}

pub open spec fn match_model(game: Option<&Match>) -> Option<MatchModel> {
    match game {
        Some(g) => Some(g@),
        None => None,
    }
}

fn phase_name(phase: &RoundPhase) -> (s: &'static str)
    ensures
        s@ == phase_name_spec(phase@),
{
    match phase {
        RoundPhase::Auction(_) => "auction",
        RoundPhase::Talon(_) => "talon",
        RoundPhase::Transfer(_) => "transfer",
        RoundPhase::Contract(_) => "contract",
        RoundPhase::Play(_) => "play",
        RoundPhase::ClaimVote(_) => "claim_vote",
        RoundPhase::RoundFinished(_) => "round_finished",
    }
}

fn proof_turn_of(pending: Option<Proof>, otherwise: Seat) -> (t: Option<Seat>)
    ensures
        t == proof_turn(pending, otherwise),
{
    match pending {
        Some(p) => match p.responder() {
            Some(s) => Some(s),
            None => if p.reveal_required {
                Some(p.bidder)
            } else {
                Some(otherwise)
            },
        },
        None => Some(otherwise),
    }
}

fn public_plays(plays: &[PlayedCard<Seat>]) -> (v: Vec<PublicPlayed>)
    ensures
        v@ == public_plays_spec(plays@),
{
    let mut v: Vec<PublicPlayed> = Vec::new();
    let mut i: usize = 0;
    while i < plays.len()
        invariant
            i <= plays@.len(),
            v@ == public_plays_spec(plays@.take(i as int)),
        decreases plays@.len() - i,
    {
        v.push(PublicPlayed { seat: plays[i].player, card: plays[i].card });
        assert(v@ =~= public_plays_spec(plays@.take(i as int + 1)));
        i = i + 1;
    }
    assert(plays@.take(plays@.len() as int) =~= plays@);
    v
}

fn talon_cards(round: &Round) -> (v: Vec<PublicCard>)
    ensures
        v@ == talon_view(round@),
{
    let mut v: Vec<PublicCard> = Vec::new();
    let mut i: usize = 0;
    while i < round.talon.len()
        invariant
            i <= round.talon@.len(),
            v@ == talon_view(round@).take(i as int),
        decreases round.talon@.len() - i,
    {
        let card = round.talon[i];
        if holds_card(round.publicly_revealed.as_slice(), card) {
            v.push(PublicCard::Face(card));
        } else {
            v.push(PublicCard::Back);
        }
        assert(v@ =~= talon_view(round@).take(i as int + 1));
        i = i + 1;
    }
    assert(talon_view(round@).take(round.talon@.len() as int) =~= talon_view(round@));
    v
}

fn face_up(cards: &[Card]) -> (v: Vec<PublicCard>)
    ensures
        v@ == Seq::new(cards@.len(), |i: int| PublicCard::Face(cards@[i])),
{
    let mut v: Vec<PublicCard> = Vec::new();
    let mut i: usize = 0;
    while i < cards.len()
        invariant
            i <= cards@.len(),
            v@ == Seq::new(i as nat, |k: int| PublicCard::Face(cards@[k])),
        decreases cards@.len() - i,
    {
        v.push(PublicCard::Face(cards[i]));
        assert(v@ =~= Seq::new((i + 1) as nat, |k: int| PublicCard::Face(cards@[k])));
        i = i + 1;
    }
    v
}

fn project_play(round: &Round, play: &Play, projected: &mut PublicGame)
    ensures
        final(projected)@ == (PublicGameModel {
            turn: Some(play.turn),
            contractor: Some(play.contractor),
            bid_or_contract: Some(play.contract),
            trump: play.trump,
            current_trick: public_plays_spec(play.trick@),
            last_trick: public_plays_spec(play.last_trick@),
            open_hands: open_hands_spec(play@, round@.hands),
            ..old(projected)@
        }),
{
    projected.turn = Some(play.turn);
    projected.contractor = Some(play.contractor);
    projected.bid_or_contract = Some(play.contract);
    projected.trump = play.trump;
    projected.current_trick = public_plays(play.trick.as_slice());
    projected.last_trick = public_plays(play.last_trick.as_slice());
    let mut open: Vec<(Seat, Vec<Card>)> = Vec::new();
    let ghost p = play@;
    let ghost hands = round@.hands;
    let mut i: usize = 0;
    assert(hand_models(open@) =~= Seq::<(Seat, Seq<Card>)>::empty());
    while i < 3
        invariant
            i <= 3,
            p == play@,
            hands == round@.hands,
            hand_models(open@) == if i == 0 {
                Seq::<(Seat, Seq<Card>)>::empty()
            } else if i == 1 {
                open_hand_entry(p, hands, 0)
            } else if i == 2 {
                open_hand_entry(p, hands, 0) + open_hand_entry(p, hands, 1)
            } else {
                open_hands_spec(p, hands)
            },
        decreases 3 - i,
    {
        let ghost before = hand_models(open@);
        if play.open_hands[i] {
            open.push((Seat(i as u8), clone_cards(round.hands[i].as_slice())));
            assert(hand_models(open@) =~= before + open_hand_entry(p, hands, i as int));
        } else {
            assert(hand_models(open@) =~= before + open_hand_entry(p, hands, i as int));
        }
        i = i + 1;
    }
    projected.open_hands = open;
    assert(final(projected)@ =~~= (PublicGameModel {
        turn: Some(play.turn),
        contractor: Some(play.contractor),
        bid_or_contract: Some(play.contract),
        trump: play.trump,
        current_trick: public_plays_spec(play.trick@),
        last_trick: public_plays_spec(play.last_trick@),
        open_hands: open_hands_spec(play@, round@.hands),
        ..old(projected)@
    }));
}

fn project_claim_vote(vote: &ClaimVote, projected: &mut PublicGame)
    ensures
        final(projected)@ == (PublicGameModel {
            turn: if vote.voter_index < 2 {
                Some(vote.voters[vote.voter_index as int])
            } else {
                None
            },
            contractor: Some(vote.play.contractor),
            bid_or_contract: Some(vote.play.contract),
            trump: vote.play.trump,
            last_trick: public_plays_spec(vote.play.last_trick@),
            ..old(projected)@
        }),
{
    projected.turn = if vote.voter_index < 2 {
        Some(vote.voters[vote.voter_index])
    } else {
        None
    };
    projected.contractor = Some(vote.play.contractor);
    projected.bid_or_contract = Some(vote.play.contract);
    projected.trump = vote.play.trump;
    projected.last_trick = public_plays(vote.play.last_trick.as_slice());
}

fn project_round(round: &Round) -> (g: PublicGame)
    ensures
        g@ == project_round_spec(round@),
{
    let mut projected = PublicGame {
        phase: String::from_str(phase_name(&round.phase)),
        dealer: round.dealer,
        turn: None,
        contractor: None,
        bid_or_contract: None,
        trump: None,
        current_trick: Vec::new(),
        last_trick: Vec::new(),
        open_hands: Vec::new(),
        talon: talon_cards(round),
    };
    assert(hand_models(projected.open_hands@) =~= Seq::<(Seat, Seq<Card>)>::empty());
    match &round.phase {
        RoundPhase::Auction(auction) => {
            projected.turn = proof_turn_of(auction.proof, auction.turn);
            projected.contractor = Some(auction.highest_bidder);
            projected.bid_or_contract = Some(auction.highest_bid);
        },
        RoundPhase::Talon(talon) => {
            projected.turn = Some(talon.contractor);
            projected.contractor = Some(talon.contractor);
            projected.bid_or_contract = Some(talon.auction_bid);
            if talon.public {
                projected.talon = face_up(round.talon.as_slice());
            }
        },
        RoundPhase::Transfer(transfer) => {
            projected.turn = Some(transfer.contractor);
            projected.contractor = Some(transfer.contractor);
            projected.bid_or_contract = Some(transfer.auction_bid);
        },
        RoundPhase::Contract(contract) => {
            projected.turn = proof_turn_of(contract.proof, contract.contractor);
            projected.contractor = Some(contract.contractor);
            projected.bid_or_contract = Some(contract.points);
        },
        RoundPhase::Play(play) => {
            project_play(round, play, &mut projected);
        },
        RoundPhase::ClaimVote(vote) => {
            project_claim_vote(vote, &mut projected);
        },
        RoundPhase::RoundFinished(result) => {
            projected.contractor = Some(result.contractor);
            projected.bid_or_contract = Some(result.contract);
        },
    }
    assert(projected@ =~~= project_round_spec(round@));
    projected
}

/// The public state of the match's current round, if one is dealt.
fn project_game(game: &Match) -> (g: Option<PublicGame>)
    ensures
        game_model(g) == project_game_spec(game@),
{
    match &game.phase {
        MatchPhase::Round(round) => Some(project_round(round)),
        _ => None,
    }
}

fn public_players(game: &Match, connected: &[bool; 3]) -> (v: Vec<PublicPlayer>)
    ensures
        player_rows(v@) == public_players_spec(game@, connected@),
        v@.len() == 3,
        forall|i: int|
            0 <= i < 3 ==> (#[trigger] v@[i]).score == game.players@[i].score && v@[i].seat == Seat(
                i as u8,
            ) && v@[i].name@ == game.players@[i].name@ && v@[i].connected == connected@[i],
{
    let mut v: Vec<PublicPlayer> = Vec::new();
    let mut i: usize = 0;
    while i < 3
        invariant
            i <= 3,
            player_rows(v@) == public_players_spec(game@, connected@).take(i as int),
        decreases 3 - i,
    {
        let card_count = match &game.phase {
            MatchPhase::Round(round) => round.hands[i].len(),
            _ => 0,
        };
        let row = PublicPlayer {
            seat: Seat(i as u8),
            name: game.players[i].name.clone(),
            score: game.players[i].score,
            connected: connected[i],
            card_count,
        };
        let ghost before = player_rows(v@);
        v.push(row);
        assert(player_rows(v@) =~= before.push(row@));
        assert(row@ =~~= public_players_spec(game@, connected@)[i as int]);
        assert(player_rows(v@) =~= public_players_spec(game@, connected@).take(i as int + 1));
        i = i + 1;
    }
    assert(public_players_spec(game@, connected@).take(3) =~= public_players_spec(game@, connected@));
    assert forall|i: int| 0 <= i < 3 implies (#[trigger] v@[i]).score == game.players@[i].score
        && v@[i].seat == Seat(i as u8) && v@[i].name@ == game.players@[i].name@ && v@[i].connected
        == connected@[i] by {
        assert(player_rows(v@)[i] == v@[i]@);
        assert(game@.players[i] == game.players@[i]@);
    }
    v
}

fn public_history(events: &Vec<GameEvent>) -> (v: Vec<GameEvent>)
    ensures
        event_models(v@) == public_history_spec(event_models(events@)),
{
    let ghost all = event_models(events@);
    let ghost keep = |e: EventModel| is_public_event(e);
    let mut v: Vec<GameEvent> = Vec::new();
    let mut i: usize = 0;
    assert(all.take(0).filter(keep) =~= Seq::<EventModel>::empty());
    assert(event_models(v@) =~= Seq::<EventModel>::empty());
    while i < events.len()
        invariant
            i <= events@.len(),
            all == event_models(events@),
            keep == (|e: EventModel| is_public_event(e)),
            event_models(v@) == all.take(i as int).filter(keep),
        decreases events@.len() - i,
    {
        proof {
            crate::tysiac::rules::lemma_filter_step(all, i as int, keep);
        }
        if events[i].kind != EventKind::Transfer {
            let e = GameEvent { kind: events[i].kind, message: events[i].message.clone() };
            let ghost before = event_models(v@);
            v.push(e);
            assert(event_models(v@) =~= before.push(all[i as int]));
        }
        i = i + 1;
    }
    assert(all.take(events@.len() as int) =~= all);
    v
}

/// What every observer of a room sees: names, scores, card counts, the public
/// state of the round and the public history, but no hand and no seed.
pub fn project_public(
    room_name: String,
    revision: u64,
    lifecycle: Lifecycle,
    game: Option<&Match>,
    connected: &[bool; 3],
) -> (v: PublicView)
    ensures
        v@ == project_public_spec(room_name@, revision, lifecycle, match_model(game), connected@),
        game is None ==> v.players@.len() == 0,
        game matches Some(g) ==> v.players@.len() == 3 && forall|i: int|
            0 <= i < 3 ==> (#[trigger] v.players@[i]).score == g.players@[i].score
                && v.players@[i].seat == Seat(i as u8) && v.players@[i].name@ == g.players@[i].name@
                && v.players@[i].connected == connected@[i],
{
    let config = match game {
        Some(g) => g.config,
        None => Config::default(),
    };
    let players = match game {
        Some(g) => public_players(g, connected),
        None => Vec::new(),
    };
    let projected = match game {
        Some(g) => project_game(g),
        None => None,
    };
    let history = match game {
        Some(g) => public_history(&g.events),
        None => Vec::new(),
    };
    let v = PublicView {
        room_name,
        revision,
        lifecycle,
        config,
        players,
        game: projected,
        presentation: PresentationView::default(),
        history,
    };
    proof {
        assert(player_rows(v.players@) =~= match match_model(game) {
            Some(m) => public_players_spec(m, connected@),
            None => Seq::empty(),
        });
        assert(event_models(v.history@) =~= match match_model(game) {
            Some(m) => public_history_spec(m.events),
            None => Seq::empty(),
        });
    }
    assert(v@ =~~= project_public_spec(room_name@, revision, lifecycle, match_model(game), connected@));
    v
}

#[verifier::ext_equal]
pub struct RoundAuditModel {
    pub match_index: u64,
    pub round_index: u64,
    pub derived_seed: u64,
    pub deal_order: Seq<Card>,
    pub four_nines_reshuffles: u64,
}

impl View for RoundAudit {
    type V = RoundAuditModel;

    open spec fn view(&self) -> RoundAuditModel {
        RoundAuditModel {
            match_index: self.match_index,
            round_index: self.round_index,
            derived_seed: self.derived_seed,
            deal_order: self.deal_order@,
            four_nines_reshuffles: self.four_nines_reshuffles,
        }
    }
}

#[verifier::ext_equal]
pub enum RoleViewModel {
    Observer(PublicViewModel),
    Player {
        seat: Seat,
        own_hand: Seq<Card>,
        public: PublicViewModel,
        legal_actions: Seq<ActionModel>,
    },
    Referee {
        state: MatchModel,
        public: PublicViewModel,
        base_seed: u64,
        round_audits: Seq<RoundAuditModel>,
    },
}

impl View for RoleView {
    type V = RoleViewModel;

    open spec fn view(&self) -> RoleViewModel {
        match self {
            RoleView::Observer(p) => RoleViewModel::Observer(p@),
            RoleView::Player { seat, own_hand, public, legal_actions } => RoleViewModel::Player {
                seat: *seat,
                own_hand: own_hand@,
                public: public@,
                legal_actions: action_models(legal_actions@),
            },
            RoleView::Referee { state, public, base_seed, round_audits } => RoleViewModel::Referee {
                state: state@,
                public: public@,
                base_seed: *base_seed,
                round_audits: Seq::new(round_audits@.len(), |i: int| round_audits@[i]@),
            },
        }
    }
}

#[verifier::ext_equal]
pub enum ServerMessageModel {
    Snapshot(RoleViewModel),
    Updated { revision: u64, events: Seq<EventModel>, view: RoleViewModel },
    Error { code: Seq<char>, message: Seq<char>, current_revision: Option<u64> },
    Pong,
}

impl View for ServerMessage {
    type V = ServerMessageModel;

    open spec fn view(&self) -> ServerMessageModel {
        match self {
            ServerMessage::Snapshot(v) => ServerMessageModel::Snapshot(v@),
            ServerMessage::Updated { revision, events, view } => ServerMessageModel::Updated {
                revision: *revision,
                events: event_models(events@),
                view: view@,
            },
            ServerMessage::Error(e) => ServerMessageModel::Error {
                code: e.code@,
                message: e.message@,
                current_revision: e.current_revision,
            },
            ServerMessage::Pong => ServerMessageModel::Pong,
        }
    }
}

/// The hand a seat holds in the current round, if one is dealt.
pub open spec fn own_hand_spec(game: Option<MatchModel>, seat: Seat) -> Seq<Card> {
    match game {
        Some(m) => match m.phase {
            MatchPhaseModel::Round(r) => r.hands[seat.0 as int],
            _ => Seq::empty(),
        },
        None => Seq::empty(),
    }
}

/// What one player sees: the public view, their own hand and nothing of any
/// other hand, and the actions the engine would accept from them while the
/// match runs.
pub open spec fn project_player_spec(
    room_name: Seq<char>,
    revision: u64,
    lifecycle: Lifecycle,
    game: Option<MatchModel>,
    connected: Seq<bool>,
    seat: Seat,
) -> RoleViewModel {
    RoleViewModel::Player {
        seat,
        own_hand: own_hand_spec(game, seat),
        public: project_public_spec(room_name, revision, lifecycle, game, connected),
        legal_actions: if lifecycle == Lifecycle::Running {
            match game {
                Some(m) => legal_actions_spec(m, seat),
                None => Seq::empty(),
            }
        } else {
            Seq::empty()
        },
    }
}

/// Every view of a running match shows each seat, in table order, with its
/// name, its current match score and its presence; a player's view holds the
/// same rows as an observer's.
pub proof fn lemma_views_show_the_scores(
    room_name: Seq<char>,
    revision: u64,
    lifecycle: Lifecycle,
    m: MatchModel,
    connected: Seq<bool>,
    seat: Seat,
)
    requires
        m.players.len() == 3,
        connected.len() == 3,
    ensures
        ({
            let v = project_public_spec(room_name, revision, lifecycle, Some(m), connected);
            &&& v.players.len() == 3
            &&& forall|i: int|
                0 <= i < 3 ==> (#[trigger] v.players[i]).score == m.players[i].score
                    && v.players[i].seat == Seat(i as u8) && v.players[i].name == m.players[i].name
                    && v.players[i].connected == connected[i]
            &&& project_player_spec(room_name, revision, lifecycle, Some(m), connected, seat)->Player_public
                == v
        }),
{
}

/// What one player sees of a room.
pub fn project_player(
    room_name: String,
    revision: u64,
    lifecycle: Lifecycle,
    game: Option<&Match>,
    connected: &[bool; 3],
    seat: Seat,
) -> (v: RoleView)
    requires
        seat.is_valid(),
        game matches Some(g) ==> match_wf(g@),
    ensures
        v@ == project_player_spec(room_name@, revision, lifecycle, match_model(game), connected@, seat),
{
    let ghost name = room_name@;
    let public = project_public(room_name, revision, lifecycle, game, connected);
    let own_hand = match game {
        Some(g) => match &g.phase {
            MatchPhase::Round(round) => clone_cards(round.hands[seat.index()].as_slice()),
            _ => Vec::new(),
        },
        None => Vec::new(),
    };
    let legal = if lifecycle == Lifecycle::Running {
        match game {
            Some(g) => legal_actions(g, seat),
            None => Vec::new(),
        }
    } else {
        Vec::new()
    };
    let v = RoleView::Player { seat, own_hand, public, legal_actions: legal };
    assert(v@ =~~= project_player_spec(name, revision, lifecycle, match_model(game), connected@, seat));
    v
}

/// A face-up card in the public talon is one the table has already seen:
/// either it was shown before, or the talon of a public auction win is on
/// display.
pub proof fn lemma_public_talon_shows_only_seen_cards(r: RoundModel, i: int)
    requires
        0 <= i < project_round_spec(r).talon.len(),
        project_round_spec(r).talon[i] is Face,
    ensures
        r.publicly_revealed.contains(r.talon[i]) || (r.phase matches RoundPhaseModel::Talon(t)
            && t.public),
        project_round_spec(r).talon[i] == PublicCard::Face(r.talon[i]),
{
}

/// The public history never holds a private event, and it keeps every public
/// event in order.
pub proof fn lemma_history_is_public(events: Seq<EventModel>)
    ensures
        forall|i: int|
            0 <= i < public_history_spec(events).len() ==> is_public_event(
                #[trigger] public_history_spec(events)[i],
            ),
        forall|i: int|
            0 <= i < events.len() && is_public_event(events[i]) ==> #[trigger] public_history_spec(
                events,
            ).contains(events[i]),
{
    broadcast use vstd::seq_lib::group_filter_ensures;
    assert forall|i: int|
        0 <= i < public_history_spec(events).len() implies is_public_event(
        #[trigger] public_history_spec(events)[i],
    ) by {
        events.lemma_filter_pred(|e: EventModel| is_public_event(e), i);
    }
    assert forall|i: int|
        0 <= i < events.len() && is_public_event(events[i]) implies #[trigger] public_history_spec(
        events,
    ).contains(events[i]) by {
        events.lemma_filter_contains(|e: EventModel| is_public_event(e), i);
    }
}

/// Whether a seat's hand lies face up on the table: during trick play, after
/// the seat's claim was rejected.
pub open spec fn hand_open(r: RoundModel, seat: Seat) -> bool {
    r.phase matches RoundPhaseModel::Play(p) && p.open_hands[seat.0 as int]
}

/// The public view shows a hand only when it lies face up, and then exactly
/// that seat's hand.
pub proof fn lemma_public_view_shows_only_open_hands(r: RoundModel, k: int)
    requires
        0 <= k < project_round_spec(r).open_hands.len(),
    ensures
        project_round_spec(r).open_hands[k].0.0 < 3,
        hand_open(r, project_round_spec(r).open_hands[k].0),
        project_round_spec(r).open_hands[k].1 == r.hands[project_round_spec(r).open_hands[k].0.0 as int],
{
    match r.phase {
        RoundPhaseModel::Play(p) => {
            let a = open_hand_entry(p, r.hands, 0);
            let b = open_hand_entry(p, r.hands, 1);
            let c = open_hand_entry(p, r.hands, 2);
            let all = a + b + c;
            assert(all == open_hands_spec(p, r.hands));
            if k < a.len() {
                assert(all[k] == a[k]);
            } else if k < a.len() + b.len() {
                assert(all[k] == b[k - a.len()]);
            } else {
                assert(all[k] == c[k - a.len() - b.len()]);
            }
        },
        _ => {},
    }
}

} // verus!
