//! What a room decides: who is let in, which commands run, what each audience
//! sees, and how a match is started and moved from round to round.
use vstd::prelude::*;

use vstd::utf8::encode_utf8;

use crate::protocol::{
    project_player, project_player_spec, project_public, project_public_spec, Lifecycle,
    PublicPlayer, PublicPlayerModel, PublicView, PublicViewModel, RoleView, RoleViewModel,
    RoundAudit, RoundAuditModel,
};
use crate::server::audit::{published_audit_text, published_round_audit_message};
use crate::server::presentation::{
    deal_presentation, deal_presentation_spec, presentation_view, presentation_view_spec,
};
use crate::server::{connected, failure, rule_failure, ApiFailure, Room, SeatIdentity};
use crate::text::same_text;
use crate::tysiac::model::{
    event_models, match_wf, EventModel, MatchModel, MatchPhaseModel, PlayerModel,
};
use crate::tysiac::spec::{
    acknowledged, deal_order, deal_spec, first_clean_attempt, gives_all_nines, reshuffle_reported,
    round_is_finished, round_seed,
};
use crate::tysiac::rules::clone_cards;
use crate::tysiac::{
    rule_error_text, Config, EventKind, GameEvent, Match, MatchPhase, RoundPhase, RuleError, Seat,
};

verus! {

broadcast use vstd::std_specs::vecdeque::group_vec_dequeue_axioms;

/// The recent command ids, as text.
pub open spec fn command_texts(c: Seq<String>) -> Seq<Seq<char>> {
    Seq::new(c.len(), |i: int| c[i]@)
}

/// Whether a command id was among the room's recent commands.
pub open spec fn remembered(room: &Room, id: Seq<char>) -> bool {
    command_texts(room.recent_commands@).contains(id)
}

/// A room the server can work on: its match, if any, is in a state the
/// engine accepts.
pub open spec fn room_wf(room: &Room) -> bool {
    room.game matches Some(g) ==> match_wf(g@)
}

/// The room's match, as a view.
pub open spec fn room_match(game: Option<Match>) -> Option<MatchModel> {
    match game {
        Some(g) => Some(g@),
        None => None,
    }
}

/// The seat whose token is `token`, if it is seated in the room.
pub open spec fn seat_token_matches(room: &Room, seat: Seat, token: Seq<char>) -> bool {
    seat.0 < room.seats@.len() && room.seats@[seat.0 as int].token@ == token
}

/// Checks a seat's credential: a seat that exists and holds that token.
pub open spec fn authentication_failure(room: &Room, seat: Seat, token: Seq<char>) -> Option<
    (u16, Seq<char>, Seq<char>, Option<u64>),
> {
    if !seat.is_valid() {
        Some(failure(400, "invalid_seat"@, "seat must be 0, 1, or 2"@, None))
    } else if seat_token_matches(room, seat, token) {
        None
    } else {
        Some(failure(401, "unauthorized"@, "invalid seat token"@, None))
    }
}

pub fn authenticate_seat(room: &Room, seat: Seat, token: &str) -> (r: Result<(), ApiFailure>)
    ensures
        match authentication_failure(room, seat, token@) {
            None => r is Ok,
            Some(f) => r matches Err(e) && e.parts() == f,
        },
{
    if !seat.valid() {
        return Err(ApiFailure::bad_request("invalid_seat", String::from_str("seat must be 0, 1, or 2")));
    }
    if seat.index() < room.seats.len() && same_text(room.seats[seat.index()].token.as_str(), token) {
        Ok(())
    } else {
        Err(ApiFailure::unauthorized(String::from_str("invalid seat token")))
    }
}

/// Whether the room remembers command `id`.
pub fn remembers(room: &Room, id: &str) -> (b: bool)
    ensures
        b == remembered(room, id@),
{
    let n = room.recent_commands.len();
    let mut i: usize = 0;
    while i < n
        invariant
            n == room.recent_commands@.len(),
            i <= n,
            forall|k: int| 0 <= k < i ==> room.recent_commands@[k]@ != id@,
        decreases n - i,
    {
        if same_text(room.recent_commands[i].as_str(), id) {
            assert(command_texts(room.recent_commands@)[i as int] == id@);
            return true;
        }
        i = i + 1;
    }
    assert forall|k: int| 0 <= k < command_texts(room.recent_commands@).len() implies #[trigger] command_texts(
        room.recent_commands@,
    )[k] != id@ by {
        assert(room.recent_commands@[k]@ != id@);
    }
    false
}

/// The length of a text in UTF-8 bytes, as `str::len` reports it.
pub open spec fn byte_count(s: Seq<char>) -> nat {
    (encode_utf8(s).len() as usize) as nat
}

/// Why a command may not run: an id of 1 to 128 bytes is required, and a new
/// command must name the room's current revision. A remembered command is a
/// retry and needs no revision.
pub open spec fn command_failure(room: &Room, id: Seq<char>, expected_revision: u64) -> Option<
    (u16, Seq<char>, Seq<char>, Option<u64>),
> {
    if byte_count(id) == 0 || byte_count(id) > 128 {
        Some(failure(400, "invalid_command_id"@, "command id must contain 1 to 128 characters"@, None))
    } else if !remembered(room, id) && expected_revision != room.revision {
        Some(
            failure(
                409,
                "revision_conflict"@,
                "state changed; refresh and try again"@,
                Some(room.revision),
            ),
        )
    } else {
        None
    }
}

pub fn check_command(room: &Room, id: &str, expected_revision: u64) -> (r: Result<(), ApiFailure>)
    ensures
        match command_failure(room, id@, expected_revision) {
            None => r is Ok,
            Some(f) => r matches Err(e) && e.parts() == f,
        },
{
    let bytes = id.len();
    if bytes == 0 || bytes > 128 {
        return Err(
            ApiFailure::bad_request(
                "invalid_command_id",
                String::from_str("command id must contain 1 to 128 characters"),
            ),
        );
    }
    if !remembers(room, id) && expected_revision != room.revision {
        return Err(
            ApiFailure::conflict(
                "revision_conflict",
                String::from_str("state changed; refresh and try again"),
                Some(room.revision),
            ),
        );
    }
    Ok(())
}

/// The newest `n` items of `s`.
pub open spec fn newest<A>(s: Seq<A>, n: nat) -> Seq<A> {
    if s.len() > n {
        s.skip(s.len() - n)
    } else {
        s
    }
}

/// Records a command id; the room remembers the 256 most recent ones.
pub fn remember_command(room: &mut Room, id: String)
    ensures
        final(room).recent_commands@ == newest(old(room).recent_commands@.push(id), 256),
        *final(room) == (Room { recent_commands: final(room).recent_commands, ..*old(room) }),
{
    let ghost all = old(room).recent_commands@.push(id);
    room.recent_commands.push_back(id);
    while room.recent_commands.len() > 256
        invariant
            all.len() >= room.recent_commands@.len(),
            room.recent_commands@.len() >= 256 || room.recent_commands@.len() == all.len(),
            room.recent_commands@ == all.skip(all.len() - room.recent_commands@.len()),
            *room == (Room { recent_commands: room.recent_commands, ..*old(room) }),
        decreases room.recent_commands@.len(),
    {
        let ghost before = room.recent_commands@;
        let _ = room.recent_commands.pop_front();
        assert(room.recent_commands@ =~= all.skip(all.len() - room.recent_commands@.len()));
    }
    assert(all.skip(0) =~= all);
}

/// Seats of a room whose match has not started, paired with the three seat
/// numbers: names only, no score, no cards.
pub open spec fn lobby_players(seats: Seq<SeatIdentity>, connections: [usize; 3]) -> Seq<PublicPlayerModel> {
    Seq::new(
        if seats.len() < 3 {
            seats.len()
        } else {
            3
        },
        |i: int|
            PublicPlayerModel {
                seat: Seat(i as u8),
                name: seats[i].name@,
                score: 0,
                connected: connections[i] > 0,
                card_count: 0,
            },
    )
}

/// What every observer of a room sees at `now`.
pub open spec fn public_view_spec(room: &Room, now: u64) -> PublicViewModel {
    let base = project_public_spec(
        room.name@,
        room.revision,
        room.lifecycle,
        room_match(room.game),
        seq![room.connections[0] > 0, room.connections[1] > 0, room.connections[2] > 0],
    );
    let (stage, visible, blocked) = presentation_view_spec(room.presentation, now);
    PublicViewModel {
        players: if room.game is None {
            lobby_players(room.seats@, room.connections)
        } else {
            base.players
        },
        stage,
        visible_deal_cards: visible,
        input_blocked: blocked,
        ..base
    }
}

fn lobby_rows(room: &Room) -> (v: Vec<PublicPlayer>)
    ensures
        crate::protocol::player_rows(v@) == lobby_players(room.seats@, room.connections),
{
    let mut v: Vec<PublicPlayer> = Vec::new();
    let n = if room.seats.len() < 3 {
        room.seats.len()
    } else {
        3
    };
    let mut i: usize = 0;
    while i < n
        invariant
            n <= 3,
            n == lobby_players(room.seats@, room.connections).len(),
            n <= room.seats@.len(),
            i <= n,
            v@.len() == i,
            crate::protocol::player_rows(v@) == lobby_players(room.seats@, room.connections).take(i as int),
        decreases n - i,
    {
        let row = PublicPlayer {
            seat: Seat(i as u8),
            name: room.seats[i].name.clone(),
            score: 0,
            connected: room.connections[i] > 0,
            card_count: 0,
        };
        let ghost before = v@;
        let ghost expected = lobby_players(room.seats@, room.connections);
        assert(row@ == expected[i as int]);
        v.push(row);
        assert forall|k: int| 0 <= k < i + 1 implies #[trigger] crate::protocol::player_rows(v@)[k]
            == expected.take(i as int + 1)[k] by {
            if k < i {
                assert(crate::protocol::player_rows(before)[k] == expected.take(i as int)[k]);
                assert(v@[k] == before[k]);
            }
        }
        assert(crate::protocol::player_rows(v@) =~= expected.take(i as int + 1));
        i = i + 1;
    }
    assert(lobby_players(room.seats@, room.connections).take(n as int) =~= lobby_players(
        room.seats@,
        room.connections,
    ));
    v
}

pub fn public_view(room: &Room, now: u64) -> (v: PublicView)
    ensures
        v@ == public_view_spec(room, now),
{
    let flags = connected(&room.connections);
    let mut view = project_public(
        room.name.clone(),
        room.revision,
        room.lifecycle,
        room.game.as_ref(),
        &flags,
    );
    if room.game.is_none() {
        view.players = lobby_rows(room);
    }
    view.presentation = presentation_view(&room.presentation, now);
    proof {
        assert(flags@ =~= seq![room.connections[0] > 0, room.connections[1] > 0, room.connections[2] > 0]);
    }
    assert(view@ =~~= public_view_spec(room, now));
    view
}

/// What one player sees at `now`: the public view of the room with their own
/// hand and the actions open to them.
pub open spec fn player_view_spec(room: &Room, seat: Seat, now: u64) -> RoleViewModel {
    match project_player_spec(
        room.name@,
        room.revision,
        room.lifecycle,
        room_match(room.game),
        seq![room.connections[0] > 0, room.connections[1] > 0, room.connections[2] > 0],
        seat,
    ) {
        RoleViewModel::Player { seat, own_hand, legal_actions, .. } => RoleViewModel::Player {
            seat,
            own_hand,
            public: public_view_spec(room, now),
            legal_actions,
        },
        other => other,
    }
}

pub fn player_view(room: &Room, seat: Seat, now: u64) -> (v: RoleView)
    requires
        room_wf(room),
        seat.is_valid(),
    ensures
        v@ == player_view_spec(room, seat, now),
{
    let flags = connected(&room.connections);
    proof {
        assert(flags@ =~= seq![room.connections[0] > 0, room.connections[1] > 0, room.connections[2] > 0]);
    }
    let projected = project_player(
        room.name.clone(),
        room.revision,
        room.lifecycle,
        room.game.as_ref(),
        &flags,
        seat,
    );
    match projected {
        RoleView::Player { seat, own_hand, legal_actions, .. } => {
            let public = public_view(room, now);
            RoleView::Player { seat, own_hand, public, legal_actions }
        },
        other => other,
    }
}

fn copy_audits(audits: &Vec<RoundAudit>) -> (v: Vec<RoundAudit>)
    ensures
        v@.len() == audits@.len(),
        forall|i: int| 0 <= i < v@.len() ==> (#[trigger] v@[i])@ == audits@[i]@,
{
    let mut v: Vec<RoundAudit> = Vec::new();
    let mut i: usize = 0;
    while i < audits.len()
        invariant
            i <= audits@.len(),
            v@.len() == i,
            forall|k: int| 0 <= k < i ==> (#[trigger] v@[k])@ == audits@[k]@,
        decreases audits@.len() - i,
    {
        let a = &audits[i];
        v.push(
            RoundAudit {
                match_index: a.match_index,
                round_index: a.round_index,
                derived_seed: a.derived_seed,
                deal_order: clone_cards(a.deal_order.as_slice()),
                four_nines_reshuffles: a.four_nines_reshuffles,
            },
        );
        i = i + 1;
    }
    v
}

/// The audits of a room, as views.
pub open spec fn audit_models(a: Seq<RoundAudit>) -> Seq<RoundAuditModel> {
    Seq::new(a.len(), |i: int| a[i]@)
}

/// The match a referee sees before one exists: placeholder names, the room's
/// configuration, and the first seat dealing.
pub open spec fn placeholder_match(config: Config) -> MatchModel {
    MatchModel {
        config,
        players: seq![
            crate::tysiac::model::PlayerModel { name: "Seat 1"@, score: 0, free_surrender_used: false },
            crate::tysiac::model::PlayerModel { name: "Seat 2"@, score: 0, free_surrender_used: false },
            crate::tysiac::model::PlayerModel { name: "Seat 3"@, score: 0, free_surrender_used: false }
        ],
        dealer: Seat(0),
        match_index: 0,
        round_index: 0,
        phase: crate::tysiac::model::MatchPhaseModel::WaitingForDeal,
        events: Seq::empty(),
    }
}

/// What the referee sees: the whole match with every hand, the public view,
/// the room's base seed and the audit of every deal.
pub open spec fn referee_view_spec(room: &Room, now: u64) -> RoleViewModel {
    RoleViewModel::Referee {
        state: match room.game {
            Some(g) => g@,
            None => placeholder_match(room.config),
        },
        public: public_view_spec(room, now),
        base_seed: room.base_seed,
        round_audits: audit_models(room.round_audits@),
    }
}

pub fn make_referee_view(room: &Room, now: u64) -> (v: RoleView)
    ensures
        v@ == referee_view_spec(room, now),
{
    let public = public_view(room, now);
    let state = match &room.game {
        Some(g) => g.snapshot(),
        None => Match::new(
            [String::from_str("Seat 1"), String::from_str("Seat 2"), String::from_str("Seat 3")],
            room.config,
            Seat(0),
        ),
    };
    let round_audits = copy_audits(&room.round_audits);
    let v = RoleView::Referee { state, public, base_seed: room.base_seed, round_audits };
    assert(v@ =~~= referee_view_spec(room, now));
    v
}

/// The seed of a room's first deal in its current match.
pub open spec fn start_seed(room: &Room) -> u64 {
    round_seed(room.base_seed, room.match_index, 0)
}

/// The match a room starts: the seated players with no points, the room's
/// configuration and match counter, and the dealer that `seed` picks.
pub open spec fn fresh_match(room: &Room, seed: u64) -> MatchModel {
    MatchModel {
        config: room.config,
        players: seq![
            PlayerModel { name: room.seats@[0].name@, score: 0, free_surrender_used: false },
            PlayerModel { name: room.seats@[1].name@, score: 0, free_surrender_used: false },
            PlayerModel { name: room.seats@[2].name@, score: 0, free_surrender_used: false }
        ],
        dealer: Seat((seed % 3) as u8),
        match_index: room.match_index,
        round_index: 0,
        phase: MatchPhaseModel::WaitingForDeal,
        events: Seq::empty(),
    }
}

/// An audit of the accepted deal of one round: its counters, its seed, the
/// number of rejected shuffles and the accepted order.
pub open spec fn dealt_audit(a: RoundAudit, match_index: u64, round_index: u64, seed: u64) -> bool {
    &&& a.match_index == match_index
    &&& a.round_index == round_index
    &&& a.derived_seed == seed
    &&& first_clean_attempt(seed, a.four_nines_reshuffles)
    &&& a.deal_order@ == deal_order(seed, a.four_nines_reshuffles)
}

/// Why a room cannot start its match: three seats are needed, and some
/// shuffle of the seed must give no player all four nines.
pub open spec fn start_failure(room: &Room) -> Option<(u16, Seq<char>, Seq<char>, Option<u64>)> {
    if room.seats@.len() != 3 {
        Some(failure(409, "seats_missing"@, "three players are required"@, Some(room.revision)))
    } else if forall|a: u64| #[trigger] gives_all_nines(deal_order(start_seed(room), a)) {
        Some(failure(409, "rule_violation"@, rule_error_text(RuleError::CannotDeal), None))
    } else {
        None
    }
}

/// A room whose match has just been dealt: one audit, the dealt match, the
/// deal animation from `now`, and the lifecycle running; nothing else changed.
pub open spec fn started_room(before: &Room, after: &Room, now: u64) -> bool {
    let seed = start_seed(before);
    &&& after.round_audits@.len() == 1
    &&& dealt_audit(after.round_audits@[0], before.match_index, 0, seed)
    &&& after.game matches Some(g) && g@ == deal_spec(
        reshuffle_reported(fresh_match(before, seed), after.round_audits@[0].four_nines_reshuffles),
        seed,
        after.round_audits@[0].deal_order@,
    )
    &&& after.presentation == deal_presentation_spec(now, after.round_audits@[0].four_nines_reshuffles)
    &&& *after == (Room {
        game: after.game,
        round_audits: after.round_audits,
        presentation: after.presentation,
        lifecycle: Lifecycle::Running,
        ..*before
    })
}

/// Starts the room's match and deals its first round.
pub fn start_match(room: &mut Room, now: u64) -> (r: Result<(), ApiFailure>)
    requires
        room_wf(old(room)),
    ensures
        match start_failure(old(room)) {
            Some(f) => r matches Err(e) && e.parts() == f && *final(room) == *old(room),
            None => r is Ok && started_room(old(room), final(room), now),
        },
        room_wf(final(room)),
{
    if room.seats.len() != 3 {
        return Err(
            ApiFailure::conflict(
                "seats_missing",
                String::from_str("three players are required"),
                Some(room.revision),
            ),
        );
    }
    let seed = Match::derive_round_seed(room.base_seed, room.match_index, 0);
    let dealer = Seat((seed % 3) as u8);
    let names = [room.seats[0].name.clone(), room.seats[1].name.clone(), room.seats[2].name.clone()];
    let mut game = Match::new(names, room.config, dealer);
    game.match_index = room.match_index;
    assert(game@ =~~= fresh_match(old(room), seed));
    let deal = match game.deal_seeded_with_report(seed) {
        Ok(d) => d,
        Err(e) => {
            return Err(rule_failure(&e));
        },
    };
    let audit = RoundAudit {
        match_index: room.match_index,
        round_index: 0,
        derived_seed: seed,
        deal_order: deal.order,
        four_nines_reshuffles: deal.four_nines_reshuffles,
    };
    room.round_audits.clear();
    room.presentation = deal_presentation(now, audit.four_nines_reshuffles);
    room.round_audits.push(audit);
    room.game = Some(game);
    room.lifecycle = Lifecycle::Running;
    Ok(())
}

/// Whether the match shows a finished round.
pub fn round_finished(game: &Match) -> (b: bool)
    ensures
        b == round_is_finished(game@),
{
    match &game.phase {
        MatchPhase::Round(round) => match &round.phase {
            RoundPhase::RoundFinished(_) => true,
            _ => false,
        },
        _ => false,
    }
}

/// The published audit of every deal, as table events.
pub open spec fn published_audits(audits: Seq<RoundAudit>) -> Seq<EventModel> {
    Seq::new(
        audits.len(),
        |i: int| EventModel { kind: EventKind::Deal, message: published_audit_text(audits[i]) },
    )
}

/// Appends the audit of every deal of the match to its history.
pub fn publish_round_audits(room: &mut Room)
    requires
        room_wf(old(room)),
    ensures
        match old(room).game {
            Some(g) => final(room).game matches Some(h) && h@ == (MatchModel {
                events: g@.events + published_audits(old(room).round_audits@),
                ..g@
            }),
            None => final(room).game is None,
        },
        *final(room) == (Room { game: final(room).game, ..*old(room) }),
        room_wf(final(room)),
{
    let mut game = match room.game.take() {
        Some(g) => g,
        None => {
            return;
        },
    };
    let ghost g0 = game@;
    let mut i: usize = 0;
    while i < room.round_audits.len()
        invariant
            i <= room.round_audits@.len(),
            room.round_audits == old(room).round_audits,
            game@ == (MatchModel {
                events: g0.events + published_audits(room.round_audits@).take(i as int),
                ..g0
            }),
        decreases room.round_audits@.len() - i,
    {
        let message = published_round_audit_message(&room.round_audits[i]);
        let ghost before = game@;
        game.events.push(GameEvent { kind: EventKind::Deal, message });
        assert(published_audits(room.round_audits@).take(i as int + 1) =~= published_audits(
            room.round_audits@,
        ).take(i as int).push(published_audits(room.round_audits@)[i as int]));
        assert(event_models(game.events@) =~= before.events.push(
            published_audits(room.round_audits@)[i as int],
        ));
        assert(game@ =~~= (MatchModel {
            events: g0.events + published_audits(room.round_audits@).take(i as int + 1),
            ..g0
        }));
        i = i + 1;
    }
    assert(published_audits(room.round_audits@).take(room.round_audits@.len() as int)
        =~= published_audits(room.round_audits@));
    room.game = Some(game);
}

/// Whether a room is due to deal its next round: still the revision the
/// pause was scheduled at, running, and showing a finished round.
pub open spec fn next_round_due(room: &Room, expected_revision: u64) -> bool {
    &&& !room.deleted
    &&& room.revision == expected_revision
    &&& room.lifecycle == Lifecycle::Running
    &&& room.game matches Some(g) && round_is_finished(g@)
}

/// The seed of the round after the one shown.
pub open spec fn next_round_seed(room: &Room) -> u64 {
    round_seed(room.base_seed, room.match_index, (room.game->Some_0@.round_index + 1) as u64)
}

/// Moves a room past a shown round result: the dealer rotates and the next
/// round is dealt and audited, with its own animation from `now`. Returns
/// whether a new round was dealt. When every shuffle of the new seed would
/// give one player all four nines, the round is acknowledged but no deal
/// follows and the revision stays.
pub fn advance_round(room: &mut Room, expected_revision: u64, now: u64) -> (dealt: bool)
    requires
        room_wf(old(room)),
        old(room).revision < u64::MAX,
        old(room).game matches Some(g) ==> g.round_index < u64::MAX,
    ensures
        room_wf(final(room)),
        !next_round_due(old(room), expected_revision) ==> !dealt && *final(room) == *old(room),
        next_round_due(old(room), expected_revision) ==> {
            let g0 = old(room).game->Some_0@;
            let seed = next_round_seed(old(room));
            let audits = final(room).round_audits@;
            if forall|a: u64| #[trigger] gives_all_nines(deal_order(seed, a)) {
                &&& !dealt
                &&& final(room).game matches Some(g) && g@ == acknowledged(g0)
                &&& *final(room) == (Room { game: final(room).game, ..*old(room) })
            } else {
                &&& dealt
                &&& audits.len() == old(room).round_audits@.len() + 1
                &&& audits.drop_last() == old(room).round_audits@
                &&& dealt_audit(audits.last(), old(room).match_index, (g0.round_index + 1) as u64, seed)
                &&& final(room).game matches Some(g) && g@ == deal_spec(
                    reshuffle_reported(acknowledged(g0), audits.last().four_nines_reshuffles),
                    seed,
                    audits.last().deal_order@,
                )
                &&& final(room).presentation == deal_presentation_spec(
                    now,
                    audits.last().four_nines_reshuffles,
                )
                &&& *final(room) == (Room {
                    game: final(room).game,
                    round_audits: final(room).round_audits,
                    presentation: final(room).presentation,
                    revision: (old(room).revision + 1) as u64,
                    ..*old(room)
                })
            }
        },
{
    if room.deleted || room.revision != expected_revision || room.lifecycle != Lifecycle::Running {
        return false;
    }
    let base_seed = room.base_seed;
    let match_index = room.match_index;
    let mut game = match room.game.take() {
        Some(g) => g,
        None => {
            return false;
        },
    };
    if !round_finished(&game) {
        room.game = Some(game);
        return false;
    }
    let acknowledged = game.acknowledge_round();
    assert(acknowledged is Ok);
    let round_index = game.round_index;
    let seed = Match::derive_round_seed(base_seed, match_index, round_index);
    let deal = match game.deal_seeded_with_report(seed) {
        Ok(d) => d,
        Err(_) => {
            room.game = Some(game);
            return false;
        },
    };
    let audit = RoundAudit {
        match_index,
        round_index,
        derived_seed: seed,
        deal_order: deal.order,
        four_nines_reshuffles: deal.four_nines_reshuffles,
    };
    room.presentation = deal_presentation(now, audit.four_nines_reshuffles);
    let ghost before = room.round_audits@;
    room.round_audits.push(audit);
    assert(room.round_audits@.drop_last() =~= before);
    room.revision = room.revision + 1;
    room.game = Some(game);
    true
}

/// The role a view request names; observers by default.
pub open spec fn requested_role(role: Option<&str>) -> Seq<char> {
    match role {
        Some(r) => r@,
        None => "observer"@,
    }
}

/// The view a request is owed: observers see the public view, a player their
/// seat's view once the seat's token checks out, and the referee everything
/// with the referee password.
pub open spec fn view_outcome(
    room: &Room,
    role: Option<&str>,
    seat: Option<u8>,
    credential: Option<&str>,
    now: u64,
) -> Result<RoleViewModel, (u16, Seq<char>, Seq<char>, Option<u64>)> {
    let name = requested_role(role);
    if name == "observer"@ {
        Ok(RoleViewModel::Observer(public_view_spec(room, now)))
    } else if name == "player"@ {
        match seat {
            None => Err(failure(400, "seat_required"@, "player view needs a seat"@, None)),
            Some(s) => {
                let token = match credential {
                    Some(c) => c@,
                    None => Seq::empty(),
                };
                match authentication_failure(room, Seat(s), token) {
                    Some(f) => Err(f),
                    None => Ok(player_view_spec(room, Seat(s), now)),
                }
            },
        }
    } else if name == "referee"@ {
        if credential matches Some(c) && c@ == room.referee_password@ {
            Ok(referee_view_spec(room, now))
        } else {
            Err(failure(401, "unauthorized"@, "wrong referee password"@, None))
        }
    } else {
        Err(failure(400, "unknown_role"@, "role must be observer, player, or referee"@, None))
    }
}

pub fn make_view(
    room: &Room,
    role: Option<&str>,
    seat: Option<u8>,
    credential: Option<&str>,
    now: u64,
) -> (r: Result<RoleView, ApiFailure>)
    requires
        room_wf(room),
    ensures
        match view_outcome(room, role, seat, credential, now) {
            Ok(v) => r matches Ok(w) && w@ == v,
            Err(f) => r matches Err(e) && e.parts() == f,
        },
{
    let name = match role {
        Some(r) => r,
        None => "observer",
    };
    assert(name@ == requested_role(role));
    if same_text(name, "observer") {
        let v = RoleView::Observer(public_view(room, now));
        assert(view_outcome(room, role, seat, credential, now) == Ok::<RoleViewModel, (u16, Seq<char>, Seq<char>, Option<u64>)>(v@));
        Ok(v)
    } else if same_text(name, "player") {
        let s = match seat {
            Some(s) => s,
            None => {
                return Err(
                    ApiFailure::bad_request("seat_required", String::from_str("player view needs a seat")),
                );
            },
        };
        let token = match credential {
            Some(c) => c,
            None => "",
        };
        proof {
            reveal_strlit("");
        }
        assert(token@ == match credential {
            Some(c) => c@,
            None => Seq::<char>::empty(),
        });
        match authenticate_seat(room, Seat(s), token) {
            Err(e) => Err(e),
            Ok(()) => {
                let v = player_view(room, Seat(s), now);
                assert(view_outcome(room, role, seat, credential, now) == Ok::<RoleViewModel, (u16, Seq<char>, Seq<char>, Option<u64>)>(v@));
                Ok(v)
            },
        }
    } else if same_text(name, "referee") {
        let accepted = match credential {
            Some(c) => same_text(c, room.referee_password.as_str()),
            None => false,
        };
        if !accepted {
            return Err(ApiFailure::unauthorized(String::from_str("wrong referee password")));
        }
        let v = make_referee_view(room, now);
        assert(view_outcome(room, role, seat, credential, now) == Ok::<RoleViewModel, (u16, Seq<char>, Seq<char>, Option<u64>)>(v@));
        Ok(v)
    } else {
        Err(
            ApiFailure::bad_request(
                "unknown_role",
                String::from_str("role must be observer, player, or referee"),
            ),
        )
    }
}

/// A recorded command is a retry from then on: it passes the command check
/// whatever revision it names, so repeating it cannot run it twice.
pub proof fn lemma_recorded_command_is_a_retry(
    before: &Room,
    after: &Room,
    id: String,
    expected_revision: u64,
)
    requires
        after.recent_commands@ == newest(before.recent_commands@.push(id), 256),
        0 < byte_count(id@) <= 128,
    ensures
        remembered(after, id@),
        command_failure(after, id@, expected_revision) is None,
{
    let all = before.recent_commands@.push(id);
    let kept = after.recent_commands@;
    let last = kept.len() - 1;
    assert(kept[last] == id) by {
        if all.len() > 256 {
            assert(kept == all.skip(all.len() - 256));
        }
    }
    assert(command_texts(kept)[last] == id@);
}

} // verus!
