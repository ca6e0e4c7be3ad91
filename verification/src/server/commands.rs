//! Commands against a running room: player actions over HTTP or a socket, and
//! the referee's administrative actions.
use vstd::prelude::*;

use crate::protocol::{
    AdminAction, ApiError, ClientMessage, Lifecycle, ServerMessage, ServerMessageModel,
};
use crate::server::presentation::{
    presentation_at, presentation_delay, presentation_delay_spec, update_presentation,
};
use crate::server::room::{
    authenticate_seat, authentication_failure, check_command, command_failure, make_referee_view,
    newest, player_view, player_view_spec, publish_round_audits, published_audits,
    referee_view_spec, remember_command, remembered, remembers, room_match, room_wf, start_failure,
    start_match, started_room,
};
use crate::server::{
    failure, room_not_found, rule_failure, ApiFailure, Presentation, PresentationStage, Room,
};
use crate::text::same_text;
use crate::tysiac::model::{scores_in_range, ActionModel, MatchModel};
use crate::tysiac::spec::apply_spec;
use crate::tysiac::{rule_error_text, Action, MatchPhase, Seat};

verus! {

/// The match after an accepted action: when the action ends the match, the
/// audit of every deal is published to its history.
pub open spec fn settled_game(m: MatchModel, audits: Seq<crate::protocol::RoundAudit>) -> MatchModel {
    if m.phase is MatchFinished {
        MatchModel { events: m.events + published_audits(audits), ..m }
    } else {
        m
    }
}

/// What a player command does to a room at `now`, and what it answers.
///
/// A malformed or stale command is refused; a retried command is answered
/// with the current view and changes nothing; outside a running match, or
/// while the table animation runs, the command is refused. Otherwise the
/// engine decides: a refused action leaves the match as it was, an accepted
/// one is recorded, holds the table for its animation, and answers with the
/// new revision, the new events and the player's view.
pub open spec fn player_action_done(
    before: &Room,
    after: &Room,
    r: Result<ServerMessage, ApiFailure>,
    actor: Seat,
    command_id: String,
    expected_revision: u64,
    action: ActionModel,
    now: u64,
) -> bool {
    match command_failure(before, command_id@, expected_revision) {
        Some(f) => r matches Err(e) && e.parts() == f && *after == *before,
        None => if remembered(before, command_id@) {
            &&& r matches Ok(m) && m@ == ServerMessageModel::Snapshot(
                player_view_spec(before, actor, now),
            )
            &&& *after == *before
        } else if before.lifecycle != Lifecycle::Running {
            &&& r matches Err(e) && e.parts() == failure(
                409,
                "not_running"@,
                "match is not running"@,
                Some(before.revision),
            )
            &&& *after == *before
        } else {
            let p1 = presentation_at(before.presentation, now);
            if now < p1.gate_until_ms {
                &&& r matches Err(e) && e.parts() == failure(
                    409,
                    "presentation_wait"@,
                    "the table animation has not completed"@,
                    Some(before.revision),
                )
                &&& *after == (Room { presentation: p1, ..*before })
            } else {
                match before.game {
                    None => {
                        &&& r matches Err(e) && e.parts() == failure(
                            409,
                            "no_match"@,
                            "no match exists"@,
                            Some(before.revision),
                        )
                        &&& *after == (Room { presentation: p1, ..*before })
                    },
                    Some(g) => match apply_spec(g@, actor, action) {
                        Err(e) => {
                            &&& r matches Err(x) && x.parts() == failure(
                                409,
                                "rule_violation"@,
                                rule_error_text(e),
                                None,
                            )
                            &&& room_match(after.game) == room_match(before.game)
                            &&& *after == (Room { presentation: p1, game: after.game, ..*before })
                        },
                        Ok(m) => {
                            let events = m.events.skip(g@.events.len() as int);
                            &&& after.game matches Some(h) && h@ == settled_game(
                                m,
                                before.round_audits@,
                            )
                            &&& after.lifecycle == if m.phase is MatchFinished {
                                Lifecycle::Finished
                            } else {
                                Lifecycle::Running
                            }
                            &&& after.presentation == (Presentation {
                                gate_until_ms: (now + presentation_delay_spec(action, events)) as u64,
                                ..p1
                            })
                            &&& after.recent_commands@ == newest(
                                before.recent_commands@.push(command_id),
                                256,
                            )
                            &&& after.revision == before.revision + 1
                            &&& *after == (Room {
                                game: after.game,
                                lifecycle: after.lifecycle,
                                presentation: after.presentation,
                                recent_commands: after.recent_commands,
                                revision: after.revision,
                                ..*before
                            })
                            &&& r matches Ok(msg) && msg@ == (ServerMessageModel::Updated {
                                revision: after.revision,
                                events,
                                view: player_view_spec(after, actor, now),
                            })
                        },
                    },
                }
            }
        },
    }
}

/// What the engine needs to take one more action: scores far from the `i32`
/// limits, a revision that can still grow, and a clock far from its limit.
pub open spec fn action_limits(room: &Room, now: u64) -> bool {
    &&& room.game matches Some(g) ==> scores_in_range(g@.players)
    &&& room.revision < u64::MAX
    &&& now <= u64::MAX - 1_200
}

/// Runs one player command against the room at `now`.
pub fn apply_player_action(
    room: &mut Room,
    actor: Seat,
    command_id: String,
    expected_revision: u64,
    action: Action,
    now: u64,
) -> (r: Result<ServerMessage, ApiFailure>)
    requires
        room_wf(old(room)),
        actor.is_valid(),
        action_limits(old(room), now),
    ensures
        room_wf(final(room)),
        player_action_done(
            old(room),
            final(room),
            r,
            actor,
            command_id,
            expected_revision,
            action@,
            now,
        ),
{
    match check_command(room, command_id.as_str(), expected_revision) {
        Err(e) => {
            return Err(e);
        },
        Ok(()) => {},
    }
    if remembers(room, command_id.as_str()) {
        let view = player_view(room, actor, now);
        return Ok(ServerMessage::Snapshot(view));
    }
    if room.lifecycle != Lifecycle::Running {
        return Err(
            ApiFailure::conflict(
                "not_running",
                String::from_str("match is not running"),
                Some(room.revision),
            ),
        );
    }
    update_presentation(&mut room.presentation, now);
    if now < room.presentation.gate_until_ms {
        return Err(
            ApiFailure::conflict(
                "presentation_wait",
                String::from_str("the table animation has not completed"),
                Some(room.revision),
            ),
        );
    }
    let mut game = match room.game.take() {
        Some(g) => g,
        None => {
            return Err(
                ApiFailure::conflict("no_match", String::from_str("no match exists"), Some(room.revision)),
            );
        },
    };
    let ghost g0 = game@;
    let kept = action.duplicate();
    let outcome = match game.apply(actor, action) {
        Ok(o) => o,
        Err(e) => {
            room.game = Some(game);
            return Err(rule_failure(&e));
        },
    };
    let finished = match &game.phase {
        MatchPhase::MatchFinished { .. } => true,
        _ => false,
    };
    room.game = Some(game);
    if finished {
        room.lifecycle = Lifecycle::Finished;
        publish_round_audits(room);
    }
    let delay = presentation_delay(&kept, outcome.events.as_slice());
    room.presentation.gate_until_ms = now + delay;
    remember_command(room, command_id);
    room.revision = room.revision + 1;
    let view = player_view(room, actor, now);
    Ok(ServerMessage::Updated { revision: room.revision, events: outcome.events, view })
}

/// A player command sent over HTTP: the room must exist, the seat's token
/// must check out, and a seat with a live socket must use the socket.
pub fn room_action(
    room: &mut Room,
    seat: Seat,
    token: &str,
    command_id: String,
    expected_revision: u64,
    action: Action,
    now: u64,
) -> (r: Result<ServerMessage, ApiFailure>)
    requires
        room_wf(old(room)),
        action_limits(old(room), now),
    ensures
        room_wf(final(room)),
        old(room).deleted ==> (r matches Err(e) && e.parts() == failure(
            404,
            "room_not_found"@,
            "room does not exist"@,
            None,
        ) && *final(room) == *old(room)),
        !old(room).deleted ==> match authentication_failure(old(room), seat, token@) {
            Some(f) => r matches Err(e) && e.parts() == f && *final(room) == *old(room),
            None => if old(room).connections[seat.0 as int] > 0 {
                &&& r matches Err(e) && e.parts() == failure(
                    409,
                    "use_controlling_socket"@,
                    "this seat has a live controlling WebSocket; submit the action there"@,
                    Some(old(room).revision),
                )
                &&& *final(room) == *old(room)
            } else {
                player_action_done(
                    old(room),
                    final(room),
                    r,
                    seat,
                    command_id,
                    expected_revision,
                    action@,
                    now,
                )
            },
        },
{
    if room.deleted {
        return Err(room_not_found());
    }
    match authenticate_seat(room, seat, token) {
        Err(e) => {
            return Err(e);
        },
        Ok(()) => {},
    }
    if room.connections[seat.index()] > 0 {
        return Err(
            ApiFailure::conflict(
                "use_controlling_socket",
                String::from_str("this seat has a live controlling WebSocket; submit the action there"),
                Some(room.revision),
            ),
        );
    }
    apply_player_action(room, seat, command_id, expected_revision, action, now)
}

/// The presentation of a room with no animation pending.
pub open spec fn idle_presentation() -> Presentation {
    Presentation {
        stage: PresentationStage::Ready,
        visible_deal_cards: 0,
        gate_until_ms: 0,
        deal_started_ms: 0,
    }
}

/// The room as a rematch begins: the next match counter.
pub open spec fn rematch_base(room: &Room) -> Room {
    Room { match_index: (room.match_index + 1) as u64, ..*room }
}

/// Why an administrative action is refused in the room's lifecycle: start
/// only from the lobby, pause a running match, resume a paused one, abort
/// either, rematch after a finish or an abort; starting can fail as a start
/// does.
pub open spec fn admin_refusal(room: &Room, action: AdminAction) -> Option<
    (u16, Seq<char>, Seq<char>, Option<u64>),
> {
    let illegal = Some(
        failure(409, "illegal_admin_action"@, "admin action is not legal now"@, Some(room.revision)),
    );
    match action {
        AdminAction::Start => if room.lifecycle == Lifecycle::Lobby {
            start_failure(room)
        } else {
            illegal
        },
        AdminAction::Pause => if room.lifecycle == Lifecycle::Running {
            None
        } else {
            illegal
        },
        AdminAction::Resume => if room.lifecycle == Lifecycle::Paused {
            None
        } else {
            illegal
        },
        AdminAction::Abort => if room.lifecycle == Lifecycle::Running || room.lifecycle
            == Lifecycle::Paused {
            None
        } else {
            illegal
        },
        AdminAction::Rematch => if room.lifecycle == Lifecycle::Finished || room.lifecycle
            == Lifecycle::Aborted {
            start_failure(&rematch_base(room))
        } else {
            illegal
        },
        AdminAction::AdvancePresentation => None,
    }
}

/// What an accepted administrative action does, before it is recorded.
pub open spec fn admin_applied(before: &Room, after: &Room, action: AdminAction, now: u64) -> bool {
    match action {
        AdminAction::Start => started_room(before, after, now),
        AdminAction::Pause => *after == (Room { lifecycle: Lifecycle::Paused, ..*before }),
        AdminAction::Resume => *after == (Room { lifecycle: Lifecycle::Running, ..*before }),
        AdminAction::Abort => *after == (Room { lifecycle: Lifecycle::Aborted, ..*before }),
        AdminAction::Rematch => started_room(&rematch_base(before), after, now),
        AdminAction::AdvancePresentation => *after == (Room {
            presentation: idle_presentation(),
            ..*before
        }),
    }
}

/// A referee command: the room must exist, the referee password must match,
/// and the command must be fresh or a retry. A retry is answered with the
/// referee's view; an accepted action is recorded and answered with the new
/// revision and the referee's view.
pub fn room_admin(
    room: &mut Room,
    referee_password: &str,
    command_id: String,
    expected_revision: u64,
    action: AdminAction,
    now: u64,
) -> (r: Result<ServerMessage, ApiFailure>)
    requires
        room_wf(old(room)),
        old(room).revision < u64::MAX,
        action == AdminAction::Rematch ==> old(room).match_index < u64::MAX,
    ensures
        room_wf(final(room)),
        old(room).deleted ==> (r matches Err(e) && e.parts() == failure(
            404,
            "room_not_found"@,
            "room does not exist"@,
            None,
        ) && *final(room) == *old(room)),
        !old(room).deleted && referee_password@ != old(room).referee_password@ ==> (r matches Err(e)
            && e.parts() == failure(401, "unauthorized"@, "wrong referee password"@, None)
            && *final(room) == *old(room)),
        !old(room).deleted && referee_password@ == old(room).referee_password@ ==> match command_failure(
            old(room),
            command_id@,
            expected_revision,
        ) {
            Some(f) => r matches Err(e) && e.parts() == f && *final(room) == *old(room),
            None => if remembered(old(room), command_id@) {
                &&& r matches Ok(m) && m@ == ServerMessageModel::Snapshot(
                    referee_view_spec(old(room), now),
                )
                &&& *final(room) == *old(room)
            } else {
                match admin_refusal(old(room), action) {
                    Some(f) => {
                        &&& r matches Err(e) && e.parts() == f
                        &&& *final(room) == if action == AdminAction::Rematch && (old(room).lifecycle
                            == Lifecycle::Finished || old(room).lifecycle == Lifecycle::Aborted) {
                            rematch_base(old(room))
                        } else {
                            *old(room)
                        }
                    },
                    None => {
                        &&& admin_applied(
                            old(room),
                            &(Room {
                                recent_commands: old(room).recent_commands,
                                revision: old(room).revision,
                                ..*final(room)
                            }),
                            action,
                            now,
                        )
                        &&& final(room).recent_commands@ == newest(
                            old(room).recent_commands@.push(command_id),
                            256,
                        )
                        &&& final(room).revision == old(room).revision + 1
                        &&& r matches Ok(m) && m@ == (ServerMessageModel::Updated {
                            revision: final(room).revision,
                            events: Seq::empty(),
                            view: referee_view_spec(final(room), now),
                        })
                    },
                }
            },
        },
{
    if room.deleted {
        return Err(room_not_found());
    }
    if !same_text(room.referee_password.as_str(), referee_password) {
        return Err(ApiFailure::unauthorized(String::from_str("wrong referee password")));
    }
    match check_command(room, command_id.as_str(), expected_revision) {
        Err(e) => {
            return Err(e);
        },
        Ok(()) => {},
    }
    if remembers(room, command_id.as_str()) {
        return Ok(ServerMessage::Snapshot(make_referee_view(room, now)));
    }
    let ghost before = *room;
    let lifecycle = room.lifecycle;
    match action {
        AdminAction::Start if lifecycle == Lifecycle::Lobby => {
            match start_match(room, now) {
                Err(e) => {
                    return Err(e);
                },
                Ok(()) => {},
            }
        },
        AdminAction::Pause if lifecycle == Lifecycle::Running => {
            room.lifecycle = Lifecycle::Paused;
        },
        AdminAction::Resume if lifecycle == Lifecycle::Paused => {
            room.lifecycle = Lifecycle::Running;
        },
        AdminAction::Abort if lifecycle == Lifecycle::Running || lifecycle == Lifecycle::Paused => {
            room.lifecycle = Lifecycle::Aborted;
        },
        AdminAction::Rematch if lifecycle == Lifecycle::Finished || lifecycle
            == Lifecycle::Aborted => {
            room.match_index = room.match_index + 1;
            assert(*room == rematch_base(&before));
            match start_match(room, now) {
                Err(e) => {
                    return Err(e);
                },
                Ok(()) => {},
            }
        },
        AdminAction::AdvancePresentation => {
            room.presentation = Presentation::default();
        },
        _ => {
            return Err(
                ApiFailure::conflict(
                    "illegal_admin_action",
                    String::from_str("admin action is not legal now"),
                    Some(room.revision),
                ),
            );
        },
    }
    let ghost mid = *room;
    assert(admin_applied(&before, &mid, action, now));
    remember_command(room, command_id);
    room.revision = room.revision + 1;
    assert(mid == (Room {
        recent_commands: before.recent_commands,
        revision: before.revision,
        ..*room
    }));
    let view = make_referee_view(room, now);
    Ok(ServerMessage::Updated { revision: room.revision, events: Vec::new(), view })
}

/// A socket opened for `seat`: one more connection, and the seat's next
/// generation, which the new socket carries; nothing else changes.
pub open spec fn socket_opened(before: &Room, after: &Room, seat: Seat, generation: u64) -> bool {
    &&& generation == before.connection_generation[seat.0 as int] + 1
    &&& after.connections@ == before.connections@.update(
        seat.0 as int,
        (before.connections[seat.0 as int] + 1) as usize,
    )
    &&& after.connection_generation@ == before.connection_generation@.update(seat.0 as int, generation)
    &&& *after == (Room {
        connections: after.connections,
        connection_generation: after.connection_generation,
        ..*before
    })
}

/// Counts a new controlling socket for a seat; the newest socket controls
/// the seat. Returns the socket's generation.
pub fn connect_player(room: &mut Room, seat: Seat) -> (generation: u64)
    requires
        seat.is_valid(),
        old(room).connections[seat.0 as int] < usize::MAX,
        old(room).connection_generation[seat.0 as int] < u64::MAX,
    ensures
        socket_opened(old(room), final(room), seat, generation),
{
    let i = seat.index();
    room.connections[i] = room.connections[i] + 1;
    room.connection_generation[i] = room.connection_generation[i] + 1;
    assert(room.connections@ =~= old(room).connections@.update(
        seat.0 as int,
        (old(room).connections[seat.0 as int] + 1) as usize,
    ));
    assert(room.connection_generation@ =~= old(room).connection_generation@.update(
        seat.0 as int,
        room.connection_generation[i as int],
    ));
    room.connection_generation[i]
}

/// Forgets one socket of a seat.
pub fn disconnect_player(room: &mut Room, seat: Seat)
    requires
        seat.is_valid(),
    ensures
        final(room).connections@ == old(room).connections@.update(
            seat.0 as int,
            if old(room).connections[seat.0 as int] > 0 {
                (old(room).connections[seat.0 as int] - 1) as usize
            } else {
                0
            },
        ),
        *final(room) == (Room { connections: final(room).connections, ..*old(room) }),
{
    let i = seat.index();
    room.connections[i] = room.connections[i].saturating_sub(1);
    assert(room.connections@ =~= old(room).connections@.update(
        seat.0 as int,
        if old(room).connections[seat.0 as int] > 0 {
            (old(room).connections[seat.0 as int] - 1) as usize
        } else {
            0
        },
    ));
}

/// An error reply on a socket.
pub open spec fn error_reply(code: Seq<char>, message: Seq<char>, revision: Option<u64>) -> ServerMessageModel {
    ServerMessageModel::Error { code, message, current_revision: revision }
}

fn error_message(code: &str, message: &str, revision: Option<u64>) -> (m: ServerMessage)
    ensures
        m@ == error_reply(code@, message@, revision),
{
    ServerMessage::Error(
        ApiError {
            code: String::from_str(code),
            message: String::from_str(message),
            current_revision: revision,
        },
    )
}

/// The answer to a message a connection may not send.
pub open spec fn invalid_reply(before: &Room, after: &Room, reply: Option<ServerMessage>) -> bool {
    &&& reply matches Some(m) && m@ == error_reply(
        "invalid_message"@,
        "message is not valid for this connection"@,
        None,
    )
    &&& *after == *before
}

/// The answer to an action sent over a player socket: the socket closes
/// without a seat or once the room is gone; a socket that no longer controls
/// its seat, or carries no or a wrong token, is refused; otherwise the
/// command runs as a player command and its refusal is sent as an error.
pub open spec fn act_reply(
    before: &Room,
    after: &Room,
    reply: Option<ServerMessage>,
    seat: Option<Seat>,
    generation: u64,
    credential: Option<&str>,
    command_id: String,
    expected_revision: u64,
    action: ActionModel,
    now: u64,
) -> bool {
    match seat {
        None => reply is None && *after == *before,
        Some(s) => if before.deleted {
            reply is None && *after == *before
        } else if before.connection_generation[s.0 as int] != generation {
            &&& reply matches Some(m) && m@ == error_reply(
                "superseded_connection"@,
                "a newer player connection controls this seat"@,
                Some(before.revision),
            )
            &&& *after == *before
        } else {
            match credential {
                None => {
                    &&& reply matches Some(m) && m@ == error_reply(
                        "unauthorized"@,
                        "missing token"@,
                        Some(before.revision),
                    )
                    &&& *after == *before
                },
                Some(token) => match authentication_failure(before, s, token@) {
                    Some(f) => reply matches Some(m) && m@ == error_reply(f.1, f.2, f.3) && *after
                        == *before,
                    None => exists|r: Result<ServerMessage, ApiFailure>|
                        {
                            &&& #[trigger] player_action_done(
                                before,
                                after,
                                r,
                                s,
                                command_id,
                                expected_revision,
                                action,
                                now,
                            )
                            &&& match r {
                                Ok(m) => reply == Some(m),
                                Err(e) => reply matches Some(m) && m@ == error_reply(
                                    e.parts().1,
                                    e.parts().2,
                                    e.parts().3,
                                ),
                            }
                        },
                },
            }
        },
    }
}

/// The reply to one socket message, or `None` when the socket closes. A ping
/// is answered; an action is taken only from a player socket that still
/// controls its seat and carries the seat's token; anything else is invalid
/// for the connection.
pub fn socket_reply(
    room: &mut Room,
    player_socket: bool,
    seat: Option<Seat>,
    generation: u64,
    credential: Option<&str>,
    message: Option<ClientMessage>,
    now: u64,
) -> (reply: Option<ServerMessage>)
    requires
        room_wf(old(room)),
        player_socket ==> (seat matches Some(s) ==> s.is_valid()),
        message matches Some(ClientMessage::Act { .. }) ==> action_limits(old(room), now),
    ensures
        room_wf(final(room)),
        match message {
            Some(ClientMessage::Ping) => reply matches Some(m) && m@ == ServerMessageModel::Pong
                && *final(room) == *old(room),
            Some(ClientMessage::Act { command_id, expected_revision, action }) => if player_socket {
                act_reply(
                    old(room),
                    final(room),
                    reply,
                    seat,
                    generation,
                    credential,
                    command_id,
                    expected_revision,
                    action@,
                    now,
                )
            } else {
                invalid_reply(old(room), final(room), reply)
            },
            _ => invalid_reply(old(room), final(room), reply),
        },
{
    match message {
        Some(ClientMessage::Ping) => Some(ServerMessage::Pong),
        Some(ClientMessage::Act { command_id, expected_revision, action }) => {
            if !player_socket {
                return Some(
                    error_message(
                        "invalid_message",
                        "message is not valid for this connection",
                        None,
                    ),
                );
            }
            let actor = match seat {
                Some(s) => s,
                None => {
                    return None;
                },
            };
            if room.deleted {
                return None;
            }
            if room.connection_generation[actor.index()] != generation {
                return Some(
                    error_message(
                        "superseded_connection",
                        "a newer player connection controls this seat",
                        Some(room.revision),
                    ),
                );
            }
            match credential {
                None => Some(error_message("unauthorized", "missing token", Some(room.revision))),
                Some(token) => match authenticate_seat(room, actor, token) {
                    Err(e) => Some(ServerMessage::Error(e.body)),
                    Ok(()) => {
                        let r = apply_player_action(
                            room,
                            actor,
                            command_id,
                            expected_revision,
                            action,
                            now,
                        );
                        let ghost result = r;
                        let reply = match r {
                            Ok(m) => m,
                            Err(e) => ServerMessage::Error(e.body),
                        };
                        assert(player_action_done(
                            old(room),
                            room,
                            result,
                            actor,
                            command_id,
                            expected_revision,
                            action@,
                            now,
                        ));
                        Some(reply)
                    },
                },
            }
        },
        _ => Some(
            error_message("invalid_message", "message is not valid for this connection", None),
        ),
    }
}

/// A newer socket takes the seat over: once a second socket is opened for a
/// seat, the first one's generation is no longer the seat's, so its actions
/// are refused as superseded.
pub proof fn lemma_newer_socket_controls(
    before: &Room,
    middle: &Room,
    after: &Room,
    seat: Seat,
    first: u64,
    second: u64,
)
    requires
        seat.is_valid(),
        socket_opened(before, middle, seat, first),
        socket_opened(middle, after, seat, second),
    ensures
        after.connection_generation[seat.0 as int] == second,
        after.connection_generation[seat.0 as int] != first,
{
    assert(middle.connection_generation@[seat.0 as int] == first);
    assert(after.connection_generation@[seat.0 as int] == second);
}

} // verus!
