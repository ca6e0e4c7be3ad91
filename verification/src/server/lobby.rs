//! Rooms before and around play: creating a room, taking and leaving seats,
//! and listing rooms.
use vstd::prelude::*;

use std::collections::VecDeque;

use vstd::utf8::encode_utf8;

use crate::protocol::Lifecycle;
use crate::server::room::{room_wf, start_match, started_room};
use crate::server::tokens::{new_token, token_ok};
use crate::server::{
    failure, identifier_message, identifier_ok, secret_message, parse_seed, room_not_found,
    secret_ok, seed_value, validate_identifier, validate_secret, ApiFailure, Presentation,
    PresentationStage, Room, SeatIdentity,
};
use crate::text::{decimal, push_decimal, same_text, url_encode, url_encoded};
use crate::tysiac::spec::{deal_order, gives_all_nines};
use crate::tysiac::{Config, Seat};
use crate::server::room::start_seed;

verus! {

/// A match configuration the server accepts: a target of at least 100 and a
/// lock below it, both multiples of ten, the lock not negative.
pub open spec fn config_ok(c: Config) -> bool {
    &&& c.target_score >= 100
    &&& c.target_score % 10 == 0
    &&& c.lock_score >= 0
    &&& c.lock_score < c.target_score
    &&& c.lock_score % 10 == 0
}

fn check_config(c: &Config) -> (b: bool)
    ensures
        b == config_ok(*c),
{
    !(c.target_score < 100 || c.target_score % 10 != 0 || c.lock_score < 0 || c.lock_score
        >= c.target_score || c.lock_score % 10 != 0)
}

/// The first refusal a room creation meets, in the order the fields are
/// checked: room name, player password, an explicit referee password, the
/// configuration, then the seed.
pub open spec fn create_failure(
    name: Seq<char>,
    player_password: Seq<char>,
    referee_password: Seq<char>,
    seed: Option<Seq<char>>,
    config: Config,
) -> Option<(u16, Seq<char>, Seq<char>, Option<u64>)> {
    if !identifier_ok(name) {
        Some(failure(400, "invalid_identifier"@, identifier_message("room name"@), None))
    } else if !secret_ok(player_password) {
        Some(failure(400, "invalid_secret"@, secret_message("player password"@), None))
    } else if referee_password.len() > 0 && !secret_ok(referee_password) {
        Some(failure(400, "invalid_secret"@, secret_message("referee password"@), None))
    } else if !config_ok(config) {
        Some(
            failure(
                400,
                "invalid_config"@,
                "target and lock must be multiples of ten, with 0 <= lock < target"@,
                None,
            ),
        )
    } else if seed matches Some(s) && seed_value(s) is None {
        Some(
            failure(
                400,
                "invalid_seed"@,
                "seed must be an unsigned decimal or 0x-prefixed hexadecimal integer"@,
                None,
            ),
        )
    } else {
        None
    }
}

/// Opens a room in the lobby. Without a configuration the default one is
/// used; without a referee password a random one is generated; without a
/// seed the clock-derived `time_seed` is the base seed.
pub fn create_room(
    name: String,
    player_password: String,
    referee_password: String,
    seed: Option<String>,
    config: Option<Config>,
    time_seed: u64,
) -> (r: Result<Room, ApiFailure>)
    ensures
        ({
            let c = match config {
                Some(c) => c,
                None => crate::protocol::config_of(None),
            };
            let s = match seed {
                Some(s) => Some(s@),
                None => None,
            };
            match create_failure(name@, player_password@, referee_password@, s, c) {
                Some(f) => r matches Err(e) && e.parts() == f,
                None => r matches Ok(room) && {
                    &&& room.name@ == name@
                    &&& room.player_password@ == player_password@
                    &&& if referee_password@.len() == 0 {
                        token_ok(room.referee_password@)
                    } else {
                        room.referee_password@ == referee_password@
                    }
                    &&& room.base_seed == match s {
                        Some(t) => seed_value(t)->Some_0,
                        None => time_seed,
                    }
                    &&& room.match_index == 0
                    &&& room.config == c
                    &&& room.seats@.len() == 0
                    &&& room.lifecycle == Lifecycle::Lobby
                    &&& room.revision == 0
                    &&& room.game is None
                    &&& room.round_audits@.len() == 0
                    &&& room.presentation == (Presentation {
                        stage: PresentationStage::Ready,
                        visible_deal_cards: 0,
                        gate_until_ms: 0,
                        deal_started_ms: 0,
                    })
                    &&& room.recent_commands@.len() == 0
                    &&& room.connections@ == seq![0usize, 0, 0]
                    &&& room.connection_generation@ == seq![0u64, 0, 0]
                    &&& !room.deleted
                },
            }
        }),
        r matches Ok(room) ==> room_wf(&room),
{
    match validate_identifier(name.as_str(), "room name") {
        Err(e) => {
            return Err(e);
        },
        Ok(()) => {},
    }
    match validate_secret(player_password.as_str(), "player password") {
        Err(e) => {
            return Err(e);
        },
        Ok(()) => {},
    }
    let referee = if referee_password.unicode_len() == 0 {
        new_token()
    } else {
        match validate_secret(referee_password.as_str(), "referee password") {
            Err(e) => {
                return Err(e);
            },
            Ok(()) => {},
        }
        referee_password
    };
    let config = match config {
        Some(c) => c,
        None => Config::default(),
    };
    if !check_config(&config) {
        return Err(
            ApiFailure::bad_request(
                "invalid_config",
                String::from_str("target and lock must be multiples of ten, with 0 <= lock < target"),
            ),
        );
    }
    let base_seed = match &seed {
        Some(s) => match parse_seed(s.as_str()) {
            Ok(v) => v,
            Err(e) => {
                return Err(e);
            },
        },
        None => time_seed,
    };
    Ok(
        Room {
            name,
            player_password,
            referee_password: referee,
            base_seed,
            match_index: 0,
            config,
            seats: Vec::new(),
            lifecycle: Lifecycle::Lobby,
            revision: 0,
            game: None,
            round_audits: Vec::new(),
            presentation: Presentation::default(),
            recent_commands: VecDeque::new(),
            connections: [0, 0, 0],
            connection_generation: [0, 0, 0],
            deleted: false,
        },
    )
}

/// What the creator of a room is told: its credentials, its base seed, and
/// where the table and the referee desk are.
#[derive(Debug)]
pub struct CreatedRoom {
    pub name: String,
    pub player_password: String,
    pub referee_password: String,
    pub base_seed: u64,
    pub observer_url: String,
    pub referee_url: String,
}

pub fn created_room(room: &Room) -> (c: CreatedRoom)
    ensures
        c.name@ == room.name@,
        c.player_password@ == room.player_password@,
        c.referee_password@ == room.referee_password@,
        c.base_seed == room.base_seed,
        c.observer_url@ == "/room/"@ + room.name@,
        c.referee_url@ == "/room/"@ + room.name@ + "/referee"@,
{
    let mut observer_url = String::from_str("/room/");
    observer_url.append(room.name.as_str());
    let mut referee_url = String::from_str("/room/");
    referee_url.append(room.name.as_str());
    referee_url.append("/referee");
    CreatedRoom {
        name: room.name.clone(),
        player_password: room.player_password.clone(),
        referee_password: room.referee_password.clone(),
        base_seed: room.base_seed,
        observer_url,
        referee_url,
    }
}

/// One line of the room list: the name, who is seated, and the lifecycle.
#[derive(Debug)]
pub struct RoomSummary {
    pub name: String,
    pub seats: Vec<String>,
    pub lifecycle: Lifecycle,
}

pub fn room_summary(room: &Room) -> (s: RoomSummary)
    ensures
        s.name@ == room.name@,
        s.seats@.len() == room.seats@.len(),
        forall|i: int| 0 <= i < s.seats@.len() ==> (#[trigger] s.seats@[i])@ == room.seats@[i].name@,
        s.lifecycle == room.lifecycle,
{
    let mut seats: Vec<String> = Vec::new();
    let mut i: usize = 0;
    while i < room.seats.len()
        invariant
            i <= room.seats@.len(),
            seats@.len() == i,
            forall|k: int| 0 <= k < i ==> (#[trigger] seats@[k])@ == room.seats@[k].name@,
        decreases room.seats@.len() - i,
    {
        seats.push(room.seats[i].name.clone());
        i = i + 1;
    }
    RoomSummary { name: room.name.clone(), seats, lifecycle: room.lifecycle }
}

/// What a joining player is told: their seat, name and reconnect token, and
/// the address of their table.
#[derive(Debug)]
pub struct JoinedRoom {
    pub seat: Seat,
    pub name: String,
    pub token: String,
    pub player_url: String,
}

/// The address of a player's table: room, seat number from one, and the
/// player's name percent-encoded.
pub open spec fn player_url(room: Seq<char>, index: int, name: Seq<char>) -> Seq<char> {
    "/room/"@ + room + "/player/"@ + decimal((index + 1) as nat) + "/"@ + url_encoded(
        encode_utf8(name),
    )
}

pub fn join_response(room: &str, index: usize, seat: &SeatIdentity) -> (j: JoinedRoom)
    requires
        index < 3,
    ensures
        j.seat == Seat(index as u8),
        j.name@ == seat.name@,
        j.token@ == seat.token@,
        j.player_url@ == player_url(room@, index as int, seat.name@),
{
    let mut url = String::from_str("/room/");
    url.append(room);
    url.append("/player/");
    push_decimal(&mut url, (index + 1) as u64);
    url.append("/");
    let encoded = url_encode(seat.name.as_str());
    url.append(encoded.as_str());
    JoinedRoom {
        seat: Seat(index as u8),
        name: seat.name.clone(),
        token: seat.token.clone(),
        player_url: url,
    }
}

/// `i` is the first seat whose token is `token`.
pub open spec fn first_holder(seats: Seq<SeatIdentity>, token: Seq<char>, i: int) -> bool {
    &&& 0 <= i < seats.len()
    &&& seats[i].token@ == token
    &&& forall|k: int| 0 <= k < i ==> (#[trigger] seats[k]).token@ != token
}

/// Whether some seat holds `token`.
pub open spec fn token_held(seats: Seq<SeatIdentity>, token: Seq<char>) -> bool {
    exists|i: int| 0 <= i < seats.len() && (#[trigger] seats[i]).token@ == token
}

fn holder_of(seats: &Vec<SeatIdentity>, token: &str) -> (r: Option<usize>)
    ensures
        match r {
            Some(i) => first_holder(seats@, token@, i as int),
            None => !token_held(seats@, token@),
        },
{
    let mut i: usize = 0;
    while i < seats.len()
        invariant
            i <= seats@.len(),
            forall|k: int| 0 <= k < i ==> (#[trigger] seats@[k]).token@ != token@,
        decreases seats@.len() - i,
    {
        if same_text(seats[i].token.as_str(), token) {
            return Some(i);
        }
        i = i + 1;
    }
    None
}

/// Whether a seated player already has the name `name`.
pub open spec fn name_taken(seats: Seq<SeatIdentity>, name: Seq<char>) -> bool {
    exists|i: int| 0 <= i < seats.len() && (#[trigger] seats[i]).name@ == name
}

fn name_in_use(seats: &Vec<SeatIdentity>, name: &str) -> (b: bool)
    ensures
        b == name_taken(seats@, name@),
{
    let mut i: usize = 0;
    while i < seats.len()
        invariant
            i <= seats@.len(),
            forall|k: int| 0 <= k < i ==> (#[trigger] seats@[k]).name@ != name@,
        decreases seats@.len() - i,
    {
        if same_text(seats[i].name.as_str(), name) {
            return true;
        }
        i = i + 1;
    }
    false
}

/// Why a newcomer who holds no seat's token cannot sit down: the match has
/// begun, the password is wrong, the table is full, or the name is taken.
pub open spec fn seating_failure(room: &Room, name: Seq<char>, password: Seq<char>) -> Option<
    (u16, Seq<char>, Seq<char>, Option<u64>),
> {
    if room.lifecycle != Lifecycle::Lobby {
        Some(failure(409, "match_started"@, "new players cannot join after start"@, Some(room.revision)))
    } else if password != room.player_password@ {
        Some(failure(401, "unauthorized"@, "wrong player password or reconnect token"@, None))
    } else if room.seats@.len() == 3 {
        Some(failure(409, "room_full"@, "all three seats are occupied"@, Some(room.revision)))
    } else if name_taken(room.seats@, name) {
        Some(failure(409, "name_in_use"@, "player names must be unique"@, Some(room.revision)))
    } else {
        None
    }
}

/// A join: the player, their table, whether a new seat was taken, and
/// whether that seat completed the table and started the match.
#[derive(Debug)]
pub struct JoinOutcome {
    pub joined: JoinedRoom,
    pub new_seat: bool,
    pub started: bool,
}

/// The room once a newcomer is seated: one more seat with their name and a
/// fresh token, one more revision.
pub open spec fn seated(before: &Room, after: &Room, name: Seq<char>) -> bool {
    &&& after.seats@.len() == before.seats@.len() + 1
    &&& after.seats@.drop_last() == before.seats@
    &&& after.seats@.last().name@ == name
    &&& token_ok(after.seats@.last().token@)
    &&& after.revision == before.revision + 1
}

/// Seats a player, or gives a returning player their seat back. The seat
/// that completes the table starts the match at `now`.
pub fn join_room(room: &mut Room, name: &str, password_or_token: &str, now: u64) -> (r: Result<
    JoinOutcome,
    ApiFailure,
>)
    requires
        room_wf(old(room)),
        old(room).seats@.len() <= 3,
        old(room).revision < u64::MAX,
    ensures
        room_wf(final(room)),
        !identifier_ok(name@) ==> (r matches Err(e) && e.parts() == failure(
            400,
            "invalid_identifier"@,
            identifier_message("player name"@),
            None,
        ) && *final(room) == *old(room)),
        identifier_ok(name@) && old(room).deleted ==> (r matches Err(e) && e.parts() == failure(
            404,
            "room_not_found"@,
            "room does not exist"@,
            None,
        ) && *final(room) == *old(room)),
        identifier_ok(name@) && !old(room).deleted && token_held(old(room).seats@, password_or_token@)
            ==> (*final(room) == *old(room) && (r matches Ok(o) && {
            &&& !o.new_seat
            &&& !o.started
            &&& first_holder(old(room).seats@, password_or_token@, o.joined.seat.0 as int)
            &&& o.joined.name@ == old(room).seats@[o.joined.seat.0 as int].name@
            &&& o.joined.token@ == password_or_token@
            &&& o.joined.player_url@ == player_url(
                old(room).name@,
                o.joined.seat.0 as int,
                o.joined.name@,
            )
        })),
        identifier_ok(name@) && !old(room).deleted && !token_held(old(room).seats@, password_or_token@)
            ==> (match seating_failure(old(room), name@, password_or_token@) {
            Some(f) => r matches Err(e) && e.parts() == f && *final(room) == *old(room),
            None => if old(room).seats@.len() == 2 && forall|a: u64| #[trigger] gives_all_nines(
                deal_order(start_seed(old(room)), a),
            ) {
                &&& r matches Err(e) && e.parts() == failure(
                    409,
                    "rule_violation"@,
                    crate::tysiac::rule_error_text(crate::tysiac::RuleError::CannotDeal),
                    None,
                )
                &&& final(room).seats@ == old(room).seats@
                &&& *final(room) == (Room { seats: final(room).seats, ..*old(room) })
            } else {
                &&& seated(old(room), final(room), name@)
                &&& r matches Ok(o) && {
                    &&& o.new_seat
                    &&& o.started == (old(room).seats@.len() == 2)
                    &&& o.joined.seat == Seat(old(room).seats@.len() as u8)
                    &&& o.joined.name@ == name@
                    &&& o.joined.token@ == final(room).seats@.last().token@
                    &&& o.joined.player_url@ == player_url(
                        old(room).name@,
                        old(room).seats@.len() as int,
                        name@,
                    )
                }
                &&& if old(room).seats@.len() == 2 {
                    started_room(
                        &(Room {
                            seats: final(room).seats,
                            revision: final(room).revision,
                            ..*old(room)
                        }),
                        final(room),
                        now,
                    )
                } else {
                    *final(room) == (Room {
                        seats: final(room).seats,
                        revision: final(room).revision,
                        ..*old(room)
                    })
                }
            },
        }),
{
    match validate_identifier(name, "player name") {
        Err(e) => {
            return Err(e);
        },
        Ok(()) => {},
    }
    if room.deleted {
        return Err(room_not_found());
    }
    match holder_of(&room.seats, password_or_token) {
        Some(i) => {
            let joined = join_response(room.name.as_str(), i, &room.seats[i]);
            return Ok(JoinOutcome { joined, new_seat: false, started: false });
        },
        None => {},
    }
    if room.lifecycle != Lifecycle::Lobby {
        return Err(
            ApiFailure::conflict(
                "match_started",
                String::from_str("new players cannot join after start"),
                Some(room.revision),
            ),
        );
    }
    if !same_text(password_or_token, room.player_password.as_str()) {
        return Err(
            ApiFailure::unauthorized(String::from_str("wrong player password or reconnect token")),
        );
    }
    if room.seats.len() == 3 {
        return Err(
            ApiFailure::conflict(
                "room_full",
                String::from_str("all three seats are occupied"),
                Some(room.revision),
            ),
        );
    }
    if name_in_use(&room.seats, name) {
        return Err(
            ApiFailure::conflict(
                "name_in_use",
                String::from_str("player names must be unique"),
                Some(room.revision),
            ),
        );
    }
    let seat = SeatIdentity { name: String::from_str(name), token: new_token() };
    let ghost before = *room;
    room.seats.push(seat);
    let started = room.seats.len() == 3;
    let ghost with_seat = *room;
    assert(start_seed(&with_seat) == start_seed(old(room)));
    if started {
        match start_match(room, now) {
            Err(e) => {
                assert(*room == with_seat);
                let _ = room.seats.pop();
                assert(room.seats@ =~= before.seats@);
                assert(*room == (Room { seats: room.seats, ..*old(room) }));
                return Err(e);
            },
            Ok(()) => {},
        }
    }
    let ghost after_start = *room;
    room.revision = room.revision + 1;
    proof {
        if started {
            let b2 = Room { seats: room.seats, revision: room.revision, ..*old(room) };
            assert(b2 == (Room { revision: room.revision, ..with_seat }));
            assert(start_seed(&b2) == start_seed(&with_seat));
            assert(crate::server::room::fresh_match(&b2, start_seed(&b2))
                == crate::server::room::fresh_match(&with_seat, start_seed(&with_seat)));
            assert(started_room(&b2, room, now));
        }
    }
    let index = room.seats.len() - 1;
    assert(room.seats@.drop_last() =~= old(room).seats@);
    assert(seated(old(room), room, name@));
    let joined = join_response(room.name.as_str(), index, &room.seats[index]);
    assert(joined.seat == Seat(old(room).seats@.len() as u8));
    assert(joined.player_url@ == player_url(old(room).name@, old(room).seats@.len() as int, name@));
    Ok(JoinOutcome { joined, new_seat: true, started })
}

/// Gives up a seat in the lobby; the seat's token identifies the player.
/// Returns the seat's former index and identity.
pub fn leave_room(room: &mut Room, token: &str) -> (r: Result<(usize, SeatIdentity), ApiFailure>)
    requires
        room_wf(old(room)),
        old(room).revision < u64::MAX,
    ensures
        room_wf(final(room)),
        old(room).deleted ==> (r matches Err(e) && e.parts() == failure(
            404,
            "room_not_found"@,
            "room does not exist"@,
            None,
        ) && *final(room) == *old(room)),
        !old(room).deleted && old(room).lifecycle != Lifecycle::Lobby ==> (r matches Err(e)
            && e.parts() == failure(
            409,
            "match_started"@,
            "seats are fixed after start"@,
            Some(old(room).revision),
        ) && *final(room) == *old(room)),
        !old(room).deleted && old(room).lifecycle == Lifecycle::Lobby && !token_held(
            old(room).seats@,
            token@,
        ) ==> (r matches Err(e) && e.parts() == failure(
            401,
            "unauthorized"@,
            "invalid reconnect token"@,
            None,
        ) && *final(room) == *old(room)),
        !old(room).deleted && old(room).lifecycle == Lifecycle::Lobby && token_held(
            old(room).seats@,
            token@,
        ) ==> (r matches Ok((i, s)) && {
            &&& first_holder(old(room).seats@, token@, i as int)
            &&& s == old(room).seats@[i as int]
            &&& final(room).seats@ == old(room).seats@.remove(i as int)
            &&& *final(room) == (Room {
                seats: final(room).seats,
                revision: (old(room).revision + 1) as u64,
                ..*old(room)
            })
        }),
{
    if room.deleted {
        return Err(room_not_found());
    }
    if room.lifecycle != Lifecycle::Lobby {
        return Err(
            ApiFailure::conflict(
                "match_started",
                String::from_str("seats are fixed after start"),
                Some(room.revision),
            ),
        );
    }
    let index = match holder_of(&room.seats, token) {
        Some(i) => i,
        None => {
            return Err(ApiFailure::unauthorized(String::from_str("invalid reconnect token")));
        },
    };
    let departed = room.seats.remove(index);
    room.revision = room.revision + 1;
    Ok((index, departed))
}

/// Removes a room for good, which only the local machine may do. Returns how
/// many player sockets were connected, for the log.
pub fn delete_room(room: &mut Room, from_loopback: bool) -> (r: Result<usize, ApiFailure>)
    requires
        old(room).connections[0] + old(room).connections[1] + old(room).connections[2] <= usize::MAX,
    ensures
        !from_loopback ==> (r matches Err(e) && e.parts() == failure(
            403,
            "forbidden"@,
            "rooms can only be deleted from the local machine"@,
            None,
        ) && *final(room) == *old(room)),
        from_loopback ==> r == Ok::<usize, ApiFailure>(
            (old(room).connections[0] + old(room).connections[1] + old(room).connections[2]) as usize,
        ) && *final(room) == (Room { deleted: true, ..*old(room) }),
{
    if !from_loopback {
        return Err(
            ApiFailure::forbidden(String::from_str("rooms can only be deleted from the local machine")),
        );
    }
    room.deleted = true;
    Ok(room.connections[0] + room.connections[1] + room.connections[2])
}

} // verus!
