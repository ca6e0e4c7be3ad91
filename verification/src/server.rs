//! The game server's room rules: who may create, join and act, what each
//! audience is shown, when the table animation holds input back, and the
//! audit trail of every deal.
use vstd::prelude::*;

use std::collections::VecDeque;

use vstd::utf8::{encode_scalar, encode_utf8};

use crate::protocol::{ApiError, Lifecycle, RoundAudit};
use crate::text::decimal;
use crate::tysiac::{Config, Match, RuleError};

pub mod audit;
pub mod commands;
pub mod lobby;
pub mod presentation;
pub mod room;
pub mod tokens;




verus! {

pub const INITIAL_SHUFFLE_PRESENTATION_MS: u64 = 2_000;

pub const DEAL_PRESENTATION_MS: u64 = 6_000;

pub const FOUR_NINES_RESHUFFLE_PRESENTATION_MS: u64 = 2_000;

pub const MAX_PRESENTED_FOUR_NINES_RESHUFFLES: u64 = 10;

/// How many recent command ids a room remembers for idempotent retries.
pub const RECENT_COMMANDS: usize = 256;

#[derive(Clone, Debug, Eq, PartialEq)]
pub struct SeatIdentity {
    pub name: String,
    pub token: String,
}

#[derive(Clone, Copy, Debug, Eq, PartialEq, Structural)]
pub enum PresentationStage {
    Ready,
    Shuffling,
    Dealing,
}

#[derive(Clone, Copy, Debug, Eq, PartialEq, Structural)]
pub struct Presentation {
    pub stage: PresentationStage,
    pub visible_deal_cards: usize,
    pub gate_until_ms: u64,
    pub deal_started_ms: u64,
}

impl Default for Presentation {
    fn default() -> (p: Self)
        ensures
            p == (Presentation {
                stage: PresentationStage::Ready,
                visible_deal_cards: 0,
                gate_until_ms: 0,
                deal_started_ms: 0,
            }),
    {
        Presentation {
            stage: PresentationStage::Ready,
            visible_deal_cards: 0,
            gate_until_ms: 0,
            deal_started_ms: 0,
        }
    }
}

/// One table: its credentials, seats, lifecycle, match and audit trail.
#[derive(Debug)]
pub struct Room {
    pub name: String,
    pub player_password: String,
    pub referee_password: String,
    pub base_seed: u64,
    pub match_index: u64,
    pub config: Config,
    pub seats: Vec<SeatIdentity>,
    pub lifecycle: Lifecycle,
    pub revision: u64,
    pub game: Option<Match>,
    pub round_audits: Vec<RoundAudit>,
    pub presentation: Presentation,
    /// Recent command ids, oldest first.
    pub recent_commands: VecDeque<String>,
    pub connections: [usize; 3],
    pub connection_generation: [u64; 3],
    pub deleted: bool,
}

/// A refused request: an HTTP status and the error body sent back.
#[derive(Clone, Debug, Eq, PartialEq)]
pub struct ApiFailure {
    pub status: u16,
    pub body: ApiError,
}

pub open spec fn failure(status: u16, code: Seq<char>, message: Seq<char>, revision: Option<u64>) -> (
    u16,
    Seq<char>,
    Seq<char>,
    Option<u64>,
) {
    (status, code, message, revision)
}

impl ApiFailure {
    /// The failure as plain values: status, code, message, revision.
    pub open spec fn parts(&self) -> (u16, Seq<char>, Seq<char>, Option<u64>) {
        (self.status, self.body.code@, self.body.message@, self.body.current_revision)
    }

    pub fn new(status: u16, code: &str, message: String, revision: Option<u64>) -> (f: ApiFailure)
        ensures
            f.parts() == failure(status, code@, message@, revision),
    {
        ApiFailure {
            status,
            body: ApiError { code: String::from_str(code), message, current_revision: revision },
        }
    }

    pub fn bad_request(code: &str, message: String) -> (f: ApiFailure)
        ensures
            f.parts() == failure(400, code@, message@, None),
    {
        ApiFailure::new(400, code, message, None)
    }

    pub fn unauthorized(message: String) -> (f: ApiFailure)
        ensures
            f.parts() == failure(401, "unauthorized"@, message@, None),
    {
        ApiFailure::new(401, "unauthorized", message, None)
    }

    pub fn forbidden(message: String) -> (f: ApiFailure)
        ensures
            f.parts() == failure(403, "forbidden"@, message@, None),
    {
        ApiFailure::new(403, "forbidden", message, None)
    }

    pub fn not_found(code: &str, message: String) -> (f: ApiFailure)
        ensures
            f.parts() == failure(404, code@, message@, None),
    {
        ApiFailure::new(404, code, message, None)
    }

    pub fn conflict(code: &str, message: String, revision: Option<u64>) -> (f: ApiFailure)
        ensures
            f.parts() == failure(409, code@, message@, revision),
    {
        ApiFailure::new(409, code, message, revision)
    }

    pub fn internal(message: String) -> (f: ApiFailure)
        ensures
            f.parts() == failure(500, "internal"@, message@, None),
    {
        ApiFailure::new(500, "internal", message, None)
    }
}

/// `char::is_whitespace`: the Unicode `White_Space` characters.
pub open spec fn is_white_space(c: char) -> bool {
    let u = c as u32;
    (0x09 <= u && u <= 0x0d) || u == 0x20 || u == 0x85 || u == 0xa0 || u == 0x1680 || (0x2000
        <= u && u <= 0x200a) || u == 0x2028 || u == 0x2029 || u == 0x202f || u == 0x205f || u
        == 0x3000
}

/// `char::is_control`: the characters of general category `Cc`.
pub open spec fn is_control_char(c: char) -> bool {
    let u = c as u32;
    u <= 0x1f || (0x7f <= u && u <= 0x9f)
}

pub open spec fn is_path_char(c: char) -> bool {
    c == '/' || c == '?' || c == '#' || c == '%'
}

/// A name a room or a player may carry: not blank, at most 48 bytes, no
/// control characters and none of `/ ? # %`.
pub open spec fn identifier_ok(s: Seq<char>) -> bool {
    &&& exists|i: int| 0 <= i < s.len() && !is_white_space(#[trigger] s[i])
    &&& encode_utf8(s).len() <= 48
    &&& forall|i: int|
        0 <= i < s.len() ==> !is_control_char(#[trigger] s[i]) && !is_path_char(s[i])
}

/// The refusal of a name given for `field`.
pub open spec fn identifier_message(field: Seq<char>) -> Seq<char> {
    field + " must contain 1 to 48 printable characters"@
}

/// The refusal of a secret given for `field`.
pub open spec fn secret_message(field: Seq<char>) -> Seq<char> {
    field + " must contain 1 to 128 single-line characters"@
}

/// A password or token: 1 to 128 bytes on a single line, no NUL.
pub open spec fn secret_ok(s: Seq<char>) -> bool {
    &&& s.len() > 0
    &&& encode_utf8(s).len() <= 128
    &&& forall|i: int| 0 <= i < s.len() ==> #[trigger] s[i] != '\r' && s[i] != '\n' && s[i] != '\0'
}

/// UTF-8 encoding distributes over concatenation.
pub proof fn lemma_encode_utf8_append(a: Seq<char>, b: Seq<char>)
    ensures
        encode_utf8(a + b) == encode_utf8(a) + encode_utf8(b),
    decreases a.len(),
{
    if a.len() == 0 {
        assert(a + b =~= b);
        assert(encode_utf8(a) =~= Seq::<u8>::empty());
        assert(encode_utf8(a) + encode_utf8(b) =~= encode_utf8(b));
    } else {
        lemma_encode_utf8_append(a.drop_first(), b);
        assert((a + b).drop_first() =~= a.drop_first() + b);
        assert((a + b)[0] == a[0]);
        assert(encode_utf8(a + b) =~= encode_scalar(a[0] as u32) + (encode_utf8(a.drop_first())
            + encode_utf8(b)));
    }
}

fn char_width(c: char) -> (w: usize)
    ensures
        w == encode_scalar(c as u32).len(),
        1 <= w <= 4,
{
    let u = c as u32;
    if u <= 0x7f {
        1
    } else if u <= 0x7ff {
        2
    } else if u <= 0xffff {
        3
    } else {
        4
    }
}

/// Whether the UTF-8 encoding of `s` takes at most `limit` bytes. Reads at
/// most `limit + 1` characters.
fn utf8_len_at_most(s: &str, limit: usize) -> (b: bool)
    requires
        limit <= 1_000,
    ensures
        b == (encode_utf8(s@).len() <= limit),
{
    let n = s.unicode_len();
    let mut bytes: usize = 0;
    let mut i: usize = 0;
    assert(s@.take(0) =~= Seq::<char>::empty());
    while i < n
        invariant
            n == s@.len(),
            i <= n,
            limit <= 1_000,
            bytes == encode_utf8(s@.take(i as int)).len(),
            bytes <= limit,
        decreases n - i,
    {
        let c = s.get_char(i);
        let w = char_width(c);
        proof {
            assert(s@.take(i as int + 1) =~= s@.take(i as int) + seq![c]);
            lemma_encode_utf8_append(s@.take(i as int), seq![c]);
            let one = seq![c];
            assert(one.drop_first() =~= Seq::<char>::empty());
            assert(encode_utf8(one.drop_first()) =~= Seq::<u8>::empty());
            assert(one[0] == c);
            assert(encode_utf8(one) == encode_scalar(one[0] as u32) + encode_utf8(one.drop_first()));
            assert(encode_utf8(one) =~= encode_scalar(c as u32));
        }
        if bytes + w > limit {
            proof {
                assert(s@ =~= s@.take(i as int + 1) + s@.skip(i as int + 1));
                lemma_encode_utf8_append(s@.take(i as int + 1), s@.skip(i as int + 1));
            }
            return false;
        }
        bytes = bytes + w;
        i = i + 1;
    }
    assert(s@.take(n as int) =~= s@);
    true
}

fn white_space(c: char) -> (b: bool)
    ensures
        b == is_white_space(c),
{
    let u = c as u32;
    (0x09 <= u && u <= 0x0d) || u == 0x20 || u == 0x85 || u == 0xa0 || u == 0x1680 || (0x2000
        <= u && u <= 0x200a) || u == 0x2028 || u == 0x2029 || u == 0x202f || u == 0x205f || u
        == 0x3000
}

/// Checks a room or player name; the error names `field`.
pub fn validate_identifier(value: &str, field: &str) -> (r: Result<(), ApiFailure>)
    ensures
        r is Ok <==> identifier_ok(value@),
        r matches Err(f) ==> f.parts() == failure(
            400,
            "invalid_identifier"@,
            identifier_message(field@),
            None,
        ),
{
    let mut ok = utf8_len_at_most(value, 48);
    if ok {
        let n = value.unicode_len();
        let mut printable = false;
        let mut clean = true;
        let mut i: usize = 0;
        while i < n
            invariant
                n == value@.len(),
                i <= n,
                printable == exists|k: int| 0 <= k < i && !is_white_space(#[trigger] value@[k]),
                clean == forall|k: int|
                    0 <= k < i ==> !is_control_char(#[trigger] value@[k]) && !is_path_char(
                        value@[k],
                    ),
            decreases n - i,
        {
            let c = value.get_char(i);
            if !white_space(c) {
                printable = true;
            }
            let u = c as u32;
            if u <= 0x1f || (0x7f <= u && u <= 0x9f) || c == '/' || c == '?' || c == '#' || c
                == '%' {
                clean = false;
            }
            i = i + 1;
        }
        ok = printable && clean;
    }
    if ok {
        Ok(())
    } else {
        let mut message = String::from_str(field);
        message.append(" must contain 1 to 48 printable characters");
        Err(ApiFailure::bad_request("invalid_identifier", message))
    }
}

/// Checks a password or token; the error names `field`.
pub fn validate_secret(value: &str, field: &str) -> (r: Result<(), ApiFailure>)
    ensures
        r is Ok <==> secret_ok(value@),
        r matches Err(f) ==> f.parts() == failure(
            400,
            "invalid_secret"@,
            secret_message(field@),
            None,
        ),
{
    let n = value.unicode_len();
    let mut ok = n > 0 && utf8_len_at_most(value, 128);
    if ok {
        let mut i: usize = 0;
        while i < n
            invariant
                n == value@.len(),
                i <= n,
                ok == forall|k: int|
                    0 <= k < i ==> #[trigger] value@[k] != '\r' && value@[k] != '\n' && value@[k]
                        != '\0',
            decreases n - i,
        {
            let c = value.get_char(i);
            if c == '\r' || c == '\n' || c == '\0' {
                ok = false;
            }
            i = i + 1;
        }
    }
    if ok {
        Ok(())
    } else {
        let mut message = String::from_str(field);
        message.append(" must contain 1 to 128 single-line characters");
        Err(ApiFailure::bad_request("invalid_secret", message))
    }
}

/// The value of one digit in `radix` (10 or 16), if it is one.
pub open spec fn digit_value(c: char, radix: nat) -> Option<nat> {
    if '0' <= c && c <= '9' {
        Some((c as u32 - '0' as u32) as nat)
    } else if radix == 16 && 'a' <= c && c <= 'f' {
        Some((c as u32 - 'a' as u32 + 10) as nat)
    } else if radix == 16 && 'A' <= c && c <= 'F' {
        Some((c as u32 - 'A' as u32 + 10) as nat)
    } else {
        None
    }
}

/// The number a run of digits denotes, if every character is a digit.
pub open spec fn digits_value(s: Seq<char>, radix: nat) -> Option<nat>
    decreases s.len(),
{
    if s.len() == 0 {
        Some(0)
    } else {
        match (digits_value(s.drop_last(), radix), digit_value(s.last(), radix)) {
            (Some(high), Some(low)) => Some(high * radix + low),
            _ => None,
        }
    }
}

/// The text after an optional leading `+`.
pub open spec fn without_plus(s: Seq<char>) -> Seq<char> {
    if s.len() > 0 && s[0] == '+' {
        s.skip(1)
    } else {
        s
    }
}

/// `u64::from_str_radix`: an optional `+`, at least one digit, and a value
/// that fits.
pub open spec fn unsigned_value(s: Seq<char>, radix: nat) -> Option<u64> {
    let digits = without_plus(s);
    if digits.len() == 0 {
        None
    } else {
        match digits_value(digits, radix) {
            Some(v) => if v <= u64::MAX {
                Some(v as u64)
            } else {
                None
            },
            None => None,
        }
    }
}

/// A room seed: decimal, or hexadecimal after `0x` or `0X`.
pub open spec fn seed_value(s: Seq<char>) -> Option<u64> {
    if s.len() >= 2 && s[0] == '0' && (s[1] == 'x' || s[1] == 'X') {
        unsigned_value(s.skip(2), 16)
    } else {
        unsigned_value(s, 10)
    }
}

fn digit_of(c: char, radix: u64) -> (d: Option<u64>)
    requires
        radix == 10 || radix == 16,
    ensures
        d matches Some(v) ==> digit_value(c, radix as nat) == Some(v as nat) && v < radix,
        d is None ==> digit_value(c, radix as nat) is None,
{
    let u = c as u32;
    if '0' <= c && c <= '9' {
        Some((u - 48) as u64)
    } else if radix == 16 && 'a' <= c && c <= 'f' {
        Some((u - 97 + 10) as u64)
    } else if radix == 16 && 'A' <= c && c <= 'F' {
        Some((u - 65 + 10) as u64)
    } else {
        None
    }
}

proof fn lemma_digits_monotone(s: Seq<char>, radix: nat, k: int)
    requires
        radix == 10 || radix == 16,
        0 <= k <= s.len(),
        digits_value(s, radix) is Some,
    ensures
        digits_value(s.take(k), radix) is Some,
        digits_value(s.take(k), radix)->Some_0 <= digits_value(s, radix)->Some_0,
    decreases s.len() - k,
{
    if k < s.len() {
        let t = s.take(k + 1);
        lemma_digits_monotone(s, radix, k + 1);
        assert(t.drop_last() =~= s.take(k));
        let high = digits_value(s.take(k), radix)->Some_0;
        assert(digits_value(t, radix)->Some_0 >= high * radix);
        assert(high * radix >= high) by (nonlinear_arith)
            requires
                radix >= 1,
        ;
    } else {
        assert(s.take(k) =~= s);
    }
}

/// Parses the digits of `s` from position `from` on, in `radix`.
fn parse_digits(s: &str, from: usize, radix: u64) -> (r: Option<u64>)
    requires
        radix == 10 || radix == 16,
        from <= s@.len(),
    ensures
        r == unsigned_value(s@.skip(from as int), radix as nat),
{
    let n = s.unicode_len();
    let mut start = from;
    if start < n && s.get_char(start) == '+' {
        start = start + 1;
    }
    let ghost digits = without_plus(s@.skip(from as int));
    assert(digits =~= s@.skip(start as int));
    if start == n {
        return None;
    }
    let mut value: u64 = 0;
    let mut i: usize = start;
    assert(digits.take(0) =~= Seq::<char>::empty());
    while i < n
        invariant
            n == s@.len(),
            start <= i <= n,
            radix == 10 || radix == 16,
            digits == s@.skip(start as int),
            digits == without_plus(s@.skip(from as int)),
            digits.len() > 0,
            digits_value(digits.take(i - start), radix as nat) == Some(value as nat),
        decreases n - i,
    {
        let c = s.get_char(i);
        let t = i - start;
        assert(digits.take(t as int + 1).drop_last() =~= digits.take(t as int));
        assert(digits.take(t as int + 1).last() == c);
        match digit_of(c, radix) {
            None => {
                proof {
                    if digits_value(digits, radix as nat) is Some {
                        lemma_digits_monotone(digits, radix as nat, t as int + 1);
                    }
                }
                return None;
            },
            Some(d) => {
                let next = match value.checked_mul(radix) {
                    Some(m) => m.checked_add(d),
                    None => None,
                };
                match next {
                    Some(v) => {
                        value = v;
                    },
                    None => {
                        proof {
                            if digits_value(digits, radix as nat) is Some {
                                lemma_digits_monotone(digits, radix as nat, t as int + 1);
                                assert(value * radix + d > u64::MAX) by (nonlinear_arith)
                                    requires
                                        value * radix > u64::MAX || value * radix + d > u64::MAX,
                                ;
                            }
                        }
                        return None;
                    },
                }
            },
        }
        i = i + 1;
    }
    assert(digits.take(n - start) =~= digits);
    Some(value)
}

/// Parses a room seed: an unsigned decimal, or hexadecimal after `0x`.
pub fn parse_seed(value: &str) -> (r: Result<u64, ApiFailure>)
    ensures
        r matches Ok(v) ==> seed_value(value@) == Some(v),
        r is Err <==> seed_value(value@) is None,
        r matches Err(f) ==> f.parts() == failure(
            400,
            "invalid_seed"@,
            "seed must be an unsigned decimal or 0x-prefixed hexadecimal integer"@,
            None,
        ),
{
    let n = value.unicode_len();
    let hex = n >= 2 && value.get_char(0) == '0' && (value.get_char(1) == 'x' || value.get_char(1)
        == 'X');
    let parsed = if hex {
        parse_digits(value, 2, 16)
    } else {
        assert(value@.skip(0) =~= value@);
        parse_digits(value, 0, 10)
    };
    match parsed {
        Some(v) => Ok(v),
        None => Err(
            ApiFailure::bad_request(
                "invalid_seed",
                String::from_str("seed must be an unsigned decimal or 0x-prefixed hexadecimal integer"),
            ),
        ),
    }
}

/// A log detail on one line: backslashes doubled and line breaks and tabs
/// written as escapes.
pub open spec fn escaped_spec(s: Seq<char>) -> Seq<char>
    decreases s.len(),
{
    if s.len() == 0 {
        Seq::empty()
    } else {
        let c = s.last();
        escaped_spec(s.drop_last()) + if c == '\\' {
            "\\\\"@
        } else if c == '\n' {
            "\\n"@
        } else if c == '\r' {
            "\\r"@
        } else if c == '\t' {
            "\\t"@
        } else {
            seq![c]
        }
    }
}

/// Escapes a log detail so it cannot start a new log line.
pub fn escaped(value: &str) -> (s: String)
    ensures
        s@ == escaped_spec(value@),
{
    let n = value.unicode_len();
    let mut s = String::new();
    let mut i: usize = 0;
    assert(value@.take(0) =~= Seq::<char>::empty());
    while i < n
        invariant
            n == value@.len(),
            i <= n,
            s@ == escaped_spec(value@.take(i as int)),
        decreases n - i,
    {
        let c = value.get_char(i);
        assert(value@.take(i as int + 1).drop_last() =~= value@.take(i as int));
        if c == '\\' {
            s.append("\\\\");
        } else if c == '\n' {
            s.append("\\n");
        } else if c == '\r' {
            s.append("\\r");
        } else if c == '\t' {
            s.append("\\t");
        } else {
            let one = value.substring_char(i, i + 1);
            assert(one@ =~= seq![c]);
            s.append(one);
        }
        i = i + 1;
    }
    assert(value@.take(n as int) =~= value@);
    s
}

/// One omniscient log line: `room=<room> <verb> <detail>`, room and detail
/// escaped.
pub fn log_line(room: &str, verb: &str, detail: &str) -> (s: String)
    ensures
        s@ == "room="@ + escaped_spec(room@) + " "@ + verb@ + " "@ + escaped_spec(detail@),
{
    let mut s = String::from_str("room=");
    let r = escaped(room);
    s.append(r.as_str());
    s.append(" ");
    s.append(verb);
    s.append(" ");
    let d = escaped(detail);
    s.append(d.as_str());
    s
}

/// The conflict reported for an action the rules refuse.
pub fn rule_failure(error: &RuleError) -> (f: ApiFailure)
    ensures
        f.parts() == failure(
            409,
            "rule_violation"@,
            crate::tysiac::rule_error_text(*error),
            None,
        ),
{
    ApiFailure::conflict("rule_violation", error.to_string(), None)
}

pub fn room_not_found() -> (f: ApiFailure)
    ensures
        f.parts() == failure(404, "room_not_found"@, "room does not exist"@, None),
{
    ApiFailure::not_found("room_not_found", String::from_str("room does not exist"))
}

/// Which seats have a live connection.
pub fn connected(counts: &[usize; 3]) -> (c: [bool; 3])
    ensures
        forall|i: int| 0 <= i < 3 ==> c[i] == (counts[i] > 0),
{
    [counts[0] > 0, counts[1] > 0, counts[2] > 0]
}

/// A base seed from the clock: the seconds since the epoch with their two
/// halves swapped, mixed with the nanoseconds by exclusive or.
pub open spec fn time_seed_spec(secs: u64, subsec_nanos: u32) -> u64 {
    (((secs % 0x1_0000_0000) * 0x1_0000_0000 + secs / 0x1_0000_0000) as u64) ^ (subsec_nanos as u64)
}

pub fn time_seed(secs: u64, subsec_nanos: u32) -> (seed: u64)
    ensures
        seed == time_seed_spec(secs, subsec_nanos),
{
    let rotated = (secs << 32u64) | (secs >> 32u64);
    assert(rotated == ((secs % 0x1_0000_0000) * 0x1_0000_0000 + secs / 0x1_0000_0000) as u64)
        by (bit_vector)
        requires
            rotated == (secs << 32u64) | (secs >> 32u64),
    ;
    rotated ^ (subsec_nanos as u64)
}

/// Milliseconds since the epoch, stopping at `u64::MAX`.
pub open spec fn now_ms_spec(secs: u64, subsec_millis: u32) -> u64 {
    if secs * 1000 + subsec_millis > u64::MAX {
        u64::MAX
    } else {
        (secs * 1000 + subsec_millis) as u64
    }
}

pub fn now_ms(secs: u64, subsec_millis: u32) -> (ms: u64)
    ensures
        ms == now_ms_spec(secs, subsec_millis),
{
    let whole = match secs.checked_mul(1_000) {
        Some(m) => m,
        None => u64::MAX,
    };
    whole.saturating_add(subsec_millis as u64)
}

/// An escaped log detail holds no line break, so it cannot start a new log
/// line.
pub proof fn lemma_escaped_is_one_line(s: Seq<char>)
    ensures
        forall|i: int|
            0 <= i < escaped_spec(s).len() ==> #[trigger] escaped_spec(s)[i] != '\n'
                && escaped_spec(s)[i] != '\r',
    decreases s.len(),
{
    reveal_strlit("\\\\");
    reveal_strlit("\\n");
    reveal_strlit("\\r");
    reveal_strlit("\\t");
    if s.len() > 0 {
        lemma_escaped_is_one_line(s.drop_last());
        let head = escaped_spec(s.drop_last());
        let c = s.last();
        let tail = if c == '\\' {
            "\\\\"@
        } else if c == '\n' {
            "\\n"@
        } else if c == '\r' {
            "\\r"@
        } else if c == '\t' {
            "\\t"@
        } else {
            seq![c]
        };
        assert(escaped_spec(s) == head + tail);
        assert forall|i: int| 0 <= i < escaped_spec(s).len() implies #[trigger] escaped_spec(s)[i]
            != '\n' && escaped_spec(s)[i] != '\r' by {
            if i < head.len() {
                assert(escaped_spec(s)[i] == head[i]);
            } else {
                assert(escaped_spec(s)[i] == tail[i - head.len()]);
            }
        }
    }
}

} // verus!
