//! Fresh credentials: reconnect tokens and generated referee passwords.
use vstd::prelude::*;

verus! {

pub open spec fn is_lower_hex(c: char) -> bool {
    ('0' <= c && c <= '9') || ('a' <= c && c <= 'f')
}

/// A generated credential: 32 lower-case hexadecimal digits.
pub open spec fn token_ok(t: Seq<char>) -> bool {
    &&& t.len() == 32
    &&& forall|i: int| 0 <= i < 32 ==> is_lower_hex(#[trigger] t[i])
}

/// `uuid::Uuid::new_v4` written with `simple()`: a random version-4 UUID as 32
/// lower-case hexadecimal digits without hyphens. Which digits come out is
/// left open; the call fails only when the operating system cannot supply
/// random bytes.
#[verifier::external_body]
pub(crate) fn new_token() -> (t: String)
    ensures
        token_ok(t@),
{
    uuid::Uuid::new_v4().simple().to_string()
}

} // verus!
