//! Decimal and list rendering for event messages and audit lines.
use vstd::prelude::*;

use vstd::utf8::encode_utf8;

verus! {

pub open spec fn digit_text(d: nat) -> Seq<char> {
    if d == 0 {
        "0"@
    } else if d == 1 {
        "1"@
    } else if d == 2 {
        "2"@
    } else if d == 3 {
        "3"@
    } else if d == 4 {
        "4"@
    } else if d == 5 {
        "5"@
    } else if d == 6 {
        "6"@
    } else if d == 7 {
        "7"@
    } else if d == 8 {
        "8"@
    } else {
        "9"@
    }
}

/// The decimal digits of `n`, without leading zeros.
pub open spec fn decimal(n: nat) -> Seq<char>
    decreases n,
{
    if n < 10 {
        digit_text(n)
    } else {
        decimal(n / 10) + digit_text(n % 10)
    }
}

/// A signed decimal: a minus sign before the digits of a negative number.
pub open spec fn signed_decimal(n: int) -> Seq<char> {
    if n < 0 {
        "-"@ + decimal((-n) as nat)
    } else {
        decimal(n as nat)
    }
}

fn digit_str(d: u64) -> (s: &'static str)
    requires
        d < 10,
    ensures
        s@ == digit_text(d as nat),
{
    if d == 0 {
        "0"
    } else if d == 1 {
        "1"
    } else if d == 2 {
        "2"
    } else if d == 3 {
        "3"
    } else if d == 4 {
        "4"
    } else if d == 5 {
        "5"
    } else if d == 6 {
        "6"
    } else if d == 7 {
        "7"
    } else if d == 8 {
        "8"
    } else {
        "9"
    }
}

/// Appends the decimal digits of `n`.
pub fn push_decimal(s: &mut String, n: u64)
    ensures
        final(s)@ == old(s)@ + decimal(n as nat),
    decreases n,
{
    if n >= 10 {
        push_decimal(s, n / 10);
    }
    s.append(digit_str(n % 10));
    assert(final(s)@ == old(s)@ + decimal(n as nat)) by {
        if n >= 10 {
            assert(decimal(n as nat) == decimal((n / 10) as nat) + digit_text((n % 10) as nat));
        }
    }
}

/// Appends a signed decimal.
pub fn push_signed(s: &mut String, n: i64)
    requires
        n > i64::MIN,
    ensures
        final(s)@ == old(s)@ + signed_decimal(n as int),
{
    if n < 0 {
        s.append("-");
        push_decimal(s, (0 - n) as u64);
    } else {
        push_decimal(s, n as u64);
    }
}

/// `[a, b, c]` with the items in signed decimal.
pub open spec fn list_text(items: Seq<int>) -> Seq<char>
    decreases items.len(),
{
    "["@ + list_items_text(items) + "]"@
}

pub open spec fn list_items_text(items: Seq<int>) -> Seq<char>
    decreases items.len(),
{
    if items.len() == 0 {
        Seq::empty()
    } else if items.len() == 1 {
        signed_decimal(items[0])
    } else {
        list_items_text(items.drop_last()) + ", "@ + signed_decimal(items.last())
    }
}

/// Appends three numbers as a bracketed, comma-separated list.
pub fn push_triple(s: &mut String, a: i64, b: i64, c: i64)
    requires
        a > i64::MIN,
        b > i64::MIN,
        c > i64::MIN,
    ensures
        final(s)@ == old(s)@ + list_text(seq![a as int, b as int, c as int]),
{
    let ghost start = s@;
    s.append("[");
    push_signed(s, a);
    s.append(", ");
    push_signed(s, b);
    s.append(", ");
    push_signed(s, c);
    s.append("]");
    let ghost l3 = seq![a as int, b as int, c as int];
    let ghost l2 = seq![a as int, b as int];
    let ghost l1 = seq![a as int];
    assert(l3.drop_last() =~= l2);
    assert(l2.drop_last() =~= l1);
    assert(list_items_text(l1) == signed_decimal(a as int));
    assert(list_items_text(l2) == list_items_text(l1) + ", "@ + signed_decimal(b as int));
    assert(list_items_text(l3) == list_items_text(l2) + ", "@ + signed_decimal(c as int));
    assert(s@ =~= start + ("["@ + list_items_text(l3) + "]"@));
}

/// Whether two strings hold the same characters.
pub fn same_text(a: &str, b: &str) -> (r: bool)
    ensures
        r == (a@ == b@),
{
    let n = a.unicode_len();
    if n != b.unicode_len() {
        return false;
    }
    let mut i: usize = 0;
    while i < n
        invariant
            n == a@.len(),
            n == b@.len(),
            i <= n,
            forall|k: int| 0 <= k < i ==> a@[k] == b@[k],
        decreases n - i,
    {
        if a.get_char(i) != b.get_char(i) {
            return false;
        }
        i = i + 1;
    }
    assert(a@ =~= b@);
    true
}

/// A byte that URL encoding leaves as it is: ASCII letters and digits and
/// `- . _ ~`.
pub open spec fn url_safe_byte(b: u8) -> bool {
    (48 <= b <= 57) || (65 <= b <= 90) || (97 <= b <= 122) || b == 45 || b == 46 || b == 95 || b
        == 126
}

/// An upper-case hexadecimal digit.
pub open spec fn upper_hex_digit(d: int) -> char {
    if d < 10 {
        (48 + d) as char
    } else {
        (55 + d) as char
    }
}

/// Percent-encoding of a byte string: safe bytes stay, every other byte
/// becomes `%` and two upper-case hexadecimal digits.
pub open spec fn url_encoded(bytes: Seq<u8>) -> Seq<char>
    decreases bytes.len(),
{
    if bytes.len() == 0 {
        Seq::empty()
    } else {
        let b = bytes.last();
        url_encoded(bytes.drop_last()) + if url_safe_byte(b) {
            seq![b as char]
        } else {
            seq!['%', upper_hex_digit((b / 16) as int), upper_hex_digit((b % 16) as int)]
        }
    }
}

/// `urlencoding::encode`: percent-encodes every byte of the UTF-8 text except
/// ASCII letters, digits and `- . _ ~`, writing upper-case hexadecimal digits.
#[verifier::external_body]
pub(crate) fn url_encode(s: &str) -> (e: String)
    ensures
        e@ == url_encoded(encode_utf8(s@)),
{
    urlencoding::encode(s).into_owned()
}

} // verus!
