//! Decoding hexadecimal text into bytes, for the fixed group constants.

use vstd::prelude::*;

verus! {

/// The value of one hexadecimal digit, `None` when the character is not
/// one. Both letter cases are digits.
pub open spec fn hex_digit_value(c: char) -> Option<int> {
    if '0' <= c && c <= '9' {
        Some(c as u32 - '0' as u32)
    } else if 'A' <= c && c <= 'F' {
        Some(c as u32 - 'A' as u32 + 10)
    } else if 'a' <= c && c <= 'f' {
        Some(c as u32 - 'a' as u32 + 10)
    } else {
        None
    }
}

/// The bytes written by a string of hexadecimal digits, two digits per
/// byte; `None` when the length is odd or a character is not a digit.
pub open spec fn hex_bytes(s: Seq<char>) -> Option<Seq<u8>>
    decreases s.len(),
{
    if s.len() == 0 {
        Some(Seq::empty())
    } else if s.len() == 1 {
        None
    } else {
        match (hex_digit_value(s[0]), hex_digit_value(s[1]), hex_bytes(s.skip(2))) {
            (Some(hi), Some(lo), Some(rest)) => Some(seq![(hi * 16 + lo) as u8] + rest),
            _ => None,
        }
    }
}

/// A string of even length whose characters are all hexadecimal digits
/// decodes to bytes.
pub proof fn lemma_hex_bytes_total(s: Seq<char>)
    requires
        s.len() % 2 == 0,
        forall|i: int| 0 <= i < s.len() ==> hex_digit_value(#[trigger] s[i]) is Some,
    ensures
        hex_bytes(s) is Some,
    decreases s.len(),
{
    if s.len() > 0 {
        let t = s.skip(2);
        assert forall|i: int| 0 <= i < t.len() implies hex_digit_value(#[trigger] t[i]) is Some by {
            assert(t[i] == s[i + 2]);
        }
        lemma_hex_bytes_total(t);
    }
}

/// Relies on `hex::decode`: it succeeds exactly on digit strings of even
/// length and yields one byte per digit pair; its error is flattened to
/// `None`.
#[verifier::external_body]
pub(crate) fn hex_decode(s: &str) -> (r: Option<Vec<u8>>)
    ensures
        (match r {
            Some(v) => hex_bytes(s@) == Some(v@),
            None => hex_bytes(s@) is None,
        }),
{
    match hex::decode(s) {
        Ok(v) => Some(v),
        Err(_) => None,
    }
}

} // verus!
