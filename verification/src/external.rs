//! The calls into `uuid` and `chrono`: fresh identifiers and the current time.

use vstd::prelude::*;

verus! {

/// A lower-case hexadecimal digit.
pub open spec fn is_lower_hex(c: char) -> bool {
    ('0' <= c && c <= '9') || ('a' <= c && c <= 'f')
}

/// The hyphenated lower-case text of a version 4 UUID: 36 characters,
/// hyphens at 8, 13, 18 and 23, lower-case hex digits elsewhere, the
/// version digit `4` at 14 and a variant digit of 8, 9, a or b at 19.
pub open spec fn is_uuid_v4_text(s: Seq<char>) -> bool {
    &&& s.len() == 36
    &&& forall|i: int|
        0 <= i < 36 ==> if i == 8 || i == 13 || i == 18 || i == 23 {
            #[trigger] s[i] == '-'
        } else {
            is_lower_hex(s[i])
        }
    &&& s[14] == '4'
    &&& s[19] == '8' || s[19] == '9' || s[19] == 'a' || s[19] == 'b'
}

/// A decimal digit.
pub open spec fn is_digit(c: char) -> bool {
    '0' <= c && c <= '9'
}

/// The year part of a time stamp, the characters before `-MM-DD...`: four
/// digits, or, for a year outside 0 to 9999, a sign and at least four digits.
pub open spec fn is_stamp_year(y: Seq<char>) -> bool {
    ||| y.len() == 4 && forall|i: int| 0 <= i < 4 ==> is_digit(#[trigger] y[i])
    ||| y.len() >= 5 && (y[0] == '+' || y[0] == '-') && forall|i: int|
        1 <= i < y.len() ==> is_digit(#[trigger] y[i])
}

/// An RFC 3339 UTC time stamp with whole seconds and a `Z` suffix:
/// a year, then `-MM-DDTHH:MM:SSZ`, every field of two digits.
pub open spec fn is_utc_seconds_stamp(s: Seq<char>) -> bool {
    let n = s.len() as int;
    &&& n >= 20
    &&& is_stamp_year(s.subrange(0, n - 16))
    &&& s[n - 16] == '-'
    &&& is_digit(s[n - 15]) && is_digit(s[n - 14])
    &&& s[n - 13] == '-'
    &&& is_digit(s[n - 12]) && is_digit(s[n - 11])
    &&& s[n - 10] == 'T'
    &&& is_digit(s[n - 9]) && is_digit(s[n - 8])
    &&& s[n - 7] == ':'
    &&& is_digit(s[n - 6]) && is_digit(s[n - 5])
    &&& s[n - 4] == ':'
    &&& is_digit(s[n - 3]) && is_digit(s[n - 2])
    &&& s[n - 1] == 'Z'
}

/// A fresh random identifier: `uuid::Uuid::new_v4`, written with `to_string`.
/// The contract states the text's shape, which `uuid`'s hyphenated
/// formatting and the version and variant bits of `new_v4` give; which
/// identifier comes out is left open (it is random).
#[verifier::external_body]
pub(crate) fn new_uuid() -> (r: String)
    ensures
        is_uuid_v4_text(r@),
{
    uuid::Uuid::new_v4().to_string()
}

/// The current time: `chrono::Utc::now()` written by `to_rfc3339_opts`
/// with whole seconds and `Z` for UTC. The contract states the shape of the
/// text, which `chrono`'s RFC 3339 writer gives (two digits for each field
/// after the year; four digits for a year from 0 to 9999, else a sign and
/// at least four digits); which time comes out is left open, as it is the
/// clock's.
#[verifier::external_body]
pub(crate) fn now() -> (r: String)
    ensures
        is_utc_seconds_stamp(r@),
{
    chrono::Utc::now().to_rfc3339_opts(chrono::SecondsFormat::Secs, true)
}

} // verus!
