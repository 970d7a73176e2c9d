//! Record identifiers: the textual forms of a UUID, and the calls that make
//! and recognise them.

use vstd::prelude::*;
use vstd::string::*;

verus! {

/// An ASCII hexadecimal digit of either case.
pub open spec fn is_hex_digit(c: char) -> bool {
    ('0' <= c <= '9') || ('a' <= c <= 'f') || ('A' <= c <= 'F')
}

/// Thirty-two hexadecimal digits.
pub open spec fn is_simple_uuid(s: Seq<char>) -> bool {
    s.len() == 32 && forall|i: int| 0 <= i < 32 ==> is_hex_digit(#[trigger] s[i])
}

/// Hexadecimal digits in groups of 8, 4, 4, 4 and 12 with `-` between them:
/// thirty-six characters.
pub open spec fn is_hyphenated_uuid(s: Seq<char>) -> bool {
    s.len() == 36 && forall|i: int|
        0 <= i < 36 ==> if i == 8 || i == 13 || i == 18 || i == 23 {
            #[trigger] s[i] == '-'
        } else {
            is_hex_digit(s[i])
        }
}

/// `c` is the letter `lower` in either case.
pub open spec fn is_letter(c: char, lower: char, upper: char) -> bool {
    c == lower || c == upper
}

/// The nine characters `urn:uuid:`, letters in either case.
pub open spec fn is_urn_prefix(s: Seq<char>) -> bool {
    &&& s.len() == 9
    &&& is_letter(s[0], 'u', 'U')
    &&& is_letter(s[1], 'r', 'R')
    &&& is_letter(s[2], 'n', 'N')
    &&& s[3] == ':'
    &&& is_letter(s[4], 'u', 'U')
    &&& is_letter(s[5], 'u', 'U')
    &&& is_letter(s[6], 'i', 'I')
    &&& is_letter(s[7], 'd', 'D')
    &&& s[8] == ':'
}

/// One of the four textual forms of a UUID: simple, hyphenated, hyphenated
/// in braces, or hyphenated behind `urn:uuid:`.
pub open spec fn is_uuid_text(s: Seq<char>) -> bool {
    ||| is_simple_uuid(s)
    ||| is_hyphenated_uuid(s)
    ||| (s.len() == 38 && s[0] == '{' && s[37] == '}' && is_hyphenated_uuid(s.subrange(1, 37)))
    ||| (s.len() == 45 && is_urn_prefix(s.take(9)) && is_hyphenated_uuid(s.skip(9)))
}

/// The identifier of a record as the datastore knows it: thirty-six
/// characters that read as a UUID.
pub open spec fn is_record_id(s: Seq<char>) -> bool {
    s.len() == 36 && is_uuid_text(s)
}

/// `uuid::Uuid::new_v4` written by `to_string`: a random UUID in the
/// hyphenated form, which is all that is claimed of it.
#[verifier::external_body]
fn random_uuid_text() -> (id: String)
    ensures
        is_hyphenated_uuid(id@),
{
    uuid::Uuid::new_v4().to_string()
}

/// `uuid::Uuid::parse_str`: whether the text reads as a UUID, which it does
/// in exactly the four forms of `is_uuid_text`.
#[verifier::external_body]
fn uuid_parses(s: &str) -> (ok: bool)
    ensures
        ok == is_uuid_text(s@),
{
    uuid::Uuid::parse_str(s).is_ok()
}

/// A fresh identifier for a record: a random UUID in the hyphenated form.
pub fn generate_record_id() -> (id: String)
    ensures
        is_hyphenated_uuid(id@),
        is_record_id(id@),
{
    random_uuid_text()
}

/// Whether the text is the identifier of a record as the datastore knows
/// it: thirty-six characters that read as a UUID.
pub fn is_stored_id(s: &str) -> (b: bool)
    ensures
        b == is_record_id(s@),
        b == is_hyphenated_uuid(s@),
{
    s.unicode_len() == 36 && uuid_parses(s)
}

} // verus!
