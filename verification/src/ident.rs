//! Note identifiers: which texts are UUIDs, and fresh ones.

use vstd::prelude::*;

verus! {

/// Whether `c` is a hexadecimal digit, in either case.
pub open spec fn is_hex(c: char) -> bool {
    ('0' <= c && c <= '9') || ('a' <= c && c <= 'f') || ('A' <= c && c <= 'F')
}

/// Whether `c` is a hexadecimal digit that is no capital letter.
pub open spec fn is_lower_hex(c: char) -> bool {
    ('0' <= c && c <= '9') || ('a' <= c && c <= 'f')
}

/// Whether `text` is 32 hexadecimal digits.
pub open spec fn is_simple(text: Seq<char>) -> bool {
    text.len() == 32 && forall|i: int| 0 <= i < 32 ==> is_hex(#[trigger] text[i])
}

/// Whether `text` is 32 hexadecimal digits in groups of 8, 4, 4, 4 and 12,
/// with a hyphen between the groups.
pub open spec fn is_hyphenated(text: Seq<char>) -> bool {
    text.len() == 36 && forall|i: int|
        0 <= i < 36 ==> if i == 8 || i == 13 || i == 18 || i == 23 {
            (#[trigger] text[i]) == '-'
        } else {
            is_hex(text[i])
        }
}

/// Whether `text` is `urn:uuid:`, in either case of each letter.
pub open spec fn is_urn_prefix(text: Seq<char>) -> bool {
    text.len() == 9 && (text[0] == 'u' || text[0] == 'U') && (text[1] == 'r' || text[1] == 'R')
        && (text[2] == 'n' || text[2] == 'N') && text[3] == ':' && (text[4] == 'u' || text[4]
        == 'U') && (text[5] == 'u' || text[5] == 'U') && (text[6] == 'i' || text[6] == 'I') && (
    text[7] == 'd' || text[7] == 'D') && text[8] == ':'
}

/// Whether `text` is written as a UUID: in 32 digits, in hyphenated groups,
/// in hyphenated groups within braces, or in hyphenated groups behind `urn:uuid:`.
pub open spec fn is_uuid_text(text: Seq<char>) -> bool {
    is_simple(text) || is_hyphenated(text) || (text.len() == 38 && text[0] == '{' && text[37]
        == '}' && is_hyphenated(text.subrange(1, 37))) || (text.len() == 45 && is_urn_prefix(
        text.subrange(0, 9),
    ) && is_hyphenated(text.subrange(9, 45)))
}

/// Whether `text` has the form in which a fresh identifier is written: in
/// hyphenated groups, without capital letters.
pub open spec fn is_fresh_form(text: Seq<char>) -> bool {
    is_hyphenated(text) && forall|i: int|
        0 <= i < 36 && i != 8 && i != 13 && i != 18 && i != 23 ==> is_lower_hex(#[trigger] text[i])
}

/// Calls `uuid::Uuid::try_parse` and says whether it accepted `text`. The
/// parser goes by the length in bytes: 32 bytes must be hexadecimal digits;
/// 36 bytes, 38 bytes within braces, and 45 bytes behind `urn:uuid:` (matched
/// without regard to case) must be hyphenated groups of hexadecimal digits.
/// Every accepted byte is ASCII, so the bytes are the characters.
#[verifier::external_body]
fn uuid_parses(text: &str) -> (accepted: bool)
    ensures
        accepted == is_uuid_text(text@),
{
    uuid::Uuid::try_parse(text).is_ok()
}

/// Calls `uuid::Uuid::new_v4` and writes the identifier with `to_string`,
/// which gives the hyphenated form in lower case. Which identifier comes is
/// left open: it is random. The call panics where the operating system
/// gives no random bytes; no input of the caller's can bring that about.
#[verifier::external_body]
fn random_uuid() -> (id: String)
    ensures
        is_fresh_form(id@),
{
    uuid::Uuid::new_v4().to_string()
}

/// Whether `text` is written as a UUID.
pub fn is_uuid(text: &str) -> (yes: bool)
    ensures
        yes == is_uuid_text(text@),
{
    uuid_parses(text)
}

/// A fresh random identifier. It is written as a UUID. The call panics
/// where the operating system gives no random bytes.
pub fn fresh_uuid() -> (id: String)
    ensures
        is_fresh_form(id@),
        is_uuid_text(id@),
{
    random_uuid()
}

/// The identifier for a note that comes from a file of the stem `stem`:
/// the stem itself where it is written as a UUID, else a fresh identifier.
/// Either way it is written as a UUID.
pub fn adopt_or_fresh(stem: &str) -> (id: String)
    ensures
        is_uuid_text(stem@) ==> id@ == stem@,
        !is_uuid_text(stem@) ==> is_fresh_form(id@),
        is_uuid_text(id@),
{
    if is_uuid(stem) {
        stem.to_owned()
    } else {
        fresh_uuid()
    }
}

} // verus!
