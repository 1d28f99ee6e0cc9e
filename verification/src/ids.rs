//! Identifiers: UUID text, as the `uuid` crate reads it, held as the UUID's
//! 128-bit value.
use vstd::prelude::*;
use crate::guid::hex_text;

verus! {

/// What `uuid::Uuid::parse_str` gives for a text: the UUID's 128-bit value
/// (`Uuid::as_u128`), or the text that its error displays; a function of the
/// text alone.
pub uninterp spec fn uuid_parse_outcome(s: Seq<char>) -> Result<u128, Seq<char>>;

/// The value of a hexadecimal digit character (either case), or -1.
pub open spec fn hex_char_value(c: char) -> int {
    if '0' <= c <= '9' {
        c as int - '0' as int
    } else if 'a' <= c <= 'f' {
        c as int - 'a' as int + 10
    } else if 'A' <= c <= 'F' {
        c as int - 'A' as int + 10
    } else {
        -1
    }
}

/// The value of a sequence of hexadecimal digit characters, most significant
/// first.
pub open spec fn hex_chars_value(d: Seq<char>) -> int
    decreases d.len(),
{
    if d.len() == 0 {
        0
    } else {
        hex_chars_value(d.drop_last()) * 16 + hex_char_value(d.last())
    }
}

/// The 32 digits of hyphenated UUID text `xxxxxxxx-xxxx-xxxx-xxxx-xxxxxxxxxxxx`.
pub open spec fn hyphenated_digits(s: Seq<char>) -> Seq<char> {
    s.subrange(0, 8) + s.subrange(9, 13) + s.subrange(14, 18) + s.subrange(19, 23) + s.subrange(
        24,
        36,
    )
}

/// Hyphenated UUID text: 36 characters, hyphens at 8, 13, 18 and 23,
/// hexadecimal digits elsewhere.
pub open spec fn is_hyphenated_uuid(s: Seq<char>) -> bool {
    &&& s.len() == 36
    &&& s[8] == '-' && s[13] == '-' && s[18] == '-' && s[23] == '-'
    &&& forall|i: int| 0 <= i < 32 ==> hex_char_value(#[trigger] hyphenated_digits(s)[i]) >= 0
}

/// Calls `uuid::Uuid::parse_str`, converting the UUID with `as_u128` and
/// the error to the text that its `Display` writes. Claims: the result is
/// the outcome named `uuid_parse_outcome`; hyphenated text of hexadecimal
/// digits is accepted, with the digits read as one big-endian hexadecimal
/// number. What the other accepted forms (simple, braced, URN) give, and
/// what the error text says, are left unstated.
#[verifier::external_body]
fn uuid_parse(s: &str) -> (r: Result<u128, String>)
    ensures
        match r {
            Ok(v) => (uuid_parse_outcome(s@) matches Ok(w) && w == v) && (is_hyphenated_uuid(s@)
                ==> v as int == hex_chars_value(hyphenated_digits(s@))),
            Err(d) => (uuid_parse_outcome(s@) matches Err(t) && t == d@) && !is_hyphenated_uuid(
                s@,
            ),
        },
{
    uuid::Uuid::parse_str(s).map(|u| u.as_u128()).map_err(|e| e.to_string())
}

/// The id of a built-in preset, written `00000000-0000-0000-0000-00000000000n`.
pub(crate) fn bundled_uuid(s: &str) -> (r: u128)
    requires
        is_hyphenated_uuid(s@),
    ensures
        r as int == hex_chars_value(hyphenated_digits(s@)),
{
    match uuid_parse(s) {
        Ok(v) => v,
        Err(_) => 0,
    }
}


/// The text of a UUID as `uuid::Uuid` displays it: its 32 hexadecimal digits,
/// lowercase, most significant first, hyphenated as
/// `xxxxxxxx-xxxx-xxxx-xxxx-xxxxxxxxxxxx`.
pub open spec fn uuid_display(v: u128) -> Seq<char> {
    let d = hex_text(v as int, 32);
    d.subrange(0, 8) + seq!['-'] + d.subrange(8, 12) + seq!['-'] + d.subrange(12, 16) + seq!['-']
        + d.subrange(16, 20) + seq!['-'] + d.subrange(20, 32)
}

/// Calls `uuid::Uuid::from_u128` (the value read big-endian) and the UUID's
/// `Display`. Claims: the text is the lowercase hyphenated form above.
#[verifier::external_body]
pub(crate) fn uuid_text(v: u128) -> (r: String)
    ensures
        r@ == uuid_display(v),
{
    uuid::Uuid::from_u128(v).to_string()
}

/// The message for rejected UUID text: `Invalid UUID '<text>': <detail>`.
pub open spec fn invalid_uuid_message(s: Seq<char>, detail: Seq<char>) -> Seq<char> {
    "Invalid UUID '"@ + s + "': "@ + detail
}

/// Builds the message for rejected UUID text from the parser's explanation.
pub fn invalid_uuid_text(s: &str, detail: &str) -> (r: String)
    ensures
        r@ == invalid_uuid_message(s@, detail@),
{
    let mut m = String::from_str("Invalid UUID '");
    m.append(s);
    m.append("': ");
    m.append(detail);
    m
}

/// Reads UUID text as the `uuid` crate does, giving the UUID's 128-bit
/// value, or the message `Invalid UUID '<text>': <why>` when it is rejected,
/// where `<why>` is the text of the crate's error.
pub fn parse_uuid(s: &str) -> (r: Result<u128, String>)
    ensures
        match uuid_parse_outcome(s@) {
            Ok(v) => r matches Ok(w) && w == v,
            Err(d) => r matches Err(m) && m@ == invalid_uuid_message(s@, d),
        },
{
    match uuid_parse(s) {
        Ok(v) => Ok(v),
        Err(detail) => Err(invalid_uuid_text(s, detail.as_str())),
    }
}

} // verus!
