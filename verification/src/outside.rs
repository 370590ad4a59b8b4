//! The calls that leave the library: what is believed of each stands here.
use crate::timestamp::Timestamp;
use vstd::prelude::*;
use vstd::utf8::{decode_utf8, valid_utf8};

verus! {

/// `String::push` appends one character at the end of the string.
pub assume_specification[ String::push ](s: &mut String, c: char)
    ensures
        final(s)@ == old(s)@.push(c),
;

/// The `Debug` form of a string slice: quoted, with escapes.
pub uninterp spec fn debug_quoted(s: Seq<char>) -> Seq<char>;

/// Calls the `Debug` formatting of `str`. The quoted form depends on the
/// characters alone; which of them are escaped is left unsaid.
#[verifier::external_body]
pub(crate) fn quote_debug(s: &str) -> (r: String)
    ensures
        r@ == debug_quoted(s@),
{
    format!("{:?}", s)
}

/// The text that lossy UTF-8 decoding gives.
pub uninterp spec fn utf8_lossy(bytes: Seq<u8>) -> Seq<char>;

/// Calls `String::from_utf8_lossy`. Valid UTF-8 is decoded as it is; how
/// invalid sequences are replaced is left unsaid.
#[verifier::external_body]
pub(crate) fn decode_lossy(bytes: &[u8]) -> (r: String)
    ensures
        r@ == utf8_lossy(bytes@),
        valid_utf8(bytes@) ==> r@ == decode_utf8(bytes@),
{
    String::from_utf8_lossy(bytes).into_owned()
}

/// Calls `std::str::from_utf8`, which accepts exactly the valid UTF-8 texts.
#[verifier::external_body]
pub(crate) fn decode_strict(bytes: &[u8]) -> (r: Option<String>)
    ensures
        match r {
            Some(s) => valid_utf8(bytes@) && s@ == decode_utf8(bytes@),
            None => !valid_utf8(bytes@),
        },
{
    std::str::from_utf8(bytes).ok().map(str::to_string)
}

/// Whether a character is a C0 or a C1 control character.
pub open spec fn is_control(c: char) -> bool {
    c as int <= 0x1f || 0x80 <= c as int <= 0x9f
}

/// Whether the bytes are UTF-8 text without control characters.
pub open spec fn printable(bytes: Seq<u8>) -> bool {
    valid_utf8(bytes) && forall|i: int|
        0 <= i < decode_utf8(bytes).len() ==> !is_control(#[trigger] decode_utf8(bytes)[i])
}

/// The bytes that remain once terminal escape sequences are taken out.
pub uninterp spec fn escapes_stripped(bytes: Seq<u8>) -> Seq<u8>;

/// Calls `strip_ansi_escapes::strip`. Text without control characters passes
/// unchanged; which sequences count as escapes is left unsaid.
#[verifier::external_body]
pub(crate) fn strip_escapes(bytes: &[u8]) -> (r: Vec<u8>)
    ensures
        r@ == escapes_stripped(bytes@),
        printable(bytes@) ==> r@ == bytes@,
{
    strip_ansi_escapes::strip(bytes)
}

/// Why a pattern is no regular expression, where it is none.
pub uninterp spec fn pattern_fault(pattern: Seq<char>, ignore_case: bool) -> Option<Seq<char>>;

/// Calls `regex::RegexBuilder::build` with the pattern and the case flag, and
/// gives the message of the error where the pattern is refused. Which patterns
/// are refused is left unsaid.
#[verifier::external_body]
pub(crate) fn check_pattern(pattern: &str, ignore_case: bool) -> (r: Option<String>)
    ensures
        match r {
            Some(m) => pattern_fault(pattern@, ignore_case) == Some(m@),
            None => pattern_fault(pattern@, ignore_case) is None,
        },
{
    regex::RegexBuilder::new(pattern)
        .case_insensitive(ignore_case)
        .build()
        .err()
        .map(|error| error.to_string())
}

/// Whether a regular expression matches anywhere in a text.
pub uninterp spec fn pattern_matches(
    pattern: Seq<char>,
    ignore_case: bool,
    text: Seq<char>,
) -> bool;

/// Calls `regex::Regex::is_match` of the expression built from the pattern and
/// the case flag. It is for patterns that `check_pattern` does not refuse; what
/// a pattern matches is left unsaid.
#[verifier::external_body]
pub(crate) fn match_pattern(pattern: &str, ignore_case: bool, text: &str) -> (r: bool)
    requires
        pattern_fault(pattern@, ignore_case) is None,
    ensures
        r == pattern_matches(pattern@, ignore_case, text@),
{
    regex::RegexBuilder::new(pattern)
        .case_insensitive(ignore_case)
        .build()
        .is_ok_and(|regex| regex.is_match(text))
}

/// Whether a text is 32 hexadecimal digits in lower case.
pub open spec fn is_simple_uuid(s: Seq<char>) -> bool {
    s.len() == 32 && forall|i: int|
        0 <= i < s.len() ==> ('0' <= #[trigger] s[i] && s[i] <= '9') || ('a' <= s[i] && s[i] <= 'f')
}

/// Whether a text is that of a new identifier: its prefix and 32 hexadecimal digits.
pub open spec fn is_new_id(prefix: Seq<char>, id: Seq<char>) -> bool {
    prefix.is_prefix_of(id) && is_simple_uuid(id.skip(prefix.len() as int))
}

/// Calls `uuid::Uuid::new_v4` and renders it with `simple`: 32 hexadecimal
/// digits in lower case. Which digits they are is left to chance.
#[verifier::external_body]
pub(crate) fn random_uuid() -> (r: String)
    ensures
        is_simple_uuid(r@),
{
    uuid::Uuid::new_v4().simple().to_string()
}

/// Calls `chrono::Utc::now`. Nothing is known of the moment it gives.
#[verifier::external_body]
pub(crate) fn utc_now() -> (r: Timestamp)
{
    let now = chrono::Utc::now();
    Timestamp { seconds: now.timestamp(), nanos: now.timestamp_subsec_nanos() }
}

} // verus!
