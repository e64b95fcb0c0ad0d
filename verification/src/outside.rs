//! What the library has from outside: the clock, random identifiers, JSON and lossy decoding.
//!
//! The private functions here make one outside call each. Their contracts are believed, not proved.

use vstd::prelude::*;
use vstd::string::*;
use vstd::utf8::{decode_utf8, valid_utf8};

use crate::text::views;

verus! {

/// The text that the `time` crate gives, in RFC 3339, for the UTC time so many nanoseconds after
/// the Unix epoch.
pub uninterp spec fn rfc3339_utc(nanos: int) -> Option<Seq<char>>;

/// The JSON text that `serde_json` gives for a list of strings.
pub uninterp spec fn string_list_json(strings: Seq<Seq<char>>) -> Seq<char>;

/// What `serde_json` reads in a text as a JSON list of strings, or what it says of its failure.
pub uninterp spec fn parsed_string_list(text: Seq<char>) -> Result<Seq<Seq<char>>, Seq<char>>;

/// The characters of `bytes` read as UTF-8, with a replacement character for what is not.
pub uninterp spec fn utf8_lossy(bytes: Seq<u8>) -> Seq<char>;

/// `time::OffsetDateTime::now_utc`: the clock, in nanoseconds after the Unix epoch. Nothing is
/// claimed of what the clock shows.
#[verifier::external_body]
fn utc_clock_nanos() -> i128 {
    time::OffsetDateTime::now_utc().unix_timestamp_nanos()
}

/// `time::OffsetDateTime::format` with `time::format_description::well_known::Rfc3339`: the text
/// depends on the time alone, and there is one exactly for the years 0 to 9999.
#[verifier::external_body]
fn format_rfc3339(nanos: i128) -> (text: Option<String>)
    ensures
        match text {
            Some(t) => rfc3339_utc(nanos as int) == Some(t@),
            None => rfc3339_utc(nanos as int) is None,
        },
        text is Some <==> -62_167_219_200_000_000_000 <= nanos < 253_402_300_800_000_000_000,
{
    let moment = time::OffsetDateTime::from_unix_timestamp_nanos(nanos).ok()?;
    moment.format(&time::format_description::well_known::Rfc3339).ok()
}

/// `uuid::Uuid::new_v4`: a random identifier, in the hyphenated form. Nothing is claimed of which,
/// and so not that two of them differ; without a source of randomness the call panics.
#[verifier::external_body]
fn random_uuid() -> (id: String)
    ensures
        uuid_text(id@),
{
    uuid::Uuid::new_v4().to_string()
}

/// `serde_json::to_string` on a list of strings: the text depends on the strings alone, there
/// always is one, and it reads back as the same strings.
#[verifier::external_body]
pub(crate) fn strings_to_json(strings: &Vec<String>) -> (text: Result<String, String>)
    ensures
        text is Ok,
        text->Ok_0@ == string_list_json(views(strings@)),
        parsed_string_list(text->Ok_0@) is Ok,
        parsed_string_list(text->Ok_0@)->Ok_0 == views(strings@),
{
    match serde_json::to_string(strings) {
        Ok(text) => Ok(text),
        Err(error) => Err(error.to_string()),
    }
}

/// `serde_json::from_str` into a list of strings: the strings, or what is said of the failure,
/// depend on the text alone.
#[verifier::external_body]
pub(crate) fn strings_from_json(text: &str) -> (strings: Result<Vec<String>, String>)
    ensures
        match strings {
            Ok(list) => parsed_string_list(text@) matches Ok(x) && x == views(list@),
            Err(said) => parsed_string_list(text@) matches Err(x) && x == said@,
        },
{
    match serde_json::from_str::<Vec<String>>(text) {
        Ok(list) => Ok(list),
        Err(error) => Err(error.to_string()),
    }
}

/// `String::from_utf8_lossy`: the text depends on the bytes alone, and bytes that are UTF-8 are
/// decoded as they stand.
#[verifier::external_body]
fn from_utf8_lossy(bytes: &Vec<u8>) -> (text: String)
    ensures
        text@ == utf8_lossy(bytes@),
        valid_utf8(bytes@) ==> text@ == decode_utf8(bytes@),
{
    String::from_utf8_lossy(bytes).into_owned()
}

/// Whether `c` is a hexadecimal digit in lower case.
pub open spec fn hex_char(c: char) -> bool {
    '0' <= c <= '9' || 'a' <= c <= 'f'
}

/// Whether `t` is a version 4 UUID in the hyphenated form.
pub open spec fn uuid_text(t: Seq<char>) -> bool {
    &&& t.len() == 36
    &&& t[8] == '-' && t[13] == '-' && t[18] == '-' && t[23] == '-'
    &&& t[14] == '4'
    &&& t[19] == '8' || t[19] == '9' || t[19] == 'a' || t[19] == 'b'
    &&& forall|i: int|
        0 <= i < 36 && i != 8 && i != 13 && i != 18 && i != 23 ==> hex_char(#[trigger] t[i])
}

/// The time so many nanoseconds after the Unix epoch, or the epoch itself where the time has no
/// text.
pub open spec fn timestamp(nanos: int) -> Seq<char> {
    match rfc3339_utc(nanos) {
        Some(text) => text,
        None => "1970-01-01T00:00:00Z"@,
    }
}

/// Whether `t` is a text that the clock can give.
pub open spec fn clock_text(t: Seq<char>) -> bool {
    exists|nanos: int| t == #[trigger] timestamp(nanos)
}

/// The time so many nanoseconds after the Unix epoch, in RFC 3339.
pub fn timestamp_text(nanos: i128) -> (text: String)
    ensures
        text@ == timestamp(nanos as int),
        !(-62_167_219_200_000_000_000 <= nanos < 253_402_300_800_000_000_000) ==> text@
            == "1970-01-01T00:00:00Z"@,
{
    match format_rfc3339(nanos) {
        Some(text) => text,
        None => "1970-01-01T00:00:00Z".to_owned(),
    }
}

/// The time now, in RFC 3339.
pub fn now_rfc3339() -> (text: String)
    ensures
        clock_text(text@),
{
    timestamp_text(utc_clock_nanos())
}

/// A fresh identifier.
pub fn new_id() -> (id: String)
    ensures
        uuid_text(id@),
{
    random_uuid()
}

/// The text of what a command or a path holds.
pub fn lossy_text(bytes: &Vec<u8>) -> (text: String)
    ensures
        text@ == utf8_lossy(bytes@),
        valid_utf8(bytes@) ==> text@ == decode_utf8(bytes@),
{
    from_utf8_lossy(bytes)
}

} // verus!
