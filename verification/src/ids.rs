//! Identifiers. A UUID is held in the library as its 128-bit value
//! (`Uuid::as_u128`); the `uuid` crate generates, formats and parses them.

use vstd::prelude::*;

verus! {

/// The all-zero UUID (`Uuid::nil`).
pub const NIL_ID: u128 = 0;

/// Generates a random (version 4) UUID with `uuid::Uuid::new_v4` and returns
/// its value. The result depends on chance; the source sets the version and
/// variant bits, so it is never the nil UUID.
#[verifier::external_body]
pub(crate) fn new_id() -> (r: u128)
    ensures
        r != NIL_ID,
{
    uuid::Uuid::new_v4().as_u128()
}

/// The hyphenated lowercase text of a UUID, as `uuid::Uuid`'s `Display` writes it.
pub uninterp spec fn uuid_text(id: u128) -> Seq<char>;

/// The UUID that `uuid::Uuid::try_parse` reads from a text, if it reads one.
pub uninterp spec fn uuid_parse(s: Seq<char>) -> Option<u128>;

/// Formats a UUID with `uuid::Uuid`'s `Display` (`to_string`); the text is a
/// function of the value alone, named `uuid_text`.
#[verifier::external_body]
pub(crate) fn id_to_string(id: u128) -> (r: String)
    ensures
        r@ == uuid_text(id),
{
    uuid::Uuid::from_u128(id).to_string()
}

/// Parses a UUID with `uuid::Uuid::try_parse`. Its result is a function of the
/// text, named `uuid_parse`; on failure the crate's error reads
/// "failed to parse a UUID" (it always reports `ParseOther` from this entry point).
#[verifier::external_body]
pub(crate) fn parse_id(s: &str) -> (r: Result<u128, String>)
    ensures
        r is Ok <==> uuid_parse(s@) is Some,
        r matches Ok(v) ==> uuid_parse(s@) == Some(v),
        r matches Err(m) ==> m@ == "failed to parse a UUID"@,
{
    match uuid::Uuid::try_parse(s) {
        Ok(u) => Ok(u.as_u128()),
        Err(e) => Err(e.to_string()),
    }
}

/// The message of the error that `uuid::Uuid::parse_str` gives for a text it
/// does not read.
pub uninterp spec fn uuid_parse_str_error(s: Seq<char>) -> Seq<char>;

/// Parses a UUID with `uuid::Uuid::parse_str`, which shares its parser with
/// `try_parse` (so it reads exactly what `uuid_parse` reads) but explains its
/// failures; the message is a function of the text, named
/// `uuid_parse_str_error`.
#[verifier::external_body]
pub(crate) fn parse_id_explained(s: &str) -> (r: Result<u128, String>)
    ensures
        r is Ok <==> uuid_parse(s@) is Some,
        r matches Ok(v) ==> uuid_parse(s@) == Some(v),
        r matches Err(m) ==> m@ == uuid_parse_str_error(s@),
{
    match uuid::Uuid::parse_str(s) {
        Ok(u) => Ok(u.as_u128()),
        Err(e) => Err(e.to_string()),
    }
}

} // verus!
