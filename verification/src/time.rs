//! Instants: microseconds since the Unix epoch, read and written with `chrono`.

use vstd::prelude::*;

verus! {

/// The RFC 3339 text of the instant, where `chrono` can represent it.
pub uninterp spec fn rfc3339_text(micros: i64) -> Option<Seq<char>>;

/// `Utc::now` and `DateTime::timestamp_micros`: the present instant.
#[verifier::external_body]
pub(crate) fn utc_now() -> i64 {
    chrono::Utc::now().timestamp_micros()
}

/// `DateTime::from_timestamp_micros` and `DateTime::to_rfc3339`: the text
/// of the instant, or nothing where the instant is out of range.
#[verifier::external_body]
pub(crate) fn rfc3339(micros: i64) -> (r: Option<String>)
    ensures
        crate::models::option_text(r) == rfc3339_text(micros),
{
    chrono::DateTime::<chrono::Utc>::from_timestamp_micros(micros).map(|t| t.to_rfc3339())
}

/// The text of an instant in a response: RFC 3339, and empty for an
/// instant that has no such text.
pub open spec fn instant_text(micros: i64) -> Seq<char> {
    match rfc3339_text(micros) {
        Some(t) => t,
        None => Seq::empty(),
    }
}

/// Writes an instant for a response.
pub fn to_rfc3339(micros: i64) -> (r: String)
    ensures
        r@ == instant_text(micros),
{
    match rfc3339(micros) {
        Some(t) => t,
        None => String::new(),
    }
}

} // verus!
