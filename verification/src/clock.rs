//! Points in time as text.

use crate::models::Timestamp;
use vstd::prelude::*;

verus! {

/// The RFC 3339 text of a point in time, as chrono writes it for UTC; nothing
/// for seconds or nanoseconds that chrono does not take for a date.
pub uninterp spec fn rfc3339_text(secs: i64, nanos: u32) -> Option<Seq<char>>;

/// Calls `DateTime::from_timestamp` and `DateTime::to_rfc3339` of chrono.
/// Trusted: the text is a function of the seconds and nanoseconds, named
/// `rfc3339_text`, and there is none exactly where chrono rejects them.
#[verifier::external_body]
pub(crate) fn rfc3339(time: Timestamp) -> (text: Option<String>)
    ensures
        match text {
            Some(t) => rfc3339_text(time.secs, time.nanos) == Some(t@),
            None => rfc3339_text(time.secs, time.nanos) is None,
        },
{
    match chrono::DateTime::from_timestamp(time.secs, time.nanos) {
        Some(date) => Some(date.to_rfc3339()),
        None => None,
    }
}

/// The RFC 3339 text of a point in time with `Z` for UTC, as chrono writes it
/// where a date is serialised; nothing for seconds or nanoseconds that chrono
/// does not take for a date.
pub uninterp spec fn rfc3339_z_text(secs: i64, nanos: u32) -> Option<Seq<char>>;

/// Calls `DateTime::from_timestamp` and `DateTime::to_rfc3339_opts` of chrono,
/// the latter for `SecondsFormat::AutoSi` and with `Z`. Trusted: the text is a
/// function of the seconds and nanoseconds, named `rfc3339_z_text`, and there
/// is none exactly where chrono rejects them. The offset of UTC is 0, so the
/// range check that chrono makes on the local time cannot fail.
#[verifier::external_body]
pub(crate) fn rfc3339_z(time: Timestamp) -> (text: Option<String>)
    ensures
        match text {
            Some(t) => rfc3339_z_text(time.secs, time.nanos) == Some(t@),
            None => rfc3339_z_text(time.secs, time.nanos) is None,
        },
{
    match chrono::DateTime::from_timestamp(time.secs, time.nanos) {
        Some(date) => Some(date.to_rfc3339_opts(chrono::SecondsFormat::AutoSi, true)),
        None => None,
    }
}

} // verus!
