//! Moments in time, read with `chrono`.

use chrono::DateTime;
use vstd::prelude::*;

verus! {

/// A moment in time: the whole seconds since the start of 1970 in UTC, and
/// the nanoseconds since the last of them.
#[derive(Debug, Clone, Copy, PartialEq, Eq, PartialOrd, Ord, Hash)]
pub struct Moment {
    pub seconds: i64,
    pub nanoseconds: u32,
}

/// The moment that `text` names in the notation of RFC 3339, or `None`
/// where `text` is not in that notation.
pub uninterp spec fn rfc3339_moment(text: Seq<char>) -> Option<Moment>;

/// `DateTime::parse_from_rfc3339`, with `timestamp` and
/// `timestamp_subsec_nanos` of the moment it finds.
#[verifier::external_body]
pub(crate) fn parse_rfc3339(text: &str) -> (moment: Option<Moment>)
    ensures
        moment == rfc3339_moment(text@),
{
    DateTime::parse_from_rfc3339(text).ok().map(|moment| Moment {
        seconds: moment.timestamp(),
        nanoseconds: moment.timestamp_subsec_nanos(),
    })
}

} // verus!
