//! Dates in header fields, read and written by the `chrono` crate.

use chrono::{DateTime, Utc};
use vstd::prelude::*;

use crate::text;

verus! {

/// The instant that a text writes in the format of RFC 2822, in seconds since the Unix epoch;
/// `None` where it writes none.
pub uninterp spec fn rfc2822_seconds(s: Seq<char>) -> Option<i64>;

/// The text that writes an instant, in seconds since the Unix epoch, in the format of RFC 2822.
pub uninterp spec fn rfc2822_text(secs: i64) -> Seq<char>;

/// The instants that have a four-digit year from 1970 on, in seconds since the Unix epoch.
pub open spec fn is_writable(secs: int) -> bool {
    0 <= secs < 253_402_300_800
}

/// `DateTime::parse_from_rfc2822` and `DateTime::timestamp`: the seconds since the Unix epoch that
/// the text writes. The result depends on the text alone.
#[verifier::external_body]
pub(crate) fn parse_rfc2822(s: &str) -> (r: Option<i64>)
    ensures
        r == rfc2822_seconds(s@),
{
    DateTime::parse_from_rfc2822(s).ok().map(|d| d.timestamp())
}

/// `DateTime::from_timestamp` and `DateTime::to_rfc2822`: the text of an instant, which depends on
/// the instant alone, is visible ASCII, and reads back as the same instant.
#[verifier::external_body]
pub(crate) fn format_rfc2822(secs: i64) -> (r: String)
    requires
        is_writable(secs as int),
    ensures
        r@ == rfc2822_text(secs),
        text::is_visible_text(r@),
        rfc2822_seconds(r@) == Some(secs),
{
    DateTime::<Utc>::from_timestamp(secs, 0).unwrap().to_rfc2822()
}

} // verus!
