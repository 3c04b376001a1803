//! Calendar text for instants, as chrono renders it.
use crate::text::text_of;
use vstd::prelude::*;

verus! {

/// The text that chrono gives for the instant `secs` seconds from the Unix
/// epoch, as a date and time of day in UTC in the form `%Y-%m-%d %H:%M`
/// (`2015-05-15 00:00`); `None` where the instant is outside the range of
/// dates that chrono represents. The count is read as a signed 64-bit number:
/// counts from 2^63 on stand for instants before the epoch.
pub uninterp spec fn calendar_text(secs: nat) -> Option<Seq<char>>;

/// Renders an instant through chrono.
///
/// Trusted: the body asks `chrono::DateTime::from_timestamp` for the UTC date
/// and time at `secs` whole seconds from the epoch, `secs` cast to `i64`, and
/// formats it with `%Y-%m-%d %H:%M`. The contract claims only that the outcome
/// depends on `secs` alone; it gives that outcome the name [`calendar_text`].
#[verifier::external_body]
pub(crate) fn format_timestamp(secs: u64) -> (text: Option<String>)
    ensures
        text_of(text) == calendar_text(secs as nat),
{
    chrono::DateTime::from_timestamp(secs as i64, 0).map(
        |at| at.format("%Y-%m-%d %H:%M").to_string(),
    )
}

} // verus!
