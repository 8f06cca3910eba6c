//! Time as the store sees it: instants are milliseconds since the Unix epoch
//! (UTC), read from the system clock or from text, and spans are counted in
//! whole seconds. The store keeps no time finer than a millisecond.

use vstd::prelude::*;

verus! {

/// Reads the system clock: `chrono::Utc::now()`, given as the milliseconds of
/// `DateTime::timestamp_millis`. Nothing is claimed of the value read: two
/// readings may come in any order. (chrono stops the program if the system
/// clock stands before 1970.)
#[verifier::external_body]
pub(crate) fn now_millis() -> (millis: i64) {
    chrono::Utc::now().timestamp_millis()
}

/// The instant that chrono reads from `text` by `str::parse::<DateTime<Utc>>`
/// (a date and time in chrono's relaxed form of RFC 3339), in milliseconds;
/// `None` where chrono rejects the text.
pub uninterp spec fn parsed_millis(text: Seq<char>) -> Option<i64>;

/// Parses a date and time with chrono's `FromStr` for `DateTime<Utc>` and
/// gives the instant by `DateTime::timestamp_millis`. The contract only
/// names the result: the same text always reads as the same instant.
#[verifier::external_body]
pub(crate) fn parse_millis(text: &str) -> (instant: Option<i64>)
    ensures
        instant == parsed_millis(text@),
{
    match text.parse::<chrono::DateTime<chrono::Utc>>() {
        Ok(at) => Some(at.timestamp_millis()),
        Err(_) => None,
    }
}

/// The later of two instants.
pub open spec fn later(a: i64, b: i64) -> i64 {
    if a >= b {
        a
    } else {
        b
    }
}

/// The later of two instants.
pub fn later_of(a: i64, b: i64) -> (instant: i64)
    ensures
        instant == later(a, b),
{
    if a >= b {
        a
    } else {
        b
    }
}

/// The whole seconds that lie between `from` and `to`: the span in
/// milliseconds with the part under a second cut off, towards zero. So the
/// count is negative where `to` is a second or more earlier than `from`,
/// and zero where the two are less than a second apart, whichever is the
/// earlier.
pub open spec fn whole_seconds(from: i64, to: i64) -> int {
    let span = to - from;
    if span >= 0 {
        span / 1000
    } else {
        -((-span) / 1000)
    }
}

/// Counts the whole seconds from `from` to `to`.
pub fn seconds_between(from: i64, to: i64) -> (seconds: i64)
    ensures
        seconds == whole_seconds(from, to),
{
    let span: i128 = (to as i128) - (from as i128);
    let seconds: i128 = span / 1000;
    seconds as i64
}

/// A span of a whole number of seconds counts as that many seconds, whatever
/// the instant it starts at.
pub proof fn lemma_whole_seconds_exact(from: i64, to: i64, seconds: int)
    requires
        to - from == 1000 * seconds,
    ensures
        whole_seconds(from, to) == seconds,
{
}

} // verus!
