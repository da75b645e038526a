//! Instants in time as plain integers, and the calls into chrono that read
//! the clock and parse RFC 2822 dates.

use vstd::prelude::*;

verus! {

/// Number of seconds in one day.
pub const SECONDS_PER_DAY: i64 = 86400;

/// Number of days before now that an article may be dated and still be kept.
pub const RECENT_DAYS: u32 = 5;

/// A point in time: whole seconds since the Unix epoch, and the nanoseconds
/// past that second (at or above one billion during a leap second, as chrono
/// reports it).
#[derive(Clone, Copy, Debug, PartialEq, Eq, Structural)]
pub struct Instant {
    pub secs: i64,
    pub nanos: u32,
}

/// `a` is at or after `b`, ordering by seconds, then by nanoseconds.
pub open spec fn at_or_after(a: Instant, b: Instant) -> bool {
    a.secs > b.secs || (a.secs == b.secs && a.nanos >= b.nanos)
}

/// The instant `days` whole days before `now`, saturating at the earliest
/// representable second.
pub open spec fn days_before(now: Instant, days: u32) -> Instant {
    let s = now.secs - days * SECONDS_PER_DAY;
    Instant { secs: if s < i64::MIN { i64::MIN } else { s as i64 }, nanos: now.nanos }
}

/// The instant that an RFC 2822 date text denotes, if it is one.
pub uninterp spec fn rfc2822_instant(text: Seq<char>) -> Option<Instant>;

/// Relies on chrono's `DateTime::parse_from_rfc2822`: the instant a date text
/// denotes, which depends on the text alone.
#[verifier::external_body]
pub(crate) fn parse_rfc2822(text: &str) -> (r: Option<Instant>)
    ensures
        r == rfc2822_instant(text@),
{
    chrono::DateTime::parse_from_rfc2822(text).ok().map(
        |d| Instant { secs: d.timestamp(), nanos: d.timestamp_subsec_nanos() },
    )
}

/// Relies on chrono's `Utc::now`: the current time, of which nothing is known.
#[verifier::external_body]
fn current_instant() -> (r: Instant) {
    let t = chrono::Utc::now();
    Instant { secs: t.timestamp(), nanos: t.timestamp_subsec_nanos() }
}

/// Whether `a` is at or after `b`.
pub fn is_at_or_after(a: Instant, b: Instant) -> (r: bool)
    ensures
        r == at_or_after(a, b),
{
    a.secs > b.secs || (a.secs == b.secs && a.nanos >= b.nanos)
}

/// The instant `days` whole days before `now`.
pub fn cutoff_before(now: Instant, days: u32) -> (r: Instant)
    ensures
        r == days_before(now, days),
{
    let span: i64 = days as i64 * SECONDS_PER_DAY;
    let secs: i64 = if now.secs >= i64::MIN + span {
        now.secs - span
    } else {
        i64::MIN
    };
    Instant { secs, nanos: now.nanos }
}

/// The current time and the recency cutoff for it.
#[derive(Clone, Copy, Debug)]
pub struct Window {
    pub now: Instant,
    pub cutoff: Instant,
}

/// The window that ends at `now`: articles dated at most `RECENT_DAYS` days
/// earlier are recent.
pub fn window_at(now: Instant) -> (w: Window)
    ensures
        w.now == now,
        w.cutoff == days_before(now, RECENT_DAYS),
{
    Window { now, cutoff: cutoff_before(now, RECENT_DAYS) }
}

/// The window that ends at the current time.
pub fn current_window() -> (w: Window)
    ensures
        w.cutoff == days_before(w.now, RECENT_DAYS),
{
    window_at(current_instant())
}

} // verus!
