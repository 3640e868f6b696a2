//! When cached exchange rates may be used, and when new ones may be asked
//! for. Times are seconds of one clock.

use vstd::prelude::*;

verus! {

/// How long fetched rates stay valid: one day.
pub const CACHE_DURATION_SECS: u64 = 86400;

/// The least time between two requests for the same base currency: one hour.
pub const MIN_REQUEST_INTERVAL_SECS: u64 = 3600;

/// Whether rates fetched at `fetched` are still valid at `now`: they are for
/// less than a day from then on, and never before they were fetched.
pub fn is_fresh(now: u64, fetched: u64) -> (fresh: bool)
    ensures
        fresh == (fetched <= now && now - fetched < CACHE_DURATION_SECS),
{
    now >= fetched && now - fetched < CACHE_DURATION_SECS
}

/// Whether rates for a base currency may be requested at `now`, given when
/// they were last requested, if ever: always without an earlier request or
/// when the clock has gone back, else once an hour has passed.
pub fn may_request(now: u64, last_request: Option<u64>) -> (allowed: bool)
    ensures
        allowed == (match last_request {
            Some(last) => last > now || now - last >= MIN_REQUEST_INTERVAL_SECS,
            None => true,
        }),
{
    match last_request {
        Some(last) => last > now || now - last >= MIN_REQUEST_INTERVAL_SECS,
        None => true,
    }
}

/// How a rate is looked for, in the order of the attempts.
#[derive(Debug, Clone, Copy, PartialEq, Eq)]
pub enum Lookup {
    /// The cached rate from the source to the target.
    Direct,
    /// The inverse of the cached rate from the target to the source.
    Reverse,
    /// A product or quotient of two cached rates that share a currency.
    Intermediate,
    /// New rates for the source, then the direct rate once more.
    Fetch,
}

/// The attempt that follows `done` when it found nothing; `None` when the
/// search is over. Cached rates are tried first, directly and inverted;
/// then new rates are fetched if a request is allowed, and otherwise only
/// after a detour over an intermediate currency has failed too.
pub fn next_lookup(done: Option<Lookup>, request_allowed: bool) -> (next: Option<Lookup>)
    ensures
        next == (match done {
            None => Some(Lookup::Direct),
            Some(Lookup::Direct) => Some(Lookup::Reverse),
            Some(Lookup::Reverse) => if request_allowed {
                Some(Lookup::Fetch)
            } else {
                Some(Lookup::Intermediate)
            },
            Some(Lookup::Intermediate) => Some(Lookup::Fetch),
            Some(Lookup::Fetch) => None,
        }),
{
    match done {
        None => Some(Lookup::Direct),
        Some(Lookup::Direct) => Some(Lookup::Reverse),
        Some(Lookup::Reverse) => if request_allowed {
            Some(Lookup::Fetch)
        } else {
            Some(Lookup::Intermediate)
        },
        Some(Lookup::Intermediate) => Some(Lookup::Fetch),
        Some(Lookup::Fetch) => None,
    }
}

} // verus!
