//! Pacing of requests to one model provider: two requests to the same
//! provider are at least the configured interval apart.
use vstd::prelude::*;

verus! {

/// Nanoseconds per millisecond.
pub const NANOS_PER_MILLI: u128 = 1_000_000;

/// The margin a wait stops short of the interval, in milliseconds (the
/// next check then passes or retries at once).
pub const WAKE_EARLY_MS: u128 = 5;

/// What a caller of the limiter does next.
#[derive(Clone, Copy, PartialEq, Eq, Debug, Structural)]
pub enum Throttle {
    /// No pacing configured: go, nothing recorded.
    Skip,
    /// Go now, and record now as the provider's last request.
    Pass,
    /// Sleep this many nanoseconds, then check again.
    Sleep(u128),
    /// Check again at once (less than the margin remains).
    Retry,
}

/// One check of the limiter: `elapsed_nanos` is the time since the
/// provider's last recorded request (`None`: never). With no interval
/// configured the request goes unrecorded; a first request or one at least
/// the interval after the last goes and is recorded; otherwise the caller
/// sleeps the remaining time minus the margin, or retries at once when
/// nothing of it is left.
pub fn throttle(elapsed_nanos: Option<u128>, min_interval_ms: u64) -> (t: Throttle)
    ensures
        min_interval_ms == 0 ==> t == Throttle::Skip,
        min_interval_ms > 0 ==> match elapsed_nanos {
            None => t == Throttle::Pass,
            Some(e) => if e >= min_interval_ms as u128 * NANOS_PER_MILLI {
                t == Throttle::Pass
            } else {
                let remaining = min_interval_ms as u128 * NANOS_PER_MILLI - e;
                if remaining > WAKE_EARLY_MS * NANOS_PER_MILLI {
                    t == Throttle::Sleep((remaining - WAKE_EARLY_MS * NANOS_PER_MILLI) as u128)
                } else {
                    t == Throttle::Retry
                }
            },
        },
{
    if min_interval_ms == 0 {
        return Throttle::Skip;
    }
    let interval: u128 = min_interval_ms as u128 * NANOS_PER_MILLI;
    match elapsed_nanos {
        None => Throttle::Pass,
        Some(e) => {
            if e >= interval {
                Throttle::Pass
            } else {
                let remaining = interval - e;
                let margin: u128 = WAKE_EARLY_MS * NANOS_PER_MILLI;
                if remaining > margin {
                    Throttle::Sleep(remaining - margin)
                } else {
                    Throttle::Retry
                }
            }
        },
    }
}

} // verus!
