//! The rule of the request limiter: how many requests one caller may make
//! within a window of time.

use vstd::prelude::*;

verus! {

pub const NANOS_PER_SEC: u128 = 1_000_000_000;

/// What the limiter remembers of one caller: the requests counted in the
/// current window, and when that window began, in nanoseconds on the
/// limiter's clock.
#[derive(Debug, Clone, Copy, PartialEq, Eq, Structural)]
pub struct Window {
    pub count: u32,
    pub started_at: u128,
}

/// Whether a request is let through.
#[derive(Debug, Clone, Copy, PartialEq, Eq, Structural)]
pub enum Verdict {
    Allowed,
    /// The caller has to wait; the window ends within this many seconds.
    Limited { retry_after_secs: u128 },
}

/// The time that has passed since `earlier`; none where the clock reads
/// less than `earlier`.
pub open spec fn elapsed(now: u128, earlier: u128) -> int {
    if now >= earlier {
        now - earlier
    } else {
        0
    }
}

/// The verdict on a request at `now`, and what is remembered after it.
///
/// The first request of a caller, and the first after its window has run
/// out, opens a window and counts as 1. Within a window a request is
/// counted and let through until `max_requests` are counted; after that it
/// is refused, with the whole seconds left of the window, plus one.
pub open spec fn checked(
    state: Option<Window>,
    now: u128,
    max_requests: u32,
    window_nanos: u128,
) -> (Verdict, Window) {
    match state {
        None => (Verdict::Allowed, Window { count: 1, started_at: now }),
        Some(w) => if elapsed(now, w.started_at) >= window_nanos {
            (Verdict::Allowed, Window { count: 1, started_at: now })
        } else if w.count >= max_requests {
            (
                Verdict::Limited {
                    retry_after_secs: ((window_nanos - elapsed(now, w.started_at)) / (
                    NANOS_PER_SEC as int) + 1) as u128,
                },
                w,
            )
        } else {
            (Verdict::Allowed, Window { count: (w.count + 1) as u32, started_at: w.started_at })
        },
    }
}

/// Decides on a request at `now` from what is remembered of its caller.
pub fn check_window(state: Option<Window>, now: u128, max_requests: u32, window_nanos: u128) -> (r:
    (Verdict, Window))
    ensures
        r == checked(state, now, max_requests, window_nanos),
{
    let w = match state {
        None => {
            return (Verdict::Allowed, Window { count: 1, started_at: now });
        },
        Some(w) => w,
    };
    let passed: u128 = if now >= w.started_at {
        now - w.started_at
    } else {
        0
    };
    if passed >= window_nanos {
        (Verdict::Allowed, Window { count: 1, started_at: now })
    } else if w.count >= max_requests {
        let left: u128 = window_nanos - passed;
        (Verdict::Limited { retry_after_secs: left / NANOS_PER_SEC + 1 }, w)
    } else {
        (Verdict::Allowed, Window { count: w.count + 1, started_at: w.started_at })
    }
}

/// Whether what is remembered of a caller may be forgotten: its window
/// began two window lengths ago or earlier.
pub fn is_stale(window: Window, now: u128, window_nanos: u128) -> (r: bool)
    ensures
        r == (elapsed(now, window.started_at) >= 2 * window_nanos),
{
    let passed: u128 = if now >= window.started_at {
        now - window.started_at
    } else {
        0
    };
    match window_nanos.checked_mul(2) {
        Some(limit) => passed >= limit,
        None => false,
    }
}

} // verus!
