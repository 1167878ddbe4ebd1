//! When to ask for time and position, and what the location state becomes
//! afterwards.
//!
//! The position and the clock come from the notecard (or from an external GPS);
//! retrieving them is slow, so it is only done when the last attempt is old
//! enough.
use vstd::prelude::*;

verus! {

/// Milliseconds between attempts to retrieve time and position from the
/// notecard.
pub const LOCATION_DIFF: i64 = 60_000;

/// Milliseconds between setting the clock from the external GPS.
pub const EGPS_LOCATION_DIFF: i64 = 10_000;

/// Largest age (milliseconds) of the external GPS pulse for its time to be
/// used.
pub const EGPS_MAX_AGE: i64 = 5_000;

/// State of time and position retrieval.
#[derive(Debug, Clone, Copy, PartialEq, Eq, Structural)]
pub enum LocationState {
    /// Last attempt (milliseconds) did not give both time and position.
    Trying(i64),
    /// Time and position were retrieved; time of the fix (milliseconds).
    Retrieved(i64),
}

impl LocationState {
    /// The time of the last attempt or fix.
    pub open spec fn time(self) -> i64 {
        match self {
            LocationState::Trying(t) => t,
            LocationState::Retrieved(t) => t,
        }
    }

    /// The state before anything was tried.
    pub fn new() -> (s: LocationState)
        ensures
            s == LocationState::Trying(-999i64),
    {
        LocationState::Trying(-999)
    }

    /// Whether more than `limit` milliseconds have passed at `now` since the
    /// last attempt or fix.
    pub fn due(&self, now: i64, limit: i64) -> (r: bool)
        requires
            i64::MIN <= now - self.time() <= i64::MAX,
        ensures
            r == (now - self.time() > limit),
    {
        let t = match *self {
            LocationState::Trying(t) => t,
            LocationState::Retrieved(t) => t,
        };
        now - t > limit
    }
}

/// The state after asking the notecard at `now` (milliseconds): retrieved at
/// the notecard time (seconds, scaled to milliseconds) when both the time and
/// a latitude were given, still trying otherwise.
pub fn after_retrieve(now: i64, time: Option<u32>, has_lat: bool) -> (s: LocationState)
    ensures
        s == (if time is Some && has_lat {
            LocationState::Retrieved((time->0 as int * 1000) as i64)
        } else {
            LocationState::Trying(now)
        }),
{
    match time {
        Some(t) => {
            if has_lat {
                LocationState::Retrieved(t as i64 * 1000)
            } else {
                LocationState::Trying(now)
            }
        },
        None => LocationState::Trying(now),
    }
}

/// What to do with a time from the external GPS.
#[derive(Debug, Clone, Copy, PartialEq, Eq, Structural)]
pub enum EgpsClock {
    /// The clock was set recently enough: leave it.
    NotDue,
    /// The GPS pulse is too old to be used.
    Stale,
    /// Set the clock to this time (milliseconds).
    SetTo(i64),
}

/// Decide whether to set the clock from the external GPS: when the last fix is
/// older than `EGPS_LOCATION_DIFF` and the pulse (`pps_time`, clock time of the
/// pulse) is at most `EGPS_MAX_AGE` old, the clock is set to the GPS time
/// advanced by the age of the pulse, and the state becomes retrieved at the GPS
/// time.
pub fn egps_clock(state: LocationState, now: i64, pps_time: i64, gps_time: i64) -> (r: (EgpsClock, LocationState))
    requires
        i64::MIN <= now - state.time() <= i64::MAX,
        i64::MIN <= now - pps_time <= i64::MAX,
        now - state.time() > EGPS_LOCATION_DIFF && now - pps_time <= EGPS_MAX_AGE ==> i64::MIN
            <= gps_time + (now - pps_time) <= i64::MAX,
    ensures
        r == (if now - state.time() > EGPS_LOCATION_DIFF {
            if now - pps_time > EGPS_MAX_AGE {
                (EgpsClock::Stale, state)
            } else {
                (EgpsClock::SetTo((gps_time + (now - pps_time)) as i64), LocationState::Retrieved(gps_time))
            }
        } else {
            (EgpsClock::NotDue, state)
        }),
{
    if state.due(now, EGPS_LOCATION_DIFF) {
        let diff = now - pps_time;
        if diff > EGPS_MAX_AGE {
            (EgpsClock::Stale, state)
        } else {
            (EgpsClock::SetTo(gps_time + diff), LocationState::Retrieved(gps_time))
        }
    } else {
        (EgpsClock::NotDue, state)
    }
}

} // verus!
