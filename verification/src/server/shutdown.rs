//! Putting the server to sleep: in production, the server shuts down after
//! two minutes without any request, checking every 30 seconds.
use vstd::prelude::*;
use crate::server::config::Environment;

verus! {

/// Seconds of inactivity after which the server shuts down.
pub const TIME: u64 = 2 * 60;

/// Seconds between two checks.
pub const POLL: u32 = 30;

/// When the last request arrived, in seconds since the Unix epoch.
pub struct ActivityTracker {
    pub last_request_time: u64,
}

impl ActivityTracker {
    pub fn new() -> (r: Self)
        ensures
            r.last_request_time == 0,
    {
        ActivityTracker { last_request_time: 0 }
    }
}

/// Records that a request arrived at `now`.
pub fn update_last_activity(tracker: &mut ActivityTracker, now: u64)
    ensures
        final(tracker).last_request_time == now,
{
    tracker.last_request_time = now;
}

/// Whether the inactivity check runs at all: not in development.
pub fn inactivity_check_enabled(environment: &Environment) -> (r: bool)
    ensures
        r == (*environment is Production),
{
    !environment.is_development()
}

/// The server, last asked at `last`, has been idle for longer than `TIME`
/// at `now`.
pub open spec fn idle_too_long(last: u64, now: u64) -> bool {
    now - last > TIME
}

/// Whether the server has been idle for longer than `TIME` at `now`.
pub fn shutdown_due(tracker: &ActivityTracker, now: u64) -> (r: bool)
    requires
        tracker.last_request_time <= now,
    ensures
        r == idle_too_long(tracker.last_request_time, now),
        r <==> now - tracker.last_request_time > TIME,
{
    now - tracker.last_request_time > TIME
}

/// Idleness beyond `TIME` makes shutdown due, however long it has lasted:
/// due exactly when more than `TIME` seconds passed since the last request.
pub proof fn long_idleness_shuts_down(last: u64, now: u64)
    requires
        last <= now,
    ensures
        now - last > TIME ==> idle_too_long(last, now),
        now - last <= TIME ==> !idle_too_long(last, now),
        now as int - last as int >= 2 * TIME ==> idle_too_long(last, now),
{
}

/// A request keeps the server awake: right after a request, the server is
/// not due to shut down until more than `TIME` seconds have passed.
pub proof fn request_keeps_server_awake(now: u64, later: u64)
    requires
        now <= later <= now + TIME,
    ensures
        !idle_too_long(now, later),
{
}

} // verus!
