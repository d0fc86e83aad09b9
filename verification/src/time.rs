//! Uptime bookkeeping for the `gettimeofday` and `clock_gettime` system calls.
use vstd::prelude::*;

verus! {

/// Milliseconds per second.
pub const MS_PER_SEC: u64 = 1000;

/// The kernel's uptime counter, advanced by one on every timer tick
/// (the timer runs at 1000 Hz, so one tick is one millisecond).
pub struct Clock {
    pub uptime_ms: u64,
}

/// `a + b`, held at `u64::MAX` where it would exceed it.
pub open spec fn saturating_add_u64(a: u64, b: u64) -> u64 {
    if a + b > u64::MAX {
        u64::MAX
    } else {
        (a + b) as u64
    }
}

impl Clock {
    /// A clock that has not ticked yet.
    pub fn new() -> (c: Self)
        ensures
            c.uptime_ms == 0,
    {
        Clock { uptime_ms: 0 }
    }
}

/// Advance the clock by one millisecond; the counter saturates at `u64::MAX`.
pub fn tick(clock: &mut Clock)
    ensures
        final(clock).uptime_ms == saturating_add_u64(old(clock).uptime_ms, 1),
{
    clock.uptime_ms = clock.uptime_ms.saturating_add(1);
}

/// Uptime in milliseconds.
pub fn uptime_ms(clock: &Clock) -> (ms: u64)
    ensures
        ms == clock.uptime_ms,
{
    clock.uptime_ms
}

/// Uptime split into whole seconds and the remaining microseconds.
pub fn uptime_timeval(clock: &Clock) -> (tv: (u64, u64))
    ensures
        tv.0 == clock.uptime_ms / 1000,
        tv.1 == (clock.uptime_ms % 1000) * 1000,
{
    let ms = uptime_ms(clock);
    let secs = ms / 1000;
    let usecs = (ms % 1000) * 1000;
    (secs, usecs)
}

/// Uptime split into whole seconds and the remaining nanoseconds.
pub fn uptime_timespec(clock: &Clock) -> (ts: (u64, u64))
    ensures
        ts.0 == clock.uptime_ms / 1000,
        ts.1 == (clock.uptime_ms % 1000) * 1_000_000,
{
    let ms = uptime_ms(clock);
    let secs = ms / 1000;
    let nsecs = (ms % 1000) * 1_000_000;
    (secs, nsecs)
}

/// The `gettimeofday` split loses nothing: whole seconds times 1000 plus
/// the microseconds in milliseconds give back the uptime, the microseconds
/// stay below a second, and `clock_gettime`'s nanoseconds are the same
/// instant.
pub proof fn lemma_uptime_split(ms: u64)
    ensures
        (ms / 1000) * 1000 + ((ms % 1000) * 1000) / 1000 == ms,
        (ms % 1000) * 1000 < 1_000_000,
        (ms % 1000) * 1_000_000 == ((ms % 1000) * 1000) * 1000,
{
    assert((ms / 1000) * 1000 + ms % 1000 == ms) by (nonlinear_arith);
    assert(((ms % 1000) * 1000) / 1000 == ms % 1000) by (nonlinear_arith);
}

/// Uptime only grows with ticks, by exactly one until it saturates.
pub proof fn lemma_tick_monotonic(ms: u64)
    ensures
        saturating_add_u64(ms, 1) >= ms,
        ms < u64::MAX ==> saturating_add_u64(ms, 1) == ms + 1,
{
}

} // verus!
