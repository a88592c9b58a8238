//! Retry delays, sample deadlines and observation ages. All times are
//! monotonic milliseconds.

use vstd::prelude::*;

verus! {

/// How often telemetry is announced at the most, in milliseconds.
pub const TELEMETRY_INTERVAL: u64 = 250;

/// The age from which a frequency observation is stale.
pub const FREQUENCY_STALE_AFTER_MS: u64 = 3_000;

/// The delay before retry number `failures`: it doubles from a tenth of a
/// second with every further failure, up to 25.6 seconds.
pub open spec fn retry_delay(failures: nat) -> nat
    decreases failures,
{
    if failures <= 1 {
        100
    } else if failures >= 9 {
        25_600
    } else {
        2 * retry_delay((failures - 1) as nat)
    }
}

/// The delay before the next attempt after the given number of failures.
pub fn retry_delay_ms(failures: u32) -> (delay: u64)
    ensures
        delay == retry_delay(failures as nat),
{
    let exponent: u32 = if failures == 0 {
        0
    } else if failures - 1 < 8 {
        failures - 1
    } else {
        8
    };
    proof {
        reveal_with_fuel(retry_delay, 9);
    }
    let mut delay: u64 = 100;
    let mut i: u32 = 0;
    while i < exponent
        invariant
            i <= exponent <= 8,
            delay == retry_delay((i + 1) as nat),
            delay <= 25_600,
        decreases exponent - i,
    {
        proof {
            reveal_with_fuel(retry_delay, 10);
        }
        delay = delay * 2;
        i = i + 1;
    }
    delay
}

/// More failures never shorten the delay, and it stays within half a minute.
pub proof fn retry_delay_is_bounded_and_monotone(a: nat, b: nat)
    requires
        a <= b,
    ensures
        100 <= retry_delay(a) <= retry_delay(b) <= 30_000,
{
    reveal_with_fuel(retry_delay, 10);
}

/// Whether an observation last made at `last_success` is too old at `now`, or
/// comes from the future.
pub open spec fn stale_sample(last_success: Option<u64>, now: u64) -> bool {
    match last_success {
        None => true,
        Some(last) => last > now || now - last > FREQUENCY_STALE_AFTER_MS,
    }
}

/// Whether an observation last made at `last_success` is too old at `now`.
pub fn frequency_sample_is_stale(last_success: Option<u64>, now: u64) -> (r: bool)
    ensures
        r == stale_sample(last_success, now),
{
    match last_success {
        None => true,
        Some(last) => last > now || now - last > FREQUENCY_STALE_AFTER_MS,
    }
}

/// An interval of at least one millisecond.
pub open spec fn positive_interval(interval: u64) -> u64 {
    if interval == 0 {
        1
    } else {
        interval
    }
}

/// An interval of at least one millisecond.
pub fn nonzero_interval(interval: u64) -> (r: u64)
    ensures
        r == positive_interval(interval),
{
    if interval == 0 {
        1
    } else {
        interval
    }
}

/// The next deadline of a periodic observer: one interval behind the previous
/// deadline, or, where that has passed, one interval from now. Missed samples
/// are not made up for.
pub open spec fn deadline_after(previous: u64, interval: u64, now: u64) -> int {
    let step = positive_interval(interval);
    if previous + step <= u64::MAX && previous + step > now {
        previous + step
    } else {
        now + step
    }
}

/// The next deadline of a periodic observer.
pub fn next_observer_deadline(previous: u64, interval: u64, now: u64) -> (deadline: u64)
    requires
        now + positive_interval(interval) <= u64::MAX,
    ensures
        deadline == deadline_after(previous, interval, now),
{
    let step = nonzero_interval(interval);
    match previous.checked_add(step) {
        Some(scheduled) => if scheduled > now {
            scheduled
        } else {
            now + step
        },
        None => now + step,
    }
}

/// A deadline always lies ahead, so an observer never spins.
pub proof fn deadline_lies_ahead(previous: u64, interval: u64, now: u64)
    ensures
        deadline_after(previous, interval, now) > now,
{
}

} // verus!
