//! When a queued entry is due for another attempt. One policy serves uploads and delete
//! tombstones, so an entry's schedule does not depend on what it does.

use vstd::arithmetic::power2::pow2;
use vstd::prelude::*;

use crate::clock::{nanos_between, parse_rfc3339, rfc3339, Instant};
use crate::outbox::OutboxEntry;

verus! {

/// The seconds an entry waits after `attempt_count` failed attempts: thirty, doubled for
/// every further failure, and never more than an hour.
pub open spec fn backoff_seconds(attempt_count: int) -> int {
    if attempt_count <= 0 {
        0
    } else if 30 * pow2((attempt_count - 1) as nat) <= 3600 {
        30 * pow2((attempt_count - 1) as nat) as int
    } else {
        3600
    }
}

/// The seconds an entry waits after `attempt_count` failed attempts. A fresh entry waits
/// not at all, and a persistently failing one is still tried every hour.
pub fn backoff_window(attempt_count: i64) -> (seconds: i64)
    ensures
        seconds == backoff_seconds(attempt_count as int),
{
    if attempt_count <= 0 {
        return 0;
    }
    proof {
        vstd::arithmetic::power2::lemma2_to64();
        if attempt_count >= 8 {
            lemma_pow2_grows(7, (attempt_count - 1) as nat);
        }
    }
    match attempt_count {
        1 => 30,
        2 => 60,
        3 => 120,
        4 => 240,
        5 => 480,
        6 => 960,
        7 => 1920,
        _ => 3600,
    }
}

proof fn lemma_pow2_grows(a: nat, b: nat)
    requires
        a <= b,
    ensures
        pow2(a) <= pow2(b),
{
    if a < b {
        vstd::arithmetic::power2::lemma_pow2_strictly_increases(a, b);
    }
}

/// A further failure never shortens the wait, and no wait is longer than an hour.
pub proof fn law_backoff_is_monotone_and_capped(a: int, b: int)
    requires
        a <= b,
    ensures
        0 <= backoff_seconds(a) <= backoff_seconds(b) <= 3600,
{
    if a > 0 {
        lemma_pow2_grows((a - 1) as nat, (b - 1) as nat);
    }
}

/// Whether an entry that failed `attempt_count` times, last at `last`, still waits at
/// `now`.
pub open spec fn still_waits(attempt_count: int, last: Instant, now: Instant) -> bool {
    nanos_between(last, now) < backoff_seconds(attempt_count) * 1_000_000_000
}

/// Whether an entry that failed `attempt_count` times, last at `last`, still waits at
/// `now`.
pub fn waits_since(attempt_count: i64, last: &Instant, now: &Instant) -> (waits: bool)
    ensures
        waits == still_waits(attempt_count as int, *last, *now),
{
    let window: i64 = backoff_window(attempt_count);
    proof {
        law_backoff_is_monotone_and_capped(attempt_count as int, attempt_count as int);
    }
    now.nanos_since(last) < window as i128 * 1_000_000_000
}

/// Whether an entry waits at `now`: it does while its last attempt is more recent than
/// its window. An entry that was never tried is due, and so is one whose recorded time
/// cannot be read, since that record is bookkeeping that decides nothing.
pub open spec fn in_backoff(
    attempt_count: int,
    last_attempt_at: Option<Seq<char>>,
    now: Instant,
) -> bool {
    match last_attempt_at {
        None => false,
        Some(text) => match rfc3339(text) {
            Ok((seconds, nanos)) => still_waits(attempt_count, Instant { seconds, nanos }, now),
            Err(_) => false,
        },
    }
}

/// Whether `entry` still waits at `now` and is left alone this time.
pub fn entry_in_backoff(entry: &OutboxEntry, now: &Instant) -> (waits: bool)
    ensures
        waits == in_backoff(entry@.attempt_count as int, entry@.last_attempt_at, *now),
{
    match &entry.last_attempt_at {
        None => false,
        Some(text) => match parse_rfc3339(text.as_str()) {
            Ok(last) => waits_since(entry.attempt_count, &last, now),
            Err(_) => false,
        },
    }
}

} // verus!
