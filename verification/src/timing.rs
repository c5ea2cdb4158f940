//! Polling intervals, reconnect waits, and sleeping in steps that a stop can interrupt.
use vstd::prelude::*;

use crate::layout::NUM_SLOTS;

verus! {

pub const POLL_FAST_US: u64 = 100;

pub const POLL_MED_US: u64 = 500;

pub const POLL_IDLE_MS: u64 = 1;

pub const FAST_IDLE_WINDOW_US: u64 = 5_000;

pub const MED_IDLE_WINDOW_US: u64 = 20_000;

/// Idle polls before polling slows down for the first time.
pub const IDLE_THRESH_FAST: u32 = 50;

/// Further idle polls before polling slows down for the second time.
pub const IDLE_THRESH_MED: u32 = 40;

/// Events per second at which the ring is sized.
pub const EXPECTED_PEAK_EVENTS_PER_SEC: u64 = 100_000;

/// Half the time that the ring covers at the peak rate, within 10 and 100.
pub const RECONNECT_SLEEP_MS: u64 = 81;

/// Longest sleep between two looks at the stop signal.
pub const STOP_CHECK_MS: u64 = 100;

/// Slow idle polls before the mapping is opened again.
pub const IDLE_REOPEN_CHECKS: u32 = 81;

pub const WRITE_LOCK_BACKOFF_US: u64 = POLL_FAST_US / 2;

/// Law: the thresholds are the idle windows in polls, and the reconnect wait is half of what
/// the ring covers at the peak rate, within its bounds.
pub proof fn intervals_fit_the_ring()
    ensures
        IDLE_THRESH_FAST == FAST_IDLE_WINDOW_US / POLL_FAST_US,
        IDLE_THRESH_MED == MED_IDLE_WINDOW_US / POLL_MED_US,
        RECONNECT_SLEEP_MS == NUM_SLOTS * 1_000 / (EXPECTED_PEAK_EVENTS_PER_SEC as int) / 2,
        10 <= RECONNECT_SLEEP_MS <= 100,
        IDLE_REOPEN_CHECKS == (RECONNECT_SLEEP_MS + POLL_IDLE_MS - 1) / (POLL_IDLE_MS as int),
{
}

/// How long a sleep goes on at once, in milliseconds: nothing where it is over or was called
/// off, else what is left, but no more than up to the next look at the stop signal.
pub open spec fn sleep_piece(active: bool, slept_ms: u128, total_ms: u128) -> Option<u64> {
    if !active || slept_ms >= total_ms {
        None
    } else if total_ms - slept_ms < STOP_CHECK_MS {
        Some((total_ms - slept_ms) as u64)
    } else {
        Some(STOP_CHECK_MS)
    }
}

/// How long to sleep next, `slept_ms` into a sleep of `total_ms` that ends early once
/// `active` is no longer so.
pub fn sleep_interruptible(active: bool, slept_ms: u128, total_ms: u128) -> (step: Option<u64>)
    ensures
        step == sleep_piece(active, slept_ms, total_ms),
{
    if !active || slept_ms >= total_ms {
        return None;
    }
    let remain: u128 = total_ms - slept_ms;
    if remain < STOP_CHECK_MS as u128 {
        Some(remain as u64)
    } else {
        Some(STOP_CHECK_MS)
    }
}

/// How long was slept after `pieces` pieces that nothing called off.
pub open spec fn slept_after(pieces: nat, total_ms: u128) -> u128
    decreases pieces,
{
    if pieces == 0 {
        0
    } else {
        let before = slept_after((pieces - 1) as nat, total_ms);
        match sleep_piece(true, before, total_ms) {
            Some(piece) => (before + piece) as u128,
            None => before,
        }
    }
}

/// Law: pieces add up to exactly the sleep that was asked for, and as few of them as the
/// looks at the stop signal allow.
pub proof fn sleep_adds_up(pieces: nat, total_ms: u128)
    ensures
        slept_after(pieces, total_ms) == (if pieces * STOP_CHECK_MS < total_ms {
            pieces * STOP_CHECK_MS
        } else {
            total_ms as int
        }),
    decreases pieces,
{
    if pieces > 0 {
        sleep_adds_up((pieces - 1) as nat, total_ms);
        assert(pieces * STOP_CHECK_MS == (pieces - 1) * STOP_CHECK_MS + STOP_CHECK_MS);
    }
}

/// Law: a sleep that was called off, or is over, goes on no more; any other goes on, for no
/// longer than what is left of it, nor than 100 milliseconds.
pub proof fn sleep_looks_up_in_time(active: bool, slept_ms: u128, total_ms: u128)
    ensures
        sleep_piece(active, slept_ms, total_ms) is Some <==> active && slept_ms < total_ms,
        sleep_piece(active, slept_ms, total_ms) matches Some(piece) ==> {
            &&& 0 < piece <= 100
            &&& slept_ms + piece <= total_ms
            &&& piece == 100 || slept_ms + piece == total_ms
        },
{
}

} // verus!
