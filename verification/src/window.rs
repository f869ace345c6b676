//! The capture window of the console and network commands: how long each read may wait,
//! and when the window is over.

use vstd::prelude::*;

verus! {

/// The longest a single read waits, in nanoseconds (200 ms), so that the window is
/// checked again at least that often.
pub const READ_SLICE_NANOS: u128 = 200_000_000;

/// How long the next read of a window of `duration` nanoseconds may wait when `elapsed`
/// nanoseconds have passed: what is left of the window, at most one slice; nothing once
/// the window is over.
pub open spec fn read_timeout(elapsed: int, duration: int) -> Option<int> {
    if elapsed < duration {
        let left = duration - elapsed;
        Some(if left < READ_SLICE_NANOS { left } else { READ_SLICE_NANOS as int })
    } else {
        None
    }
}

/// The wait of the next read, in nanoseconds, or none when the window is over.
pub fn next_read_timeout(elapsed: u128, duration: u128) -> (t: Option<u128>)
    ensures
        match t {
            Some(n) => read_timeout(elapsed as int, duration as int) == Some(n as int),
            None => read_timeout(elapsed as int, duration as int) is None,
        },
{
    if elapsed < duration {
        let left = duration - elapsed;
        if left < READ_SLICE_NANOS {
            Some(left)
        } else {
            Some(READ_SLICE_NANOS)
        }
    } else {
        None
    }
}

/// A read that the window allows waits for some time, no longer than a slice, and ends
/// no later than the window does.
pub proof fn lemma_read_stays_in_window(elapsed: int, duration: int)
    requires
        read_timeout(elapsed, duration) is Some,
    ensures
        0 < read_timeout(elapsed, duration)->0 <= READ_SLICE_NANOS,
        elapsed + read_timeout(elapsed, duration)->0 <= duration,
{
}

} // verus!
