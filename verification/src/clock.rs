//! When the player looks after itself.

use vstd::prelude::*;

verus! {

/// How many nanoseconds pass between two looks at whether a song has ended.
pub const TICK: u64 = 100_000_000;

/// How long to wait for a key, when so many nanoseconds have passed since the last look.
pub fn poll_timeout(elapsed: u128) -> (res: u64)
    ensures
        res == if elapsed < TICK {
            TICK - elapsed
        } else {
            0
        },
        elapsed + res >= 100_000_000,
        res > 0 ==> elapsed + res == 100_000_000,
{
    if elapsed < TICK as u128 {
        TICK - elapsed as u64
    } else {
        0
    }
}

/// Whether to look now whether a song has ended. A key that went into typed text puts it off.
pub fn tick_due(elapsed: u128, typed: bool) -> (res: bool)
    ensures
        res == (!typed && elapsed >= TICK),
        res ==> elapsed >= 100_000_000,
        !typed && !res ==> elapsed < 100_000_000,
        typed ==> !res,
{
    !typed && elapsed >= TICK as u128
}

} // verus!
