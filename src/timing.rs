//! The fixed-rate simulation clock: how many ticks a frame runs.

use vstd::prelude::*;

verus! {

/// Ticks per second of the simulation.
pub const TICK_RATE: u32 = 30;

/// The most ticks one frame catches up on, so that a stall does not turn
/// into an ever longer frame.
pub const MAX_TICKS_PER_FRAME: u32 = 10;

/// The ticks to run this frame, given the whole ticks that elapsed since
/// the last one.
pub fn ticks_this_frame(elapsed_ticks: i64) -> (r: u32)
    ensures
        elapsed_ticks <= 0 ==> r == 0,
        0 <= elapsed_ticks <= MAX_TICKS_PER_FRAME ==> r == elapsed_ticks,
        elapsed_ticks >= MAX_TICKS_PER_FRAME ==> r == MAX_TICKS_PER_FRAME,
{
    if elapsed_ticks <= 0 {
        0
    } else if elapsed_ticks >= MAX_TICKS_PER_FRAME as i64 {
        MAX_TICKS_PER_FRAME
    } else {
        elapsed_ticks as u32
    }
}

} // verus!
