//! Programmable interval timer setup.
//!
//! The control word selects counter 0, both latch bytes, rate mode; then the
//! divisor for the wanted interrupt frequency goes out low byte first.

use vstd::prelude::*;

verus! {

/// Port of counter 0.
pub const COUNTER0_PORT: u16 = 0x40;

/// Control port of the interval timer.
pub const PIT_CONTROL_PORT: u16 = 0x43;

/// Timer interrupts per second after setup.
pub const IRQ0_FREQUENCY: u32 = 10000;

/// The timer chip's input clock.
pub const INPUT_FREQUENCY: u32 = 1193180;

/// Milliseconds covered by one tick; whole sleeps are expressed in these.
pub const MIL_SECONDS_PER_INT: u32 = 10;

/// The port writes that program the timer: the control word, then the
/// divisor `INPUT_FREQUENCY / IRQ0_FREQUENCY` low byte first.
pub fn init() -> (r: Vec<(u16, u8)>)
    ensures
        r@.len() == 3,
        r@[0] == (PIT_CONTROL_PORT, (3u8 << 4) | (2u8 << 1)),
        r@[1] == (COUNTER0_PORT, ((INPUT_FREQUENCY / IRQ0_FREQUENCY) & 0xff) as u8),
        r@[2] == (COUNTER0_PORT, ((INPUT_FREQUENCY / IRQ0_FREQUENCY) >> 8 & 0xff) as u8),
{
    let counter0_value: u32 = INPUT_FREQUENCY / IRQ0_FREQUENCY;
    let mut r: Vec<(u16, u8)> = Vec::new();
    r.push((PIT_CONTROL_PORT, (3u8 << 4) | (2u8 << 1)));
    r.push((COUNTER0_PORT, (counter0_value & 0xff) as u8));
    r.push((COUNTER0_PORT, (counter0_value >> 8 & 0xff) as u8));
    r
}

} // verus!
