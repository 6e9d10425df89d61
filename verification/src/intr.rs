//! The processor's interrupt-enable flag, the kernel's cheap non-reentrant
//! critical-section primitive. Scheduler-list and bitmap mutations demand
//! the flag off for the whole section.

use vstd::prelude::*;

verus! {

/// The single core's interrupt state.
pub struct Cpu {
    pub int_on: bool,
}

impl Cpu {
    /// A core that starts with interrupts off, as at boot.
    pub fn new() -> (r: Cpu)
        ensures
            !r.int_on,
    {
        Cpu { int_on: false }
    }

    /// Whether interrupts are currently accepted.
    pub fn int_enabled(&self) -> (r: bool)
        ensures
            r == self.int_on,
    {
        self.int_on
    }

    /// Turn interrupts on; reports the prior state.
    pub fn enable_int(&mut self) -> (r: bool)
        ensures
            r == old(self).int_on,
            final(self).int_on,
    {
        let old_state = self.int_on;
        self.int_on = true;
        old_state
    }

    /// Turn interrupts off; reports the prior state.
    pub fn disable_int(&mut self) -> (r: bool)
        ensures
            r == old(self).int_on,
            !final(self).int_on,
    {
        let old_state = self.int_on;
        self.int_on = false;
        old_state
    }

    /// Restore a state previously reported by `enable_int`/`disable_int`.
    pub fn set_int(&mut self, enabled: bool)
        ensures
            final(self).int_on == enabled,
    {
        if enabled {
            self.enable_int();
        } else {
            self.disable_int();
        }
    }
}

} // verus!
