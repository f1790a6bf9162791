//! Reset and clock control: every ready flag reads as set so firmware
//! busy-waits complete immediately; writes are accepted and ignored.

use vstd::prelude::*;

verus! {

#[derive(Clone, Copy, PartialEq, Eq, Structural, Debug)]
pub struct Rcc {
}

/// What an RCC register read returns: `CR` is all-ones (every PLL/oscillator
/// ready bit asserted), `CFGR` reports the system clock switched to the
/// selected source, everything else reads zero.
pub open spec fn rcc_read_spec(offset: u32) -> u32 {
    if offset == 0x0000 {
        0xFFFF_FFFFu32
    } else if offset == 0x0008 {
        0b1000u32
    } else {
        0u32
    }
}

impl Rcc {
    pub fn new() -> (r: Rcc) {
        Rcc {  }
    }

    pub fn read(&self, offset: u32) -> (r: u32)
        ensures
            r == rcc_read_spec(offset),
    {
        if offset == 0x0000 {
            0xFFFF_FFFF
        } else if offset == 0x0008 {
            0b1000
        } else {
            0
        }
    }

    /// All writes are accepted and ignored.
    pub fn write(&self, offset: u32, value: u32) {
    }
}

} // verus!
