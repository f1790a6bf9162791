//! Minimal I2C model: the status registers flap their bits on a small
//! rotating counter so polling firmware makes progress; data reads and
//! writes carry no payload.

use vstd::prelude::*;

verus! {

#[derive(Clone, Copy, PartialEq, Eq, Structural, Debug)]
pub struct I2c {
    pub toggle: u8,
}

/// The value an I2C register read returns and the state after it: `SR1`
/// (0x14) and `SR2` (0x18) advance the counter modulo 5 and report all-ones
/// on alternating phases; everything else reads zero.
pub open spec fn i2c_read_spec(s: I2c, offset: u32) -> (u32, I2c) {
    if offset == 0x0014 {
        let t = ((s.toggle + 1) % 5) as u8;
        (if t & 2 != 0 { 0xFFFF_FFFFu32 } else { 0u32 }, I2c { toggle: t })
    } else if offset == 0x0018 {
        let t = ((s.toggle + 1) % 5) as u8;
        (if t & 1 != 0 { 0xFFFF_FFFFu32 } else { 0u32 }, I2c { toggle: t })
    } else {
        (0u32, s)
    }
}

impl I2c {
    pub fn new() -> (r: I2c)
        ensures
            r.toggle == 0,
    {
        I2c { toggle: 0 }
    }

    pub fn read(&mut self, offset: u32) -> (r: u32)
        ensures
            (r, *final(self)) == i2c_read_spec(*old(self), offset),
    {
        if offset == 0x0014 {
            self.toggle = ((self.toggle as u32 + 1) % 5) as u8;
            if self.toggle & 2 != 0 {
                0xFFFF_FFFF
            } else {
                0
            }
        } else if offset == 0x0018 {
            self.toggle = ((self.toggle as u32 + 1) % 5) as u8;
            if self.toggle & 1 != 0 {
                0xFFFF_FFFF
            } else {
                0
            }
        } else {
            0
        }
    }

    /// Data writes are traced only; no register state changes.
    pub fn write(&self, offset: u32, value: u32) {
    }
}

} // verus!
