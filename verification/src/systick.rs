//! SysTick timer model: stores `CTRL` and `LOAD`, synthesises a counting
//! appearance on reads, and programs the interrupt controller's tick period
//! whenever the timer is enabled with its interrupt.

use vstd::prelude::*;

use crate::nvic::Nvic;

verus! {

#[derive(Clone, Copy, PartialEq, Eq, Structural, Debug)]
pub struct SysTick {
    pub ctl: u32,
    pub reload: u32,
    pub val_toggle: bool,
}

/// The timer is enabled with its interrupt (`CTRL` bits 0 and 1 both set).
pub open spec fn systick_int_enabled(s: SysTick) -> bool {
    s.ctl & 0b11 == 0b11
}

/// The value a SysTick register read returns and the state after it: `CTRL`
/// shows a synthesised COUNTFLAG (bit 16) on alternating reads, `LOAD`
/// returns the reload value, `VAL` alternates between 0 and half the reload
/// to appear to be counting.
pub open spec fn systick_read_spec(s: SysTick, offset: u32) -> (u32, SysTick) {
    if offset == 0x0000 {
        let s2 = SysTick { val_toggle: !s.val_toggle, ..s };
        ((s.ctl | (if s2.val_toggle { 0u32 } else { 1u32 << 16 })) as u32, s2)
    } else if offset == 0x0004 {
        (s.reload, s)
    } else if offset == 0x0008 {
        let s2 = SysTick { val_toggle: !s.val_toggle, ..s };
        (if s2.val_toggle { 0u32 } else { s.reload / 2 }, s2)
    } else {
        (0u32, s)
    }
}

/// The timer and the interrupt controller after a SysTick register write:
/// `CTRL` (0x0) and `LOAD` (0x4) store their value and reprogram the
/// controller's period, which is the reload value while enabled with
/// interrupt and absent otherwise.
pub open spec fn systick_write_spec(s: SysTick, n: Nvic, offset: u32, value: u32) -> (
    SysTick,
    Nvic,
) {
    if offset == 0x0000 {
        let s2 = SysTick { ctl: value, ..s };
        (s2, Nvic { systick_period: systick_period_of(s2), ..n })
    } else if offset == 0x0004 {
        let s2 = SysTick { reload: value, ..s };
        (s2, Nvic { systick_period: systick_period_of(s2), ..n })
    } else {
        (s, n)
    }
}

/// The period the controller is programmed with.
pub open spec fn systick_period_of(s: SysTick) -> Option<u32> {
    if systick_int_enabled(s) {
        Some(s.reload)
    } else {
        None
    }
}

impl SysTick {
    pub fn new() -> (r: SysTick)
        ensures
            r.ctl == 0 && r.reload == 0 && !r.val_toggle,
    {
        SysTick { ctl: 0, reload: 0, val_toggle: false }
    }

    /// The timer is enabled with its interrupt.
    pub fn has_int_enabled(&self) -> (r: bool)
        ensures
            r == systick_int_enabled(*self),
    {
        self.ctl & 0b11 == 0b11
    }

    fn set_nvic_systick_period(&self, nvic: &mut Nvic)
        ensures
            *final(nvic) == (Nvic { systick_period: systick_period_of(*self), ..*old(nvic) }),
    {
        let period = if self.has_int_enabled() {
            Some(self.reload)
        } else {
            None
        };
        nvic.systick_period = period;
    }

    pub fn read(&mut self, offset: u32) -> (r: u32)
        ensures
            (r, *final(self)) == systick_read_spec(*old(self), offset),
    {
        if offset == 0x0000 {
            self.val_toggle = !self.val_toggle;
            self.ctl | (if self.val_toggle {
                0
            } else {
                1u32 << 16
            })
        } else if offset == 0x0004 {
            self.reload
        } else if offset == 0x0008 {
            self.val_toggle = !self.val_toggle;
            if self.val_toggle {
                0
            } else {
                self.reload / 2
            }
        } else {
            0
        }
    }

    pub fn write(&mut self, offset: u32, value: u32, nvic: &mut Nvic)
        ensures
            (*final(self), *final(nvic)) == systick_write_spec(
                *old(self),
                *old(nvic),
                offset,
                value,
            ),
    {
        if offset == 0x0000 {
            self.ctl = value;
            self.set_nvic_systick_period(nvic);
        } else if offset == 0x0004 {
            self.reload = value;
            self.set_nvic_systick_period(nvic);
        }
    }
}

/// Round trip: a value stored in `LOAD` reads back unchanged.
pub proof fn lemma_systick_load_round_trip(s: SysTick, n: crate::nvic::Nvic, v: u32)
    ensures
        systick_read_spec(systick_write_spec(s, n, 0x0004, v).0, 0x0004).0 == v,
{
}

} // verus!
