//! System control block: writes to `ICSR` raise SysTick (bit 26) and PendSV
//! (bit 28) pending in the interrupt controller; everything reads zero.

use vstd::prelude::*;

use crate::nvic::{irq_bit, Nvic, IRQ_PENDSV, IRQ_SYSTICK};

verus! {

#[derive(Clone, Copy, PartialEq, Eq, Structural, Debug)]
pub struct Scb {
}

/// The interrupt controller after an SCB register write: `ICSR` bit 26 marks
/// SysTick pending and bit 28 marks PendSV pending; other writes change
/// nothing.
pub open spec fn scb_write_spec(n: Nvic, offset: u32, value: u32) -> Nvic {
    if offset == 0x0004 {
        let n1 = if value & (1u32 << 26) != 0 {
            Nvic { pending: n.pending | irq_bit(IRQ_SYSTICK as int), ..n }
        } else {
            n
        };
        if value & (1u32 << 28) != 0 {
            Nvic { pending: n1.pending | irq_bit(IRQ_PENDSV as int), ..n1 }
        } else {
            n1
        }
    } else {
        n
    }
}

impl Scb {
    pub fn new() -> (r: Scb) {
        Scb {  }
    }

    pub fn read(&self, offset: u32) -> (r: u32)
        ensures
            r == 0,
    {
        0
    }

    pub fn write(&self, offset: u32, value: u32, nvic: &mut Nvic)
        ensures
            *final(nvic) == scb_write_spec(*old(nvic), offset, value),
    {
        if offset == 0x0004 {
            if value & (1u32 << 26) != 0 {
                nvic.set_intr_pending(IRQ_SYSTICK);
            }
            if value & (1u32 << 28) != 0 {
                nvic.set_intr_pending(IRQ_PENDSV);
            }
        }
    }
}

} // verus!
