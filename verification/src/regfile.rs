//! Plain-value model of the CPU register state that exception entry and exit
//! manipulate. The CPU host owns the live registers; callers copy the values
//! in, let the interrupt controller compute the transition, and copy the
//! results back.
//!
//! `MSP`/`PSP` are the banked stack pointers; the active one is selected by
//! `CONTROL.SPSEL` while the processor runs in thread mode. The floating-point
//! context (`S0..S15`, `FPSCR`) is carried as raw 32-bit words.

use vstd::prelude::*;

verus! {

pub struct RegFile {
    pub r0: u32,
    pub r1: u32,
    pub r2: u32,
    pub r3: u32,
    pub r12: u32,
    pub lr: u32,
    pub pc: u32,
    pub xpsr: u32,
    pub msp: u32,
    pub psp: u32,
    pub control: u32,
    pub primask: u32,
    pub ipsr: u32,
    /// `S0..S15`, raw bit patterns.
    pub s: Vec<u32>,
    pub fpscr: u32,
}

impl RegFile {
    /// The floating-point register bank always holds 16 words.
    pub open spec fn wf(self) -> bool {
        self.s.len() == 16
    }

    /// The stack pointer selected by `spsel`: PSP when set, MSP otherwise.
    pub open spec fn sp_sel(self, spsel: bool) -> u32 {
        if spsel {
            self.psp
        } else {
            self.msp
        }
    }

    /// Reads the banked stack pointer selected by `spsel`.
    pub fn read_sp(&self, spsel: bool) -> (r: u32)
        ensures
            r == self.sp_sel(spsel),
    {
        if spsel {
            self.psp
        } else {
            self.msp
        }
    }

    /// Writes the banked stack pointer selected by `spsel`.
    pub fn write_sp(&mut self, spsel: bool, v: u32)
        ensures
            *final(self) == (if spsel {
                RegFile { psp: v, ..*old(self) }
            } else {
                RegFile { msp: v, ..*old(self) }
            }),
    {
        if spsel {
            self.psp = v;
        } else {
            self.msp = v;
        }
    }

    /// A register file with everything zeroed.
    pub fn zeroed() -> (r: RegFile)
        ensures
            r.wf(),
            r.r0 == 0 && r.r1 == 0 && r.r2 == 0 && r.r3 == 0 && r.r12 == 0,
            r.lr == 0 && r.pc == 0 && r.xpsr == 0,
            r.msp == 0 && r.psp == 0 && r.control == 0 && r.primask == 0 && r.ipsr == 0,
            r.fpscr == 0,
            forall|i: int| 0 <= i < 16 ==> r.s[i] == 0,
    {
        let mut s: Vec<u32> = Vec::new();
        for i in 0..16usize
            invariant
                s.len() == i,
                forall|j: int| 0 <= j < i ==> s[j] == 0,
        {
            s.push(0);
        }
        RegFile {
            r0: 0,
            r1: 0,
            r2: 0,
            r3: 0,
            r12: 0,
            lr: 0,
            pc: 0,
            xpsr: 0,
            msp: 0,
            psp: 0,
            control: 0,
            primask: 0,
            ipsr: 0,
            s,
            fpscr: 0,
        }
    }
}

} // verus!
