//! The interrupt controller: SysTick tick generation, the 128-bit pending-IRQ
//! set, and exception entry/exit with full context frames pushed to and popped
//! from the stack according to the EXC_RETURN protocol.
//!
//! IRQ numbers are signed: `PENDSV = -2`, `SYSTICK = -1`, external IRQs from
//! `0`. Bit `16 + irq` of the pending set marks IRQ `irq` pending.

use vstd::prelude::*;

use crate::memory::{
    mem_read, mem_write, word_from_le, word_le_bytes, MemV, Memory,
};
use crate::regfile::RegFile;

verus! {

pub const IRQ_OFFSET: i32 = 16;

pub const IRQ_PENDSV: i32 = -2;

pub const IRQ_SYSTICK: i32 = -1;

/// The pending-set bit that marks IRQ `irq`.
pub open spec fn irq_bit(irq: int) -> u128 {
    1u128 << ((irq + 16) as u128)
}

/// Index of the lowest set bit at or above `i`, if any.
pub open spec fn lowest_set_from(p: u128, i: int) -> Option<int>
    decreases 128 - i,
{
    if i < 0 || i >= 128 {
        None
    } else if p & (1u128 << (i as u128)) != 0 {
        Some(i)
    } else {
        lowest_set_from(p, i + 1)
    }
}

proof fn lemma_lowest_exists(p: u128, i: u128)
    requires
        i < 128,
        p >> i != 0,
    ensures
        lowest_set_from(p, i as int) is Some,
    decreases 128 - i,
{
    if p & (1u128 << i) == 0 {
        assert(i < 127 && (p >> (i + 1)) != 0) by (bit_vector)
            requires
                i < 128 && p >> i != 0 && p & (1u128 << i) == 0,
        ;
        lemma_lowest_exists(p, (i + 1) as u128);
    }
}

/// What failed during an exception entry or exit.
#[derive(Clone, Copy, PartialEq, Eq, Structural, Debug)]
pub enum NvicError {
    /// The vector-table slot could not be read.
    VectorRead,
    /// The stack pointer did not point at usable memory for the frame.
    InvalidStack,
}

#[derive(Clone, Copy, PartialEq, Eq, Structural, Debug)]
pub struct Nvic {
    /// Instruction period of the synthesised SysTick, when enabled.
    pub systick_period: Option<u32>,
    /// Instruction count at which SysTick last fired.
    pub last_systick_trigger: u64,
    /// Bit `16 + irq` set means IRQ `irq` is pending.
    pub pending: u128,
    /// An interrupt frame is in flight; no new dispatch happens until exit.
    pub in_interrupt: bool,
}

impl Nvic {
    pub fn new() -> (r: Nvic)
        ensures
            r == (Nvic {
                systick_period: None::<u32>,
                last_systick_trigger: 0u64,
                pending: 0u128,
                in_interrupt: false,
            }),
    {
        Nvic { systick_period: None, last_systick_trigger: 0, pending: 0, in_interrupt: false }
    }

    /// Marks IRQ `irq` pending.
    pub fn set_intr_pending(&mut self, irq: i32)
        requires
            -16 < irq < 112,
        ensures
            *final(self) == (Nvic { pending: old(self).pending | irq_bit(irq as int), ..*old(self) }),
    {
        let bit: u32 = (IRQ_OFFSET + irq) as u32;
        self.pending = self.pending | (1u128 << bit);
    }

    /// Pops the lowest-numbered pending IRQ, clearing its bit; `None` when
    /// nothing is pending.
    pub fn get_and_clear_next_intr_pending(&mut self) -> (r: Option<i32>)
        ensures
            match r {
                None => old(self).pending == 0 && *final(self) == *old(self),
                Some(irq) => {
                    &&& old(self).pending != 0
                    &&& -16 <= irq < 112
                    &&& lowest_set_from(old(self).pending, 0) == Some(irq + 16)
                    &&& *final(self) == (Nvic {
                        pending: old(self).pending & !irq_bit(irq as int),
                        ..*old(self)
                    })
                },
            },
    {
        if self.pending == 0 {
            return None;
        }
        let p = self.pending;
        for i in 0..128u32
            invariant
                p == old(self).pending,
                *self == *old(self),
                self.pending != 0,
                lowest_set_from(p, 0) == lowest_set_from(p, i as int),
        {
            if p & (1u128 << (i as u128)) != 0 {
                self.pending = p & !(1u128 << (i as u128));
                let irq = (i as i32) - IRQ_OFFSET;
                proof {
                    assert(lowest_set_from(p, i as int) == Some(i as int));
                    assert(irq_bit(irq as int) == 1u128 << (i as u128));
                }
                return Some(irq);
            }
        }
        proof {
            assert(p >> 0u128 == p) by (bit_vector);
            lemma_lowest_exists(p, 0);
        }
        None
    }

    /// Sets SysTick pending when the configured period has elapsed since the
    /// last trigger, measured in executed instructions.
    pub fn maybe_set_systick_intr_pending(&mut self, num_instructions: u64)
        requires
            old(self).last_systick_trigger <= num_instructions,
        ensures
            *final(self) == (match old(self).systick_period {
                Some(period) => if num_instructions - old(self).last_systick_trigger > period {
                    Nvic {
                        last_systick_trigger: num_instructions,
                        pending: old(self).pending | irq_bit(IRQ_SYSTICK as int),
                        ..*old(self)
                    }
                } else {
                    *old(self)
                },
                None => *old(self),
            }),
    {
        if let Some(period) = self.systick_period {
            let delta = num_instructions - self.last_systick_trigger;
            if delta > period as u64 {
                self.last_systick_trigger = num_instructions;
                self.set_intr_pending(IRQ_SYSTICK);
            }
        }
    }
}

/// The context words in the order they are pushed (first pushed lands at the
/// highest address): for an extended frame FPSCR and `S15..S0` go first, then
/// the basic eight `XPSR, PC, LR, R12, R3, R2, R1, R0`.
pub open spec fn frame_words(regs: RegFile, fpca: bool) -> Seq<u32> {
    let basic = seq![
        regs.xpsr,
        regs.pc,
        regs.lr,
        regs.r12,
        regs.r3,
        regs.r2,
        regs.r1,
        regs.r0,
    ];
    if fpca {
        seq![
            regs.fpscr,
            regs.s[15],
            regs.s[14],
            regs.s[13],
            regs.s[12],
            regs.s[11],
            regs.s[10],
            regs.s[9],
            regs.s[8],
            regs.s[7],
            regs.s[6],
            regs.s[5],
            regs.s[4],
            regs.s[3],
            regs.s[2],
            regs.s[1],
            regs.s[0],
        ] + basic
    } else {
        basic
    }
}

/// Pushing `ws` onto a descending stack at `sp`: each word is stored 4 bytes
/// below the previous stack top. Returns the memory, the final stack pointer,
/// and whether every store landed in mapped memory.
pub open spec fn push_words(m: MemV, sp: u32, ws: Seq<u32>) -> (MemV, u32, bool)
    decreases ws.len(),
{
    if ws.len() == 0 {
        (m, sp, true)
    } else if sp < 4 {
        (m, sp, false)
    } else {
        let a = (sp - 4) as u32;
        let step = mem_write(m, a, word_le_bytes(ws[0]));
        if !step.1 {
            (step.0, a, false)
        } else {
            push_words(step.0, a, ws.drop_first())
        }
    }
}

/// Reading `n` words upward from `sp`. Returns the words, and the stack
/// pointer after the pops, when every load hits mapped memory.
pub open spec fn read_words(m: MemV, sp: u32, n: nat) -> (Option<Seq<u32>>, u32)
    decreases n,
{
    if n == 0 {
        (Some(Seq::<u32>::empty()), sp)
    } else if sp > 0xFFFF_FFFBu32 {
        (None, sp)
    } else {
        match mem_read(m, sp, 4) {
            None => (None, sp),
            Some(b) => {
                let rest = read_words(m, (sp + 4) as u32, (n - 1) as nat);
                match rest.0 {
                    None => (None, rest.1),
                    Some(ws) => (Some(seq![word_from_le(b)] + ws), rest.1),
                }
            },
        }
    }
}

/// A successful multi-word read yields exactly `n` words.
pub proof fn lemma_read_words_len(m: MemV, sp: u32, n: nat)
    ensures
        read_words(m, sp, n).0 matches Some(ws) ==> ws.len() == n,
    decreases n,
{
    if n > 0 && sp <= 0xFFFF_FFFBu32 {
        lemma_read_words_len(m, (sp + 4) as u32, (n - 1) as nat);
    }
}

/// Writes `words[i..]` downward starting at stack top `sp`.
fn push_words_exec(mem: &mut Memory, sp: u32, words: &Vec<u32>, i: usize) -> (r: (u32, bool))
    requires
        i <= words.len(),
    ensures
        (final(mem)@, r.0, r.1) == push_words(old(mem)@, sp, words@.skip(i as int)),
    decreases words.len() - i,
{
    if i == words.len() {
        proof {
            assert(words@.skip(i as int) =~= Seq::<u32>::empty());
        }
        (sp, true)
    } else if sp < 4 {
        (sp, false)
    } else {
        let a = sp - 4;
        let ok = mem.write_u32(a, words[i]);
        proof {
            assert(words@.skip(i as int).drop_first() =~= words@.skip(i as int + 1));
            assert(words@.skip(i as int)[0] == words@[i as int]);
        }
        if !ok {
            (a, false)
        } else {
            push_words_exec(mem, a, words, i + 1)
        }
    }
}

/// Reads `n - i` words upward starting at `sp`, appending to `acc`.
fn read_words_exec(mem: &Memory, sp: u32, n: usize, i: usize, acc: &mut Vec<u32>) -> (r: (
    u32,
    bool,
))
    requires
        i <= n,
    ensures
        ({
            let spec = read_words(mem@, sp, (n - i) as nat);
            match spec.0 {
                Some(ws) => r.1 && final(acc)@ == old(acc)@ + ws && r.0 == spec.1,
                None => !r.1,
            }
        }),
    decreases n - i,
{
    if i == n {
        proof {
            assert(old(acc)@ + Seq::<u32>::empty() =~= old(acc)@);
        }
        (sp, true)
    } else if sp > 0xFFFF_FFFB {
        (sp, false)
    } else {
        match mem.read_u32(sp) {
            None => (sp, false),
            Some(w) => {
                acc.push(w);
                let r = read_words_exec(mem, sp + 4, n, i + 1, acc);
                proof {
                    let spec = read_words(mem@, sp, (n - i) as nat);
                    let rest = read_words(mem@, (sp + 4) as u32, (n - i - 1) as nat);
                    if rest.0 is Some {
                        assert(old(acc)@.push(w) + rest.0.unwrap() =~= old(acc)@ + (seq![w]
                            + rest.0.unwrap()));
                    }
                }
                r
            },
        }
    }
}

/// Everything one exception entry does, relating the states before and
/// after: on success the context frame is pushed onto the active stack, PC
/// is loaded from the vector table, LR gets the EXC_RETURN pattern, IPSR the
/// exception number `16 + irq`, and the in-flight flag is set; an unreadable
/// vector slot or an unusable stack leaves everything unchanged but for the
/// stores that landed before the stack fault.
pub open spec fn run_interrupt_post(
    pre_n: Nvic,
    pre_regs: RegFile,
    pre_mem: MemV,
    post_n: Nvic,
    post_regs: RegFile,
    post_mem: MemV,
    vector_table_addr: u32,
    irq: int,
    r: Result<(), NvicError>,
) -> bool {
    let vaddr = (vector_table_addr + 4 * (16 + irq)) as u32;
    let spsel = pre_regs.control & 2 != 0;
    let fpca = pre_regs.control & 4 != 0;
    let push = push_words(pre_mem, pre_regs.sp_sel(spsel), frame_words(pre_regs, fpca));
    match r {
        Err(NvicError::VectorRead) => {
            &&& mem_read(pre_mem, vaddr, 4) is None
            &&& post_regs == pre_regs
            &&& post_mem == pre_mem
            &&& post_n == pre_n
        },
        Err(NvicError::InvalidStack) => {
            &&& mem_read(pre_mem, vaddr, 4) is Some
            &&& !push.2
            &&& post_regs == pre_regs
            &&& post_n == pre_n
        },
        Ok(()) => {
            &&& mem_read(pre_mem, vaddr, 4) is Some
            &&& push.2
            &&& post_mem == push.0
            &&& post_regs.pc == word_from_le(mem_read(pre_mem, vaddr, 4).unwrap())
            &&& post_regs.lr == exc_return(spsel, fpca)
            &&& post_regs.ipsr == (16 + irq) as u32
            &&& post_regs.sp_sel(spsel) == push.1
            &&& (if spsel {
                post_regs.msp == pre_regs.msp
            } else {
                post_regs.psp == pre_regs.psp
            })
            &&& post_regs.r0 == pre_regs.r0 && post_regs.r1 == pre_regs.r1
            &&& post_regs.r2 == pre_regs.r2 && post_regs.r3 == pre_regs.r3
            &&& post_regs.r12 == pre_regs.r12 && post_regs.xpsr == pre_regs.xpsr
            &&& post_regs.control == pre_regs.control
            &&& post_regs.primask == pre_regs.primask
            &&& post_regs.s@ == pre_regs.s@
            &&& post_regs.fpscr == pre_regs.fpscr
            &&& post_n == (Nvic { in_interrupt: true, ..pre_n })
        },
    }
}

impl Nvic {
    /// Pushes the context frame for exception entry. On success the banked
    /// stack pointer selected by `spsel` is lowered past the frame. On failure
    /// the registers are untouched (the stores that succeeded remain).
    pub fn push_regs(regs: &mut RegFile, mem: &mut Memory, spsel: bool, fpca: bool) -> (ok: bool)
        requires
            old(regs).wf(),
        ensures
            ({
                let r = push_words(
                    old(mem)@,
                    old(regs).sp_sel(spsel),
                    frame_words(*old(regs), fpca),
                );
                &&& final(mem)@ == r.0
                &&& ok == r.2
                &&& *final(regs) == (if r.2 {
                    if spsel {
                        RegFile { psp: r.1, ..*old(regs) }
                    } else {
                        RegFile { msp: r.1, ..*old(regs) }
                    }
                } else {
                    *old(regs)
                })
            }),
            final(regs).wf(),
    {
        let sp0 = regs.read_sp(spsel);
        let mut words: Vec<u32> = Vec::new();
        if fpca {
            words.push(regs.fpscr);
            let mut k: usize = 16;
            while k > 0
                invariant
                    regs.s.len() == 16,
                    k <= 16,
                    words.len() == 1 + (16 - k),
                    words[0] == regs.fpscr,
                    forall|j: int| 1 <= j < words.len() ==> words[j] == regs.s[16 - j],
                decreases k,
            {
                k = k - 1;
                words.push(regs.s[k]);
            }
        }
        words.push(regs.xpsr);
        words.push(regs.pc);
        words.push(regs.lr);
        words.push(regs.r12);
        words.push(regs.r3);
        words.push(regs.r2);
        words.push(regs.r1);
        words.push(regs.r0);
        proof {
            assert(words@ =~= frame_words(*regs, fpca));
        }
        let (sp, ok) = push_words_exec(mem, sp0, &words, 0);
        proof {
            assert(words@.skip(0) =~= words@);
        }
        if ok {
            regs.write_sp(spsel, sp);
        }
        ok
    }

    /// Pops the context frame for exception exit: the basic eight registers
    /// first, then (for an extended frame) `S0..S15` and FPSCR. On success the
    /// banked stack pointer selected by `spsel` is raised past the frame; on
    /// failure nothing is assigned.
    pub fn pop_regs(regs: &mut RegFile, mem: &Memory, spsel: bool, fpca: bool) -> (ok: bool)
        requires
            old(regs).wf(),
        ensures
            ({
                let n: nat = if fpca {
                    25nat
                } else {
                    8nat
                };
                let r = read_words(mem@, old(regs).sp_sel(spsel), n);
                match r.0 {
                    None => !ok && *final(regs) == *old(regs),
                    Some(ws) => {
                        &&& ok
                        &&& final(regs).r0 == ws[0]
                        &&& final(regs).r1 == ws[1]
                        &&& final(regs).r2 == ws[2]
                        &&& final(regs).r3 == ws[3]
                        &&& final(regs).r12 == ws[4]
                        &&& final(regs).lr == ws[5]
                        &&& final(regs).pc == ws[6]
                        &&& final(regs).xpsr == ws[7]
                        &&& final(regs).s@ == (if fpca {
                            Seq::new(16, |j: int| ws[8 + j])
                        } else {
                            old(regs).s@
                        })
                        &&& final(regs).fpscr == (if fpca {
                            ws[24]
                        } else {
                            old(regs).fpscr
                        })
                        &&& final(regs).sp_sel(spsel) == r.1
                        &&& (if spsel {
                            final(regs).msp == old(regs).msp
                        } else {
                            final(regs).psp == old(regs).psp
                        })
                        &&& final(regs).control == old(regs).control
                        &&& final(regs).primask == old(regs).primask
                        &&& final(regs).ipsr == old(regs).ipsr
                    },
                }
            }),
            final(regs).wf(),
    {
        let sp0 = regs.read_sp(spsel);
        let n: usize = if fpca {
            25
        } else {
            8
        };
        let mut ws: Vec<u32> = Vec::new();
        let (sp, ok) = read_words_exec(mem, sp0, n, 0, &mut ws);
        if !ok {
            return false;
        }
        proof {
            lemma_read_words_len(mem@, sp0, n as nat);
            assert(ws@ == read_words(mem@, sp0, n as nat).0.unwrap());
        }
        regs.r0 = ws[0];
        regs.r1 = ws[1];
        regs.r2 = ws[2];
        regs.r3 = ws[3];
        regs.r12 = ws[4];
        regs.lr = ws[5];
        regs.pc = ws[6];
        regs.xpsr = ws[7];
        if fpca {
            let mut j: usize = 0;
            while j < 16
                invariant
                    j <= 16,
                    regs.s.len() == 16,
                    ws.len() == 25,
                    forall|t: int| 0 <= t < j ==> regs.s[t] == ws[8 + t],
                    forall|t: int| j <= t < 16 ==> regs.s[t] == old(regs).s[t],
                    regs.r0 == ws[0] && regs.r1 == ws[1] && regs.r2 == ws[2] && regs.r3 == ws[3],
                    regs.r12 == ws[4] && regs.lr == ws[5] && regs.pc == ws[6] && regs.xpsr == ws[7],
                    regs.msp == old(regs).msp && regs.psp == old(regs).psp,
                    regs.control == old(regs).control && regs.primask == old(regs).primask,
                    regs.ipsr == old(regs).ipsr && regs.fpscr == old(regs).fpscr,
                decreases 16 - j,
            {
                let w = ws[8 + j];
                regs.s.set(j, w);
                j = j + 1;
            }
            regs.fpscr = ws[24];
            proof {
                let specr = read_words(mem@, old(regs).sp_sel(spsel), 25nat);
                assert(regs.s@ =~= Seq::new(16, |t: int| specr.0.unwrap()[8 + t]));
            }
        }
        regs.write_sp(spsel, sp);
        true
    }

    /// Reads the handler address for `irq` from the vector table.
    pub fn read_vector_addr(mem: &Memory, vector_table_addr: u32, irq: i32) -> (r: Option<u32>)
        requires
            -16 <= irq < 112,
            vector_table_addr + 512 <= 0x1_0000_0000,
        ensures
            ({
                let vaddr = (vector_table_addr + 4 * (16 + irq)) as u32;
                match r {
                    Some(v) => mem_read(mem@, vaddr, 4) is Some && v == word_from_le(
                        mem_read(mem@, vaddr, 4).unwrap(),
                    ),
                    None => mem_read(mem@, vaddr, 4) is None,
                }
            }),
    {
        let vaddr = vector_table_addr + 4 * ((IRQ_OFFSET + irq) as u32);
        mem.read_u32(vaddr)
    }

    /// Enters the handler for `irq`: pushes the context frame onto the active
    /// stack, loads LR with the EXC_RETURN pattern, sets IPSR to the exception
    /// number `16 + irq` and PC to the handler address, and marks an interrupt
    /// in flight.
    pub fn run_interrupt(
        &mut self,
        regs: &mut RegFile,
        mem: &mut Memory,
        vector_table_addr: u32,
        irq: i32,
    ) -> (r: Result<(), NvicError>)
        requires
            old(regs).wf(),
            -16 <= irq < 112,
            vector_table_addr + 512 <= 0x1_0000_0000,
        ensures
            final(regs).wf(),
            run_interrupt_post(
                *old(self),
                *old(regs),
                old(mem)@,
                *final(self),
                *final(regs),
                final(mem)@,
                vector_table_addr,
                irq as int,
                r,
            ),
    {
        let vector = match Self::read_vector_addr(mem, vector_table_addr, irq) {
            Some(v) => v,
            None => {
                return Err(NvicError::VectorRead);
            },
        };
        let spsel = regs.control & 2 != 0;
        let fpca = regs.control & 4 != 0;
        if !Self::push_regs(regs, mem, spsel, fpca) {
            return Err(NvicError::InvalidStack);
        }
        regs.lr = 0xFFFF_FFE9u32 | (if spsel {
            0b100u32
        } else {
            0u32
        }) | (if !fpca {
            0b1_0000u32
        } else {
            0u32
        });
        regs.ipsr = (IRQ_OFFSET + irq) as u32;
        regs.pc = vector;
        self.in_interrupt = true;
        Ok(())
    }

    /// Exits the current exception. When LR holds an EXC_RETURN pattern, the
    /// stack and frame type come from its bits (bit 2 selects PSP, bit 4 set
    /// means a basic frame) and CONTROL is rewritten accordingly; otherwise
    /// both come from CONTROL as they are. The context frame is popped either
    /// way and the in-flight flag cleared.
    pub fn return_from_interrupt(&mut self, regs: &mut RegFile, mem: &Memory) -> (r: Result<
        (),
        NvicError,
    >)
        requires
            old(regs).wf(),
        ensures
            final(regs).wf(),
            ({
                let lr = old(regs).lr;
                let from_lr = lr & 0xFFFF_FF00 == 0xFFFF_FF00;
                let spsel = if from_lr {
                    lr & 0b0000_0100 != 0
                } else {
                    old(regs).control & 2 != 0
                };
                let fpca = if from_lr {
                    lr & 0b0001_0000 == 0
                } else {
                    old(regs).control & 4 != 0
                };
                let n: nat = if fpca {
                    25nat
                } else {
                    8nat
                };
                let pop = read_words(mem@, old(regs).sp_sel(spsel), n);
                match r {
                    Err(_) => pop.0 is None && *final(regs) == *old(regs) && *final(self) == *old(
                        self,
                    ),
                    Ok(()) => {
                        let ws = pop.0.unwrap();
                        &&& pop.0 is Some
                        &&& final(regs).r0 == ws[0] && final(regs).r1 == ws[1]
                        &&& final(regs).r2 == ws[2] && final(regs).r3 == ws[3]
                        &&& final(regs).r12 == ws[4] && final(regs).lr == ws[5]
                        &&& final(regs).pc == ws[6] && final(regs).xpsr == ws[7]
                        &&& final(regs).s@ == (if fpca {
                            Seq::new(16, |j: int| ws[8 + j])
                        } else {
                            old(regs).s@
                        })
                        &&& final(regs).fpscr == (if fpca {
                            ws[24]
                        } else {
                            old(regs).fpscr
                        })
                        &&& final(regs).sp_sel(spsel) == pop.1
                        &&& (if spsel {
                            final(regs).msp == old(regs).msp
                        } else {
                            final(regs).psp == old(regs).psp
                        })
                        &&& final(regs).control == (if from_lr {
                            control_bits(spsel, fpca)
                        } else {
                            old(regs).control
                        })
                        &&& final(regs).primask == old(regs).primask
                        &&& final(regs).ipsr == old(regs).ipsr
                        &&& *final(self) == (Nvic { in_interrupt: false, ..*old(self) })
                    },
                }
            }),
    {
        let lr = regs.lr;
        if lr & 0xFFFF_FF00 == 0xFFFF_FF00 {
            let spsel = lr & 0b0000_0100 != 0;
            let fpca = lr & 0b0001_0000 == 0;
            if !Self::pop_regs(regs, mem, spsel, fpca) {
                return Err(NvicError::InvalidStack);
            }
            regs.control = (if spsel {
                2u32
            } else {
                0u32
            }) | (if fpca {
                4u32
            } else {
                0u32
            });
        } else {
            let spsel = regs.control & 2 != 0;
            let fpca = regs.control & 4 != 0;
            if !Self::pop_regs(regs, mem, spsel, fpca) {
                return Err(NvicError::InvalidStack);
            }
        }
        self.in_interrupt = false;
        Ok(())
    }

    /// One scheduling step: advance the synthesised SysTick, then dispatch the
    /// lowest pending IRQ unless interrupts are masked (`PRIMASK` nonzero) or
    /// an interrupt is already in flight.
    pub fn run_pending_interrupts(
        &mut self,
        regs: &mut RegFile,
        mem: &mut Memory,
        vector_table_addr: u32,
        num_instructions: u64,
    ) -> (r: Result<(), NvicError>)
        requires
            old(regs).wf(),
            old(self).last_systick_trigger <= num_instructions,
            vector_table_addr + 512 <= 0x1_0000_0000,
        ensures
            final(regs).wf(),
            ({
                let ticked = ticked_nvic(*old(self), num_instructions);
                if regs_masked(*old(regs)) || ticked.in_interrupt {
                    &&& *final(self) == ticked
                    &&& *final(regs) == *old(regs)
                    &&& final(mem)@ == old(mem)@
                    &&& r is Ok
                } else if ticked.pending == 0 {
                    &&& *final(self) == ticked
                    &&& *final(regs) == *old(regs)
                    &&& final(mem)@ == old(mem)@
                    &&& r is Ok
                } else {
                    // Dispatch: the lowest pending IRQ is removed and its
                    // handler entered exactly as one exception entry does.
                    let irq = lowest_set_from(ticked.pending, 0).unwrap() - 16;
                    let cleared = Nvic { pending: ticked.pending & !irq_bit(irq), ..ticked };
                    &&& lowest_set_from(ticked.pending, 0) is Some
                    &&& -16 <= irq < 112
                    &&& run_interrupt_post(
                        cleared,
                        *old(regs),
                        old(mem)@,
                        *final(self),
                        *final(regs),
                        final(mem)@,
                        vector_table_addr,
                        irq,
                        r,
                    )
                }
            }),
            final(self).last_systick_trigger <= num_instructions,
    {
        self.maybe_set_systick_intr_pending(num_instructions);
        if regs.primask != 0 || self.in_interrupt {
            return Ok(());
        }
        if let Some(irq) = self.get_and_clear_next_intr_pending() {
            self.run_interrupt(regs, mem, vector_table_addr, irq)
        } else {
            Ok(())
        }
    }
}

/// The MMIO facade of the controller: every concrete NVIC register reads
/// zero and writes are no-ops; the pending state lives in [`Nvic`] and is
/// driven by the SCB and SysTick models and the scheduler.
#[derive(Clone, Copy, PartialEq, Eq, Structural, Debug)]
pub struct NvicWrapper {
}

impl NvicWrapper {
    pub fn new() -> (r: NvicWrapper) {
        NvicWrapper {  }
    }

    pub fn read(&self, offset: u32) -> (r: u32)
        ensures
            r == 0,
    {
        0
    }

    pub fn write(&self, offset: u32, value: u32) {
    }
}

/// Pushing never touches memory at or above the initial stack top.
proof fn lemma_push_words_above(m: MemV, sp: u32, ws: Seq<u32>, ra: u32, rl: int)
    requires
        ra >= sp,
        0 <= rl,
    ensures
        mem_read(push_words(m, sp, ws).0, ra, rl) == mem_read(m, ra, rl),
    decreases ws.len(),
{
    if ws.len() > 0 && sp >= 4 {
        let a = (sp - 4) as u32;
        let step = mem_write(m, a, word_le_bytes(ws[0]));
        crate::memory::lemma_mem_write_frame(m, a, word_le_bytes(ws[0]), ra, rl);
        if step.1 {
            lemma_push_words_above(step.0, a, ws.drop_first(), ra, rl);
        }
    }
}

/// Reading one more word extends the read run by the word at its end.
proof fn lemma_read_words_snoc(m: MemV, sp: u32, n: nat)
    requires
        sp + 4 * n + 4 <= 0xFFFF_FFFF,
        read_words(m, sp, n).0 is Some,
        mem_read(m, (sp + 4 * n) as u32, 4) is Some,
    ensures
        read_words(m, sp, (n + 1) as nat).0 == Some(
            read_words(m, sp, n).0.unwrap().push(
                word_from_le(mem_read(m, (sp + 4 * n) as u32, 4).unwrap()),
            ),
        ),
        read_words(m, sp, (n + 1) as nat).1 == (sp + 4 * n + 4) as u32,
    decreases n,
{
    let w = word_from_le(mem_read(m, (sp + 4 * n) as u32, 4).unwrap());
    if n == 0 {
        assert(read_words(m, (sp + 4) as u32, 0nat) == (
            Some(Seq::<u32>::empty()),
            (sp + 4) as u32,
        ));
        assert(read_words(m, sp, 1nat).0 == Some(seq![w] + Seq::<u32>::empty()));
        assert(read_words(m, sp, 0nat).0 == Some(Seq::<u32>::empty()));
        assert(seq![w] + Seq::<u32>::empty() =~= Seq::<u32>::empty().push(w));
    } else {
        lemma_read_words_snoc(m, (sp + 4) as u32, (n - 1) as nat);
        let first = word_from_le(mem_read(m, sp, 4).unwrap());
        let ws_rest = read_words(m, (sp + 4) as u32, (n - 1) as nat).0.unwrap();
        assert(read_words(m, sp, n).0.unwrap() =~= seq![first] + ws_rest);
        assert(seq![first] + ws_rest.push(w) =~= (seq![first] + ws_rest).push(w));
    }
}

/// Pushing a frame and reading it back ascending returns the words in
/// reverse push order, ending where the push began.
pub proof fn lemma_push_then_read(m: MemV, sp: u32, ws: Seq<u32>)
    requires
        push_words(m, sp, ws).2,
    ensures
        sp >= 4 * ws.len(),
        push_words(m, sp, ws).1 == sp - 4 * ws.len(),
        read_words(push_words(m, sp, ws).0, (sp - 4 * ws.len()) as u32, ws.len()).0 == Some(
            ws.reverse(),
        ),
        read_words(push_words(m, sp, ws).0, (sp - 4 * ws.len()) as u32, ws.len()).1 == sp,
    decreases ws.len(),
{
    let n = ws.len();
    if n == 0 {
        assert(ws.reverse() =~= Seq::<u32>::empty());
    } else {
        let a = (sp - 4) as u32;
        let bytes = word_le_bytes(ws[0]);
        let step = mem_write(m, a, bytes);
        let rest = push_words(step.0, a, ws.drop_first());
        lemma_push_then_read(step.0, a, ws.drop_first());
        let spf = (sp - 4 * n) as u32;
        // The word pushed first still reads back after the deeper pushes.
        crate::memory::lemma_mem_write_read_back(m, a, bytes);
        lemma_push_words_above(step.0, a, ws.drop_first(), a, 4);
        assert(mem_read(rest.0, a, 4) == Some(bytes));
        crate::memory::lemma_word_le_round_trip(ws[0]);
        // Extend the reversed tail by that word.
        lemma_read_words_snoc(rest.0, spf, (n - 1) as nat);
        assert(spf + 4 * (n - 1) == a);
        assert(read_words(rest.0, spf, n).0 == Some(
            ws.drop_first().reverse().push(ws[0]),
        ));
        assert(ws.drop_first().reverse().push(ws[0]) =~= ws.reverse());
    }
}

/// Interrupt save/restore: a successful exception entry pushes the basic
/// frame `XPSR, PC, LR, R12, R3, R2, R1, R0` into the 32 bytes below the
/// stack pointer `S`; reading the frame back ascending — which is exactly
/// what exception exit does from the banked stack pointer the entry left —
/// yields `R0, R1, R2, R3, R12, LR, PC, XPSR` and ends with the stack
/// pointer restored to `S`. Together with the contracts of
/// [`Nvic::run_interrupt`] and [`Nvic::return_from_interrupt`], a dispatch
/// followed by an exit restores the working registers and the stack
/// pointer.
pub proof fn lemma_interrupt_save_restore(m: MemV, regs: RegFile, sp: u32)
    requires
        regs.wf(),
        regs.sp_sel(false) == sp,
        push_words(m, sp, frame_words(regs, false)).2,
    ensures
        ({
            let push = push_words(m, sp, frame_words(regs, false));
            let pop = read_words(push.0, push.1, 8nat);
            &&& sp >= 32
            &&& push.1 == sp - 32
            &&& pop.1 == sp
            &&& pop.0 matches Some(ws) && ws.len() == 8
            &&& {
                let ws = pop.0.unwrap();
                &&& ws[0] == regs.r0 && ws[1] == regs.r1 && ws[2] == regs.r2
                &&& ws[3] == regs.r3 && ws[4] == regs.r12 && ws[5] == regs.lr
                &&& ws[6] == regs.pc && ws[7] == regs.xpsr
            }
        }),
{
    let ws = frame_words(regs, false);
    lemma_push_then_read(m, sp, ws);
    assert(ws.reverse().len() == 8);
    assert(ws.reverse()[0] == regs.r0 && ws.reverse()[1] == regs.r1 && ws.reverse()[2]
        == regs.r2 && ws.reverse()[3] == regs.r3 && ws.reverse()[4] == regs.r12
        && ws.reverse()[5] == regs.lr && ws.reverse()[6] == regs.pc && ws.reverse()[7]
        == regs.xpsr);
}

/// Interrupts are masked when `PRIMASK` is nonzero.
pub open spec fn regs_masked(regs: RegFile) -> bool {
    regs.primask != 0
}

/// The controller after one SysTick scheduling step at `num_instructions`.
pub open spec fn ticked_nvic(n: Nvic, num_instructions: u64) -> Nvic {
    match n.systick_period {
        Some(period) => if num_instructions - n.last_systick_trigger > period {
            Nvic {
                last_systick_trigger: num_instructions,
                pending: n.pending | irq_bit(IRQ_SYSTICK as int),
                ..n
            }
        } else {
            n
        },
        None => n,
    }
}

/// The EXC_RETURN pattern loaded into LR on exception entry: base
/// `0xFFFF_FFE9`, bit 2 set when the process stack was active, bit 4 set when
/// the frame is basic (no floating-point context).
pub open spec fn exc_return(spsel: bool, fpca: bool) -> u32 {
    (0xFFFF_FFE9u32 | (if spsel {
        0b100u32
    } else {
        0u32
    }) | (if !fpca {
        0b1_0000u32
    } else {
        0u32
    })) as u32
}

/// The CONTROL value reconstructed on exception exit.
pub open spec fn control_bits(spsel: bool, fpca: bool) -> u32 {
    ((if spsel {
        2u32
    } else {
        0u32
    }) | (if fpca {
        4u32
    } else {
        0u32
    })) as u32
}

} // verus!
