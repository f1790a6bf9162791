//! The emulation-loop decisions: the per-instruction hook (busy-loop
//! detection, instruction counting, when to run interrupts and pump
//! presentation events) and the outer run loop's verdict after each stint of
//! the CPU host. The host executes the instructions; this module decides
//! what happens between them.

use vstd::prelude::*;

use crate::memory::{mem_read, word_from_le, MemV, Memory};

verus! {

/// How often (in instructions) presentation events are pumped.
pub const PUMP_EVENT_INST_INTERVAL: u64 = 100_000;

/// The first two vector-table entries: the initial stack pointer and the
/// reset handler.
pub struct VectorTable {
    pub sp: u32,
    pub reset: u32,
}

impl VectorTable {
    /// Reads the initial SP and reset vector from memory at `addr`.
    pub fn from_memory(mem: &Memory, addr: u32) -> (r: Option<VectorTable>)
        requires
            addr + 8 <= 0x1_0000_0000,
        ensures
            match r {
                Some(v) => {
                    &&& mem_read(mem@, addr, 4) is Some
                    &&& mem_read(mem@, (addr + 4) as u32, 4) is Some
                    &&& v.sp == word_from_le(mem_read(mem@, addr, 4).unwrap())
                    &&& v.reset == word_from_le(mem_read(mem@, (addr + 4) as u32, 4).unwrap())
                },
                None => mem_read(mem@, addr, 4) is None || mem_read(
                    mem@,
                    (addr + 4) as u32,
                    4,
                ) is None,
            },
    {
        let sp = match mem.read_u32(addr) {
            None => {
                return None;
            },
            Some(v) => v,
        };
        let reset = match mem.read_u32(addr + 4) {
            None => {
                return None;
            },
            Some(v) => v,
        };
        Some(VectorTable { sp, reset })
    }
}

/// One stack word of the end-of-run dump: its address, its value, and
/// whether the value looks like a return address into the code region.
#[derive(Clone, Copy, PartialEq, Eq, Structural, Debug)]
pub struct StackWord {
    pub sp: u32,
    pub value: u32,
    pub likely_return: bool,
}

/// Values inside the flash window read like return addresses.
pub open spec fn likely_return(v: u32) -> bool {
    0x0800_0000 <= v < 0x0810_0000
}

/// Walks up to `count` words up the stack from `sp`, flagging values that
/// look like return addresses; stops early at the first unreadable word or
/// at the top of the address space.
pub fn dump_stack(mem: &Memory, sp: u32, count: usize) -> (words: Vec<StackWord>)
    ensures
        words.len() <= count,
        forall|t: int|
            0 <= t < words.len() ==> {
                let w = #[trigger] words[t];
                &&& sp + 4 * t + 4 <= 0x1_0000_0000
                &&& w.sp == (sp + 4 * t) as u32
                &&& mem_read(mem@, w.sp, 4) is Some
                &&& w.value == word_from_le(mem_read(mem@, w.sp, 4).unwrap())
                &&& w.likely_return == likely_return(w.value)
            },
        words.len() < count ==> sp + 4 * words.len() + 4 > 0x1_0000_0000 || mem_read(
            mem@,
            (sp + 4 * words.len()) as u32,
            4,
        ) is None,
{
    let mut words: Vec<StackWord> = Vec::new();
    for i in 0..count
        invariant
            words.len() == i,
            forall|t: int|
                0 <= t < i ==> {
                    let w = #[trigger] words[t];
                    &&& sp + 4 * t + 4 <= 0x1_0000_0000
                    &&& w.sp == (sp + 4 * t) as u32
                    &&& mem_read(mem@, w.sp, 4) is Some
                    &&& w.value == word_from_le(mem_read(mem@, w.sp, 4).unwrap())
                    &&& w.likely_return == likely_return(w.value)
                },
    {
        if (i as u64) >= 0x4000_0000u64 {
            return words;
        }
        if (sp as u64) + 4 * (i as u64) + 4 > 0x1_0000_0000u64 {
            return words;
        }
        let addr = sp + 4 * (i as u32);
        match mem.read_u32(addr) {
            None => {
                return words;
            },
            Some(value) => {
                let flagged = 0x0800_0000 <= value && value < 0x0810_0000;
                words.push(StackWord { sp: addr, value, likely_return: flagged });
            },
        }
    }
    words
}

/// A PC with the Thumb bit set, as execution must resume on this core.
pub fn thumb(pc: u32) -> (r: u32)
    ensures
        r == pc | 1,
{
    pc | 1
}

/// What the per-instruction hook asks the embedding loop to do.
#[derive(Clone, Copy, PartialEq, Eq, Structural, Debug)]
pub struct CodeHookActions {
    /// Execution reached a busy loop and should stop.
    pub stop_busy_loop: bool,
    /// Run the pending-interrupt scheduler now.
    pub run_interrupts: bool,
    /// Redraw surfaces and pump host events now.
    pub pump_events: bool,
}

/// The per-instruction bookkeeping: instruction counter, the last
/// instruction's PC and size, and the configured cadences.
pub struct EmuState {
    pub num_instructions: u64,
    pub last_pc: u32,
    pub last_size: u8,
    /// Stop when the PC repeats (a busy loop), when enabled.
    pub busy_loop_stop: bool,
    /// Run pending interrupts every this many instructions.
    pub interrupt_period: u32,
}

/// The state after one executed instruction, and what to do next: a busy
/// loop is the same PC twice in a row (when enabled); interrupts run every
/// `interrupt_period` instructions and events pump every
/// `PUMP_EVENT_INST_INTERVAL`, both measured before the increment.
pub open spec fn on_instruction_spec(s: EmuState, pc: u32, size: u8) -> (
    EmuState,
    CodeHookActions,
) {
    let busy = s.busy_loop_stop && s.last_pc == pc;
    let n = s.num_instructions;
    (
        EmuState {
            num_instructions: (n + 1) as u64,
            last_pc: pc,
            last_size: size,
            ..s
        },
        CodeHookActions {
            stop_busy_loop: busy,
            run_interrupts: s.interrupt_period != 0 && n % (s.interrupt_period as u64) == 0,
            pump_events: n % PUMP_EVENT_INST_INTERVAL == 0,
        },
    )
}

impl EmuState {
    pub fn new(busy_loop_stop: bool, interrupt_period: u32) -> (r: EmuState)
        ensures
            r == (EmuState {
                num_instructions: 0u64,
                last_pc: 0u32,
                last_size: 0u8,
                busy_loop_stop,
                interrupt_period,
            }),
    {
        EmuState {
            num_instructions: 0,
            last_pc: 0,
            last_size: 0,
            busy_loop_stop,
            interrupt_period,
        }
    }

    /// One executed instruction: update the counter and last-instruction
    /// pair, and report what the loop should do before the next one.
    pub fn on_instruction(&mut self, pc: u32, size: u8) -> (actions: CodeHookActions)
        requires
            old(self).num_instructions < u64::MAX,
        ensures
            (*final(self), actions) == on_instruction_spec(*old(self), pc, size),
    {
        let busy = self.busy_loop_stop && self.last_pc == pc;
        let n = self.num_instructions;
        self.last_pc = pc;
        self.last_size = size;
        self.num_instructions = n + 1;
        CodeHookActions {
            stop_busy_loop: busy,
            run_interrupts: self.interrupt_period != 0 && n % (self.interrupt_period as u64) == 0,
            pump_events: n % PUMP_EVENT_INST_INTERVAL == 0,
        }
    }
}

/// The outer loop's verdict after one stint of the CPU host.
#[derive(Clone, Copy, PartialEq, Eq, Structural, Debug)]
pub enum RunDecision {
    /// Stop cleanly (user quit, stop address, busy loop, budget spent).
    Finished,
    /// The host reported an error that is not a recoverable unmapped access.
    Fatal,
    /// Resume execution at this (Thumb) PC.
    Resume(u32),
}

/// The verdict after one `start` call of the CPU host: a requested stop
/// finishes; a host error resumes past the faulting instruction only when
/// the unmapped-access hook marked it recoverable; reaching the stop
/// address, a busy loop, or the instruction budget finishes; anything else
/// keeps executing.
pub open spec fn run_step_spec(
    pc: u32,
    host_error: bool,
    stop_requested: bool,
    continue_execution: bool,
    busy_loop_reached: bool,
    stop_addr: Option<u32>,
    budget_left: bool,
) -> RunDecision {
    if stop_requested {
        RunDecision::Finished
    } else if host_error {
        if continue_execution {
            RunDecision::Resume(pc | 1)
        } else {
            RunDecision::Fatal
        }
    } else if stop_addr == Some(pc) {
        RunDecision::Finished
    } else if busy_loop_reached {
        RunDecision::Finished
    } else if !budget_left {
        RunDecision::Finished
    } else {
        RunDecision::Resume(pc | 1)
    }
}

/// Executable twin of [`run_step_spec`].
pub fn run_step_decision(
    pc: u32,
    host_error: bool,
    stop_requested: bool,
    continue_execution: bool,
    busy_loop_reached: bool,
    stop_addr: Option<u32>,
    budget_left: bool,
) -> (r: RunDecision)
    ensures
        r == run_step_spec(
            pc,
            host_error,
            stop_requested,
            continue_execution,
            busy_loop_reached,
            stop_addr,
            budget_left,
        ),
{
    let at_stop_addr = match stop_addr {
        Some(a) => a == pc,
        None => false,
    };
    proof {
        assert(at_stop_addr == (stop_addr == Some(pc)));
    }
    if stop_requested {
        RunDecision::Finished
    } else if host_error {
        if continue_execution {
            RunDecision::Resume(thumb(pc))
        } else {
            RunDecision::Fatal
        }
    } else if at_stop_addr {
        RunDecision::Finished
    } else if busy_loop_reached {
        RunDecision::Finished
    } else if !budget_left {
        RunDecision::Finished
    } else {
        RunDecision::Resume(thumb(pc))
    }
}

} // verus!
