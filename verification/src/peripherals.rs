//! The peripheral fabric: the slot registry that maps address ranges to
//! peripheral models, and the address router that turns raw MMIO accesses
//! into register operations — resolving bit-band aliases, aligning register
//! accesses to 32-bit words, merging sub-word writes, dispatching to the
//! covering slot, and carrying out the DMA transfers that register writes
//! trigger.

use vstd::prelude::*;

use crate::dma::{
    dma_read_spec, dma_write_spec, Dir, Dma, Stream, TransferRequest,
};
use crate::ext_devices::{ExtDevices, ExtDevicesV};
use crate::framebuffers::{Framebuffers, ImageV};
use crate::fsmc::{fsmc_read_spec, fsmc_write_spec, Fsmc};
use crate::gpio::{
    gpio_read_spec, gpio_write_events, gpio_write_next, write_port_spec, Gpio, GpioPorts,
    sw_spis_wf, sw_spi_shapes,
};
use crate::i2c::{i2c_read_spec, I2c};
use crate::memory::{mem_read, mem_write, zero_bytes, MemV, Memory};
use crate::nvic::{Nvic, NvicWrapper};
use crate::rcc::{rcc_read_spec, Rcc};
use crate::scb::{scb_write_spec, Scb};
use crate::spi::{spi_read_spec, spi_write_spec, Spi};
use crate::sw_spi::SoftwareSpi;
use crate::systick::{systick_read_spec, systick_write_spec, SysTick};
use crate::usart::{usart_read_spec, usart_write_spec, Usart};

verus! {

/// One concrete peripheral model.
pub enum Model {
    Rcc(Rcc),
    SysTick(SysTick),
    Scb(Scb),
    Gpio(Gpio),
    Usart(Usart),
    Fsmc(Fsmc),
    I2c(I2c),
    Dma(Dma),
    Spi(Spi),
    Nvic(NvicWrapper),
}

/// A registered peripheral: the inclusive address range `[start, end]` it
/// covers and its model.
pub struct PeripheralSlot {
    pub start: u32,
    pub end: u32,
    pub model: Model,
}

/// Spec-level form of a model: the mutable state of `Dma` is carried as a
/// stream sequence; the other models are plain values.
pub enum ModelV {
    Rcc(Rcc),
    SysTick(SysTick),
    Scb(Scb),
    Gpio(Gpio),
    Usart(Usart),
    Fsmc(Fsmc),
    I2c(I2c),
    Dma(Seq<Stream>),
    Spi(Spi),
    Nvic(NvicWrapper),
}

/// Spec-level form of a slot.
pub struct SlotV {
    pub start: u32,
    pub end: u32,
    pub model: ModelV,
}

/// The spec-level form of a model value.
pub open spec fn model_view(m: Model) -> ModelV {
    match m {
        Model::Rcc(m) => ModelV::Rcc(m),
        Model::SysTick(m) => ModelV::SysTick(m),
        Model::Scb(m) => ModelV::Scb(m),
        Model::Gpio(m) => ModelV::Gpio(m),
        Model::Usart(m) => ModelV::Usart(m),
        Model::Fsmc(m) => ModelV::Fsmc(m),
        Model::I2c(m) => ModelV::I2c(m),
        Model::Dma(m) => ModelV::Dma(m@),
        Model::Spi(m) => ModelV::Spi(m),
        Model::Nvic(m) => ModelV::Nvic(m),
    }
}

impl View for PeripheralSlot {
    type V = SlotV;

    open spec fn view(&self) -> SlotV {
        SlotV { start: self.start, end: self.end, model: model_view(self.model) }
    }
}

/// The whole fabric: registered slots, the interrupt controller, the GPIO
/// subscription table, the software-SPI units, the external devices and the
/// framebuffer surfaces.
pub struct Peripherals {
    pub slots: Vec<PeripheralSlot>,
    pub nvic: Nvic,
    pub gpio: GpioPorts,
    pub sw_spis: Vec<SoftwareSpi>,
    pub devices: ExtDevices,
    pub framebuffers: Framebuffers,
    /// Parallel register metadata, kept for readable traces only.
    pub debug_peripherals: Vec<DebugSlot>,
}

/// A slot of the trace registry: range plus register metadata.
pub struct DebugSlot {
    pub start: u32,
    pub end: u32,
    pub peripheral: GenericPeripheral,
}

/// Register metadata of one peripheral, used only to name registers in
/// traces.
pub struct GenericPeripheral {
    pub name: String,
    pub registers: Vec<crate::svd::SvdRegister>,
}

/// The largest register offset in the list (zero when empty).
pub open spec fn max_offset(regs: Seq<crate::svd::SvdRegister>, i: int) -> int
    decreases regs.len() - i,
{
    if i < 0 || i >= regs.len() {
        0
    } else {
        let rest = max_offset(regs, i + 1);
        if regs[i].address_offset >= rest {
            regs[i].address_offset as int
        } else {
            rest
        }
    }
}

impl GenericPeripheral {
    pub fn new(name: String, registers: Vec<crate::svd::SvdRegister>) -> (r: GenericPeripheral)
        ensures
            r.name == name,
            r.registers == registers,
    {
        GenericPeripheral { name, registers }
    }

    /// The size of the register block: the largest offset plus one word,
    /// saturated at the top of the address space.
    pub fn size(&self) -> (r: u32)
        ensures
            r == (if max_offset(self.registers@, 0) + 4 <= u32::MAX {
                max_offset(self.registers@, 0) + 4
            } else {
                u32::MAX as int
            }),
    {
        let n = self.registers.len();
        let mut m: u32 = 0;
        let mut i: usize = n;
        while i > 0
            invariant
                i <= n,
                n == self.registers.len(),
                m == max_offset(self.registers@, i as int),
            decreases i,
        {
            i = i - 1;
            let off = self.registers[i].address_offset;
            if off >= m {
                m = off;
            }
        }
        if m <= 0xFFFF_FFFB {
            m + 4
        } else {
            u32::MAX
        }
    }

    /// The name of the first register at `offset`, if any.
    pub fn reg_name(&self, offset: u32) -> (r: Option<String>)
        ensures
            match r {
                Some(name) => exists|i: int|
                    0 <= i < self.registers.len() && (#[trigger] self.registers[i]).address_offset
                        == offset && self.registers[i].name@ == name@,
                None => forall|i: int|
                    0 <= i < self.registers.len() ==> (#[trigger] self.registers[i]).address_offset
                        != offset,
            },
    {
        let n = self.registers.len();
        for i in 0..n
            invariant
                n == self.registers.len(),
                forall|j: int|
                    0 <= j < i ==> (#[trigger] self.registers[j]).address_offset != offset,
        {
            if self.registers[i].address_offset == offset {
                return Some(self.registers[i].name.clone());
            }
        }
        None
    }
}

/// Spec-level form of the fabric.
pub struct WorldV {
    pub slots: Seq<SlotV>,
    pub nvic: Nvic,
    pub gpio: GpioPorts,
    pub sw_spis: Seq<SoftwareSpi>,
    pub devices: ExtDevicesV,
    pub framebuffers: Seq<ImageV>,
}

impl View for Peripherals {
    type V = WorldV;

    open spec fn view(&self) -> WorldV {
        WorldV {
            slots: self.slots@.map_values(|s: PeripheralSlot| s@),
            nvic: self.nvic,
            gpio: self.gpio,
            sw_spis: self.sw_spis@,
            devices: self.devices@,
            framebuffers: self.framebuffers@,
        }
    }
}

/// The slot covers `addr` (both ends inclusive).
pub open spec fn slot_contains(s: SlotV, addr: u32) -> bool {
    s.start <= addr <= s.end
}

/// Index of the first slot covering `addr`, scanning from `i`; under
/// [`slots_wf`] it is the only one.
pub open spec fn find_slot_from(slots: Seq<SlotV>, addr: u32, i: int) -> Option<int>
    decreases slots.len() - i,
{
    if i < 0 || i >= slots.len() {
        None
    } else if slot_contains(slots[i], addr) {
        Some(i)
    } else {
        find_slot_from(slots, addr, i + 1)
    }
}

pub open spec fn find_slot(slots: Seq<SlotV>, addr: u32) -> Option<int> {
    find_slot_from(slots, addr, 0)
}

/// The registered slots are ordered and pairwise disjoint: each ends
/// strictly before the next begins.
pub open spec fn slots_wf(slots: Seq<SlotV>) -> bool {
    &&& forall|i: int| 0 <= i < slots.len() ==> (#[trigger] slots[i]).start <= slots[i].end
    &&& forall|i: int, j: int|
        0 <= i < j < slots.len() ==> (#[trigger] slots[i]).end < (#[trigger] slots[j]).start
}

pub proof fn lemma_find_slot_props(slots: Seq<SlotV>, addr: u32, i: int)
    requires
        0 <= i,
    ensures
        match find_slot_from(slots, addr, i) {
            Some(j) => i <= j < slots.len() && slot_contains(slots[j], addr),
            None => forall|j: int| i <= j < slots.len() ==> !slot_contains(#[trigger] slots[j], addr),
        },
    decreases slots.len() - i,
{
    if i < slots.len() && !slot_contains(slots[i], addr) {
        lemma_find_slot_props(slots, addr, i + 1);
    }
}

/// Addresses in the bit-band alias window.
pub open spec fn in_bitband(addr: u32) -> bool {
    0x4200_0000 <= addr < 0x4400_0000
}

/// The backing byte address of a bit-band alias.
pub open spec fn bb_base(addr: u32) -> u32 {
    (0x4000_0000 + (addr - 0x4200_0000) / 32) as u32
}

/// The bit within the backing byte that a bit-band alias addresses.
pub open spec fn bb_bit(addr: u32) -> u8 {
    ((addr % 32) / 4) as u8
}

/// Register space: everywhere except the FSMC data banks, whose raw offsets
/// carry the command/data address bit.
pub open spec fn is_register(addr: u32) -> bool {
    !(0x6000_0000 <= addr < 0xA000_0000)
}

/// The world with slot `i`'s model replaced.
pub open spec fn world_set_model(w: WorldV, i: int, m: ModelV) -> WorldV {
    WorldV { slots: w.slots.update(i, SlotV { model: m, ..w.slots[i] }), ..w }
}

/// One raw register-word read on slot `i`: the value the model hands back
/// and the world after the read's side effects.
pub open spec fn model_read_spec(w: WorldV, i: int, off: u32) -> (u32, WorldV) {
    match w.slots[i].model {
        ModelV::Rcc(_) => (rcc_read_spec(off), w),
        ModelV::SysTick(m) => {
            let r = systick_read_spec(m, off);
            (r.0, world_set_model(w, i, ModelV::SysTick(r.1)))
        },
        ModelV::Scb(_) => (0u32, w),
        ModelV::Gpio(g) => (gpio_read_spec(g, w.gpio, w.sw_spis, w.framebuffers, off), w),
        ModelV::Usart(u) => {
            let r = usart_read_spec(u, w.devices, off);
            (r.0, WorldV { devices: r.1, ..w })
        },
        ModelV::Fsmc(f) => {
            let r = fsmc_read_spec(f, w.devices, off);
            (r.0, WorldV { devices: r.1, ..w })
        },
        ModelV::I2c(m) => {
            let r = i2c_read_spec(m, off);
            (r.0, world_set_model(w, i, ModelV::I2c(r.1)))
        },
        ModelV::Dma(st) => {
            let r = dma_read_spec(st, off);
            (r.0, world_set_model(w, i, ModelV::Dma(r.1)))
        },
        ModelV::Spi(s) => {
            let r = spi_read_spec(s, off);
            (r.0, world_set_model(w, i, ModelV::Spi(r.1)))
        },
        ModelV::Nvic(_) => (0u32, w),
    }
}

/// GPIO change fan-out: each `(pin, level)` event in order drives every
/// write subscription registered for that pin on `port`.
pub open spec fn fanout_events(
    subs: Seq<crate::gpio::WriteSub>,
    sw: Seq<SoftwareSpi>,
    d: ExtDevicesV,
    fbs: Seq<ImageV>,
    port: u8,
    events: Seq<(u8, bool)>,
    j: int,
) -> (Seq<SoftwareSpi>, ExtDevicesV, Seq<ImageV>)
    decreases events.len() - j,
{
    if j < 0 || j >= events.len() {
        (sw, d, fbs)
    } else {
        let st = write_port_spec(subs, sw, d, fbs, port, events[j].0, events[j].1, 0);
        fanout_events(subs, st.0, st.1, st.2, port, events, j + 1)
    }
}

/// One raw register-word write on slot `i`: the world after the model's side
/// effects, and the DMA transfer the write triggered, if any.
pub open spec fn model_write_spec(w: WorldV, i: int, off: u32, value: u32) -> (
    WorldV,
    Option<TransferRequest>,
) {
    match w.slots[i].model {
        ModelV::Rcc(_) => (w, None),
        ModelV::SysTick(m) => {
            let r = systick_write_spec(m, w.nvic, off, value);
            (WorldV { nvic: r.1, ..world_set_model(w, i, ModelV::SysTick(r.0)) }, None)
        },
        ModelV::Scb(_) => (WorldV { nvic: scb_write_spec(w.nvic, off, value), ..w }, None),
        ModelV::Gpio(g) => {
            let g2 = gpio_write_next(g, off, value);
            let events = gpio_write_events(g, off, value);
            let fan = fanout_events(
                w.gpio.write_subs@,
                w.sw_spis,
                w.devices,
                w.framebuffers,
                g.port,
                events,
                0,
            );
            (
                WorldV {
                    sw_spis: fan.0,
                    devices: fan.1,
                    framebuffers: fan.2,
                    ..world_set_model(w, i, ModelV::Gpio(g2))
                },
                None,
            )
        },
        ModelV::Usart(u) => {
            let r = usart_write_spec(u, w.devices, w.framebuffers, off, value);
            (WorldV { devices: r.0, framebuffers: r.1, ..w }, None)
        },
        ModelV::Fsmc(f) => {
            let r = fsmc_write_spec(f, w.devices, w.framebuffers, off, value);
            (WorldV { devices: r.0, framebuffers: r.1, ..w }, None)
        },
        ModelV::I2c(_) => (w, None),
        ModelV::Dma(st) => {
            let r = dma_write_spec(st, off, value);
            (world_set_model(w, i, ModelV::Dma(r.0)), r.1)
        },
        ModelV::Spi(s) => {
            let r = spi_write_spec(s, w.devices, w.framebuffers, off, value);
            (
                WorldV {
                    devices: r.1,
                    framebuffers: r.2,
                    ..world_set_model(w, i, ModelV::Spi(r.0))
                },
                None,
            )
        },
        ModelV::Nvic(_) => (w, None),
    }
}

/// `n` raw byte reads at one register offset of slot `i`, low byte of each
/// word, in order (the byte-wise default of a peripheral-to-memory DMA).
pub open spec fn read_dma_spec(w: WorldV, i: int, off: u32, n: nat) -> (Seq<u8>, WorldV)
    decreases n,
{
    if n == 0 {
        (Seq::empty(), w)
    } else {
        let head = model_read_spec(w, i, off);
        let rest = read_dma_spec(head.1, i, off, (n - 1) as nat);
        (seq![head.0 as u8] + rest.0, rest.1)
    }
}

/// The bytes written one by one at a register offset of slot `i`, from
/// index `j` on (the byte-wise default of a memory-to-peripheral DMA).
/// Transfers that these nested writes would trigger are not carried out.
pub open spec fn write_dma_spec(w: WorldV, i: int, off: u32, bytes: Seq<u8>, j: int) -> WorldV
    decreases bytes.len() - j,
{
    if j < 0 || j >= bytes.len() {
        w
    } else {
        let step = model_write_spec(w, i, off, bytes[j] as u32);
        write_dma_spec(step.0, i, off, bytes, j + 1)
    }
}

/// One DMA transfer: resolve the peripheral covering `PAR`, move the bytes
/// in the requested direction. A failed memory access yields a zero-filled
/// buffer (reads) or is dropped (writes); a missing peripheral reads as
/// zeroes and swallows writes.
pub open spec fn do_transfer_spec(w: WorldV, m: MemV, req: TransferRequest) -> (WorldV, MemV) {
    let peri = find_slot(w.slots, req.par);
    match req.dir {
        Dir::Read => {
            let read = match peri {
                Some(j) => read_dma_spec(w, j, (req.par - w.slots[j].start) as u32, req.size as nat),
                None => (zero_bytes(req.size as int), w),
            };
            (read.1, mem_write(m, req.mem_addr, read.0).0)
        },
        Dir::Write => {
            let buf = match mem_read(m, req.mem_addr, req.size as int) {
                Some(b) => b,
                None => zero_bytes(req.size as int),
            };
            let w2 = match peri {
                Some(j) => write_dma_spec(w, j, (req.par - w.slots[j].start) as u32, buf, 0),
                None => w,
            };
            (w2, m)
        },
        Dir::MemCopy => {
            let buf = match mem_read(m, req.par, req.size as int) {
                Some(b) => b,
                None => zero_bytes(req.size as int),
            };
            (w, mem_write(m, req.mem_addr, buf).0)
        },
        Dir::Invalid => (w, m),
    }
}

/// A full routed read: bit-band aliases resolve to a single-bit read of the
/// backing byte; register-space accesses are aligned down to the covering
/// 32-bit word and the addressed bytes extracted; FSMC data-bank offsets
/// pass through raw. An address outside every slot reads zero.
pub open spec fn router_read_spec(w: WorldV, addr: u32, size: u8) -> (u32, WorldV) {
    if in_bitband(addr) {
        let inner = router_read_phys(w, bb_base(addr), 1);
        (((inner.0 >> (bb_bit(addr) as u32)) & 1) as u32, inner.1)
    } else {
        router_read_phys(w, addr, size)
    }
}

/// The routed read after bit-band resolution.
pub open spec fn router_read_phys(w: WorldV, addr: u32, size: u8) -> (u32, WorldV) {
    if is_register(addr) {
        let a = (addr - addr % 4) as u32;
        let off = addr % 4;
        match find_slot(w.slots, a) {
            Some(i) => {
                let r = model_read_spec(w, i, (a - w.slots[i].start) as u32);
                (((r.0 >> (8 * off) as u32) & crate::util::size_mask(size)) as u32, r.1)
            },
            None => (0u32, w),
        }
    } else {
        match find_slot(w.slots, addr) {
            Some(i) => model_read_spec(w, i, (addr - w.slots[i].start) as u32),
            None => (0u32, w),
        }
    }
}

/// A full routed write: bit-band aliases perform a single-bit read-modify-
/// write of the backing byte; sub-word register writes merge the new bytes
/// into the covering word; FSMC data-bank offsets pass through raw. A write
/// outside every slot is dropped.
pub open spec fn router_write_spec(w: WorldV, m: MemV, addr: u32, size: u8, value: u32) -> (
    WorldV,
    MemV,
) {
    if in_bitband(addr) {
        let inner = router_read_phys(w, bb_base(addr), 1);
        let bit = bb_bit(addr) as u32;
        let nv = ((inner.0 & !(1u32 << bit)) | ((value & 1) << bit)) as u32;
        router_write_phys(inner.1, m, bb_base(addr), 1, nv)
    } else {
        router_write_phys(w, m, addr, size, value)
    }
}

/// Slot bounds (count, starts and ends) are the same in both worlds.
pub open spec fn slot_bounds_same(a: WorldV, b: WorldV) -> bool {
    &&& b.slots.len() == a.slots.len()
    &&& forall|i: int|
        0 <= i < a.slots.len() ==> (#[trigger] b.slots[i]).start == a.slots[i].start
            && b.slots[i].end == a.slots[i].end
}

/// Slot lookup depends only on the slot bounds.
pub proof fn lemma_find_slot_same_bounds(a: WorldV, b: WorldV, addr: u32, i: int)
    requires
        slot_bounds_same(a, b),
        0 <= i,
    ensures
        find_slot_from(a.slots, addr, i) == find_slot_from(b.slots, addr, i),
    decreases a.slots.len() - i,
{
    if i < a.slots.len() {
        lemma_find_slot_same_bounds(a, b, addr, i + 1);
    }
}

/// A raw register read never moves a slot.
pub proof fn lemma_model_read_bounds(w: WorldV, i: int, off: u32)
    requires
        0 <= i < w.slots.len(),
    ensures
        slot_bounds_same(w, model_read_spec(w, i, off).1),
{
}

/// A raw register write never moves a slot.
pub proof fn lemma_model_write_bounds(w: WorldV, i: int, off: u32, value: u32)
    requires
        0 <= i < w.slots.len(),
    ensures
        slot_bounds_same(w, model_write_spec(w, i, off, value).0),
{
}

/// The routed write after bit-band resolution.
pub open spec fn router_write_phys(w: WorldV, m: MemV, addr: u32, size: u8, value: u32) -> (
    WorldV,
    MemV,
) {
    if is_register(addr) {
        let a = (addr - addr % 4) as u32;
        let off = addr % 4;
        let mask = crate::util::size_mask(size);
        if size < 4 {
            let rd = match find_slot(w.slots, a) {
                Some(i) => model_read_spec(w, i, (a - w.slots[i].start) as u32),
                None => (0u32, w),
            };
            let merged = ((rd.0 & !(mask << (8 * off) as u32)) | ((value & mask) << (8 * off) as u32)) as u32;
            match find_slot(rd.1.slots, a) {
                Some(i) => {
                    let wr = model_write_spec(rd.1, i, (a - rd.1.slots[i].start) as u32, merged);
                    match wr.1 {
                        Some(req) => do_transfer_spec(wr.0, m, req),
                        None => (wr.0, m),
                    }
                },
                None => (rd.1, m),
            }
        } else {
            match find_slot(w.slots, a) {
                Some(i) => {
                    let wr = model_write_spec(w, i, (a - w.slots[i].start) as u32, value);
                    match wr.1 {
                        Some(req) => do_transfer_spec(wr.0, m, req),
                        None => (wr.0, m),
                    }
                },
                None => (w, m),
            }
        }
    } else {
        match find_slot(w.slots, addr) {
            Some(i) => {
                let wr = model_write_spec(w, i, (addr - w.slots[i].start) as u32, value);
                match wr.1 {
                    Some(req) => do_transfer_spec(wr.0, m, req),
                    None => (wr.0, m),
                }
            },
            None => (w, m),
        }
    }
}

/// A model is consistent with the device arena it points into.
pub open spec fn model_wf(m: ModelV, d: ExtDevicesV) -> bool {
    match m {
        ModelV::Dma(st) => st.len() == 8 && forall|k: int|
            0 <= k < st.len() ==> (#[trigger] st[k]).wf(),
        ModelV::Spi(s) => s.wf_with(d),
        ModelV::Usart(u) => u.wf_with(d),
        ModelV::Fsmc(f) => f.wf_with(d),
        _ => true,
    }
}

impl Peripherals {
    /// The whole fabric is consistent: slots ordered and disjoint, every
    /// model, subscription, software-SPI unit and device binding valid.
    pub open spec fn wf(self) -> bool {
        &&& slots_wf(self@.slots)
        &&& forall|i: int|
            0 <= i < self@.slots.len() ==> model_wf((#[trigger] self@.slots[i]).model, self@.devices)
        &&& self.gpio.wf_with(self.sw_spis@, self.framebuffers@)
        &&& sw_spis_wf(self.sw_spis@, self.devices@)
        &&& self.devices.wf_with(self.framebuffers)
    }

    /// Locates the slot covering `addr` by binary search on the sorted slot
    /// starts.
    pub fn get_peripheral(&self, addr: u32) -> (r: Option<usize>)
        requires
            slots_wf(self@.slots),
        ensures
            match r {
                Some(i) => find_slot(self@.slots, addr) == Some(i as int) && i
                    < self.slots.len(),
                None => find_slot(self@.slots, addr) is None,
            },
    {
        let ghost slots = self@.slots;
        let mut lo: usize = 0;
        let mut hi: usize = self.slots.len();
        while lo < hi
            invariant
                lo <= hi <= self.slots.len(),
                slots == self@.slots,
                slots_wf(slots),
                forall|k: int| 0 <= k < lo ==> (#[trigger] slots[k]).start <= addr,
                forall|k: int| hi <= k < slots.len() ==> (#[trigger] slots[k]).start > addr,
            decreases hi - lo,
        {
            let mid = lo + (hi - lo) / 2;
            if self.slots[mid].start <= addr {
                proof {
                    assert forall|k: int| 0 <= k < mid + 1 implies (#[trigger] slots[k]).start
                        <= addr by {
                        if k < mid {
                            assert(slots[k].end < slots[mid as int].start);
                        }
                    }
                }
                lo = mid + 1;
            } else {
                proof {
                    assert forall|k: int| mid <= k < slots.len() implies (#[trigger] slots[k]).start
                        > addr by {
                        if k > mid {
                            assert(slots[mid as int].end < slots[k].start);
                        }
                    }
                }
                hi = mid;
            }
        }
        proof {
            lemma_find_slot_props(slots, addr, 0);
        }
        if lo == 0 {
            return None;
        }
        let c = lo - 1;
        if addr <= self.slots[c].end {
            proof {
                assert forall|j: int| 0 <= j < c implies !slot_contains(slots[j], addr) by {
                    assert(slots[j].end < slots[c as int].start);
                }
                lemma_find_slot_first(slots, addr, c as int, 0);
            }
            Some(c)
        } else {
            proof {
                assert forall|j: int| 0 <= j < slots.len() implies !slot_contains(
                    slots[j],
                    addr,
                ) by {
                    if j < c {
                        assert(slots[j].end < slots[c as int].start);
                    }
                }
            }
            None
        }
    }

    /// One raw register-word read dispatched to slot `i`.
    #[verifier::rlimit(100)]
    pub fn read_word_at(&mut self, i: usize, off: u32) -> (r: u32)
        requires
            i < old(self).slots.len(),
            old(self).wf(),
        ensures
            (r, final(self)@) == model_read_spec(old(self)@, i as int, off),
            final(self).wf(),
            slot_bounds_same(old(self)@, final(self)@),
    {
        let ghost w0 = self@;
        let mut slot = self.slots.remove(i);
        let r = match &mut slot.model {
            Model::Rcc(m) => m.read(off),
            Model::SysTick(m) => m.read(off),
            Model::Scb(m) => m.read(off),
            Model::Gpio(m) => m.read(off, &self.gpio, &self.sw_spis, &self.framebuffers),
            Model::Usart(m) => m.read(off, &mut self.devices),
            Model::Fsmc(m) => m.read(off, &mut self.devices),
            Model::I2c(m) => m.read(off),
            Model::Dma(m) => m.read(off),
            Model::Spi(m) => m.read(off),
            Model::Nvic(m) => m.read(off),
        };
        self.slots.insert(i, slot);
        proof {
            assert(self@.slots =~~= model_read_spec(w0, i as int, off).1.slots);
            assert(self@ =~~= model_read_spec(w0, i as int, off).1);
            let w1 = self@;
            assert(w1.devices.spi_flashes.len() == w0.devices.spi_flashes.len()
                && w1.devices.usart_probes.len() == w0.devices.usart_probes.len()
                && w1.devices.lcds.len() == w0.devices.lcds.len()
                && w1.devices.touchscreens.len() == w0.devices.touchscreens.len()
                && w1.devices.displays.len() == w0.devices.displays.len());
            assert forall|k: int|
                0 <= k < w1.slots.len() implies model_wf(
                (#[trigger] w1.slots[k]).model,
                w1.devices,
            ) by {
                assert(model_wf(w0.slots[k].model, w0.devices));
                if k != i {
                    assert(w1.slots[k] == w0.slots[k]);
                }
            }
            assert(slots_wf(w1.slots)) by {
                assert forall|k: int| 0 <= k < w1.slots.len() implies (#[trigger] w1.slots[k]).start
                    == w0.slots[k].start && w1.slots[k].end == w0.slots[k].end by {
                    if k != i {
                        assert(w1.slots[k] == w0.slots[k]);
                    }
                }
            }
        }
        r
    }

    /// One raw register-word write dispatched to slot `i`; returns the DMA
    /// transfer it triggered, if any.
    #[verifier::rlimit(100)]
    pub fn write_word_at(&mut self, i: usize, off: u32, value: u32) -> (req: Option<
        TransferRequest,
    >)
        requires
            i < old(self).slots.len(),
            old(self).wf(),
        ensures
            (final(self)@, req) == model_write_spec(old(self)@, i as int, off, value),
            final(self).wf(),
            slot_bounds_same(old(self)@, final(self)@),
    {
        let ghost w0 = self@;
        let mut slot = self.slots.remove(i);
        let mut req: Option<TransferRequest> = None;
        match &mut slot.model {
            Model::Rcc(m) => {
                m.write(off, value);
            },
            Model::SysTick(m) => {
                m.write(off, value, &mut self.nvic);
            },
            Model::Scb(m) => {
                m.write(off, value, &mut self.nvic);
            },
            Model::Gpio(m) => {
                let port = m.port;
                let events = m.write(off, value);
                self.fanout(port, &events);
            },
            Model::Usart(m) => {
                m.write(off, value, &mut self.devices, &mut self.framebuffers);
            },
            Model::Fsmc(m) => {
                m.write(off, value, &mut self.devices, &mut self.framebuffers);
            },
            Model::I2c(m) => {
                m.write(off, value);
            },
            Model::Dma(m) => {
                req = m.write(off, value);
            },
            Model::Spi(m) => {
                m.write(off, value, &mut self.devices, &mut self.framebuffers);
            },
            Model::Nvic(m) => {
                m.write(off, value);
            },
        }
        self.slots.insert(i, slot);
        proof {
            assert(self@.slots =~~= model_write_spec(w0, i as int, off, value).0.slots);
            assert(self@ =~~= model_write_spec(w0, i as int, off, value).0);
            let w1 = self@;
            assert(w1.devices.spi_flashes.len() == w0.devices.spi_flashes.len()
                && w1.devices.usart_probes.len() == w0.devices.usart_probes.len()
                && w1.devices.lcds.len() == w0.devices.lcds.len()
                && w1.devices.touchscreens.len() == w0.devices.touchscreens.len()
                && w1.devices.displays.len() == w0.devices.displays.len());
            assert forall|k: int|
                0 <= k < w1.slots.len() implies model_wf(
                (#[trigger] w1.slots[k]).model,
                w1.devices,
            ) by {
                assert(model_wf(w0.slots[k].model, w0.devices));
                if k != i {
                    assert(w1.slots[k] == w0.slots[k]);
                }
            }
            assert(slots_wf(w1.slots)) by {
                assert forall|k: int| 0 <= k < w1.slots.len() implies (#[trigger] w1.slots[k]).start
                    == w0.slots[k].start && w1.slots[k].end == w0.slots[k].end by {
                    if k != i {
                        assert(w1.slots[k] == w0.slots[k]);
                    }
                }
            }
        }
        req
    }

    /// Fans one GPIO register write's pin events out to the write
    /// subscriptions, in order.
    fn fanout(&mut self, port: u8, events: &Vec<(u8, bool)>)
        requires
            old(self).gpio.wf_with(old(self).sw_spis@, old(self).framebuffers@),
            sw_spis_wf(old(self).sw_spis@, old(self).devices@),
            old(self).devices.wf_with(old(self).framebuffers),
        ensures
            ({
                let fan = fanout_events(
                    old(self).gpio.write_subs@,
                    old(self).sw_spis@,
                    old(self).devices@,
                    old(self).framebuffers@,
                    port,
                    events@,
                    0,
                );
                final(self)@ == (WorldV {
                    sw_spis: fan.0,
                    devices: fan.1,
                    framebuffers: fan.2,
                    ..old(self)@
                })
            }),
            final(self).gpio.wf_with(final(self).sw_spis@, final(self).framebuffers@),
            sw_spis_wf(final(self).sw_spis@, final(self).devices@),
            final(self).devices.wf_with(final(self).framebuffers),
            final(self).slots == old(self).slots,
            final(self).nvic == old(self).nvic,
            final(self).gpio == old(self).gpio,
            final(self).devices@.spi_flashes.len() == old(self)@.devices.spi_flashes.len(),
            final(self).devices@.usart_probes.len() == old(self)@.devices.usart_probes.len(),
            final(self).devices@.lcds.len() == old(self)@.devices.lcds.len(),
            final(self).devices@.touchscreens.len() == old(self)@.devices.touchscreens.len(),
            final(self).devices@.displays.len() == old(self)@.devices.displays.len(),
            final(self).framebuffers@.len() == old(self)@.framebuffers.len(),
    {
        let ghost sw0 = self.sw_spis@;
        let ghost d0 = self.devices@;
        let ghost f0 = self.framebuffers@;
        let n = events.len();
        for j in 0..n
            invariant
                n == events.len(),
                self.gpio == old(self).gpio,
                self.slots == old(self).slots,
                self.nvic == old(self).nvic,
                fanout_events(self.gpio.write_subs@, sw0, d0, f0, port, events@, 0)
                    == fanout_events(
                    self.gpio.write_subs@,
                    self.sw_spis@,
                    self.devices@,
                    self.framebuffers@,
                    port,
                    events@,
                    j as int,
                ),
                self.gpio.wf_with(self.sw_spis@, self.framebuffers@),
                sw_spis_wf(self.sw_spis@, self.devices@),
                self.devices.wf_with(self.framebuffers),
                self.devices@.spi_flashes.len() == d0.spi_flashes.len(),
                self.devices@.usart_probes.len() == d0.usart_probes.len(),
                self.devices@.lcds.len() == d0.lcds.len(),
                self.devices@.touchscreens.len() == d0.touchscreens.len(),
                self.devices@.displays.len() == d0.displays.len(),
                self.framebuffers@.len() == f0.len(),
        {
            let ev = events[j];
            self.gpio.write_port(
                port,
                ev.0,
                ev.1,
                &mut self.sw_spis,
                &mut self.devices,
                &mut self.framebuffers,
            );
        }
    }

    /// The byte-wise peripheral-to-memory half of a DMA transfer: `n` raw
    /// reads at one register offset.
    fn read_dma_exec(&mut self, i: usize, off: u32, n: usize) -> (buf: Vec<u8>)
        requires
            i < old(self).slots.len(),
            old(self).wf(),
        ensures
            (buf@, final(self)@) == read_dma_spec(old(self)@, i as int, off, n as nat),
            final(self).wf(),
            slot_bounds_same(old(self)@, final(self)@),
    {
        let ghost w0 = self@;
        let mut buf: Vec<u8> = Vec::new();
        for k in 0..n
            invariant
                i < self.slots.len(),
                self.wf(),
                buf.len() == k,
                slot_bounds_same(w0, self@),
                read_dma_spec(w0, i as int, off, n as nat) == (buf@
                    + read_dma_spec(self@, i as int, off, (n - k) as nat).0, read_dma_spec(
                    self@,
                    i as int,
                    off,
                    (n - k) as nat,
                ).1),
        {
            let ghost w_cur = self@;
            let v = self.read_word_at(i, off);
            buf.push(v as u8);
            proof {
                let rest = read_dma_spec(self@, i as int, off, (n - k - 1) as nat);
                assert(read_dma_spec(w_cur, i as int, off, (n - k) as nat).0 =~= seq![v as u8]
                    + rest.0);
                assert(buf@ + rest.0 =~= buf@.drop_last() + (seq![v as u8] + rest.0));
            }
        }
        proof {
            assert(read_dma_spec(self@, i as int, off, 0nat).0 =~= Seq::<u8>::empty());
            assert(buf@ + Seq::<u8>::empty() =~= buf@);
        }
        buf
    }

    /// The byte-wise memory-to-peripheral half of a DMA transfer: the bytes
    /// written one by one at one register offset. Transfers that these nested
    /// writes would trigger are not carried out.
    fn write_dma_exec(&mut self, i: usize, off: u32, buf: &Vec<u8>)
        requires
            i < old(self).slots.len(),
            old(self).wf(),
        ensures
            final(self)@ == write_dma_spec(old(self)@, i as int, off, buf@, 0),
            final(self).wf(),
            slot_bounds_same(old(self)@, final(self)@),
    {
        let ghost w0 = self@;
        let n = buf.len();
        for j in 0..n
            invariant
                n == buf.len(),
                i < self.slots.len(),
                self.wf(),
                slot_bounds_same(w0, self@),
                write_dma_spec(w0, i as int, off, buf@, 0) == write_dma_spec(
                    self@,
                    i as int,
                    off,
                    buf@,
                    j as int,
                ),
        {
            let b = buf[j];
            let _nested = self.write_word_at(i, off, b as u32);
        }
    }

    /// Carries out one DMA transfer request.
    pub fn do_transfer(&mut self, mem: &mut Memory, req: TransferRequest)
        requires
            old(self).wf(),
        ensures
            (final(self)@, final(mem)@) == do_transfer_spec(old(self)@, old(mem)@, req),
            final(self).wf(),
            slot_bounds_same(old(self)@, final(self)@),
    {
        let peri = self.get_peripheral(req.par);
        match req.dir {
            Dir::Read => {
                let buf = match peri {
                    Some(j) => {
                        proof {
                            lemma_find_slot_props(self@.slots, req.par, 0);
                        }
                        let start = self.slots[j].start;
                        self.read_dma_exec(j, req.par - start, req.size)
                    },
                    None => {
                        let mut z: Vec<u8> = Vec::new();
                        while z.len() < req.size
                            invariant
                                z.len() <= req.size,
                                z@ =~= zero_bytes(z.len() as int),
                            decreases req.size - z.len(),
                        {
                            z.push(0);
                        }
                        z
                    },
                };
                let _ok = mem.write(req.mem_addr, &buf);
            },
            Dir::Write => {
                let buf = match mem.read(req.mem_addr, req.size) {
                    Some(b) => b,
                    None => {
                        let mut z: Vec<u8> = Vec::new();
                        while z.len() < req.size
                            invariant
                                z.len() <= req.size,
                                z@ =~= zero_bytes(z.len() as int),
                            decreases req.size - z.len(),
                        {
                            z.push(0);
                        }
                        z
                    },
                };
                match peri {
                    Some(j) => {
                        proof {
                            lemma_find_slot_props(self@.slots, req.par, 0);
                        }
                        let start = self.slots[j].start;
                        self.write_dma_exec(j, req.par - start, &buf);
                    },
                    None => {},
                }
            },
            Dir::MemCopy => {
                let buf = match mem.read(req.par, req.size) {
                    Some(b) => b,
                    None => {
                        let mut z: Vec<u8> = Vec::new();
                        while z.len() < req.size
                            invariant
                                z.len() <= req.size,
                                z@ =~= zero_bytes(z.len() as int),
                            decreases req.size - z.len(),
                        {
                            z.push(0);
                        }
                        z
                    },
                };
                let _ok = mem.write(req.mem_addr, &buf);
            },
            Dir::Invalid => {},
        }
    }

    /// A full routed read, as the CPU host's MMIO hook delivers it. A
    /// register-space access must not straddle its 32-bit word (the spec
    /// treats a violation as a fatal assertion, so such inputs are excluded
    /// here).
    pub fn read(&mut self, addr: u32, size: u8) -> (r: u32)
        requires
            old(self).wf(),
            !in_bitband(addr) && is_register(addr) ==> addr % 4 + size <= 4,
        ensures
            (r, final(self)@) == router_read_spec(old(self)@, addr, size),
            final(self).wf(),
            slot_bounds_same(old(self)@, final(self)@),
    {
        if 0x4200_0000 <= addr && addr < 0x4400_0000 {
            let base = 0x4000_0000 + (addr - 0x4200_0000) / 32;
            let bit = ((addr % 32) / 4) as u8;
            let v = self.read_phys(base, 1);
            (v >> (bit as u32)) & 1
        } else {
            self.read_phys(addr, size)
        }
    }

    /// The routed read after bit-band resolution.
    fn read_phys(&mut self, addr: u32, size: u8) -> (r: u32)
        requires
            old(self).wf(),
            is_register(addr) ==> addr % 4 + size <= 4,
        ensures
            (r, final(self)@) == router_read_phys(old(self)@, addr, size),
            final(self).wf(),
            slot_bounds_same(old(self)@, final(self)@),
    {
        if !(0x6000_0000 <= addr && addr < 0xA000_0000) {
            let off = addr % 4;
            let a = addr - off;
            match self.get_peripheral(a) {
                Some(i) => {
                    let start = self.slots[i].start;
                    proof {
                        lemma_find_slot_props(self@.slots, a, 0);
                    }
                    let w = self.read_word_at(i, a - start);
                    (w >> (8 * off)) & crate::util::access_mask(size)
                },
                None => 0,
            }
        } else {
            match self.get_peripheral(addr) {
                Some(i) => {
                    let start = self.slots[i].start;
                    proof {
                        lemma_find_slot_props(self@.slots, addr, 0);
                    }
                    self.read_word_at(i, addr - start)
                },
                None => 0,
            }
        }
    }

    /// A full routed write, as the CPU host's MMIO hook delivers it. A
    /// register-space access must not straddle its 32-bit word (the spec
    /// treats a violation as a fatal assertion, so such inputs are excluded
    /// here).
    pub fn write(&mut self, mem: &mut Memory, addr: u32, size: u8, value: u32)
        requires
            old(self).wf(),
            !in_bitband(addr) && is_register(addr) ==> addr % 4 + size <= 4,
        ensures
            (final(self)@, final(mem)@) == router_write_spec(
                old(self)@,
                old(mem)@,
                addr,
                size,
                value,
            ),
            final(self).wf(),
            slot_bounds_same(old(self)@, final(self)@),
    {
        if 0x4200_0000 <= addr && addr < 0x4400_0000 {
            let base = 0x4000_0000 + (addr - 0x4200_0000) / 32;
            let bit = ((addr % 32) / 4) as u32;
            let b = self.read_phys(base, 1);
            let nv = (b & !(1u32 << bit)) | ((value & 1) << bit);
            self.write_phys(mem, base, 1, nv);
        } else {
            self.write_phys(mem, addr, size, value);
        }
    }

    /// The routed write after bit-band resolution.
    fn write_phys(&mut self, mem: &mut Memory, addr: u32, size: u8, value: u32)
        requires
            old(self).wf(),
            is_register(addr) ==> addr % 4 + size <= 4,
        ensures
            (final(self)@, final(mem)@) == router_write_phys(
                old(self)@,
                old(mem)@,
                addr,
                size,
                value,
            ),
            final(self).wf(),
            slot_bounds_same(old(self)@, final(self)@),
    {
        if !(0x6000_0000 <= addr && addr < 0xA000_0000) {
            let off = addr % 4;
            let a = addr - off;
            let mask = crate::util::access_mask(size);
            let merged = if size < 4 {
                let old_w = match self.get_peripheral(a) {
                    Some(i) => {
                        let start = self.slots[i].start;
                        proof {
                            lemma_find_slot_props(self@.slots, a, 0);
                        }
                        self.read_word_at(i, a - start)
                    },
                    None => 0,
                };
                (old_w & !(mask << (8 * off))) | ((value & mask) << (8 * off))
            } else {
                value
            };
            match self.get_peripheral(a) {
                Some(i) => {
                    let start = self.slots[i].start;
                    proof {
                        lemma_find_slot_props(self@.slots, a, 0);
                    }
                    let req = self.write_word_at(i, a - start, merged);
                    if let Some(req) = req {
                        self.do_transfer(mem, req);
                    }
                },
                None => {},
            }
        } else {
            match self.get_peripheral(addr) {
                Some(i) => {
                    let start = self.slots[i].start;
                    proof {
                        lemma_find_slot_props(self@.slots, addr, 0);
                    }
                    let req = self.write_word_at(i, addr - start, value);
                    if let Some(req) = req {
                        self.do_transfer(mem, req);
                    }
                },
                None => {},
            }
        }
    }
}

/// Slot starts are non-decreasing (the registry keeps them so while it is
/// being built; disjointness is checked at the end).
pub open spec fn slots_sorted(slots: Seq<SlotV>) -> bool {
    forall|i: int, j: int|
        0 <= i < j < slots.len() ==> (#[trigger] slots[i]).start <= (#[trigger] slots[j]).start
}

/// The size of a register block: its largest offset plus one word,
/// saturated at the top of the address space.
pub open spec fn generic_size(regs: Seq<crate::svd::SvdRegister>) -> int {
    if max_offset(regs, 0) + 4 <= u32::MAX {
        max_offset(regs, 0) + 4
    } else {
        u32::MAX as int
    }
}

/// The end of the trace entry for a block of `regs` based at `base`,
/// saturated at the top of the address space.
pub open spec fn debug_end(base: u32, regs: Seq<crate::svd::SvdRegister>) -> u32 {
    if base + generic_size(regs) <= u32::MAX {
        (base + generic_size(regs)) as u32
    } else {
        u32::MAX
    }
}

/// The address range a named peripheral's slot claims: its register block,
/// except that the FSMC claims the data-bank window.
pub open spec fn claimed_range(
    name: Seq<char>,
    base: u32,
    regs: Seq<crate::svd::SvdRegister>,
) -> (u32, u32) {
    if name == "FSMC"@ {
        (0x6000_0000u32, 0xA000_1000u32)
    } else {
        (base, debug_end(base, regs))
    }
}

/// Whether a peripheral name selects a concrete model: the exact names
/// `NVIC`, `STK`, `SCB` and `RCC`, a `GPIO?` port with a letter `A..K`
/// (the only `GPIO`-prefixed names that yield a port), and the prefixes
/// `USART`, `FSMC`, `I2C`, `DMA` and `SPI`.
pub open spec fn model_selected(n: Seq<char>) -> bool {
    ||| n == "NVIC"@
    ||| n == "STK"@
    ||| n == "SCB"@
    ||| n == "RCC"@
    ||| (n.len() >= 5 && n.subrange(0, 4) == "GPIO"@ && 'A' as u32 <= n[4] as u32 <= 'K' as u32)
    ||| (n.len() >= 5 && n.subrange(0, 5) == "USART"@)
    ||| (n.len() >= 4 && n.subrange(0, 4) == "FSMC"@)
    ||| (n.len() >= 3 && n.subrange(0, 3) == "I2C"@)
    ||| (n.len() >= 3 && n.subrange(0, 3) == "DMA"@)
    ||| (n.len() >= 3 && n.subrange(0, 3) == "SPI"@)
}

/// Builds the model a peripheral name selects, bound to its devices:
/// the interrupt facade for `NVIC`, the SysTick timer for `STK`, the system
/// control block for `SCB`, a GPIO port for `GPIO?`, a USART or SPI bound to
/// its serial device, the FSMC with its four display banks, `RCC`, an I2C or
/// a DMA controller. Unknown names select nothing.
fn model_from_name(name: &str, devices: &ExtDevices) -> (r: Option<Model>)
    ensures
        r is Some <==> model_selected(name@),
        r matches Some(m) ==> model_wf(model_view(m), devices@),
        r matches Some(Model::Nvic(_)) ==> name@ == "NVIC"@,
        r matches Some(Model::SysTick(_)) ==> name@ == "STK"@,
        r matches Some(Model::Scb(_)) ==> name@ == "SCB"@,
        r matches Some(Model::Rcc(_)) ==> name@ == "RCC"@,
        r matches Some(Model::Gpio(g)) ==> name@.len() >= 5 && name@.subrange(0, 4) == "GPIO"@
            && crate::gpio::port_index_of(name@[4]) == Some(g.port),
        r matches Some(Model::Usart(u)) ==> name@.len() >= 5 && name@.subrange(0, 5)
            == "USART"@ && u.name@ == name@,
        r matches Some(Model::Fsmc(_)) ==> name@.len() >= 4 && name@.subrange(0, 4) == "FSMC"@,
        r matches Some(Model::I2c(_)) ==> name@.len() >= 3 && name@.subrange(0, 3) == "I2C"@,
        r matches Some(Model::Dma(d)) ==> name@.len() >= 3 && name@.subrange(0, 3) == "DMA"@
            && d.name@ == name@,
        r matches Some(Model::Spi(sp)) ==> name@.len() >= 3 && name@.subrange(0, 3) == "SPI"@
            && sp.name@ == name@,
{
    proof {
        reveal_strlit("NVIC");
        reveal_strlit("STK");
        reveal_strlit("SCB");
        reveal_strlit("RCC");
        reveal_strlit("GPIO");
        reveal_strlit("USART");
        reveal_strlit("FSMC");
        reveal_strlit("I2C");
        reveal_strlit("DMA");
        reveal_strlit("SPI");
    }
    if crate::util::str_eq(name, "NVIC") {
        Some(Model::Nvic(NvicWrapper::new()))
    } else if crate::util::str_eq(name, "STK") {
        Some(Model::SysTick(SysTick::new()))
    } else if crate::util::str_eq(name, "SCB") {
        Some(Model::Scb(Scb::new()))
    } else if crate::util::str_starts_with(name, "GPIO") {
        proof {
            let n = name@;
            assert(n.subrange(0, 4)[0] == n[0]);
            assert(n[0] == 'G');
            if n.len() >= 5 && n.subrange(0, 5) == "USART"@ {
                assert(n.subrange(0, 5)[0] == n[0]);
            }
            if n.len() >= 4 && n.subrange(0, 4) == "FSMC"@ {
                assert(n.subrange(0, 4)[0] == n[0]);
            }
            if n.len() >= 3 && n.subrange(0, 3) == "I2C"@ {
                assert(n.subrange(0, 3)[0] == n[0]);
            }
            if n.len() >= 3 && n.subrange(0, 3) == "DMA"@ {
                assert(n.subrange(0, 3)[0] == n[0]);
            }
            if n.len() >= 3 && n.subrange(0, 3) == "SPI"@ {
                assert(n.subrange(0, 3)[0] == n[0]);
            }
        }
        if name.unicode_len() < 5 {
            return None;
        }
        let letter = name.get_char(4);
        let lu = letter as u32;
        if lu >= 'A' as u32 && lu <= 'K' as u32 {
            let port = (lu - 'A' as u32) as u8;
            Some(Model::Gpio(Gpio::new(letter, port)))
        } else {
            None
        }
    } else if crate::util::str_starts_with(name, "USART") {
        let device = devices.find_serial_device(name);
        Some(Model::Usart(Usart::new(String::from_str(name), device)))
    } else if crate::util::str_starts_with(name, "FSMC") {
        let mut banks: Vec<crate::fsmc::Bank> = Vec::new();
        banks.push(
            crate::fsmc::Bank {
                name: String::from_str("FSMC.BANK1"),
                device: devices.find_mem_device("FSMC.BANK1"),
            },
        );
        banks.push(
            crate::fsmc::Bank {
                name: String::from_str("FSMC.BANK2"),
                device: devices.find_mem_device("FSMC.BANK2"),
            },
        );
        banks.push(
            crate::fsmc::Bank {
                name: String::from_str("FSMC.BANK3"),
                device: devices.find_mem_device("FSMC.BANK3"),
            },
        );
        banks.push(
            crate::fsmc::Bank {
                name: String::from_str("FSMC.BANK4"),
                device: devices.find_mem_device("FSMC.BANK4"),
            },
        );
        Some(Model::Fsmc(Fsmc { banks }))
    } else if crate::util::str_eq(name, "RCC") {
        Some(Model::Rcc(Rcc::new()))
    } else if crate::util::str_starts_with(name, "I2C") {
        Some(Model::I2c(I2c::new()))
    } else if crate::util::str_starts_with(name, "DMA") {
        Some(Model::Dma(Dma::new(String::from_str(name))))
    } else if crate::util::str_starts_with(name, "SPI") {
        let device = devices.find_serial_device(name);
        Some(Model::Spi(Spi::new(String::from_str(name), device)))
    } else {
        None
    }
}

impl Peripherals {
    /// Registers one peripheral from its description: records its register
    /// metadata for traces and, when the name selects a model, inserts a
    /// slot at its sorted position. The FSMC model claims the data-bank
    /// window instead of its register block.
    pub fn register_peripheral(
        &mut self,
        name: &str,
        base: u32,
        registers: Vec<crate::svd::SvdRegister>,
    )
        requires
            slots_sorted(old(self)@.slots),
            forall|i: int|
                0 <= i < old(self)@.slots.len() ==> model_wf(
                    (#[trigger] old(self)@.slots[i]).model,
                    old(self)@.devices,
                ),
        ensures
            slots_sorted(final(self)@.slots),
            forall|i: int|
                0 <= i < final(self)@.slots.len() ==> model_wf(
                    (#[trigger] final(self)@.slots[i]).model,
                    final(self)@.devices,
                ),
            final(self).nvic == old(self).nvic,
            final(self).gpio == old(self).gpio,
            final(self).sw_spis == old(self).sw_spis,
            final(self).devices == old(self).devices,
            final(self).framebuffers == old(self).framebuffers,
            final(self).debug_peripherals.len() == old(self).debug_peripherals.len() + 1,
            forall|j: int|
                0 <= j < old(self).debug_peripherals.len()
                    ==> #[trigger] final(self).debug_peripherals[j] == old(
                    self,
                ).debug_peripherals[j],
            ({
                let entry = final(self).debug_peripherals[old(self).debug_peripherals.len() as int];
                &&& entry.start == base
                &&& entry.end == debug_end(base, registers@)
                &&& entry.peripheral.name@ == name@
                &&& entry.peripheral.registers == registers
            }),
            !model_selected(name@) ==> final(self).slots == old(self).slots,
            model_selected(name@) ==> final(self).slots.len() == old(self).slots.len() + 1
                && exists|pos: int|
                {
                    &&& 0 <= pos <= old(self)@.slots.len()
                    &&& ((#[trigger] final(self)@.slots[pos]).start, final(self)@.slots[pos].end)
                        == claimed_range(name@, base, registers@)
                    &&& (forall|j: int|
                        0 <= j < pos ==> #[trigger] final(self)@.slots[j] == old(self)@.slots[j])
                    &&& (forall|j: int|
                        pos < j < final(self)@.slots.len() ==> #[trigger] final(self)@.slots[j]
                            == old(self)@.slots[j - 1])
                },
    {
        let ghost pre = self@;
        let ghost regs0 = registers@;
        let g = GenericPeripheral::new(String::from_str(name), registers);
        let size = g.size();
        let dbg_end = if base <= u32::MAX - size {
            base + size
        } else {
            u32::MAX
        };
        self.debug_peripherals.push(DebugSlot { start: base, end: dbg_end, peripheral: g });
        let (start, end) = if crate::util::str_eq(name, "FSMC") {
            (0x6000_0000, 0xA000_1000)
        } else {
            (base, dbg_end)
        };
        match model_from_name(name, &self.devices) {
            None => {},
            Some(model) => {
                let mut pos: usize = 0;
                let n = self.slots.len();
                while pos < n && self.slots[pos].start <= start
                    invariant
                        pos <= n,
                        n == self.slots.len(),
                        self@ == pre,
                        forall|k: int| 0 <= k < pos ==> (#[trigger] self@.slots[k]).start <= start,
                    decreases n - pos,
                {
                    pos = pos + 1;
                }
                proof {
                    assert forall|k: int|
                        pos <= k < self@.slots.len() implies (#[trigger] self@.slots[k]).start
                        > start by {
                        if k > pos {
                            assert(self@.slots[pos as int].start <= self@.slots[k].start);
                        }
                    }
                }
                proof {
                    assert(self@.slots == pre.slots);
                }
                self.slots.insert(pos, PeripheralSlot { start, end, model });
                proof {
                    let now = self@.slots;
                    assert forall|i: int, j: int|
                        0 <= i < j < now.len() implies (#[trigger] now[i]).start
                        <= (#[trigger] now[j]).start by {
                        if i == pos {
                            assert(now[j] == pre.slots[j - 1]);
                            assert(pre.slots[j - 1].start > start);
                        } else if j == pos {
                            assert(now[i] == pre.slots[i]);
                            assert(pre.slots[i].start <= start);
                        } else {
                            let i0 = if i < pos {
                                i
                            } else {
                                i - 1
                            };
                            let j0 = if j < pos {
                                j
                            } else {
                                j - 1
                            };
                            assert(now[i] == pre.slots[i0] && now[j] == pre.slots[j0]);
                        }
                    }
                    assert forall|i: int|
                        0 <= i < now.len() implies model_wf(
                        (#[trigger] now[i]).model,
                        self@.devices,
                    ) by {
                        if i != pos {
                            let i0 = if i < pos {
                                i
                            } else {
                                i - 1
                            };
                            assert(now[i] == pre.slots[i0]);
                        }
                    }
                    let p = pos as int;
                    assert((start, end) == claimed_range(name@, base, regs0));
                    assert((now[p].start, now[p].end) == claimed_range(name@, base, regs0));
                    assert(forall|j: int| 0 <= j < p ==> #[trigger] now[j] == pre.slots[j]);
                    assert(forall|j: int|
                        p < j < now.len() ==> #[trigger] now[j] == pre.slots[j - 1]);
                }
            },
        }
    }

    /// Verifies that the registered slots do not overlap: each must end
    /// strictly before the next begins. Returns whether the registry is
    /// usable.
    #[verifier::rlimit(100)]
    pub fn finish_registration(&self) -> (ok: bool)
        requires
            slots_sorted(self@.slots),
        ensures
            ok == slots_wf(self@.slots),
    {
        let ghost slots = self@.slots;
        let n = self.slots.len();
        for i in 0..n
            invariant
                n == self.slots.len(),
                slots == self@.slots,
                forall|k: int| 0 <= k < i ==> (#[trigger] slots[k]).start <= slots[k].end,
                forall|k: int|
                    0 <= k < i && k + 1 < n ==> (#[trigger] slots[k]).end < slots[k + 1].start,
        {
            if self.slots[i].start > self.slots[i].end {
                proof {
                    assert(slots[i as int].start > slots[i as int].end);
                    assert(!slots_wf(slots));
                }
                return false;
            }
            if i + 1 < n {
                if self.slots[i].end >= self.slots[i + 1].start {
                    proof {
                        assert(slots[i as int].end >= slots[i + 1].start);
                        assert(!slots_wf(slots));
                    }
                    return false;
                }
            }
        }
        proof {
            assert forall|i: int, j: int|
                0 <= i < j < slots.len() implies (#[trigger] slots[i]).end
                < (#[trigger] slots[j]).start by {
                lemma_adjacent_disjoint(slots, i, j);
            }
        }
        true
    }
}

/// Index of the first peripheral named `name`, scanning from `j`.
pub open spec fn find_peri_index(
    peris: Seq<crate::svd::SvdPeripheral>,
    name: Seq<char>,
    j: int,
) -> Option<int>
    decreases peris.len() - j,
{
    if j < 0 || j >= peris.len() {
        None
    } else if peris[j].name@ == name {
        Some(j)
    } else {
        find_peri_index(peris, name, j + 1)
    }
}

/// The peripheral whose registers peripheral `i` uses: itself, or the first
/// one its `derivedFrom` names.
pub open spec fn resolved_index(peris: Seq<crate::svd::SvdPeripheral>, i: int) -> Option<int> {
    match peris[i].derived_from {
        None => Some(i),
        Some(df) => find_peri_index(peris, df@, 0),
    }
}

/// How many of the first `j` peripherals' names select a model.
pub open spec fn count_selecting(peris: Seq<crate::svd::SvdPeripheral>, j: int) -> int
    decreases j,
{
    if j <= 0 {
        0
    } else {
        count_selecting(peris, j - 1) + (if model_selected(peris[j - 1].name@) {
            1int
        } else {
            0int
        })
    }
}

/// The trace-registry entry for peripheral `i`: its base and name, with the
/// register list of the peripheral its `derivedFrom` resolves to (itself
/// otherwise), fully expanded.
pub open spec fn debug_entry_built(
    e: DebugSlot,
    peris: Seq<crate::svd::SvdPeripheral>,
    i: int,
) -> bool {
    &&& resolved_index(peris, i) is Some
    &&& e.start == peris[i].base_address
    &&& e.peripheral.name@ == peris[i].name@
    &&& crate::svd::regs_view(e.peripheral.registers@) == crate::svd::peripheral_regs(
        peris[resolved_index(peris, i).unwrap()],
    )
    &&& e.end == debug_end(e.start, e.peripheral.registers@)
}

/// A software-SPI unit as its configuration wires it: fresh shifters, and
/// one GPIO subscription per configured line (chip select, clock, MOSI as
/// write subscriptions, MISO as a read subscription), on the parsed pins.
pub open spec fn sw_unit_built(
    u: SoftwareSpi,
    c: crate::sw_spi::SoftwareSpiConfig,
    k: int,
    gpio: GpioPorts,
) -> bool {
    &&& u.config == c
    &&& sw_cfg_pins_ok(c)
    &&& u.data_mosi == 0 && u.data_miso == 0 && u.bit_index == 0
    &&& !u.cs && !u.clk && !u.mosi && !u.miso
    &&& exists|j: int|
        0 <= j < gpio.write_subs.len() && #[trigger] gpio.write_subs[j]
            == (crate::gpio::WriteSub {
            pin: crate::gpio::pin_parse_spec(c.clk@).unwrap(),
            target: crate::gpio::WriteTarget::SwSpiClk(k as usize),
        })
    &&& exists|j: int|
        0 <= j < gpio.write_subs.len() && #[trigger] gpio.write_subs[j]
            == (crate::gpio::WriteSub {
            pin: crate::gpio::pin_parse_spec(c.mosi@).unwrap(),
            target: crate::gpio::WriteTarget::SwSpiMosi(k as usize),
        })
    &&& (c.cs matches Some(csn) ==> exists|j: int|
        0 <= j < gpio.write_subs.len() && #[trigger] gpio.write_subs[j]
            == (crate::gpio::WriteSub {
            pin: crate::gpio::pin_parse_spec(csn@).unwrap(),
            target: crate::gpio::WriteTarget::SwSpiCs(k as usize),
        }))
    &&& exists|j: int|
        0 <= j < gpio.read_subs.len() && #[trigger] gpio.read_subs[j] == (crate::gpio::ReadSub {
            pin: crate::gpio::pin_parse_spec(c.miso@).unwrap(),
            source: crate::gpio::ReadSource::SwSpiMiso(k as usize),
        })
}

/// The pins of a software-SPI unit configuration all parse (the chip-select
/// pin only when one is configured).
pub open spec fn sw_cfg_pins_ok(c: crate::sw_spi::SoftwareSpiConfig) -> bool {
    &&& crate::gpio::pin_parse_spec(c.clk@) is Some
    &&& crate::gpio::pin_parse_spec(c.miso@) is Some
    &&& crate::gpio::pin_parse_spec(c.mosi@) is Some
    &&& (c.cs matches Some(csn) ==> crate::gpio::pin_parse_spec(csn@) is Some)
}

impl Peripherals {
    /// Builds the fabric from the chip description: registers one slot per
    /// peripheral (resolving `derivedFrom` by name), wires the configured
    /// software-SPI units onto their GPIO pins, and checks that no two
    /// register blocks overlap.
    #[verifier::loop_isolation(false)]
    #[verifier::rlimit(100)]
    pub fn from_svd(
        svd_device: &crate::svd::SvdDevice,
        config: crate::config::PeripheralsConfig,
        gpio: GpioPorts,
        devices: ExtDevices,
        framebuffers: Framebuffers,
    ) -> (r: Result<Peripherals, crate::util::ConfigError>)
        requires
            forall|i: int|
                0 <= i < svd_device.peripherals.len() ==> crate::svd::peripheral_ok(
                    #[trigger] svd_device.peripherals[i],
                ),
            gpio.wf_with(Seq::empty(), framebuffers@),
            devices.wf_with(framebuffers),
        ensures
            match r {
                Ok(p) => {
                    &&& p.wf()
                    &&& slots_wf(p@.slots)
                    &&& p.devices == devices
                    &&& p.framebuffers == framebuffers
                    &&& p.debug_peripherals.len() == svd_device.peripherals.len()
                    &&& forall|i: int|
                        0 <= i < svd_device.peripherals.len() ==> debug_entry_built(
                            #[trigger] p.debug_peripherals[i],
                            svd_device.peripherals@,
                            i,
                        )
                    &&& p.slots.len() == count_selecting(
                        svd_device.peripherals@,
                        svd_device.peripherals.len() as int,
                    )
                    &&& forall|i: int|
                        0 <= i < svd_device.peripherals.len() && model_selected(
                            (#[trigger] svd_device.peripherals[i]).name@,
                        ) ==> exists|k: int|
                            0 <= k < p@.slots.len() && ((#[trigger] p@.slots[k]).start,
                            p@.slots[k].end) == claimed_range(
                                svd_device.peripherals[i].name@,
                                svd_device.peripherals[i].base_address,
                                p.debug_peripherals[i].peripheral.registers@,
                            )
                    &&& p.sw_spis.len() == crate::ext_devices::opt_list(config.software_spi).len()
                    &&& forall|k: int|
                        0 <= k < p.sw_spis.len() ==> sw_unit_built(
                            #[trigger] p.sw_spis[k],
                            crate::ext_devices::opt_list(config.software_spi)[k],
                            k,
                            p.gpio,
                        )
                },
                Err(crate::util::ConfigError::MissingDerivedFrom) => exists|i: int|
                    0 <= i < svd_device.peripherals.len() && #[trigger] resolved_index(
                        svd_device.peripherals@,
                        i,
                    ) is None,
                Err(crate::util::ConfigError::InvalidPin) => exists|k: int|
                    0 <= k < crate::ext_devices::opt_list(config.software_spi).len()
                        && !sw_cfg_pins_ok(
                        #[trigger] crate::ext_devices::opt_list(config.software_spi)[k],
                    ),
                Err(crate::util::ConfigError::OverlappingPeripherals) => (forall|i: int|
                    0 <= i < svd_device.peripherals.len() ==> #[trigger] resolved_index(
                        svd_device.peripherals@,
                        i,
                    ) is Some) && forall|k: int|
                    0 <= k < crate::ext_devices::opt_list(config.software_spi).len()
                        ==> sw_cfg_pins_ok(
                        #[trigger] crate::ext_devices::opt_list(config.software_spi)[k],
                    ),
                Err(_) => false,
            },
    {
        let mut world = Peripherals {
            slots: Vec::new(),
            nvic: Nvic::new(),
            gpio,
            sw_spis: Vec::new(),
            devices,
            framebuffers,
            debug_peripherals: Vec::new(),
        };
        let ghost peris = svd_device.peripherals@;
        let n = svd_device.peripherals.len();
        for pi in 0..n
            invariant
                slots_sorted(world@.slots),
                forall|i: int|
                    0 <= i < world@.slots.len() ==> model_wf(
                        (#[trigger] world@.slots[i]).model,
                        world@.devices,
                    ),
                world.gpio == gpio,
                world.sw_spis.len() == 0,
                world.devices == devices,
                world.framebuffers == framebuffers,
                world.nvic == (Nvic {
                    systick_period: None::<u32>,
                    last_systick_trigger: 0u64,
                    pending: 0u128,
                    in_interrupt: false,
                }),
                world.debug_peripherals.len() == pi,
                forall|i: int|
                    0 <= i < pi ==> debug_entry_built(
                        #[trigger] world.debug_peripherals[i],
                        peris,
                        i,
                    ),
                world.slots.len() == count_selecting(peris, pi as int),
                forall|i: int|
                    0 <= i < pi && model_selected((#[trigger] peris[i]).name@) ==> exists|k: int|
                        0 <= k < world@.slots.len() && ((#[trigger] world@.slots[k]).start,
                        world@.slots[k].end) == claimed_range(
                            peris[i].name@,
                            peris[i].base_address,
                            world.debug_peripherals[i].peripheral.registers@,
                        ),
        {
            let p = &svd_device.peripherals[pi];
            let resolved: &crate::svd::SvdPeripheral = match &p.derived_from {
                None => p,
                Some(df) => {
                    let mut found: Option<usize> = None;
                    let m = svd_device.peripherals.len();
                    for qi in 0..m
                        invariant
                            match found {
                                Some(q) => q < m && find_peri_index(peris, df@, 0) == Some(
                                    q as int,
                                ),
                                None => find_peri_index(peris, df@, 0) == find_peri_index(
                                    peris,
                                    df@,
                                    qi as int,
                                ),
                            },
                    {
                        if found.is_none() && crate::util::str_eq(
                            svd_device.peripherals[qi].name.as_str(),
                            df.as_str(),
                        ) {
                            found = Some(qi);
                        }
                    }
                    match found {
                        None => {
                            proof {
                                assert(resolved_index(peris, pi as int) is None);
                            }
                            return Err(crate::util::ConfigError::MissingDerivedFrom);
                        },
                        Some(q) => &svd_device.peripherals[q],
                    }
                },
            };
            proof {
                assert(resolved_index(peris, pi as int) is Some);
            }
            let regs = crate::svd::extract_svd_registers(resolved);
            let ghost pre_world = world;
            world.register_peripheral(p.name.as_str(), p.base_address, regs);
            proof {
                assert(debug_entry_built(
                    world.debug_peripherals[pi as int],
                    peris,
                    pi as int,
                ));
                assert forall|i: int|
                    0 <= i < pi + 1 && model_selected(
                        (#[trigger] peris[i]).name@,
                    ) implies exists|k: int|
                    0 <= k < world@.slots.len() && ((#[trigger] world@.slots[k]).start,
                    world@.slots[k].end) == claimed_range(
                        peris[i].name@,
                        peris[i].base_address,
                        world.debug_peripherals[i].peripheral.registers@,
                    ) by {
                    if model_selected(peris[pi as int].name@) {
                        let pos = choose|pos: int|
                            {
                                &&& 0 <= pos <= pre_world@.slots.len()
                                &&& ((#[trigger] world@.slots[pos]).start,
                                world@.slots[pos].end) == claimed_range(
                                    peris[pi as int].name@,
                                    peris[pi as int].base_address,
                                    world.debug_peripherals[pi as int].peripheral.registers@,
                                )
                                &&& (forall|j: int|
                                    0 <= j < pos ==> #[trigger] world@.slots[j]
                                        == pre_world@.slots[j])
                                &&& (forall|j: int|
                                    pos < j < world@.slots.len() ==> #[trigger] world@.slots[j]
                                        == pre_world@.slots[j - 1])
                            };
                        if i == pi {
                            assert(((world@.slots[pos]).start, world@.slots[pos].end)
                                == claimed_range(
                                peris[i].name@,
                                peris[i].base_address,
                                world.debug_peripherals[i].peripheral.registers@,
                            ));
                        } else {
                            let k0 = choose|k: int|
                                0 <= k < pre_world@.slots.len() && ((
                                #[trigger] pre_world@.slots[k]).start,
                                pre_world@.slots[k].end) == claimed_range(
                                    peris[i].name@,
                                    peris[i].base_address,
                                    pre_world.debug_peripherals[i].peripheral.registers@,
                                );
                            let k1 = if k0 < pos {
                                k0
                            } else {
                                k0 + 1
                            };
                            assert(world@.slots[k1] == pre_world@.slots[k0]);
                            assert(world.debug_peripherals[i] == pre_world.debug_peripherals[i]);
                        }
                    } else {
                        if i < pi {
                            let k0 = choose|k: int|
                                0 <= k < pre_world@.slots.len() && ((
                                #[trigger] pre_world@.slots[k]).start,
                                pre_world@.slots[k].end) == claimed_range(
                                    peris[i].name@,
                                    peris[i].base_address,
                                    pre_world.debug_peripherals[i].peripheral.registers@,
                                );
                            assert(world@.slots == pre_world@.slots);
                            assert(world.debug_peripherals[i] == pre_world.debug_peripherals[i]);
                        }
                    }
                }
            }
        }
        let ghost sw_cfgs = crate::ext_devices::opt_list(config.software_spi);
        let ghost debug1 = world.debug_peripherals@;
        let ghost slots1 = world@.slots;
        let mut sw_configs = match config.software_spi {
            None => Vec::new(),
            Some(cs) => cs,
        };
        let m = sw_configs.len();
        for ci in 0..m
            invariant
                sw_configs@ == sw_cfgs.skip(ci as int),
                world.debug_peripherals@ == debug1,
                world@.slots == slots1,
                world.slots.len() == slots1.len(),
                slots_sorted(world@.slots),
                forall|i: int|
                    0 <= i < world@.slots.len() ==> model_wf(
                        (#[trigger] world@.slots[i]).model,
                        world@.devices,
                    ),
                world.devices == devices,
                world.framebuffers == framebuffers,
                world.gpio.wf_with(world.sw_spis@, world.framebuffers@),
                sw_spis_wf(world.sw_spis@, world.devices@),
                world.sw_spis.len() == ci,
                forall|k: int|
                    0 <= k < ci ==> sw_unit_built(
                        #[trigger] world.sw_spis[k],
                        sw_cfgs[k],
                        k,
                        world.gpio,
                    ),
        {
            let c = sw_configs.remove(0);
            proof {
                assert(c == sw_cfgs[ci as int]);
            }
            let cs_pin = match &c.cs {
                None => None,
                Some(name) => match crate::gpio::Pin::from_str(name.as_str()) {
                    None => {
                        proof {
                            assert(!sw_cfg_pins_ok(sw_cfgs[ci as int]));
                        }
                        return Err(crate::util::ConfigError::InvalidPin);
                    },
                    Some(pin) => Some(pin),
                },
            };
            let clk_pin = match crate::gpio::Pin::from_str(c.clk.as_str()) {
                None => {
                    proof {
                        assert(!sw_cfg_pins_ok(sw_cfgs[ci as int]));
                    }
                    return Err(crate::util::ConfigError::InvalidPin);
                },
                Some(pin) => pin,
            };
            let miso_pin = match crate::gpio::Pin::from_str(c.miso.as_str()) {
                None => {
                    proof {
                        assert(!sw_cfg_pins_ok(sw_cfgs[ci as int]));
                    }
                    return Err(crate::util::ConfigError::InvalidPin);
                },
                Some(pin) => pin,
            };
            let mosi_pin = match crate::gpio::Pin::from_str(c.mosi.as_str()) {
                None => {
                    proof {
                        assert(!sw_cfg_pins_ok(sw_cfgs[ci as int]));
                    }
                    return Err(crate::util::ConfigError::InvalidPin);
                },
                Some(pin) => pin,
            };
            let device = world.devices.find_serial_device(c.name.as_str());
            let unit_name = c.name.clone();
            let k = world.sw_spis.len();
            let ghost gpio_pre = world.gpio;
            let ghost sw_pre = world.sw_spis@;
            world.sw_spis.push(crate::sw_spi::SoftwareSpi::new(c, unit_name, device));
            match cs_pin {
                None => {},
                Some(pin) => {
                    world.gpio.add_write_callback(pin, crate::gpio::WriteTarget::SwSpiCs(k));
                },
            }
            world.gpio.add_write_callback(clk_pin, crate::gpio::WriteTarget::SwSpiClk(k));
            world.gpio.add_read_callback(miso_pin, crate::gpio::ReadSource::SwSpiMiso(k));
            world.gpio.add_write_callback(mosi_pin, crate::gpio::WriteTarget::SwSpiMosi(k));
            proof {
                let ws = world.gpio.write_subs@;
                let rs = world.gpio.read_subs@;
                assert(ws[ws.len() - 1] == (crate::gpio::WriteSub {
                    pin: mosi_pin,
                    target: crate::gpio::WriteTarget::SwSpiMosi(k),
                }));
                assert(ws[ws.len() - 2] == (crate::gpio::WriteSub {
                    pin: clk_pin,
                    target: crate::gpio::WriteTarget::SwSpiClk(k),
                }));
                if let Some(pin) = cs_pin {
                    assert(ws[ws.len() - 3] == (crate::gpio::WriteSub {
                        pin,
                        target: crate::gpio::WriteTarget::SwSpiCs(k),
                    }));
                }
                assert(rs[rs.len() - 1] == (crate::gpio::ReadSub {
                    pin: miso_pin,
                    source: crate::gpio::ReadSource::SwSpiMiso(k),
                }));
                assert(sw_unit_built(
                    world.sw_spis[k as int],
                    sw_cfgs[ci as int],
                    k as int,
                    world.gpio,
                ));
                assert(forall|j: int|
                    0 <= j < gpio_pre.write_subs.len()
                        ==> #[trigger] world.gpio.write_subs@[j] == gpio_pre.write_subs@[j]);
                assert(forall|j: int|
                    0 <= j < gpio_pre.read_subs.len() ==> #[trigger] world.gpio.read_subs@[j]
                        == gpio_pre.read_subs@[j]);
                assert forall|t: int|
                    0 <= t < ci implies sw_unit_built(
                    #[trigger] world.sw_spis[t],
                    sw_cfgs[t],
                    t,
                    world.gpio,
                ) by {
                    assert(world.sw_spis[t] == sw_pre[t]);
                    assert(sw_unit_built(sw_pre[t], sw_cfgs[t], t, gpio_pre));
                    let c_t = sw_cfgs[t];
                    let j_clk = choose|j: int|
                        0 <= j < gpio_pre.write_subs.len() && #[trigger] gpio_pre.write_subs[j]
                            == (crate::gpio::WriteSub {
                            pin: crate::gpio::pin_parse_spec(c_t.clk@).unwrap(),
                            target: crate::gpio::WriteTarget::SwSpiClk(t as usize),
                        });
                    assert(world.gpio.write_subs@[j_clk] == gpio_pre.write_subs@[j_clk]);
                    let j_mosi = choose|j: int|
                        0 <= j < gpio_pre.write_subs.len() && #[trigger] gpio_pre.write_subs[j]
                            == (crate::gpio::WriteSub {
                            pin: crate::gpio::pin_parse_spec(c_t.mosi@).unwrap(),
                            target: crate::gpio::WriteTarget::SwSpiMosi(t as usize),
                        });
                    assert(world.gpio.write_subs@[j_mosi] == gpio_pre.write_subs@[j_mosi]);
                    if c_t.cs is Some {
                        let csn = c_t.cs->Some_0;
                        let j_cs = choose|j: int|
                            0 <= j < gpio_pre.write_subs.len()
                                && #[trigger] gpio_pre.write_subs[j] == (crate::gpio::WriteSub {
                                pin: crate::gpio::pin_parse_spec(csn@).unwrap(),
                                target: crate::gpio::WriteTarget::SwSpiCs(t as usize),
                            });
                        assert(world.gpio.write_subs@[j_cs] == gpio_pre.write_subs@[j_cs]);
                    }
                    let j_miso = choose|j: int|
                        0 <= j < gpio_pre.read_subs.len() && #[trigger] gpio_pre.read_subs[j]
                            == (crate::gpio::ReadSub {
                            pin: crate::gpio::pin_parse_spec(c_t.miso@).unwrap(),
                            source: crate::gpio::ReadSource::SwSpiMiso(t as usize),
                        });
                    assert(world.gpio.read_subs@[j_miso] == gpio_pre.read_subs@[j_miso]);
                }
            }
            proof {
                assert forall|i: int|
                    0 <= i < world.gpio.read_subs.len() implies {
                    let su = #[trigger] world.gpio.read_subs[i];
                    &&& su.pin.pin < 16
                    &&& match su.source {
                        crate::gpio::ReadSource::SwSpiMiso(t) => t < world.sw_spis@.len(),
                        crate::gpio::ReadSource::TouchDetect(t) => t < world.framebuffers@.len(),
                    }
                } by {
                    if i < gpio_pre.read_subs.len() {
                        assert(world.gpio.read_subs[i] == gpio_pre.read_subs[i]);
                    }
                }
                assert forall|i: int|
                    0 <= i < world.gpio.write_subs.len() implies {
                    let su = #[trigger] world.gpio.write_subs[i];
                    &&& su.pin.pin < 16
                    &&& match su.target {
                        crate::gpio::WriteTarget::SwSpiCs(t) => t < world.sw_spis@.len(),
                        crate::gpio::WriteTarget::SwSpiClk(t) => t < world.sw_spis@.len(),
                        crate::gpio::WriteTarget::SwSpiMosi(t) => t < world.sw_spis@.len(),
                    }
                } by {
                    if i < gpio_pre.write_subs.len() {
                        assert(world.gpio.write_subs[i] == gpio_pre.write_subs[i]);
                    }
                }
                assert forall|t: int|
                    0 <= t < world.sw_spis@.len() implies (#[trigger] world.sw_spis@[t]).wf()
                    && (match world.sw_spis@[t].device {
                    Some(h) => crate::ext_devices::handle_ok(world.devices@, h),
                    None => true,
                }) by {
                    if t < sw_pre.len() {
                        assert(world.sw_spis@[t] == sw_pre[t]);
                    }
                }
            }
        }
        proof {
            assert forall|i: int|
                0 <= i < peris.len() implies debug_entry_built(
                #[trigger] world.debug_peripherals[i],
                peris,
                i,
            ) by {
                assert(world.debug_peripherals[i] == debug1[i]);
            }
            assert forall|i: int|
                0 <= i < peris.len() implies #[trigger] resolved_index(peris, i) is Some by {
                assert(debug_entry_built(world.debug_peripherals[i], peris, i));
            }
            assert forall|k: int|
                0 <= k < sw_cfgs.len() implies sw_cfg_pins_ok(#[trigger] sw_cfgs[k]) by {
                assert(sw_unit_built(world.sw_spis[k], sw_cfgs[k], k, world.gpio));
            }
        }
        if !world.finish_registration() {
            return Err(crate::util::ConfigError::OverlappingPeripherals);
        }
        proof {
            assert forall|i: int|
                0 <= i < peris.len() && model_selected(
                    (#[trigger] peris[i]).name@,
                ) implies exists|k: int|
                0 <= k < world@.slots.len() && ((#[trigger] world@.slots[k]).start,
                world@.slots[k].end) == claimed_range(
                    peris[i].name@,
                    peris[i].base_address,
                    world.debug_peripherals[i].peripheral.registers@,
                ) by {
                assert(world.debug_peripherals[i] == debug1[i]);
            }
        }
        Ok(world)
    }
}

/// Peripheral disjointness: of any two registered slots, the one that
/// starts first ends strictly before the other begins.
pub proof fn lemma_peripheral_disjointness(w: Peripherals, p: int, q: int)
    requires
        w.wf(),
        0 <= p < w@.slots.len(),
        0 <= q < w@.slots.len(),
        w@.slots[p].start < w@.slots[q].start,
    ensures
        w@.slots[p].end < w@.slots[q].start,
{
    if p > q {
        assert(w@.slots[q].end < w@.slots[p].start);
    }
}

/// Alignment law: a register-space read returns the covering 32-bit word,
/// shifted right by eight bits per byte of misalignment and masked to the
/// access width.
pub proof fn lemma_alignment_law(w: WorldV, addr: u32, size: u8)
    requires
        !in_bitband(addr),
        is_register(addr),
        find_slot(w.slots, (addr - addr % 4) as u32) is Some,
    ensures
        ({
            let a = (addr - addr % 4) as u32;
            let i = find_slot(w.slots, a).unwrap();
            router_read_spec(w, addr, size).0 == (model_read_spec(
                w,
                i,
                (a - w.slots[i].start) as u32,
            ).0 >> (8 * (addr % 4)) as u32) & crate::util::size_mask(size)
        }),
{
}

/// Router round trip: a word-aligned 32-bit write to a plain shadow
/// register (an SPI controller's `CR1`, at offset zero of its block) reads
/// back unchanged through the router.
#[verifier::rlimit(100)]
pub proof fn lemma_router_round_trip_spi_cr1(w: WorldV, m: MemV, addr: u32, v: u32)
    requires
        !in_bitband(addr),
        is_register(addr),
        addr % 4 == 0,
        find_slot(w.slots, addr) is Some,
        w.slots[find_slot(w.slots, addr).unwrap()].model is Spi,
        addr == w.slots[find_slot(w.slots, addr).unwrap()].start,
    ensures
        ({
            let written = router_write_spec(w, m, addr, 4, v).0;
            router_read_spec(written, addr, 4).0 == v
        }),
{
    let i = find_slot(w.slots, addr).unwrap();
    lemma_find_slot_props(w.slots, addr, 0);
    let wr = model_write_spec(w, i, 0, v);
    lemma_model_write_bounds(w, i, 0, v);
    lemma_find_slot_same_bounds(w, wr.0, addr, 0);
    let written = router_write_spec(w, m, addr, 4, v).0;
    assert(written == wr.0);
    assert(written.slots[i].model matches ModelV::Spi(s) && s.cr1 == v);
    assert((v >> 0u32) & 0xFFFF_FFFFu32 == v) by (bit_vector);
}

/// The bit-level heart of bit-banding: merging a single-bit update into a
/// byte of a stored word and extracting the same bit returns the update.
proof fn lemma_bb_rmw(cr1: u32, o32: u32, b32: u32, v: u32)
    by (bit_vector)
    requires
        o32 == 0 || o32 == 8 || o32 == 16 || o32 == 24,
        b32 < 8,
        v == 0 || v == 1,
    ensures
        ({
            let b = (cr1 >> o32) & 0xFFu32;
            let nv = (b & !(1u32 << b32)) | ((v & 1) << b32);
            let merged = (cr1 & !(0xFFu32 << o32)) | ((nv & 0xFFu32) << o32);
            (((merged >> o32) & 0xFFu32) >> b32) & 1 == v
        }),
{
}

/// Router round trip for the other plain shadow register the spec calls
/// out: a word-aligned 32-bit write to SysTick `LOAD` (offset 4 of its
/// block) reads back unchanged through the router.
#[verifier::rlimit(100)]
pub proof fn lemma_router_round_trip_systick_load(w: WorldV, m: MemV, addr: u32, v: u32)
    requires
        !in_bitband(addr),
        is_register(addr),
        addr % 4 == 0,
        find_slot(w.slots, addr) is Some,
        w.slots[find_slot(w.slots, addr).unwrap()].model is SysTick,
        addr == w.slots[find_slot(w.slots, addr).unwrap()].start + 4,
    ensures
        ({
            let written = router_write_spec(w, m, addr, 4, v).0;
            router_read_spec(written, addr, 4).0 == v
        }),
{
    let i = find_slot(w.slots, addr).unwrap();
    lemma_find_slot_props(w.slots, addr, 0);
    let wr = model_write_spec(w, i, 4, v);
    lemma_model_write_bounds(w, i, 4, v);
    lemma_find_slot_same_bounds(w, wr.0, addr, 0);
    let written = router_write_spec(w, m, addr, 4, v).0;
    assert(written == wr.0);
    assert(written.slots[i].model matches ModelV::SysTick(st) && st.reload == v);
    assert((v >> 0u32) & 0xFFFF_FFFFu32 == v) by (bit_vector);
}

/// Bit-banding idempotence: writing a bit value through the alias window
/// over a plain shadow register (an SPI controller's `CR1`) and reading it
/// back through the alias returns the value written.
#[verifier::rlimit(100)]
pub proof fn lemma_bitband_idempotence_spi_cr1(w: WorldV, m: MemV, addr: u32, v: u32)
    requires
        in_bitband(addr),
        v == 0 || v == 1,
        ({
            let a = (bb_base(addr) - bb_base(addr) % 4) as u32;
            &&& find_slot(w.slots, a) is Some
            &&& w.slots[find_slot(w.slots, a).unwrap()].model is Spi
            &&& a == w.slots[find_slot(w.slots, a).unwrap()].start
        }),
    ensures
        ({
            let written = router_write_spec(w, m, addr, 4, v).0;
            router_read_spec(written, addr, 4).0 == v
        }),
{
    let base = bb_base(addr);
    let bit = bb_bit(addr);
    let a = (base - base % 4) as u32;
    let off = base % 4;
    let i = find_slot(w.slots, a).unwrap();
    lemma_find_slot_props(w.slots, a, 0);
    assert(bit < 8) by {
        assert(((addr % 32) / 4) < 8);
    }
    assert(0x4000_0000 <= base < 0x4200_0000);
    assert(is_register(base));
    assert(!in_bitband(base));
    // The read-modify-write of the backing byte, at the spec level.
    let rd1 = model_read_spec(w, i, 0);
    let s0 = w.slots[i].model->Spi_0;
    assert(rd1.1.slots =~= w.slots);
    assert(rd1.0 == s0.cr1 && rd1.1 == w);
    let b = router_read_phys(w, base, 1).0;
    assert(b == (s0.cr1 >> (8 * off) as u32) & 0xFFu32);
    let nv = ((b & !(1u32 << (bit as u32))) | ((v & 1) << (bit as u32))) as u32;
    // The sub-word write merges the new byte into the stored word.
    let merged = ((s0.cr1 & !(0xFFu32 << (8 * off) as u32)) | ((nv & 0xFFu32) << (8 * off) as u32))
        as u32;
    let wr = model_write_spec(w, i, 0, merged);
    lemma_model_write_bounds(w, i, 0, merged);
    lemma_find_slot_same_bounds(w, wr.0, a, 0);
    let written = router_write_spec(w, m, addr, 4, v).0;
    assert(written == wr.0);
    assert(written.slots[i].model matches ModelV::Spi(s) && s.cr1 == merged);
    // Reading back through the alias extracts exactly the bit written.
    let cr1 = s0.cr1;
    let o32 = (8 * off) as u32;
    let b32 = bit as u32;
    assert(o32 == 0 || o32 == 8 || o32 == 16 || o32 == 24);
    lemma_bb_rmw(cr1, o32, b32, v);
    assert(router_read_spec(written, addr, 4).0 == (((merged >> o32) & 0xFFu32) >> b32) & 1);
}

/// The byte-wise memory-to-peripheral transfer into a USART forwards every
/// byte, in order, to the bound probe's line buffer (as long as none is a
/// newline, which would instead complete the line).
#[verifier::rlimit(100)]
proof fn lemma_write_dma_usart_appends(w: WorldV, i: int, buf: Seq<u8>, j: int)
    requires
        0 <= i < w.slots.len(),
        w.slots[i].model matches ModelV::Usart(u) && u.device matches Some(
            crate::ext_devices::DeviceHandle::UsartProbe(p),
        ) && p < w.devices.usart_probes.len(),
        0 <= j <= buf.len(),
        forall|k: int| j <= k < buf.len() ==> buf[k] != 0x0A,
    ensures
        ({
            let u = w.slots[i].model->Usart_0;
            let p = u.device->Some_0->UsartProbe_0 as int;
            let probe = w.devices.usart_probes[p];
            write_dma_spec(w, i, 4, buf, j) == WorldV {
                devices: crate::ext_devices::ExtDevicesV {
                    usart_probes: w.devices.usart_probes.update(
                        p,
                        crate::usart_probe::UsartProbeV { rx: probe.rx + buf.skip(j), ..probe },
                    ),
                    ..w.devices
                },
                ..w
            }
        }),
    decreases buf.len() - j,
{
    let u = w.slots[i].model->Usart_0;
    let p = u.device->Some_0->UsartProbe_0 as int;
    let probe = w.devices.usart_probes[p];
    if j >= buf.len() {
        assert(probe.rx + buf.skip(j) =~= probe.rx);
        assert(w.devices.usart_probes.update(
            p,
            crate::usart_probe::UsartProbeV { rx: probe.rx + buf.skip(j), ..probe },
        ) =~~= w.devices.usart_probes);
        assert(write_dma_spec(w, i, 4, buf, j) =~~= WorldV {
            devices: crate::ext_devices::ExtDevicesV {
                usart_probes: w.devices.usart_probes.update(
                    p,
                    crate::usart_probe::UsartProbeV { rx: probe.rx + buf.skip(j), ..probe },
                ),
                ..w.devices
            },
            ..w
        });
    } else {
        let bj = buf[j];
        let step = model_write_spec(w, i, 4, bj as u32);
        let w1 = step.0;
        assert(bj as u32 & 0xFF == bj) by (bit_vector);
        let probe1 = crate::usart_probe::UsartProbeV { rx: probe.rx.push(bj), ..probe };
        assert(w1 == WorldV {
            devices: crate::ext_devices::ExtDevicesV {
                usart_probes: w.devices.usart_probes.update(p, probe1),
                ..w.devices
            },
            ..w
        });
        lemma_write_dma_usart_appends(w1, i, buf, j + 1);
        let target1 = WorldV {
            devices: crate::ext_devices::ExtDevicesV {
                usart_probes: w1.devices.usart_probes.update(
                    p,
                    crate::usart_probe::UsartProbeV {
                        rx: probe1.rx + buf.skip(j + 1),
                        ..probe1
                    },
                ),
                ..w1.devices
            },
            ..w1
        };
        assert(write_dma_spec(w, i, 4, buf, j) == target1);
        let target0 = WorldV {
            devices: crate::ext_devices::ExtDevicesV {
                usart_probes: w.devices.usart_probes.update(
                    p,
                    crate::usart_probe::UsartProbeV { rx: probe.rx + buf.skip(j), ..probe },
                ),
                ..w.devices
            },
            ..w
        };
        assert(probe1.rx + buf.skip(j + 1) =~= probe.rx + buf.skip(j));
        assert(target1.devices.usart_probes =~= target0.devices.usart_probes);
        assert(target1 == target0);
    }
}

/// DMA transfer correctness for a memory-to-peripheral transfer into a
/// USART sink: the bound probe receives exactly the transferred bytes, in
/// order (none being a newline), appended to its line buffer; nothing else
/// in the world or the memory changes. The triggering `CR` write has
/// already zeroed `NDTR` and staged the control value with the enable bit
/// cleared, by [`stream_write_spec`].
pub proof fn lemma_dma_transfer_to_usart_sink(w: WorldV, m: MemV, req: TransferRequest)
    requires
        req.dir is Write,
        find_slot(w.slots, req.par) is Some,
        ({
            let i = find_slot(w.slots, req.par).unwrap();
            &&& w.slots[i].model matches ModelV::Usart(u) && u.device matches Some(
                crate::ext_devices::DeviceHandle::UsartProbe(p),
            ) && p < w.devices.usart_probes.len()
            &&& req.par - w.slots[i].start == 4
        }),
        mem_read(m, req.mem_addr, req.size as int) is Some,
        forall|k: int|
            0 <= k < mem_read(m, req.mem_addr, req.size as int).unwrap().len() ==> mem_read(
                m,
                req.mem_addr,
                req.size as int,
            ).unwrap()[k] != 0x0A,
    ensures
        ({
            let i = find_slot(w.slots, req.par).unwrap();
            let u = w.slots[i].model->Usart_0;
            let p = u.device->Some_0->UsartProbe_0 as int;
            let probe = w.devices.usart_probes[p];
            let buf = mem_read(m, req.mem_addr, req.size as int).unwrap();
            do_transfer_spec(w, m, req) == (
                WorldV {
                    devices: crate::ext_devices::ExtDevicesV {
                        usart_probes: w.devices.usart_probes.update(
                            p,
                            crate::usart_probe::UsartProbeV { rx: probe.rx + buf, ..probe },
                        ),
                        ..w.devices
                    },
                    ..w
                },
                m,
            )
        }),
{
    let i = find_slot(w.slots, req.par).unwrap();
    lemma_find_slot_props(w.slots, req.par, 0);
    let buf = mem_read(m, req.mem_addr, req.size as int).unwrap();
    lemma_write_dma_usart_appends(w, i, buf, 0);
    assert(buf.skip(0) =~= buf);
}

/// Adjacent disjointness of sorted slots extends to every pair.
proof fn lemma_adjacent_disjoint(slots: Seq<SlotV>, i: int, j: int)
    requires
        0 <= i < j < slots.len(),
        forall|k: int| 0 <= k < slots.len() ==> (#[trigger] slots[k]).start <= slots[k].end,
        forall|k: int|
            0 <= k < slots.len() && k + 1 < slots.len() ==> (#[trigger] slots[k]).end < slots[k
                + 1].start,
    ensures
        slots[i].end < slots[j].start,
    decreases j - i,
{
    if j > i + 1 {
        lemma_adjacent_disjoint(slots, i, j - 1);
        assert(slots[j - 1].end < slots[j - 1 + 1].start);
    } else {
        assert(slots[i].end < slots[i + 1].start);
    }
}

/// A fired slot lookup under well-formed slots lands on the first (and
/// only) covering slot.
proof fn lemma_find_slot_first(slots: Seq<SlotV>, addr: u32, c: int, i: int)
    requires
        0 <= i <= c < slots.len(),
        slot_contains(slots[c], addr),
        forall|j: int| 0 <= j < c ==> !slot_contains(#[trigger] slots[j], addr),
    ensures
        find_slot_from(slots, addr, i) == Some(c),
    decreases c - i,
{
    if i < c {
        lemma_find_slot_first(slots, addr, c, i + 1);
    }
}

} // verus!
