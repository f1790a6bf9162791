//! Router-level behaviour: slot dispatch, bit-banding, alignment, shadow
//! register round trips, and the always-ready clock model.

use stm32_emu::ext_devices::ExtDevices;
use stm32_emu::framebuffers::Framebuffers;
use stm32_emu::gpio::GpioPorts;
use stm32_emu::memory::Memory;
use stm32_emu::nvic::Nvic;
use stm32_emu::peripherals::{Model, PeripheralSlot, Peripherals};
use stm32_emu::rcc::Rcc;
use stm32_emu::spi::Spi;
use stm32_emu::systick::SysTick;

fn empty_devices() -> ExtDevices {
    ExtDevices {
        spi_flashes: Vec::new(),
        usart_probes: Vec::new(),
        displays: Vec::new(),
        lcds: Vec::new(),
        touchscreens: Vec::new(),
    }
}

fn world_with(slots: Vec<PeripheralSlot>) -> Peripherals {
    Peripherals {
        slots,
        nvic: Nvic::new(),
        gpio: GpioPorts::new(),
        sw_spis: Vec::new(),
        devices: empty_devices(),
        framebuffers: Framebuffers::new(),
        debug_peripherals: Vec::new(),
    }
}

#[test]
fn rcc_always_ready() {
    let mut w = world_with(vec![PeripheralSlot {
        start: 0x4002_3800,
        end: 0x4002_3BFF,
        model: Model::Rcc(Rcc::new()),
    }]);
    // CR: every PLL/oscillator-ready bit asserted.
    assert_eq!(w.read(0x4002_3800, 4), 0xFFFF_FFFF);
    // CFGR: system clock reports switched.
    assert_eq!(w.read(0x4002_3808, 4), 0b1000);
    // Other registers read zero; writes are swallowed.
    assert_eq!(w.read(0x4002_3810, 4), 0);
    let mut mem = Memory::new();
    w.write(&mut mem, 0x4002_3800, 4, 0xDEAD_BEEF);
    assert_eq!(w.read(0x4002_3800, 4), 0xFFFF_FFFF);
}

#[test]
fn unmapped_reads_zero_writes_dropped() {
    let mut w = world_with(vec![]);
    let mut mem = Memory::new();
    assert_eq!(w.read(0x4000_0000, 4), 0);
    w.write(&mut mem, 0x4000_0000, 4, 123);
    assert_eq!(w.read(0x4000_0000, 4), 0);
}

fn spi_world() -> Peripherals {
    world_with(vec![PeripheralSlot {
        start: 0x4001_3000,
        end: 0x4001_33FF,
        model: Model::Spi(Spi::new(String::from("SPI1"), None)),
    }])
}

#[test]
fn router_round_trip_spi_cr1() {
    let mut w = spi_world();
    let mut mem = Memory::new();
    w.write(&mut mem, 0x4001_3000, 4, 0x1234_5678);
    assert_eq!(w.read(0x4001_3000, 4), 0x1234_5678);
}

#[test]
fn alignment_law_sub_word_reads() {
    let mut w = spi_world();
    let mut mem = Memory::new();
    w.write(&mut mem, 0x4001_3000, 4, 0x1234_5678);
    // Sub-word reads shift the covering word right and mask to the width.
    assert_eq!(w.read(0x4001_3000, 1), 0x78);
    assert_eq!(w.read(0x4001_3001, 1), 0x56);
    assert_eq!(w.read(0x4001_3002, 1), 0x34);
    assert_eq!(w.read(0x4001_3003, 1), 0x12);
    assert_eq!(w.read(0x4001_3000, 2), 0x5678);
    assert_eq!(w.read(0x4001_3002, 2), 0x1234);
}

#[test]
fn sub_word_write_merges_bytes() {
    let mut w = spi_world();
    let mut mem = Memory::new();
    w.write(&mut mem, 0x4001_3000, 4, 0x1234_5678);
    w.write(&mut mem, 0x4001_3001, 1, 0xAB);
    assert_eq!(w.read(0x4001_3000, 4), 0x1234_AB78);
    w.write(&mut mem, 0x4001_3002, 2, 0xBEEF);
    assert_eq!(w.read(0x4001_3000, 4), 0xBEEF_AB78);
}

#[test]
fn bitband_idempotence() {
    // SPI1 CR1 backing word sits at 0x4001_3000; its bit-band alias window
    // starts at 0x4200_0000 + (0x4001_3000 - 0x4000_0000) * 32.
    let base_alias: u32 = 0x4200_0000 + (0x4001_3000 - 0x4000_0000) * 32;
    for bit in 0..8u32 {
        for v in 0..2u32 {
            let mut w = spi_world();
            let mut mem = Memory::new();
            w.write(&mut mem, 0x4001_3000, 4, 0x0000_00A5);
            let alias = base_alias + 4 * bit;
            w.write(&mut mem, alias, 4, v);
            assert_eq!(w.read(alias, 4), v, "bit {bit} value {v}");
            // Only the addressed bit changed.
            let expect = (0x0000_00A5u32 & !(1 << bit)) | (v << bit);
            assert_eq!(w.read(0x4001_3000, 4), expect);
        }
    }
}

#[test]
fn systick_load_round_trip_and_period() {
    let mut w = world_with(vec![PeripheralSlot {
        start: 0xE000_E010,
        end: 0xE000_E01F,
        model: Model::SysTick(SysTick::new()),
    }]);
    let mut mem = Memory::new();
    w.write(&mut mem, 0xE000_E014, 4, 1000);
    assert_eq!(w.read(0xE000_E014, 4), 1000);
    // Not enabled yet: no period programmed.
    assert_eq!(w.nvic.systick_period, None);
    w.write(&mut mem, 0xE000_E010, 4, 0b111);
    assert_eq!(w.nvic.systick_period, Some(1000));
    // Disabling the interrupt clears the period.
    w.write(&mut mem, 0xE000_E010, 4, 0b001);
    assert_eq!(w.nvic.systick_period, None);
}

#[test]
fn systick_val_appears_to_count() {
    let mut w = world_with(vec![PeripheralSlot {
        start: 0xE000_E010,
        end: 0xE000_E01F,
        model: Model::SysTick(SysTick::new()),
    }]);
    let mut mem = Memory::new();
    w.write(&mut mem, 0xE000_E014, 4, 1000);
    let a = w.read(0xE000_E018, 4);
    let b = w.read(0xE000_E018, 4);
    assert!(a != b);
    assert!(a == 0 || a == 500);
    assert!(b == 0 || b == 500);
}

#[test]
fn round_up_to_pages() {
    assert_eq!(stm32_emu::round_up(0x1000, 4096), 0x1000);
    assert_eq!(stm32_emu::round_up(0x1001, 4096), 0x2000);
    assert_eq!(stm32_emu::round_up(1, 4096), 4096);
    assert_eq!(stm32_emu::round_up(0, 4096), 0);
}

#[test]
fn memory_read_write_words() {
    let mut mem = Memory::new();
    assert!(mem.map_region(0x2000_0000, 0x1000));
    assert!(mem.write_u32(0x2000_0010, 0xCAFEBABE));
    assert_eq!(mem.read_u32(0x2000_0010), Some(0xCAFEBABE));
    // Little-endian byte order.
    assert_eq!(mem.read(0x2000_0010, 2).unwrap(), vec![0xBE, 0xBA]);
    // Unmapped and out-of-range accesses fail.
    assert_eq!(mem.read_u32(0x3000_0000), None);
    assert!(!mem.write_u32(0x2000_0FFE, 1));
    // Overlapping regions are rejected.
    assert!(!mem.map_region(0x2000_0800, 0x1000));
}
