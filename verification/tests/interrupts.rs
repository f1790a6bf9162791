//! Interrupt controller, DMA transfers, GPIO fan-out, software SPI and the
//! system builders.

use stm32_emu::config::{Config, Cpu, PeripheralsConfig, Region};
use stm32_emu::emulator::{run_step_decision, RunDecision};
use stm32_emu::dma::Dma;
use stm32_emu::emulator::EmuState;
use stm32_emu::ext_devices::{DeviceHandle, ExtDevices};
use stm32_emu::framebuffers::Framebuffers;
use stm32_emu::gpio::{Gpio, GpioPorts, Pin, WriteSub, WriteTarget};
use stm32_emu::memory::Memory;
use stm32_emu::nvic::Nvic;
use stm32_emu::peripherals::{Model, PeripheralSlot, Peripherals};
use stm32_emu::regfile::RegFile;
use stm32_emu::sw_spi::{SoftwareSpi, SoftwareSpiConfig};
use stm32_emu::svd::{SvdDevice, SvdPeripheral, SvdRegister, SvdRegisterEntry};
use stm32_emu::usart::Usart;
use stm32_emu::usart_probe::{UsartProbe, UsartProbeConfig};
use stm32_emu::util::ConfigError;

fn empty_devices() -> ExtDevices {
    ExtDevices {
        spi_flashes: Vec::new(),
        usart_probes: Vec::new(),
        displays: Vec::new(),
        lcds: Vec::new(),
        touchscreens: Vec::new(),
    }
}

fn dma_world(devices: ExtDevices, extra: Vec<PeripheralSlot>) -> Peripherals {
    let mut slots = vec![PeripheralSlot {
        start: 0x4002_6000,
        end: 0x4002_63FF,
        model: Model::Dma(Dma::new(String::from("DMA1"))),
    }];
    slots.extend(extra);
    slots.sort_by_key(|s| s.start);
    Peripherals {
        slots,
        nvic: Nvic::new(),
        gpio: GpioPorts::new(),
        sw_spis: Vec::new(),
        devices,
        framebuffers: Framebuffers::new(),
        debug_peripherals: Vec::new(),
    }
}

#[test]
fn dma_memory_to_memory() {
    // 256 bytes of 0xAA at 0x2000_0000 copied to 0x2000_1000.
    let mut w = dma_world(empty_devices(), vec![]);
    let mut mem = Memory::new();
    assert!(mem.map_region(0x2000_0000, 0x2000));
    assert!(mem.write(0x2000_0000, &vec![0xAA; 256]));
    // The first reachable stream bank sits at offset 0x28.
    let cr = 0x4002_6028;
    w.write(&mut mem, cr + 0x08, 4, 0x2000_0000); // PAR
    w.write(&mut mem, cr + 0x0C, 4, 0x2000_1000); // M0AR
    w.write(&mut mem, cr + 0x04, 4, 256); // NDTR
    let cr_value = (0b10 << 6) | 1; // direction = mem-to-mem, enable
    w.write(&mut mem, cr, 4, cr_value);
    assert_eq!(mem.read(0x2000_1000, 256).unwrap(), vec![0xAA; 256]);
    // NDTR reads zero, and the next CR read returns the completed value
    // with the enable bit cleared.
    assert_eq!(w.read(cr + 0x04, 4), 0);
    assert_eq!(w.read(cr, 4), cr_value & !1);
    assert_eq!(w.read(cr, 4), cr_value & !1);
}

#[test]
fn dma_memory_to_peripheral_sink() {
    // The USART forwards DMA bytes to its probe: the sink receives the
    // first N bytes in order.
    let devices = ExtDevices {
        usart_probes: vec![UsartProbe::new(UsartProbeConfig {
            peripheral: String::from("USART2"),
        })],
        ..empty_devices()
    };
    let usart = PeripheralSlot {
        start: 0x4000_4400,
        end: 0x4000_47FF,
        model: Model::Usart(Usart::new(
            String::from("USART2"),
            Some(DeviceHandle::UsartProbe(0)),
        )),
    };
    let mut w = dma_world(devices, vec![usart]);
    let mut mem = Memory::new();
    assert!(mem.map_region(0x2000_0000, 0x1000));
    assert!(mem.write(0x2000_0000, &vec![1, 2, 3, 4, 5]));
    let cr = 0x4002_6028;
    w.write(&mut mem, cr + 0x08, 4, 0x4000_4404); // PAR = USART2 DR
    w.write(&mut mem, cr + 0x0C, 4, 0x2000_0000); // M0AR
    w.write(&mut mem, cr + 0x04, 4, 5); // NDTR
    w.write(&mut mem, cr, 4, (0b01 << 6) | 1); // mem-to-peripheral, enable
    assert_eq!(w.devices.usart_probes[0].rx, vec![1, 2, 3, 4, 5]);
    assert_eq!(w.read(cr + 0x04, 4), 0);
}

#[test]
fn dma_zero_length_write_toggles_enable() {
    let mut w = dma_world(empty_devices(), vec![]);
    let mut mem = Memory::new();
    let cr = 0x4002_6028;
    // A zero-length memory-to-peripheral setting makes successive CR reads
    // toggle the enable bit, defeating firmware busy-waits.
    w.write(&mut mem, cr, 4, 0b01 << 6);
    let a = w.read(cr, 4);
    let b = w.read(cr, 4);
    let c = w.read(cr, 4);
    let d = w.read(cr, 4);
    assert_eq!(a, 0b01 << 6);
    assert_eq!(b, (0b01 << 6) | 1);
    assert_eq!(c, 0b01 << 6);
    assert_eq!(d, (0b01 << 6) | 1);
    // An enabling zero-length write completes immediately: the next read is
    // the cleared value, and the toggling continues from there.
    w.write(&mut mem, cr, 4, (0b01 << 6) | 1);
    assert_eq!(w.read(cr, 4), 0b01 << 6);
    assert_eq!(w.read(cr, 4), (0b01 << 6) | 1);
}

fn zeroed_regs(msp: u32) -> RegFile {
    let mut r = RegFile::zeroed();
    r.msp = msp;
    r
}

#[test]
fn interrupt_save_restore() {
    // Dispatching SysTick pushes the basic frame to [S-32, S); a
    // synthesized exception exit restores SP and the working registers.
    let mut mem = Memory::new();
    assert!(mem.map_region(0x0000_0000, 0x1000)); // vector table
    assert!(mem.map_region(0x2000_0000, 0x1000)); // stack
    // SysTick is exception 15: slot at 4 * 15.
    assert!(mem.write_u32(4 * 15, 0x0800_1234));
    let mut nvic = Nvic::new();
    let mut regs = zeroed_regs(0x2000_0800);
    regs.r0 = 10;
    regs.r1 = 11;
    regs.r2 = 12;
    regs.r3 = 13;
    regs.r12 = 14;
    regs.lr = 15;
    regs.pc = 16;
    regs.xpsr = 17;
    nvic.set_intr_pending(-1);
    nvic.run_pending_interrupts(&mut regs, &mut mem, 0, 0).unwrap();
    assert!(nvic.in_interrupt);
    assert_eq!(regs.pc, 0x0800_1234);
    assert_eq!(regs.ipsr, 15);
    assert_eq!(regs.msp, 0x2000_0800 - 32);
    // Frame layout, low to high: R0 R1 R2 R3 R12 LR PC XPSR.
    let frame: Vec<u32> = (0..8)
        .map(|i| mem.read_u32(0x2000_0800 - 32 + 4 * i).unwrap())
        .collect();
    assert_eq!(frame, vec![10, 11, 12, 13, 14, 15, 16, 17]);
    // EXC_RETURN: thread mode, main stack, basic frame.
    assert_eq!(regs.lr, 0xFFFF_FFF9);
    // The handler trashes the working registers, then exits.
    regs.r0 = 99;
    regs.r3 = 98;
    regs.pc = 0x0800_2000;
    nvic.return_from_interrupt(&mut regs, &mem).unwrap();
    assert!(!nvic.in_interrupt);
    assert_eq!(regs.msp, 0x2000_0800);
    assert_eq!(
        (regs.r0, regs.r1, regs.r2, regs.r3, regs.r12, regs.lr, regs.pc, regs.xpsr),
        (10, 11, 12, 13, 14, 15, 16, 17)
    );
}

#[test]
fn interrupts_masked_by_primask_and_nesting() {
    let mut mem = Memory::new();
    assert!(mem.map_region(0x0000_0000, 0x1000));
    assert!(mem.map_region(0x2000_0000, 0x1000));
    assert!(mem.write_u32(4 * 15, 0x0800_1234));
    let mut nvic = Nvic::new();
    let mut regs = zeroed_regs(0x2000_0800);
    regs.primask = 1;
    nvic.set_intr_pending(-1);
    nvic.run_pending_interrupts(&mut regs, &mut mem, 0, 0).unwrap();
    assert!(!nvic.in_interrupt);
    assert_eq!(regs.pc, 0);
    // Pending survives; unmasking dispatches it.
    regs.primask = 0;
    nvic.run_pending_interrupts(&mut regs, &mut mem, 0, 0).unwrap();
    assert!(nvic.in_interrupt);
    // While in an interrupt, no new dispatch occurs.
    nvic.set_intr_pending(3);
    let pc = regs.pc;
    nvic.run_pending_interrupts(&mut regs, &mut mem, 0, 0).unwrap();
    assert_eq!(regs.pc, pc);
}

#[test]
fn systick_fires_after_period() {
    // STK.LOAD = 1000, CTRL = 0b111, interrupt period 1: the SysTick
    // vector is entered once after 1001 instructions, with IPSR = 15.
    let mut mem = Memory::new();
    assert!(mem.map_region(0x0000_0000, 0x1000));
    assert!(mem.map_region(0x2000_0000, 0x1000));
    assert!(mem.write_u32(4 * 15, 0x0800_1234));
    let mut w = Peripherals {
        slots: vec![PeripheralSlot {
            start: 0xE000_E010,
            end: 0xE000_E01F,
            model: Model::SysTick(stm32_emu::systick::SysTick::new()),
        }],
        nvic: Nvic::new(),
        gpio: GpioPorts::new(),
        sw_spis: Vec::new(),
        devices: empty_devices(),
        framebuffers: Framebuffers::new(),
        debug_peripherals: Vec::new(),
    };
    w.write(&mut mem, 0xE000_E014, 4, 1000);
    w.write(&mut mem, 0xE000_E010, 4, 0b111);
    let mut regs = zeroed_regs(0x2000_0800);
    let mut emu = EmuState::new(false, 1);
    let mut entries = 0;
    for _ in 0..1001 {
        let actions = emu.on_instruction(0x0800_0000, 2);
        if actions.run_interrupts {
            let mut nvic = w.nvic;
            nvic.run_pending_interrupts(&mut regs, &mut mem, 0, emu.num_instructions)
                .unwrap();
            w.nvic = nvic;
            if w.nvic.in_interrupt && regs.ipsr == 15 {
                entries += 1;
                // Leave the handler immediately for counting purposes.
                w.nvic.return_from_interrupt(&mut regs, &mem).unwrap();
            }
        }
    }
    assert_eq!(entries, 1);
}

#[test]
fn gpio_odr_change_fanout() {
    // A software-SPI MOSI line on PA3 sees exactly the changed bit.
    let mut gpio = GpioPorts::new();
    gpio.write_subs.push(WriteSub {
        pin: Pin { port: 0, pin: 3 },
        target: WriteTarget::SwSpiMosi(0),
    });
    let unit = SoftwareSpi::new(
        SoftwareSpiConfig {
            name: String::from("flash"),
            cs: None,
            clk: String::from("PA1"),
            miso: String::from("PA2"),
            mosi: String::from("PA3"),
        },
        String::from("flash"),
        None,
    );
    let mut w = Peripherals {
        slots: vec![PeripheralSlot {
            start: 0x4002_0000,
            end: 0x4002_03FF,
            model: Model::Gpio(Gpio::new('A', 0)),
        }],
        nvic: Nvic::new(),
        gpio,
        sw_spis: vec![unit],
        devices: empty_devices(),
        framebuffers: Framebuffers::new(),
        debug_peripherals: Vec::new(),
    };
    let mut mem = Memory::new();
    // Write ODR with bit 3 set: the MOSI latch follows.
    w.write(&mut mem, 0x4002_0014, 4, 1 << 3);
    assert!(w.sw_spis[0].mosi);
    // Writing the same value again changes nothing (no events fire).
    w.write(&mut mem, 0x4002_0014, 4, 1 << 3);
    assert!(w.sw_spis[0].mosi);
    // BSRR upper half resets the bit; the callback sees the low level.
    w.write(&mut mem, 0x4002_0018, 4, (1 << 3) << 16);
    assert!(!w.sw_spis[0].mosi);
    assert_eq!(w.read(0x4002_0014, 4), 0);
}

#[test]
fn gpio_change_scan_events() {
    let changes = stm32_emu::gpio::iter_port_reg_changes(0b0000, 0b1010, 1);
    assert_eq!(changes, vec![(1, 1), (3, 1)]);
    let changes = stm32_emu::gpio::iter_port_reg_changes(0b1010, 0b0010, 1);
    assert_eq!(changes, vec![(3, 0)]);
    // Two-bit fields: pin 1's mode changes to 0b11.
    let changes = stm32_emu::gpio::iter_port_reg_changes(0b0000, 0b1100, 2);
    assert_eq!(changes, vec![(1, 3)]);
}

#[test]
fn software_spi_byte_frame() {
    // CS low, 8 rising edges with MOSI levels 1,0,1,0,0,1,0,1 clock out
    // 0xA5 to the flash, whose JEDEC reply then shifts out on MISO.
    let devices = ExtDevices {
        spi_flashes: vec![stm32_emu::spi_flash::SpiFlash::new(
            stm32_emu::spi_flash::SpiFlashConfig {
                peripheral: String::from("soft"),
                jedec_id: 0x0001_0203,
                file: String::from("f.bin"),
                size: 16,
            },
            vec![],
        )],
        ..empty_devices()
    };
    let mut gpio = GpioPorts::new();
    gpio.write_subs.push(WriteSub {
        pin: Pin { port: 0, pin: 0 },
        target: WriteTarget::SwSpiCs(0),
    });
    gpio.write_subs.push(WriteSub {
        pin: Pin { port: 0, pin: 1 },
        target: WriteTarget::SwSpiClk(0),
    });
    gpio.write_subs.push(WriteSub {
        pin: Pin { port: 0, pin: 3 },
        target: WriteTarget::SwSpiMosi(0),
    });
    let unit = SoftwareSpi::new(
        SoftwareSpiConfig {
            name: String::from("soft"),
            cs: Some(String::from("PA0")),
            clk: String::from("PA1"),
            miso: String::from("PA2"),
            mosi: String::from("PA3"),
        },
        String::from("soft"),
        Some(DeviceHandle::SpiFlash(0)),
    );
    let mut w = Peripherals {
        slots: vec![PeripheralSlot {
            start: 0x4002_0000,
            end: 0x4002_03FF,
            model: Model::Gpio(Gpio::new('A', 0)),
        }],
        nvic: Nvic::new(),
        gpio,
        sw_spis: vec![unit],
        devices,
        framebuffers: Framebuffers::new(),
        debug_peripherals: Vec::new(),
    };
    let mut mem = Memory::new();
    let odr = 0x4002_0014;
    // Select: CS high then low (falling edge resets the shifters).
    w.write(&mut mem, odr, 4, 1 << 0);
    w.write(&mut mem, odr, 4, 0);
    // Clock out 0x9F (JEDEC ID command) bit by bit, MSB first.
    let byte = 0x9Fu8;
    for bit in (0..8).rev() {
        let mosi = (byte >> bit) & 1;
        let v = ((mosi as u32) << 3) as u32;
        w.write(&mut mem, odr, 4, v); // set MOSI, CLK low
        w.write(&mut mem, odr, 4, v | (1 << 1)); // CLK rising edge
    }
    // The flash consumed exactly one write and answered one read: the
    // first reply byte (0x00) is now in the MISO shifter.
    assert_eq!(w.sw_spis[0].data_miso, 0x00);
    assert!(w.devices.spi_flashes[0].reply.is_some());
    // Clock out a dummy byte; MISO shifts out 0x00 then loads 0x01.
    for _ in 0..8 {
        w.write(&mut mem, odr, 4, 0);
        w.write(&mut mem, odr, 4, 1 << 1);
    }
    assert_eq!(w.sw_spis[0].data_miso, 0x01);
}

#[test]
fn pin_names_parse() {
    assert_eq!(Pin::from_str("PA12"), Some(Pin { port: 0, pin: 12 }));
    assert_eq!(Pin::from_str("pk0"), Some(Pin { port: 10, pin: 0 }));
    assert_eq!(Pin::from_str("C7"), Some(Pin { port: 2, pin: 7 }));
    assert_eq!(Pin::from_str("PA16"), None); // pin out of range
    assert_eq!(Pin::from_str("PZ1"), None); // no such port
    assert_eq!(Pin::from_str("PA"), None); // no digits
    assert_eq!(Pin::from_str("PA1x"), None); // trailing garbage
}

fn svd_with(peripherals: Vec<SvdPeripheral>) -> SvdDevice {
    SvdDevice { peripherals }
}

fn svd_peri(name: &str, base: u32, regs: Vec<(&str, u32)>) -> SvdPeripheral {
    SvdPeripheral {
        name: String::from(name),
        base_address: base,
        derived_from: None,
        registers: regs
            .into_iter()
            .map(|(n, off)| {
                SvdRegisterEntry::Single(SvdRegister {
                    name: String::from(n),
                    address_offset: off,
                })
            })
            .collect(),
        clusters: Vec::new(),
    }
}

#[test]
fn from_svd_builds_disjoint_registry() {
    let svd = svd_with(vec![
        svd_peri("RCC", 0x4002_3800, vec![("CR", 0), ("CFGR", 8)]),
        svd_peri("SPI1", 0x4001_3000, vec![("CR1", 0), ("DR", 0xC)]),
    ]);
    let w = Peripherals::from_svd(
        &svd,
        PeripheralsConfig { software_spi: None },
        GpioPorts::new(),
        empty_devices(),
        Framebuffers::new(),
    )
    .unwrap();
    assert_eq!(w.slots.len(), 2);
    assert!(w.slots[0].start < w.slots[1].start);
    assert!(w.slots[0].end < w.slots[1].start);
}

#[test]
fn from_svd_rejects_overlap() {
    let svd = svd_with(vec![
        svd_peri("RCC", 0x4002_3800, vec![("CR", 0)]),
        svd_peri("SPI1", 0x4002_3800, vec![("CR1", 0)]),
    ]);
    let r = Peripherals::from_svd(
        &svd,
        PeripheralsConfig { software_spi: None },
        GpioPorts::new(),
        empty_devices(),
        Framebuffers::new(),
    );
    assert_eq!(r.err(), Some(ConfigError::OverlappingPeripherals));
}

#[test]
fn from_svd_resolves_derived_from() {
    let mut spi2 = svd_peri("SPI2", 0x4000_3800, vec![]);
    spi2.derived_from = Some(String::from("SPI1"));
    let svd = svd_with(vec![
        svd_peri("SPI1", 0x4001_3000, vec![("CR1", 0), ("DR", 0xC)]),
        spi2,
    ]);
    let w = Peripherals::from_svd(
        &svd,
        PeripheralsConfig { software_spi: None },
        GpioPorts::new(),
        empty_devices(),
        Framebuffers::new(),
    )
    .unwrap();
    assert_eq!(w.slots.len(), 2);
    // SPI2 inherits SPI1's register block size.
    assert_eq!(w.slots[0].end - w.slots[0].start, w.slots[1].end - w.slots[1].start);
    let mut bad = svd_peri("SPI3", 0x4000_3C00, vec![]);
    bad.derived_from = Some(String::from("NOPE"));
    let r = Peripherals::from_svd(
        &svd_with(vec![bad]),
        PeripheralsConfig { software_spi: None },
        GpioPorts::new(),
        empty_devices(),
        Framebuffers::new(),
    );
    assert_eq!(r.err(), Some(ConfigError::MissingDerivedFrom));
}

#[test]
fn prepare_builds_memory_and_world() {
    // One RAM region and one flash region with firmware loaded; the first
    // RCC read answers all-ones.
    let config = Config {
        cpu: Cpu { svd: String::from("chip.svd"), vector_table: 0x0800_0000 },
        regions: vec![
            Region {
                name: String::from("ram"),
                start: 0x2000_0000,
                size: 0x1000,
                load: None,
            },
            Region {
                name: String::from("flash"),
                start: 0x0800_0000,
                size: 0x4000,
                load: Some(String::from("fw.bin")),
            },
        ],
        patches: Some(vec![stm32_emu::config::Patch {
            start: 0x0800_0010,
            data: vec![0xAB, 0xCD],
        }]),
        peripherals: None,
        devices: None,
        framebuffers: None,
    };
    let svd = svd_with(vec![svd_peri("RCC", 0x4002_3800, vec![("CR", 0), ("CFGR", 8)])]);
    let firmware = vec![0x11u8; 64];
    let (mut w, mem) = stm32_emu::system::prepare(
        config,
        &svd,
        &vec![None, Some(firmware)],
        Vec::new(),
    )
    .unwrap();
    assert_eq!(mem.read(0x0800_0000, 4).unwrap(), vec![0x11; 4]);
    assert_eq!(mem.read(0x0800_0010, 2).unwrap(), vec![0xAB, 0xCD]);
    assert_eq!(mem.read(0x2000_0000, 4).unwrap(), vec![0, 0, 0, 0]);
    assert_eq!(w.read(0x4002_3800, 4), 0xFFFF_FFFF);
}

#[test]
fn emulation_loop_decisions() {
    let mut emu = EmuState::new(true, 2);
    let a = emu.on_instruction(0x100, 2);
    assert!(!a.stop_busy_loop && a.run_interrupts && a.pump_events);
    let b = emu.on_instruction(0x102, 2);
    assert!(!b.stop_busy_loop && !b.run_interrupts && !b.pump_events);
    // The same PC twice in a row is a busy loop.
    let c = emu.on_instruction(0x102, 2);
    assert!(c.stop_busy_loop);
    assert_eq!(
        run_step_decision(0x200, false, true, false, false, None, true),
        RunDecision::Finished
    );
    assert_eq!(
        run_step_decision(0x200, true, false, true, false, None, true),
        RunDecision::Resume(0x201)
    );
    assert_eq!(
        run_step_decision(0x200, true, false, false, false, None, true),
        RunDecision::Fatal
    );
    assert_eq!(
        run_step_decision(0x200, false, false, false, false, Some(0x200), true),
        RunDecision::Finished
    );
    assert_eq!(
        run_step_decision(0x200, false, false, false, false, None, true),
        RunDecision::Resume(0x201)
    );
}

#[test]
fn vector_table_from_memory() {
    let mut mem = Memory::new();
    assert!(mem.map_region(0x0800_0000, 0x1000));
    assert!(mem.write_u32(0x0800_0000, 0x2000_1000));
    assert!(mem.write_u32(0x0800_0004, 0x0800_0101));
    let vt = stm32_emu::emulator::VectorTable::from_memory(&mem, 0x0800_0000).unwrap();
    assert_eq!(vt.sp, 0x2000_1000);
    assert_eq!(vt.reset, 0x0800_0101);
    assert!(stm32_emu::emulator::VectorTable::from_memory(&mem, 0x0900_0000).is_none());
}
