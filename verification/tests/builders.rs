//! Construction-time validation, and the smaller register models.

use stm32_emu::config::{Config, Cpu, Patch, Region};
use stm32_emu::ext_devices::{DeviceHandle, ExtDevices, ExtDevicesConfig};
use stm32_emu::framebuffers::{Framebuffers, FramebufferConfig};
use stm32_emu::gpio::GpioPorts;
use stm32_emu::i2c::I2c;
use stm32_emu::memory::Memory;
use stm32_emu::nvic::Nvic;
use stm32_emu::peripherals::{Model, PeripheralSlot, Peripherals};
use stm32_emu::scb::Scb;
use stm32_emu::spi::Spi;
use stm32_emu::spi_flash::{SpiFlash, SpiFlashConfig};
use stm32_emu::svd::SvdDevice;
use stm32_emu::system::{load_memory_regions, prepare};
use stm32_emu::touchscreen::TouchscreenConfig;
use stm32_emu::usart::Usart;
use stm32_emu::usart_probe::UsartProbe;
use stm32_emu::util::ConfigError;

fn fb_config(name: &str, width: u16, height: u16) -> FramebufferConfig {
    FramebufferConfig {
        name: String::from(name),
        width,
        height,
        mode: String::from("rgb565"),
        image: None,
        sdl: Some(true),
        downscale: None,
    }
}

fn empty_devices_config() -> ExtDevicesConfig {
    ExtDevicesConfig {
        spi_flash: None,
        usart_probe: None,
        display: None,
        lcd: None,
        touchscreen: None,
    }
}

#[test]
fn framebuffer_config_needs_one_backend() {
    let mut both = fb_config("a", 4, 4);
    both.image = Some(stm32_emu::framebuffers::ImageBackendConfig {
        file: String::from("a.png"),
    });
    assert_eq!(
        Framebuffers::from_config(vec![both]).err(),
        Some(ConfigError::BadFramebufferConfig)
    );
    let mut neither = fb_config("a", 4, 4);
    neither.sdl = None;
    assert_eq!(
        Framebuffers::from_config(vec![neither]).err(),
        Some(ConfigError::BadFramebufferConfig)
    );
    let zero = fb_config("a", 0, 4);
    assert_eq!(
        Framebuffers::from_config(vec![zero]).err(),
        Some(ConfigError::BadFramebufferConfig)
    );
    let ok = Framebuffers::from_config(vec![fb_config("a", 4, 4)]).unwrap();
    assert_eq!(ok.images.len(), 1);
    assert_eq!(ok.get("a"), Some(0));
    assert_eq!(ok.get("b"), None);
}

#[test]
fn device_config_validation() {
    let fbs = Framebuffers::from_config(vec![fb_config("screen", 4, 4)]).unwrap();
    let mut gpio = GpioPorts::new();
    // A flash image must be supplied for every configured flash.
    let cfg = ExtDevicesConfig {
        spi_flash: Some(vec![SpiFlashConfig {
            peripheral: String::from("SPI1"),
            jedec_id: 1,
            file: String::from("f.bin"),
            size: 4,
        }]),
        ..empty_devices_config()
    };
    assert_eq!(
        cfg.into_ext_devices(&mut gpio, &fbs, Vec::new()).err(),
        Some(ConfigError::InvalidDeviceConfig)
    );
    // A zero-sized flash is unusable.
    let cfg = ExtDevicesConfig {
        spi_flash: Some(vec![SpiFlashConfig {
            peripheral: String::from("SPI1"),
            jedec_id: 1,
            file: String::from("f.bin"),
            size: 0,
        }]),
        ..empty_devices_config()
    };
    assert_eq!(
        cfg.into_ext_devices(&mut gpio, &fbs, vec![Vec::new()]).err(),
        Some(ConfigError::InvalidDeviceConfig)
    );
    // A touchscreen must name an existing framebuffer ...
    let cfg = ExtDevicesConfig {
        touchscreen: Some(vec![TouchscreenConfig {
            peripheral: String::from("SPI1"),
            framebuffer: String::from("nope"),
            flip_x: None,
            flip_y: None,
            swap_x_y: None,
            touch_detected_pin: None,
            scale_down: None,
        }]),
        ..empty_devices_config()
    };
    assert_eq!(
        cfg.into_ext_devices(&mut gpio, &fbs, Vec::new()).err(),
        Some(ConfigError::MissingFramebuffer)
    );
    // ... and a parsable touch-detect pin.
    let cfg = ExtDevicesConfig {
        touchscreen: Some(vec![TouchscreenConfig {
            peripheral: String::from("SPI1"),
            framebuffer: String::from("screen"),
            flip_x: None,
            flip_y: None,
            swap_x_y: None,
            touch_detected_pin: Some(String::from("PX99")),
            scale_down: None,
        }]),
        ..empty_devices_config()
    };
    assert_eq!(
        cfg.into_ext_devices(&mut gpio, &fbs, Vec::new()).err(),
        Some(ConfigError::InvalidPin)
    );
    // A valid touchscreen registers its touch-detect subscription.
    let cfg = ExtDevicesConfig {
        touchscreen: Some(vec![TouchscreenConfig {
            peripheral: String::from("SPI1"),
            framebuffer: String::from("screen"),
            flip_x: None,
            flip_y: None,
            swap_x_y: None,
            touch_detected_pin: Some(String::from("PB6")),
            scale_down: None,
        }]),
        ..empty_devices_config()
    };
    let d = cfg.into_ext_devices(&mut gpio, &fbs, Vec::new()).unwrap();
    assert_eq!(d.touchscreens.len(), 1);
    assert_eq!(gpio.read_subs.len(), 1);
}

#[test]
fn region_loading_validation() {
    let mut mem = Memory::new();
    // A zero-sized region is rejected.
    let bad = vec![Region {
        name: String::from("r"),
        start: 0x2000_0000,
        size: 0,
        load: None,
    }];
    assert_eq!(
        load_memory_regions(&mut mem, &bad, &vec![None], &Vec::new()).err(),
        Some(ConfigError::BadRegion)
    );
    // A patch outside every region is rejected.
    let mut mem = Memory::new();
    let regions = vec![Region {
        name: String::from("r"),
        start: 0x2000_0000,
        size: 0x100,
        load: None,
    }];
    let patches = vec![Patch { start: 0x3000_0000, data: vec![1] }];
    assert_eq!(
        load_memory_regions(&mut mem, &regions, &vec![None], &patches).err(),
        Some(ConfigError::BadPatch)
    );
    // Sizes are rounded up to whole pages.
    let mut mem = Memory::new();
    load_memory_regions(&mut mem, &regions, &vec![None], &Vec::new()).unwrap();
    assert!(mem.read(0x2000_0FFF, 1).is_some());
    assert!(mem.read(0x2000_1000, 1).is_none());
}

#[test]
fn prepare_rejects_bad_framebuffer() {
    let config = Config {
        cpu: Cpu { svd: String::from("chip.svd"), vector_table: 0 },
        regions: Vec::new(),
        patches: None,
        peripherals: None,
        devices: None,
        framebuffers: Some(vec![fb_config("a", 0, 0)]),
    };
    let r = prepare(config, &SvdDevice { peripherals: Vec::new() }, &Vec::new(), Vec::new());
    assert_eq!(r.err(), Some(ConfigError::BadFramebufferConfig));
}

fn world_with(slots: Vec<PeripheralSlot>) -> Peripherals {
    Peripherals {
        slots,
        nvic: Nvic::new(),
        gpio: GpioPorts::new(),
        sw_spis: Vec::new(),
        devices: ExtDevices {
            spi_flashes: Vec::new(),
            usart_probes: Vec::new(),
            displays: Vec::new(),
            lcds: Vec::new(),
            touchscreens: Vec::new(),
        },
        framebuffers: Framebuffers::new(),
        debug_peripherals: Vec::new(),
    }
}

#[test]
fn scb_raises_pendings() {
    let mut w = world_with(vec![PeripheralSlot {
        start: 0xE000_ED00,
        end: 0xE000_EDFF,
        model: Model::Scb(Scb::new()),
    }]);
    let mut mem = Memory::new();
    // ICSR bit 26 marks SysTick pending, bit 28 PendSV.
    w.write(&mut mem, 0xE000_ED04, 4, 1 << 26);
    let mut nvic = w.nvic;
    assert_eq!(nvic.get_and_clear_next_intr_pending(), Some(-1));
    w.write(&mut mem, 0xE000_ED04, 4, 1 << 28);
    let mut nvic = w.nvic;
    assert_eq!(nvic.get_and_clear_next_intr_pending(), Some(-2));
    assert_eq!(w.read(0xE000_ED04, 4), 0);
}

#[test]
fn pending_interrupts_pop_lowest_first() {
    let mut nvic = Nvic::new();
    nvic.set_intr_pending(5);
    nvic.set_intr_pending(-2);
    nvic.set_intr_pending(3);
    assert_eq!(nvic.get_and_clear_next_intr_pending(), Some(-2));
    assert_eq!(nvic.get_and_clear_next_intr_pending(), Some(3));
    assert_eq!(nvic.get_and_clear_next_intr_pending(), Some(5));
    assert_eq!(nvic.get_and_clear_next_intr_pending(), None);
}

#[test]
fn i2c_status_flaps() {
    let mut i2c = I2c::new();
    let mut distinct = std::collections::BTreeSet::new();
    for _ in 0..10 {
        distinct.insert(i2c.read(0x14));
    }
    assert!(distinct.contains(&0) && distinct.contains(&0xFFFF_FFFF));
    assert_eq!(i2c.read(0x10), 0);
}

#[test]
fn usart_always_ready_and_forwards() {
    let mut w = world_with(vec![PeripheralSlot {
        start: 0x4000_4400,
        end: 0x4000_47FF,
        model: Model::Usart(Usart::new(
            String::from("USART2"),
            Some(DeviceHandle::UsartProbe(0)),
        )),
    }]);
    w.devices.usart_probes.push(UsartProbe::new(
        stm32_emu::usart_probe::UsartProbeConfig { peripheral: String::from("USART2") },
    ));
    let mut mem = Memory::new();
    // SR: TXE | TC | RXNE | IDLE.
    assert_eq!(w.read(0x4000_4400, 4), 0xF0);
    w.write(&mut mem, 0x4000_4404, 4, b'o' as u32);
    assert_eq!(w.devices.usart_probes[0].rx, vec![b'o']);
    w.devices.usart_probes[0].push_input(42);
    assert_eq!(w.read(0x4000_4404, 4), 42);
}

#[test]
fn spi_16bit_frames() {
    let mut w = world_with(vec![PeripheralSlot {
        start: 0x4001_3000,
        end: 0x4001_33FF,
        model: Model::Spi(Spi::new(
            String::from("SPI1"),
            Some(DeviceHandle::SpiFlash(0)),
        )),
    }]);
    w.devices.spi_flashes.push(SpiFlash::new(
        SpiFlashConfig {
            peripheral: String::from("SPI1"),
            jedec_id: 0x0001_0203,
            file: String::from("f.bin"),
            size: 16,
        },
        vec![],
    ));
    let mut mem = Memory::new();
    // CR1 bit 11 selects 16-bit frames: one DR write moves two bytes each
    // way, the received pair packed big-endian.
    w.write(&mut mem, 0x4001_3000, 4, 1 << 11);
    w.write(&mut mem, 0x4001_300C, 4, 0x9F00);
    // The flash saw 0x9F then 0x00; its JEDEC reply streams back.
    assert_eq!(w.read(0x4001_300C, 4), 0x0001);
    // SR alternates between ready and zero.
    let a = w.read(0x4001_3008, 4);
    let b = w.read(0x4001_3008, 4);
    assert_eq!((a, b), (0b11, 0));
}

#[test]
fn systick_ctrl_countflag_toggles() {
    let mut w = world_with(vec![PeripheralSlot {
        start: 0xE000_E010,
        end: 0xE000_E01F,
        model: Model::SysTick(stm32_emu::systick::SysTick::new()),
    }]);
    let mut mem = Memory::new();
    w.write(&mut mem, 0xE000_E010, 4, 0b001);
    let a = w.read(0xE000_E010, 4);
    let b = w.read(0xE000_E010, 4);
    assert_eq!(a, 0b001);
    assert_eq!(b, 0b001 | (1 << 16));
}
