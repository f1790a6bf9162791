//! External-device behaviour: SPI flash command machine, display drawing,
//! LCD grayscale, touchscreen sampling, USART probe lines, and the
//! framebuffer RGB expansion.

use stm32_emu::display::{Display, DisplayConfig};
use stm32_emu::ext_devices::{DeviceHandle, ExtDevices};
use stm32_emu::framebuffers::{Framebuffers, FramebufferConfig, Image};
use stm32_emu::fsmc::{Bank, Fsmc};
use stm32_emu::gpio::GpioPorts;
use stm32_emu::lcd::{Lcd, LcdConfig};
use stm32_emu::memory::Memory;
use stm32_emu::nvic::Nvic;
use stm32_emu::peripherals::{Model, PeripheralSlot, Peripherals};
use stm32_emu::spi::Spi;
use stm32_emu::spi_flash::{SpiFlash, SpiFlashConfig};
use stm32_emu::touchscreen::{Touchscreen, TouchscreenConfig};
use stm32_emu::usart_probe::{UsartProbe, UsartProbeConfig};

fn fb_config(name: &str, width: u16, height: u16) -> FramebufferConfig {
    FramebufferConfig {
        name: String::from(name),
        width,
        height,
        mode: String::from("rgb565"),
        image: None,
        sdl: None,
        downscale: None,
    }
}

fn flash(jedec_id: u32, size: usize, content: Vec<u8>) -> SpiFlash {
    SpiFlash::new(
        SpiFlashConfig {
            peripheral: String::from("SPI1"),
            jedec_id,
            file: String::from("flash.bin"),
            size,
        },
        content,
    )
}

#[test]
fn spi_flash_jedec_id() {
    // Bound flash with jedec_id 0x010203; firmware writes 0x9F to DR, then
    // clocks out bytes: 0x00, 0x01, 0x02, 0x03 (big-endian 4-byte form).
    let devices = ExtDevices {
        spi_flashes: vec![flash(0x0001_0203, 16, vec![])],
        usart_probes: Vec::new(),
        displays: Vec::new(),
        lcds: Vec::new(),
        touchscreens: Vec::new(),
    };
    let mut w = Peripherals {
        slots: vec![PeripheralSlot {
            start: 0x4001_3000,
            end: 0x4001_33FF,
            model: Model::Spi(Spi::new(
                String::from("SPI1"),
                Some(DeviceHandle::SpiFlash(0)),
            )),
        }],
        nvic: Nvic::new(),
        gpio: GpioPorts::new(),
        sw_spis: Vec::new(),
        devices,
        framebuffers: Framebuffers::new(),
        debug_peripherals: Vec::new(),
    };
    let mut mem = Memory::new();
    let dr = 0x4001_300C;
    let mut seen = Vec::new();
    w.write(&mut mem, dr, 4, 0x9F);
    seen.push(w.read(dr, 4));
    for _ in 0..3 {
        w.write(&mut mem, dr, 4, 0x00);
        seen.push(w.read(dr, 4));
    }
    assert_eq!(seen, vec![0x00, 0x01, 0x02, 0x03]);
}

#[test]
fn spi_flash_read_data_wraps() {
    let mut f = flash(0, 4, vec![10, 20, 30, 40]);
    // ReadData at address 2 streams 30, 40, then wraps to 10.
    f.write(0x03);
    f.write(0);
    f.write(0);
    f.write(2);
    assert_eq!(f.read(), 30);
    assert_eq!(f.read(), 40);
    assert_eq!(f.read(), 10);
}

#[test]
fn spi_flash_content_padded_to_size() {
    let f = flash(0, 6, vec![1, 2]);
    assert_eq!(f.content, vec![1, 2, 0, 0, 0, 0]);
    let g = flash(0, 2, vec![1, 2, 3, 4]);
    assert_eq!(g.content, vec![1, 2]);
}

#[test]
fn spi_flash_idle_bytes_ignored() {
    let mut f = flash(0xAA55AA, 4, vec![]);
    f.write(0xFF);
    f.write(0x00);
    assert!(f.cmd.is_none() && f.reply.is_none());
    // Device ID replies with the fixed pattern.
    f.write(0x90);
    assert_eq!((f.read(), f.read(), f.read(), f.read()), (0x00, 0xAA, 0xBB, 0xCC));
}

fn display_world(cmd_addr_bit: u32, width: u16, height: u16) -> Peripherals {
    let fbs = Framebuffers {
        images: vec![Image::new(fb_config("screen", width, height))],
    };
    let display = Display::new(
        DisplayConfig {
            peripheral: String::from("FSMC.BANK1"),
            cmd_addr_bit,
            swap_bytes: None,
            replies: None,
            framebuffer: String::from("screen"),
        },
        &fbs,
    )
    .unwrap();
    Peripherals {
        slots: vec![PeripheralSlot {
            start: 0x6000_0000,
            end: 0xA000_1000,
            model: Model::Fsmc(Fsmc {
                banks: vec![
                    Bank { name: String::from("FSMC.BANK1"), device: Some(0) },
                    Bank { name: String::from("FSMC.BANK2"), device: None },
                    Bank { name: String::from("FSMC.BANK3"), device: None },
                    Bank { name: String::from("FSMC.BANK4"), device: None },
                ],
            }),
        }],
        nvic: Nvic::new(),
        gpio: GpioPorts::new(),
        sw_spis: Vec::new(),
        devices: ExtDevices {
            spi_flashes: Vec::new(),
            usart_probes: Vec::new(),
            displays: vec![display],
            lcds: Vec::new(),
            touchscreens: Vec::new(),
        },
        framebuffers: fbs,
        debug_peripherals: Vec::new(),
    }
}

#[test]
fn display_region_and_draw() {
    // Draw window commands then a full 240x320 red fill.
    let mut w = display_world(1 << 14, 240, 320);
    let mut mem = Memory::new();
    let cmd = 0x6000_0000;
    let data = 0x6000_0000 | (1 << 14);
    w.write(&mut mem, cmd, 2, 0x2A);
    for a in [0x00u32, 0x00, 0x00, 0xEF] {
        w.write(&mut mem, data, 2, a);
    }
    w.write(&mut mem, cmd, 2, 0x2B);
    for a in [0x00u32, 0x00, 0x01, 0x3F] {
        w.write(&mut mem, data, 2, a);
    }
    w.write(&mut mem, cmd, 2, 0x2C);
    for _ in 0..240 * 320 {
        w.write(&mut mem, data, 2, 0xF800);
    }
    let pixels = &w.framebuffers.images[0].framebuffer;
    assert_eq!(pixels.len(), 240 * 320);
    assert!(pixels.iter().all(|&p| p == 0xF800));
}

#[test]
fn display_reply_queue() {
    let fbs = Framebuffers {
        images: vec![Image::new(fb_config("screen", 4, 4))],
    };
    let mut d = Display::new(
        DisplayConfig {
            peripheral: String::from("FSMC.BANK1"),
            cmd_addr_bit: 1 << 4,
            swap_bytes: None,
            replies: Some(vec![stm32_emu::display::ReplyConfig {
                cmd: 0x04,
                data: vec![0x12, 0x34],
            }]),
            framebuffer: String::from("screen"),
        },
        &fbs,
    )
    .unwrap();
    let mut fbs = fbs;
    d.write(0, 0x04, &mut fbs);
    assert_eq!(d.read(1 << 4), 0x12);
    assert_eq!(d.read(1 << 4), 0x34);
    assert_eq!(d.read(1 << 4), 0);
    // Command reads always return zero.
    assert_eq!(d.read(0), 0);
}

#[test]
fn display_swap_bytes_and_clamp() {
    let fbs = Framebuffers {
        images: vec![Image::new(fb_config("screen", 2, 2))],
    };
    let mut d = Display::new(
        DisplayConfig {
            peripheral: String::from("FSMC.BANK1"),
            cmd_addr_bit: 1 << 4,
            swap_bytes: Some(true),
            replies: None,
            framebuffer: String::from("screen"),
        },
        &fbs,
    )
    .unwrap();
    let mut fbs = fbs;
    d.write(0, 0x2C, &mut fbs);
    d.write(1 << 4, 0x1234, &mut fbs);
    assert_eq!(fbs.images[0].framebuffer[0], 0x3412);
}

#[test]
fn lcd_draws_gray_nibbles() {
    let fbs = Framebuffers {
        images: vec![Image::new(fb_config("lcd", 2, 2))],
    };
    let mut l = Lcd::new(
        LcdConfig {
            peripheral: String::from("SPI2"),
            framebuffer: String::from("lcd"),
        },
        &fbs,
    )
    .unwrap();
    let mut fbs = fbs;
    // Start drawing, then one byte = two nibbles = two pixels.
    l.write(0xFB, &mut fbs);
    l.write(0xF5, &mut fbs);
    // 0xF expands to 0xFFFFFF gray, 0x5 to 0x555555.
    assert_eq!(fbs.images[0].framebuffer[0], 0x00FF_FFFF);
    assert_eq!(fbs.images[0].framebuffer[1], 0x0055_5555);
}

#[test]
fn touchscreen_measures_position() {
    // Surface 240x320 with a touch at (120, 160): both axes read 0x7FF,
    // replied as (0x7F, 0xF0), MSB first.
    let mut img = Image::new(fb_config("screen", 240, 320));
    img.touch_position = Some((120, 160));
    let mut t = Touchscreen::new(
        TouchscreenConfig {
            peripheral: String::from("SPI1"),
            framebuffer: String::from("screen"),
            flip_x: None,
            flip_y: None,
            swap_x_y: None,
            touch_detected_pin: None,
            scale_down: None,
        },
        &Framebuffers { images: vec![img] },
    )
    .unwrap();
    let fb = Image {
        config: fb_config("screen", 240, 320),
        framebuffer: vec![0; 240 * 320],
        touch_position: Some((120, 160)),
    };
    t.write(0x90, &fb);
    assert_eq!((t.read(), t.read()), (0x7F, 0xF0));
    t.write(0xD0, &fb);
    assert_eq!((t.read(), t.read()), (0x7F, 0xF0));
}

#[test]
fn touchscreen_no_touch_reads_zero() {
    let img = Image::new(fb_config("screen", 240, 320));
    let fbs = Framebuffers { images: vec![img] };
    let mut t = Touchscreen::new(
        TouchscreenConfig {
            peripheral: String::from("SPI1"),
            framebuffer: String::from("screen"),
            flip_x: None,
            flip_y: None,
            swap_x_y: None,
            touch_detected_pin: None,
            scale_down: None,
        },
        &fbs,
    )
    .unwrap();
    t.write(0xD0, &fbs.images[0]);
    assert_eq!(t.read(), 0);
    // The touch-detect line is high (no touch) for this surface.
    assert!(Touchscreen::touch_detect_level(&fbs.images[0]));
}

#[test]
fn touchscreen_flip_and_swap() {
    let mut img = Image::new(fb_config("screen", 240, 320));
    img.touch_position = Some((60, 80));
    let fbs = Framebuffers { images: vec![img] };
    let mut t = Touchscreen::new(
        TouchscreenConfig {
            peripheral: String::from("SPI1"),
            framebuffer: String::from("screen"),
            flip_x: Some(true),
            flip_y: None,
            swap_x_y: None,
            touch_detected_pin: None,
            scale_down: None,
        },
        &fbs,
    )
    .unwrap();
    // x = 60 * 0xFFF / 240 = 0x3FF, flipped: 0xFFF - 0x3FF = 0xC00.
    t.write(0xD0, &fbs.images[0]);
    assert_eq!((t.read(), t.read()), (0xC0, 0x00));
}

#[test]
fn usart_probe_collects_lines() {
    let mut p = UsartProbe::new(UsartProbeConfig { peripheral: String::from("USART1") });
    assert_eq!(p.write(b'h'), None);
    assert_eq!(p.write(b'i'), None);
    assert_eq!(p.write(b'\n'), Some(vec![b'h', b'i']));
    assert_eq!(p.rx, Vec::<u8>::new());
    // Host input is read back byte by byte, zero when exhausted.
    p.push_input(7);
    assert_eq!(p.read(), 7);
    assert_eq!(p.read(), 0);
}

#[test]
fn framebuffer_rgb_expansion() {
    let mut img = Image::new(fb_config("screen", 2, 1));
    img.framebuffer[0] = 0xF800; // pure red
    img.framebuffer[1] = 0x07E0; // pure green
    let rgb = img.get_framebuffer_as_rgb();
    assert_eq!(rgb, vec![255, 0, 0, 0, 255, 0]);
}
