//! The external-device arena. Peripherals hold small handles into it; byte
//! traffic is dispatched by handle to the concrete device model. Serial
//! (byte-stream) devices are SPI flashes, USART probes, LCDs and
//! touchscreens; the memory-mapped devices are the FSMC displays.
//!
//! Binding is by peripheral name, searched in that fixed order.

use vstd::prelude::*;

use crate::display::{
    display_read_spec, display_write_spec, Display, DisplayConfig, DisplayV,
};
use crate::framebuffers::{Framebuffers, ImageV};
use crate::lcd::{lcd_write_spec, Lcd, LcdConfig, LcdV};
use crate::spi_flash::{
    flash_read_spec, flash_write_spec, SpiFlash, SpiFlashConfig, SpiFlashV,
};
use crate::touchscreen::{
    ts_read_spec, ts_write_spec, Touchscreen, TouchscreenConfig, TouchscreenV,
};
use crate::usart_probe::{
    probe_read_spec, probe_write_spec, UsartProbe, UsartProbeConfig, UsartProbeV,
};
use crate::gpio::{GpioPorts, Pin, ReadSource};
use crate::util::{str_eq, ConfigError};

verus! {

/// A serial (byte-stream) device, by kind and index.
#[derive(Clone, Copy, PartialEq, Eq, Structural, Debug)]
pub enum DeviceHandle {
    SpiFlash(usize),
    UsartProbe(usize),
    Lcd(usize),
    Touchscreen(usize),
}

pub struct ExtDevicesConfig {
    pub spi_flash: Option<Vec<SpiFlashConfig>>,
    pub usart_probe: Option<Vec<UsartProbeConfig>>,
    pub display: Option<Vec<DisplayConfig>>,
    pub lcd: Option<Vec<LcdConfig>>,
    pub touchscreen: Option<Vec<TouchscreenConfig>>,
}

pub struct ExtDevices {
    pub spi_flashes: Vec<SpiFlash>,
    pub usart_probes: Vec<UsartProbe>,
    pub displays: Vec<Display>,
    pub lcds: Vec<Lcd>,
    pub touchscreens: Vec<Touchscreen>,
}

/// Spec-level form of the arena.
pub struct ExtDevicesV {
    pub spi_flashes: Seq<SpiFlashV>,
    pub usart_probes: Seq<UsartProbeV>,
    pub displays: Seq<DisplayV>,
    pub lcds: Seq<LcdV>,
    pub touchscreens: Seq<TouchscreenV>,
}

impl View for ExtDevices {
    type V = ExtDevicesV;

    open spec fn view(&self) -> ExtDevicesV {
        ExtDevicesV {
            spi_flashes: self.spi_flashes@.map_values(|d: SpiFlash| d@),
            usart_probes: self.usart_probes@.map_values(|d: UsartProbe| d@),
            displays: self.displays@.map_values(|d: Display| d@),
            lcds: self.lcds@.map_values(|d: Lcd| d@),
            touchscreens: self.touchscreens@.map_values(|d: Touchscreen| d@),
        }
    }
}

/// The handle points at an existing serial device.
pub open spec fn handle_ok(d: ExtDevicesV, h: DeviceHandle) -> bool {
    match h {
        DeviceHandle::SpiFlash(i) => i < d.spi_flashes.len(),
        DeviceHandle::UsartProbe(i) => i < d.usart_probes.len(),
        DeviceHandle::Lcd(i) => i < d.lcds.len(),
        DeviceHandle::Touchscreen(i) => i < d.touchscreens.len(),
    }
}

/// The arena after a serial device received byte `v`, with the framebuffers
/// it may have painted. A probe's completed output line is consumed by the
/// caller's tracing and does not change any state beyond the probe itself.
pub open spec fn serial_write_spec(
    d: ExtDevicesV,
    fbs: Seq<ImageV>,
    h: DeviceHandle,
    v: u8,
) -> (ExtDevicesV, Seq<ImageV>) {
    match h {
        DeviceHandle::SpiFlash(i) => (
            ExtDevicesV {
                spi_flashes: d.spi_flashes.update(i as int, flash_write_spec(d.spi_flashes[i as int], v)),
                ..d
            },
            fbs,
        ),
        DeviceHandle::UsartProbe(i) => (
            ExtDevicesV {
                usart_probes: d.usart_probes.update(
                    i as int,
                    probe_write_spec(d.usart_probes[i as int], v).0,
                ),
                ..d
            },
            fbs,
        ),
        DeviceHandle::Lcd(i) => {
            let l = d.lcds[i as int];
            let r = lcd_write_spec(l, fbs[l.fb].pixels, v);
            (
                ExtDevicesV { lcds: d.lcds.update(i as int, r.0), ..d },
                fbs.update(l.fb, ImageV { pixels: r.1, ..fbs[l.fb] }),
            )
        },
        DeviceHandle::Touchscreen(i) => {
            let t = d.touchscreens[i as int];
            (
                ExtDevicesV {
                    touchscreens: d.touchscreens.update(i as int, ts_write_spec(t, fbs[t.fb], v)),
                    ..d
                },
                fbs,
            )
        },
    }
}

/// The byte a serial device hands out, and the arena after it. An LCD always
/// reads as zero.
pub open spec fn serial_read_spec(d: ExtDevicesV, h: DeviceHandle) -> (u8, ExtDevicesV) {
    match h {
        DeviceHandle::SpiFlash(i) => {
            let r = flash_read_spec(d.spi_flashes[i as int]);
            (r.0, ExtDevicesV { spi_flashes: d.spi_flashes.update(i as int, r.1), ..d })
        },
        DeviceHandle::UsartProbe(i) => {
            let r = probe_read_spec(d.usart_probes[i as int]);
            (r.0, ExtDevicesV { usart_probes: d.usart_probes.update(i as int, r.1), ..d })
        },
        DeviceHandle::Lcd(_) => (0, d),
        DeviceHandle::Touchscreen(i) => {
            let r = ts_read_spec(d.touchscreens[i as int]);
            (r.0, ExtDevicesV { touchscreens: d.touchscreens.update(i as int, r.1), ..d })
        },
    }
}

/// The arena and framebuffers after display `i` received a memory-mapped
/// write.
pub open spec fn mem_write_spec(
    d: ExtDevicesV,
    fbs: Seq<ImageV>,
    i: int,
    addr: u32,
    value: u32,
) -> (ExtDevicesV, Seq<ImageV>) {
    let dis = d.displays[i];
    let r = display_write_spec(dis, fbs[dis.fb].pixels, addr, value);
    (
        ExtDevicesV { displays: d.displays.update(i, r.0), ..d },
        fbs.update(dis.fb, ImageV { pixels: r.1, ..fbs[dis.fb] }),
    )
}

/// The word display `i` answers a memory-mapped read with, and the arena
/// after it.
pub open spec fn mem_read_spec(d: ExtDevicesV, i: int, addr: u32) -> (u32, ExtDevicesV) {
    let r = display_read_spec(d.displays[i], addr);
    (r.0, ExtDevicesV { displays: d.displays.update(i, r.1), ..d })
}

/// The entries of an optional configuration list.
pub open spec fn opt_list<T>(o: Option<Vec<T>>) -> Seq<T> {
    match o {
        None => Seq::empty(),
        Some(v) => v@,
    }
}

/// The touch-detect read subscriptions that building the touchscreens in
/// `cfgs` (in order) registers: one per configured `touch_detected_pin`,
/// on the parsed pin, watching the surface the name resolves to.
pub open spec fn touch_subs(
    cfgs: Seq<TouchscreenConfig>,
    images: Seq<crate::framebuffers::Image>,
    k: int,
) -> Seq<crate::gpio::ReadSub>
    decreases cfgs.len() - k,
{
    if k < 0 || k >= cfgs.len() {
        Seq::empty()
    } else {
        let head = match cfgs[k].touch_detected_pin {
            Some(pname) => match crate::gpio::pin_parse_spec(pname@) {
                Some(pin) => seq![
                    crate::gpio::ReadSub {
                        pin,
                        source: ReadSource::TouchDetect(
                            crate::framebuffers::fb_index_from(
                                images,
                                cfgs[k].framebuffer@,
                                0,
                            ).unwrap() as usize,
                        ),
                    },
                ],
                None => Seq::empty(),
            },
            None => Seq::empty(),
        };
        head + touch_subs(cfgs, images, k + 1)
    }
}

impl ExtDevicesConfig {
    /// Builds the device arena: SPI flashes from their file images (padded
    /// with zeroes or truncated to the configured size), probes, displays,
    /// LCDs and touchscreens bound to their surfaces by name; a
    /// touchscreen's touch-detect pin becomes a GPIO read subscription.
    pub fn into_ext_devices(
        self,
        gpio: &mut GpioPorts,
        framebuffers: &Framebuffers,
        flash_images: Vec<Vec<u8>>,
    ) -> (r: Result<ExtDevices, ConfigError>)
        requires
            framebuffers.wf(),
        ensures
            match r {
                Ok(d) => {
                    &&& d.wf_with(*framebuffers)
                    &&& final(gpio).write_subs == old(gpio).write_subs
                    &&& final(gpio).read_subs@ == old(gpio).read_subs@ + touch_subs(
                        opt_list(self.touchscreen),
                        framebuffers.images@,
                        0,
                    )
                    &&& forall|sw: Seq<crate::sw_spi::SoftwareSpi>|
                        old(gpio).wf_with(sw, framebuffers@) ==> #[trigger] final(gpio).wf_with(
                            sw,
                            framebuffers@,
                        )
                    &&& flashes_built(d.spi_flashes, opt_list(self.spi_flash), flash_images@)
                    &&& probes_built(d.usart_probes, opt_list(self.usart_probe))
                    &&& displays_built(d.displays, opt_list(self.display), *framebuffers)
                    &&& lcds_built(d.lcds, opt_list(self.lcd), *framebuffers)
                    &&& touchscreens_built(d.touchscreens, opt_list(self.touchscreen), *framebuffers)
                },
                Err(ConfigError::InvalidDeviceConfig) => opt_list(self.spi_flash).len()
                    != flash_images.len() || exists|i: int|
                    0 <= i < opt_list(self.spi_flash).len() && (#[trigger] opt_list(
                        self.spi_flash,
                    )[i]).size == 0,
                Err(ConfigError::MissingFramebuffer) => true,
                Err(ConfigError::InvalidPin) => exists|i: int|
                    0 <= i < opt_list(self.touchscreen).len() && match (#[trigger] opt_list(
                        self.touchscreen,
                    )[i]).touch_detected_pin {
                        Some(pname) => crate::gpio::pin_parse_spec(pname@) is None,
                        None => false,
                    },
                Err(_) => false,
            },
    {
        let spi_flashes = build_flashes(self.spi_flash, flash_images)?;
        let usart_probes = build_probes(self.usart_probe);
        let displays = build_displays(self.display, framebuffers)?;
        let lcds = build_lcds(self.lcd, framebuffers)?;
        let touchscreens = build_touchscreens(self.touchscreen, gpio, framebuffers)?;
        Ok(ExtDevices { spi_flashes, usart_probes, displays, lcds, touchscreens })
    }
}

/// The flash list matches its configuration, each device fresh with its
/// file image padded or truncated to the configured size.
pub open spec fn flashes_built(
    flashes: Vec<SpiFlash>,
    cfgs: Seq<SpiFlashConfig>,
    images: Seq<Vec<u8>>,
) -> bool {
    &&& flashes.len() == cfgs.len()
    &&& cfgs.len() == images.len()
    &&& forall|j: int|
        0 <= j < cfgs.len() ==> {
            let f = #[trigger] flashes[j];
            &&& f.wf()
            &&& f.config == cfgs[j]
            &&& f@.reply is None && f@.cmd is None
            &&& f@.content.len() == f.config.size
            &&& forall|t: int|
                0 <= t < f.config.size ==> f@.content[t] == (if t < images[j]@.len() {
                    images[j]@[t]
                } else {
                    0u8
                })
        }
}

/// The probe list matches its configuration, each device fresh.
pub open spec fn probes_built(probes: Vec<UsartProbe>, cfgs: Seq<UsartProbeConfig>) -> bool {
    &&& probes.len() == cfgs.len()
    &&& forall|j: int|
        0 <= j < cfgs.len() ==> {
            let p = #[trigger] probes[j];
            p.config == cfgs[j] && p@.rx.len() == 0 && p@.input.len() == 0
        }
}

/// The display list matches its configuration, each device fresh and bound
/// to the surface its name selects.
pub open spec fn displays_built(
    displays: Vec<Display>,
    cfgs: Seq<DisplayConfig>,
    fbs: Framebuffers,
) -> bool {
    &&& displays.len() == cfgs.len()
    &&& forall|j: int|
        0 <= j < cfgs.len() ==> {
            let dd = #[trigger] displays[j];
            &&& dd.fb < fbs.images.len()
            &&& dd.wf_with(fbs@[dd.fb as int])
            &&& dd.config == cfgs[j]
            &&& fbs.images[dd.fb as int].config.name@ == dd.config.framebuffer@
            &&& dd@.cmd is None && dd@.reply.len() == 0 && !dd@.drawing
        }
}

/// The LCD list matches its configuration, each device fresh and bound to
/// the surface its name selects.
pub open spec fn lcds_built(lcds: Vec<Lcd>, cfgs: Seq<LcdConfig>, fbs: Framebuffers) -> bool {
    &&& lcds.len() == cfgs.len()
    &&& forall|j: int|
        0 <= j < cfgs.len() ==> {
            let l = #[trigger] lcds[j];
            &&& l.fb < fbs.images.len()
            &&& l.wf_with(fbs@[l.fb as int])
            &&& l.config == cfgs[j]
            &&& fbs.images[l.fb as int].config.name@ == l.config.framebuffer@
            &&& l@.cmd is None && !l@.drawing && l@.x == 0 && l@.y == 0
        }
}

/// The touchscreen list matches its configuration, each device fresh,
/// bound to the surface its name selects, with a parsable touch-detect pin
/// when one is configured.
pub open spec fn touchscreens_built(
    ts: Vec<Touchscreen>,
    cfgs: Seq<TouchscreenConfig>,
    fbs: Framebuffers,
) -> bool {
    &&& ts.len() == cfgs.len()
    &&& forall|j: int|
        0 <= j < cfgs.len() ==> {
            let t = #[trigger] ts[j];
            &&& t.wf()
            &&& t.fb < fbs.images.len()
            &&& fbs@[t.fb as int].wf()
            &&& t.config == cfgs[j]
            &&& fbs.images[t.fb as int].config.name@ == t.config.framebuffer@
            &&& t@.reply is None
            &&& (t.config.touch_detected_pin matches Some(pname)
                ==> crate::gpio::pin_parse_spec(pname@) is Some)
        }
}

/// Builds the SPI flashes from their configurations and file images.
#[verifier::loop_isolation(false)]
fn build_flashes(config: Option<Vec<SpiFlashConfig>>, flash_images: Vec<Vec<u8>>) -> (r: Result<
    Vec<SpiFlash>,
    ConfigError,
>)
    ensures
        match r {
            Ok(flashes) => flashes_built(flashes, opt_list(config), flash_images@),
            Err(e) => e == ConfigError::InvalidDeviceConfig && (opt_list(config).len()
                != flash_images.len() || exists|i: int|
                0 <= i < opt_list(config).len() && (#[trigger] opt_list(config)[i]).size == 0),
        },
{
    let ghost cfgs = opt_list(config);
    let mut spi_flashes: Vec<SpiFlash> = Vec::new();
    match config {
        None => {
            if flash_images.len() != 0 {
                return Err(ConfigError::InvalidDeviceConfig);
            }
        },
        Some(mut configs) => {
            if configs.len() != flash_images.len() {
                return Err(ConfigError::InvalidDeviceConfig);
            }
            let ghost imgs0 = flash_images@;
            let mut flash_images = flash_images;
            let n = configs.len();
            for i in 0..n
                invariant
                    configs@ == cfgs.skip(i as int),
                    flash_images@ == imgs0.skip(i as int),
                    spi_flashes.len() == i,
                    forall|j: int|
                        0 <= j < i ==> {
                            let f = #[trigger] spi_flashes[j];
                            &&& f.wf()
                            &&& f.config == cfgs[j]
                            &&& f@.reply is None && f@.cmd is None
                            &&& f@.content.len() == f.config.size
                            &&& forall|t: int|
                                0 <= t < f.config.size ==> f@.content[t] == (if t
                                    < imgs0[j]@.len() {
                                    imgs0[j]@[t]
                                } else {
                                    0u8
                                })
                        },
            {
                let c = configs.remove(0);
                let img = flash_images.remove(0);
                if c.size == 0 {
                    proof {
                        assert(cfgs[i as int].size == 0);
                    }
                    return Err(ConfigError::InvalidDeviceConfig);
                }
                spi_flashes.push(SpiFlash::new(c, img));
            }
        },
    }
    Ok(spi_flashes)
}

/// Builds the USART probes from their configurations.
#[verifier::loop_isolation(false)]
fn build_probes(config: Option<Vec<UsartProbeConfig>>) -> (r: Vec<UsartProbe>)
    ensures
        probes_built(r, opt_list(config)),
{
    let ghost cfgs = opt_list(config);
    let mut usart_probes: Vec<UsartProbe> = Vec::new();
    match config {
        None => {},
        Some(mut configs) => {
            let n = configs.len();
            for i in 0..n
                invariant
                    configs@ == cfgs.skip(i as int),
                    usart_probes.len() == i,
                    forall|j: int|
                        0 <= j < i ==> {
                            let p = #[trigger] usart_probes[j];
                            p.config == cfgs[j] && p@.rx.len() == 0 && p@.input.len() == 0
                        },
            {
                let c = configs.remove(0);
                usart_probes.push(UsartProbe::new(c));
            }
        },
    }
    usart_probes
}

/// Builds the displays from their configurations, bound by surface name.
#[verifier::loop_isolation(false)]
fn build_displays(config: Option<Vec<DisplayConfig>>, framebuffers: &Framebuffers) -> (r: Result<
    Vec<Display>,
    ConfigError,
>)
    requires
        framebuffers.wf(),
    ensures
        match r {
            Ok(displays) => displays_built(displays, opt_list(config), *framebuffers),
            Err(e) => e == ConfigError::MissingFramebuffer,
        },
{
    let ghost cfgs = opt_list(config);
    let mut displays: Vec<Display> = Vec::new();
    match config {
        None => {},
        Some(mut configs) => {
            let n = configs.len();
            for i in 0..n
                invariant
                    configs@ == cfgs.skip(i as int),
                    displays.len() == i,
                    forall|j: int|
                        0 <= j < i ==> {
                            let dd = #[trigger] displays[j];
                            &&& dd.fb < framebuffers.images.len()
                            &&& dd.wf_with(framebuffers@[dd.fb as int])
                            &&& dd.config == cfgs[j]
                            &&& framebuffers.images[dd.fb as int].config.name@
                                == dd.config.framebuffer@
                            &&& dd@.cmd is None && dd@.reply.len() == 0 && !dd@.drawing
                        },
            {
                let c = configs.remove(0);
                match Display::new(c, framebuffers) {
                    None => {
                        return Err(ConfigError::MissingFramebuffer);
                    },
                    Some(d) => {
                        displays.push(d);
                    },
                }
            }
        },
    }
    Ok(displays)
}

/// Builds the LCDs from their configurations, bound by surface name.
#[verifier::loop_isolation(false)]
fn build_lcds(config: Option<Vec<LcdConfig>>, framebuffers: &Framebuffers) -> (r: Result<
    Vec<Lcd>,
    ConfigError,
>)
    requires
        framebuffers.wf(),
    ensures
        match r {
            Ok(lcds) => lcds_built(lcds, opt_list(config), *framebuffers),
            Err(e) => e == ConfigError::MissingFramebuffer,
        },
{
    let ghost cfgs = opt_list(config);
    let mut lcds: Vec<Lcd> = Vec::new();
    match config {
        None => {},
        Some(mut configs) => {
            let n = configs.len();
            for i in 0..n
                invariant
                    configs@ == cfgs.skip(i as int),
                    lcds.len() == i,
                    forall|j: int|
                        0 <= j < i ==> {
                            let l = #[trigger] lcds[j];
                            &&& l.fb < framebuffers.images.len()
                            &&& l.wf_with(framebuffers@[l.fb as int])
                            &&& l.config == cfgs[j]
                            &&& framebuffers.images[l.fb as int].config.name@
                                == l.config.framebuffer@
                            &&& l@.cmd is None && !l@.drawing && l@.x == 0 && l@.y == 0
                        },
            {
                let c = configs.remove(0);
                match Lcd::new(c, framebuffers) {
                    None => {
                        return Err(ConfigError::MissingFramebuffer);
                    },
                    Some(d) => {
                        lcds.push(d);
                    },
                }
            }
        },
    }
    Ok(lcds)
}

/// Builds the touchscreens from their configurations, bound by surface
/// name; each configured touch-detect pin becomes a GPIO read subscription
/// watching the bound surface, in configuration order.
#[verifier::loop_isolation(false)]
#[verifier::rlimit(100)]
fn build_touchscreens(
    config: Option<Vec<TouchscreenConfig>>,
    gpio: &mut GpioPorts,
    framebuffers: &Framebuffers,
) -> (r: Result<Vec<Touchscreen>, ConfigError>)
    requires
        framebuffers.wf(),
    ensures
        match r {
            Ok(ts) => {
                &&& touchscreens_built(ts, opt_list(config), *framebuffers)
                &&& final(gpio).write_subs == old(gpio).write_subs
                &&& final(gpio).read_subs@ == old(gpio).read_subs@ + touch_subs(
                    opt_list(config),
                    framebuffers.images@,
                    0,
                )
                &&& forall|sw: Seq<crate::sw_spi::SoftwareSpi>|
                    old(gpio).wf_with(sw, framebuffers@) ==> #[trigger] final(gpio).wf_with(
                        sw,
                        framebuffers@,
                    )
            },
            Err(ConfigError::MissingFramebuffer) => true,
            Err(ConfigError::InvalidPin) => exists|i: int|
                0 <= i < opt_list(config).len() && match (#[trigger] opt_list(
                    config,
                )[i]).touch_detected_pin {
                    Some(pname) => crate::gpio::pin_parse_spec(pname@) is None,
                    None => false,
                },
            Err(_) => false,
        },
{
    let ghost cfgs = opt_list(config);
    let ghost images = framebuffers.images@;
    let mut touchscreens: Vec<Touchscreen> = Vec::new();
    match config {
        None => {
            proof {
                assert(touch_subs(cfgs, images, 0) =~= Seq::<crate::gpio::ReadSub>::empty());
                assert(gpio.read_subs@ =~= old(gpio).read_subs@ + touch_subs(cfgs, images, 0));
            }
        },
        Some(mut configs) => {
            let n = configs.len();
            for i in 0..n
                invariant
                    configs@ == cfgs.skip(i as int),
                    touchscreens.len() == i,
                    forall|j: int|
                        0 <= j < i ==> {
                            let t = #[trigger] touchscreens[j];
                            &&& t.wf()
                            &&& t.fb < framebuffers.images.len()
                            &&& framebuffers@[t.fb as int].wf()
                            &&& t.config == cfgs[j]
                            &&& framebuffers.images[t.fb as int].config.name@
                                == t.config.framebuffer@
                            &&& t@.reply is None
                            &&& (t.config.touch_detected_pin matches Some(pname)
                                ==> crate::gpio::pin_parse_spec(pname@) is Some)
                        },
                    gpio.write_subs == old(gpio).write_subs,
                    gpio.read_subs@ + touch_subs(cfgs, images, i as int) == old(gpio).read_subs@
                        + touch_subs(cfgs, images, 0),
                    forall|sw: Seq<crate::sw_spi::SoftwareSpi>|
                        old(gpio).wf_with(sw, framebuffers@) ==> #[trigger] gpio.wf_with(
                            sw,
                            framebuffers@,
                        ),
            {
                let c = configs.remove(0);
                match Touchscreen::new(c, framebuffers) {
                    None => {
                        return Err(ConfigError::MissingFramebuffer);
                    },
                    Some(t) => {
                        let ghost gpio_prev = *gpio;
                        match &t.config.touch_detected_pin {
                            None => {},
                            Some(pin_name) => {
                                match Pin::from_str(pin_name.as_str()) {
                                    None => {
                                        proof {
                                            assert(match cfgs[i as int].touch_detected_pin {
                                                Some(pname) => crate::gpio::pin_parse_spec(
                                                    pname@,
                                                ) is None,
                                                None => false,
                                            });
                                        }
                                        return Err(ConfigError::InvalidPin);
                                    },
                                    Some(pin) => {
                                        gpio.add_read_callback(
                                            pin,
                                            ReadSource::TouchDetect(t.fb),
                                        );
                                        proof {
                                            assert forall|sw: Seq<crate::sw_spi::SoftwareSpi>|
                                                old(gpio).wf_with(
                                                    sw,
                                                    framebuffers@,
                                                ) implies #[trigger] gpio.wf_with(
                                                sw,
                                                framebuffers@,
                                            ) by {
                                                assert(gpio_prev.wf_with(sw, framebuffers@));
                                                assert forall|j: int|
                                                    0 <= j < gpio.read_subs.len() implies {
                                                    let su = #[trigger] gpio.read_subs[j];
                                                    &&& su.pin.pin < 16
                                                    &&& match su.source {
                                                        ReadSource::SwSpiMiso(k) => k < sw.len(),
                                                        ReadSource::TouchDetect(k) => k
                                                            < framebuffers@.len(),
                                                    }
                                                } by {
                                                    if j < gpio_prev.read_subs.len() {
                                                        assert(gpio.read_subs[j]
                                                            == gpio_prev.read_subs[j]);
                                                    }
                                                }
                                            }
                                        }
                                    },
                                }
                            },
                        }
                        proof {
                            let head = touch_subs(cfgs, images, i as int);
                            let next = touch_subs(cfgs, images, i + 1);
                            match cfgs[i as int].touch_detected_pin {
                                Some(pname) => {
                                    let pin = crate::gpio::pin_parse_spec(pname@).unwrap();
                                    assert(head =~= seq![
                                        crate::gpio::ReadSub {
                                            pin,
                                            source: ReadSource::TouchDetect(t.fb),
                                        },
                                    ] + next);
                                    assert(gpio.read_subs@ =~= gpio_prev.read_subs@ + seq![
                                        crate::gpio::ReadSub {
                                            pin,
                                            source: ReadSource::TouchDetect(t.fb),
                                        },
                                    ]);
                                    assert(gpio.read_subs@ + next =~= gpio_prev.read_subs@
                                        + head);
                                },
                                None => {
                                    assert(head =~= next);
                                },
                            }
                        }
                        touchscreens.push(t);
                    },
                }
            }
            proof {
                assert(touch_subs(cfgs, images, cfgs.len() as int) =~= Seq::<
                    crate::gpio::ReadSub,
                >::empty());
                assert(gpio.read_subs@ =~= old(gpio).read_subs@ + touch_subs(cfgs, images, 0));
            }
        },
    }
    Ok(touchscreens)
}


impl ExtDevices {
    /// Every device is internally consistent and bound to an existing,
    /// geometry-matching surface.
    pub open spec fn wf_with(self, fbs: Framebuffers) -> bool {
        &&& forall|i: int| 0 <= i < self.spi_flashes.len() ==> (#[trigger] self.spi_flashes[i]).wf()
        &&& forall|i: int|
            0 <= i < self.touchscreens.len() ==> (#[trigger] self.touchscreens[i]).wf()
                && self.touchscreens[i].fb < fbs.images.len() && fbs@[self.touchscreens[i].fb as int].wf()
        &&& forall|i: int|
            0 <= i < self.lcds.len() ==> (#[trigger] self.lcds[i]).fb < fbs.images.len()
                && self.lcds[i].wf_with(fbs@[self.lcds[i].fb as int])
        &&& forall|i: int|
            0 <= i < self.displays.len() ==> (#[trigger] self.displays[i]).fb < fbs.images.len()
                && self.displays[i].wf_with(fbs@[self.displays[i].fb as int])
    }

    /// Every device keeps its configuration, name, binding and geometry; only
    /// the behavioural state (in the views) may differ.
    pub open spec fn same_shape(self, other: ExtDevices) -> bool {
        &&& other.spi_flashes.len() == self.spi_flashes.len()
        &&& forall|i: int|
            0 <= i < self.spi_flashes.len() ==> (#[trigger] other.spi_flashes[i]).config
                == self.spi_flashes[i].config && other.spi_flashes[i].name
                == self.spi_flashes[i].name
        &&& other.usart_probes.len() == self.usart_probes.len()
        &&& forall|i: int|
            0 <= i < self.usart_probes.len() ==> (#[trigger] other.usart_probes[i]).config
                == self.usart_probes[i].config && other.usart_probes[i].name
                == self.usart_probes[i].name
        &&& other.displays.len() == self.displays.len()
        &&& forall|i: int|
            0 <= i < self.displays.len() ==> (#[trigger] other.displays[i]).config
                == self.displays[i].config && other.displays[i].name == self.displays[i].name
                && other.displays[i].fb == self.displays[i].fb && other.displays[i].width
                == self.displays[i].width && other.displays[i].height == self.displays[i].height
        &&& other.lcds.len() == self.lcds.len()
        &&& forall|i: int|
            0 <= i < self.lcds.len() ==> (#[trigger] other.lcds[i]).config == self.lcds[i].config
                && other.lcds[i].name == self.lcds[i].name && other.lcds[i].fb == self.lcds[i].fb
                && other.lcds[i].width == self.lcds[i].width && other.lcds[i].height
                == self.lcds[i].height
        &&& other.touchscreens.len() == self.touchscreens.len()
        &&& forall|i: int|
            0 <= i < self.touchscreens.len() ==> (#[trigger] other.touchscreens[i]).config
                == self.touchscreens[i].config && other.touchscreens[i].name
                == self.touchscreens[i].name && other.touchscreens[i].fb
                == self.touchscreens[i].fb
    }

    /// Finds the serial device bound to `peri_name`: SPI flashes first, then
    /// USART probes, LCDs and touchscreens, first match in each list.
    pub fn find_serial_device(&self, peri_name: &str) -> (r: Option<DeviceHandle>)
        ensures
            match r {
                Some(DeviceHandle::SpiFlash(i)) => i < self.spi_flashes.len()
                    && self.spi_flashes[i as int].config.peripheral@ == peri_name@,
                Some(DeviceHandle::UsartProbe(i)) => i < self.usart_probes.len()
                    && self.usart_probes[i as int].config.peripheral@ == peri_name@,
                Some(DeviceHandle::Lcd(i)) => i < self.lcds.len() && self.lcds[i as int].config.peripheral@
                    == peri_name@,
                Some(DeviceHandle::Touchscreen(i)) => i < self.touchscreens.len()
                    && self.touchscreens[i as int].config.peripheral@ == peri_name@,
                None => {
                    &&& forall|i: int|
                        0 <= i < self.spi_flashes.len()
                            ==> (#[trigger] self.spi_flashes[i]).config.peripheral@ != peri_name@
                    &&& forall|i: int|
                        0 <= i < self.usart_probes.len()
                            ==> (#[trigger] self.usart_probes[i]).config.peripheral@ != peri_name@
                    &&& forall|i: int|
                        0 <= i < self.lcds.len() ==> (#[trigger] self.lcds[i]).config.peripheral@
                            != peri_name@
                    &&& forall|i: int|
                        0 <= i < self.touchscreens.len()
                            ==> (#[trigger] self.touchscreens[i]).config.peripheral@ != peri_name@
                },
            },
            r is Some ==> handle_ok(self@, r.unwrap()),
    {
        let n = self.spi_flashes.len();
        for i in 0..n
            invariant
                n == self.spi_flashes.len(),
                forall|j: int|
                    0 <= j < i ==> (#[trigger] self.spi_flashes[j]).config.peripheral@
                        != peri_name@,
        {
            if str_eq(self.spi_flashes[i].config.peripheral.as_str(), peri_name) {
                return Some(DeviceHandle::SpiFlash(i));
            }
        }
        let n = self.usart_probes.len();
        for i in 0..n
            invariant
                n == self.usart_probes.len(),
                forall|j: int|
                    0 <= j < i ==> (#[trigger] self.usart_probes[j]).config.peripheral@
                        != peri_name@,
        {
            if str_eq(self.usart_probes[i].config.peripheral.as_str(), peri_name) {
                return Some(DeviceHandle::UsartProbe(i));
            }
        }
        let n = self.lcds.len();
        for i in 0..n
            invariant
                n == self.lcds.len(),
                forall|j: int|
                    0 <= j < i ==> (#[trigger] self.lcds[j]).config.peripheral@ != peri_name@,
        {
            if str_eq(self.lcds[i].config.peripheral.as_str(), peri_name) {
                return Some(DeviceHandle::Lcd(i));
            }
        }
        let n = self.touchscreens.len();
        for i in 0..n
            invariant
                n == self.touchscreens.len(),
                forall|j: int|
                    0 <= j < i ==> (#[trigger] self.touchscreens[j]).config.peripheral@
                        != peri_name@,
        {
            if str_eq(self.touchscreens[i].config.peripheral.as_str(), peri_name) {
                return Some(DeviceHandle::Touchscreen(i));
            }
        }
        None
    }

    /// Finds the memory-mapped device (display) bound to `peri_name`.
    pub fn find_mem_device(&self, peri_name: &str) -> (r: Option<usize>)
        ensures
            match r {
                Some(i) => i < self.displays.len() && self.displays[i as int].config.peripheral@
                    == peri_name@,
                None => forall|i: int|
                    0 <= i < self.displays.len() ==> (#[trigger] self.displays[i]).config.peripheral@
                        != peri_name@,
            },
    {
        let n = self.displays.len();
        for i in 0..n
            invariant
                n == self.displays.len(),
                forall|j: int|
                    0 <= j < i ==> (#[trigger] self.displays[j]).config.peripheral@ != peri_name@,
        {
            if str_eq(self.displays[i].config.peripheral.as_str(), peri_name) {
                return Some(i);
            }
        }
        None
    }

    /// Dispatches one byte to a serial device.
    pub fn serial_write(&mut self, h: DeviceHandle, v: u8, framebuffers: &mut Framebuffers)
        requires
            handle_ok(old(self)@, h),
            old(self).wf_with(*old(framebuffers)),
        ensures
            (final(self)@, final(framebuffers)@) == serial_write_spec(
                old(self)@,
                old(framebuffers)@,
                h,
                v,
            ),
            old(self).same_shape(*final(self)),
            final(framebuffers).images.len() == old(framebuffers).images.len(),
            forall|j: int|
                0 <= j < old(framebuffers).images.len()
                    ==> (#[trigger] final(framebuffers).images[j]).config
                    == old(framebuffers).images[j].config,
            final(self).wf_with(*final(framebuffers)),
    {
        let ghost pre = self@;
        let ghost pre_fbs = framebuffers@;
        match h {
            DeviceHandle::SpiFlash(i) => {
                let mut d = self.spi_flashes.remove(i);
                d.write(v);
                self.spi_flashes.insert(i, d);
                proof {
                    assert(self@.spi_flashes =~= pre.spi_flashes.update(
                        i as int,
                        flash_write_spec(pre.spi_flashes[i as int], v),
                    ));
                    assert(self@ =~~= serial_write_spec(pre, pre_fbs, h, v).0);
                }
            },
            DeviceHandle::UsartProbe(i) => {
                let mut d = self.usart_probes.remove(i);
                let _line = d.write(v);
                self.usart_probes.insert(i, d);
                proof {
                    assert(self@.usart_probes =~= pre.usart_probes.update(
                        i as int,
                        probe_write_spec(pre.usart_probes[i as int], v).0,
                    ));
                    assert(self@ =~~= serial_write_spec(pre, pre_fbs, h, v).0);
                }
            },
            DeviceHandle::Lcd(i) => {
                let mut d = self.lcds.remove(i);
                d.write(v, framebuffers);
                self.lcds.insert(i, d);
                proof {
                    assert(self@.lcds =~= pre.lcds.update(
                        i as int,
                        lcd_write_spec(
                            pre.lcds[i as int],
                            pre_fbs[pre.lcds[i as int].fb].pixels,
                            v,
                        ).0,
                    ));
                    assert(self@ =~~= serial_write_spec(pre, pre_fbs, h, v).0);
                    assert(framebuffers@ =~~= serial_write_spec(pre, pre_fbs, h, v).1);
                }
            },
            DeviceHandle::Touchscreen(i) => {
                let mut d = self.touchscreens.remove(i);
                let fb_idx = d.fb;
                d.write(v, &framebuffers.images[fb_idx]);
                self.touchscreens.insert(i, d);
                proof {
                    assert(self@.touchscreens =~= pre.touchscreens.update(
                        i as int,
                        ts_write_spec(
                            pre.touchscreens[i as int],
                            pre_fbs[pre.touchscreens[i as int].fb],
                            v,
                        ),
                    ));
                    assert(self@ =~~= serial_write_spec(pre, pre_fbs, h, v).0);
                }
            },
        }
    }

    /// Pulls one byte from a serial device.
    pub fn serial_read(&mut self, h: DeviceHandle) -> (r: u8)
        requires
            handle_ok(old(self)@, h),
            forall|i: int|
                0 <= i < old(self).spi_flashes.len() ==> (#[trigger] old(self).spi_flashes[i]).wf(),
        ensures
            (r, final(self)@) == serial_read_spec(old(self)@, h),
            old(self).same_shape(*final(self)),
            forall|i: int|
                0 <= i < final(self).spi_flashes.len()
                    ==> (#[trigger] final(self).spi_flashes[i]).wf(),
            forall|fbs: Framebuffers|
                old(self).wf_with(fbs) ==> #[trigger] final(self).wf_with(fbs),
    {
        let ghost pre = self@;
        match h {
            DeviceHandle::SpiFlash(i) => {
                let mut d = self.spi_flashes.remove(i);
                let r = d.read();
                self.spi_flashes.insert(i, d);
                proof {
                    assert(self@.spi_flashes =~= pre.spi_flashes.update(
                        i as int,
                        flash_read_spec(pre.spi_flashes[i as int]).1,
                    ));
                    assert(self@ =~~= serial_read_spec(pre, h).1);
                }
                r
            },
            DeviceHandle::UsartProbe(i) => {
                let mut d = self.usart_probes.remove(i);
                let r = d.read();
                self.usart_probes.insert(i, d);
                proof {
                    assert(self@.usart_probes =~= pre.usart_probes.update(
                        i as int,
                        probe_read_spec(pre.usart_probes[i as int]).1,
                    ));
                    assert(self@ =~~= serial_read_spec(pre, h).1);
                }
                r
            },
            DeviceHandle::Lcd(_) => {
                proof {
                    assert(self@ =~~= serial_read_spec(pre, h).1);
                }
                0
            },
            DeviceHandle::Touchscreen(i) => {
                let mut d = self.touchscreens.remove(i);
                let r = d.read();
                self.touchscreens.insert(i, d);
                proof {
                    assert(self@.touchscreens =~= pre.touchscreens.update(
                        i as int,
                        ts_read_spec(pre.touchscreens[i as int]).1,
                    ));
                    assert(self@ =~~= serial_read_spec(pre, h).1);
                }
                r
            },
        }
    }

    /// Dispatches one memory-mapped write to display `i`.
    pub fn mem_write(&mut self, i: usize, addr: u32, value: u32, framebuffers: &mut Framebuffers)
        requires
            i < old(self).displays.len(),
            old(self).wf_with(*old(framebuffers)),
        ensures
            (final(self)@, final(framebuffers)@) == mem_write_spec(
                old(self)@,
                old(framebuffers)@,
                i as int,
                addr,
                value,
            ),
            old(self).same_shape(*final(self)),
            final(framebuffers).images.len() == old(framebuffers).images.len(),
            forall|j: int|
                0 <= j < old(framebuffers).images.len()
                    ==> (#[trigger] final(framebuffers).images[j]).config
                    == old(framebuffers).images[j].config,
            final(self).wf_with(*final(framebuffers)),
    {
        let ghost pre = self@;
        let ghost pre_fbs = framebuffers@;
        let mut d = self.displays.remove(i);
        d.write(addr, value, framebuffers);
        self.displays.insert(i, d);
        proof {
            assert(self@.displays =~= pre.displays.update(
                i as int,
                display_write_spec(
                    pre.displays[i as int],
                    pre_fbs[pre.displays[i as int].fb].pixels,
                    addr,
                    value,
                ).0,
            ));
            assert(self@ =~~= mem_write_spec(pre, pre_fbs, i as int, addr, value).0);
            assert(framebuffers@ =~~= mem_write_spec(pre, pre_fbs, i as int, addr, value).1);
        }
    }

    /// Pulls one memory-mapped read from display `i`.
    pub fn mem_read(&mut self, i: usize, addr: u32) -> (r: u32)
        requires
            i < old(self).displays.len(),
        ensures
            (r, final(self)@) == mem_read_spec(old(self)@, i as int, addr),
            old(self).same_shape(*final(self)),
            forall|fbs: Framebuffers|
                old(self).wf_with(fbs) ==> #[trigger] final(self).wf_with(fbs),
    {
        let ghost pre = self@;
        let mut d = self.displays.remove(i);
        let r = d.read(addr);
        self.displays.insert(i, d);
        proof {
            assert(self@.displays =~= pre.displays.update(
                i as int,
                display_read_spec(pre.displays[i as int], addr).1,
            ));
            assert(self@ =~~= mem_read_spec(pre, i as int, addr).1);
        }
        r
    }
}

} // verus!
