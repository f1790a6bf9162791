//! GPIO ports: per-port register shadows with change fan-out. Register
//! writes detect the changed fields by XOR scanning; output-data changes
//! drive the write subscriptions (software-SPI lines), and input-data reads
//! sample the read subscriptions (software-SPI MISO, touch detect).

use vstd::prelude::*;

use crate::ext_devices::{handle_ok, ExtDevices};
use crate::framebuffers::Framebuffers;
use crate::sw_spi::{sw_cs_spec, sw_clk_spec, SoftwareSpi};

verus! {

pub const NUM_PORTS: u8 = 11;

/// One GPIO pin: port index (`A = 0 .. K = 10`) and pin number (`0..16`).
#[derive(Clone, Copy, PartialEq, Eq, Structural, Debug)]
pub struct Pin {
    pub port: u8,
    pub pin: u8,
}

/// The port index of a letter, `A` through `K` (lower case accepted).
pub open spec fn port_index_of(c: char) -> Option<u8> {
    let u = c as u32;
    if 'A' as u32 <= u <= 'K' as u32 {
        Some((u - 'A' as u32) as u8)
    } else if 'a' as u32 <= u <= 'k' as u32 {
        Some((u - 'a' as u32) as u8)
    } else {
        None
    }
}

/// The decimal value of a digit sequence; `None` when empty, not all digits,
/// or 100 or more (far beyond any pin number).
pub open spec fn dec_value(s: Seq<char>) -> Option<int>
    decreases s.len(),
{
    if s.len() == 0 {
        None
    } else if !('0' as u32 <= s.last() as u32 <= '9' as u32) {
        None
    } else if s.len() == 1 {
        Some(s.last() as u32 - '0' as u32)
    } else {
        match dec_value(s.drop_last()) {
            None => None,
            Some(hi) => if hi * 10 + (s.last() as u32 - '0' as u32) < 100 {
                Some(hi * 10 + (s.last() as u32 - '0' as u32))
            } else {
                None
            },
        }
    }
}

/// What a pin name denotes: an optional `P`, a port letter `A..K`, and a
/// decimal pin number below 16.
pub open spec fn pin_parse_spec(s: Seq<char>) -> Option<Pin> {
    let t = if s.len() > 0 && (s[0] == 'P' || s[0] == 'p') {
        s.drop_first()
    } else {
        s
    };
    if t.len() < 2 {
        None
    } else {
        match port_index_of(t[0]) {
            None => None,
            Some(port) => match dec_value(t.drop_first()) {
                Some(v) => if v < 16 {
                    Some(Pin { port, pin: v as u8 })
                } else {
                    None
                },
                None => None,
            },
        }
    }
}

impl Pin {
    /// Parses a `"PA12"`-style pin name.
    pub fn from_str(name: &str) -> (r: Option<Pin>)
        ensures
            r == pin_parse_spec(name@),
            r matches Some(p) ==> p.port < 11 && p.pin < 16,
    {
        let len = name.unicode_len();
        let mut i: usize = 0;
        if len > 0 {
            let c0 = name.get_char(0);
            if c0 == 'P' || c0 == 'p' {
                i = 1;
            }
        }
        let ghost t = if name@.len() > 0 && (name@[0] == 'P' || name@[0] == 'p') {
            name@.drop_first()
        } else {
            name@
        };
        if len - i < 2 {
            return None;
        }
        let letter = name.get_char(i);
        let lu = letter as u32;
        let port: u8 = if lu >= 'A' as u32 && lu <= 'K' as u32 {
            (lu - 'A' as u32) as u8
        } else if lu >= 'a' as u32 && lu <= 'k' as u32 {
            (lu - 'a' as u32) as u8
        } else {
            return None;
        };
        let mut v: u32 = 0;
        let mut j: usize = i + 1;
        let ghost digits = t.drop_first();
        proof {
            assert(t[0] == name@[i as int]);
            assert(digits =~= name@.subrange(i + 1, len as int));
            assert(digits.subrange(0, 0) =~= Seq::<char>::empty());
        }
        while j < len
            invariant
                i + 1 <= j <= len,
                len == name@.len(),
                digits == name@.subrange(i + 1, len as int),
                digits.len() == len - i - 1,
                j > i,
                ({
                    let seen = digits.subrange(0, j - i - 1);
                    seen.len() == 0 && v == 0 || dec_value(seen) == Some(v as int) && v < 100
                }),
                port < 11,
                pin_parse_spec(name@) == (match dec_value(digits) {
                    Some(vv) => if vv < 16 {
                        Some(Pin { port, pin: vv as u8 })
                    } else {
                        None::<Pin>
                    },
                    None => None::<Pin>,
                }),
            decreases len - j,
        {
            let c = name.get_char(j);
            let cu = c as u32;
            proof {
                assert(digits[j - i - 1] == name@[j as int]);
            }
            if !(cu >= '0' as u32 && cu <= '9' as u32) {
                proof {
                    lemma_dec_value_bad_digit(digits, j - i - 1);
                }
                return None;
            }
            let d = cu - '0' as u32;
            if j == i + 1 {
                v = d;
            } else {
                let v2 = v * 10 + d;
                if v2 >= 100 {
                    proof {
                        let longer = digits.subrange(0, j - i);
                        assert(longer.drop_last() =~= digits.subrange(0, j - i - 1));
                        assert(longer.last() == digits[j - i - 1]);
                        assert(dec_value(longer) is None);
                        lemma_dec_value_overflow(digits, j - i);
                    }
                    return None;
                }
                v = v2;
            }
            proof {
                assert(digits.subrange(0, j - i - 1 + 1).drop_last() =~= digits.subrange(
                    0,
                    j - i - 1,
                ));
                assert(digits.subrange(0, j - i - 1 + 1).last() == digits[j - i - 1]);
                assert(digits[j - i - 1] == name@[j as int]);
            }
            j = j + 1;
        }
        proof {
            assert(digits.subrange(0, digits.len() as int) =~= digits);
        }
        if v < 16 {
            Some(Pin { port, pin: v as u8 })
        } else {
            None
        }
    }
}

/// A non-digit anywhere dooms the whole digit string.
proof fn lemma_dec_value_bad_digit(s: Seq<char>, k: int)
    requires
        0 <= k < s.len(),
        !('0' as u32 <= s[k] as u32 <= '9' as u32),
    ensures
        dec_value(s) is None,
    decreases s.len(),
{
    if s.len() > 0 && k < s.len() - 1 {
        lemma_dec_value_bad_digit(s.drop_last(), k);
    }
}

/// A prefix that already failed dooms the whole digit string.
proof fn lemma_dec_value_overflow(s: Seq<char>, k: int)
    requires
        1 <= k <= s.len(),
        dec_value(s.subrange(0, k)) is None,
    ensures
        dec_value(s) is None,
    decreases s.len(),
{
    if k == s.len() {
        assert(s.subrange(0, k) =~= s);
    } else {
        assert(s.drop_last().subrange(0, k) =~= s.subrange(0, k));
        lemma_dec_value_overflow(s.drop_last(), k);
    }
}

/// What a read subscription samples.
#[derive(Clone, Copy, PartialEq, Eq, Structural, Debug)]
pub enum ReadSource {
    /// The MISO line of software-SPI unit `k`.
    SwSpiMiso(usize),
    /// High while surface `k` reports no touch (active-low touch detect).
    TouchDetect(usize),
}

/// What a write subscription drives.
#[derive(Clone, Copy, PartialEq, Eq, Structural, Debug)]
pub enum WriteTarget {
    SwSpiCs(usize),
    SwSpiClk(usize),
    SwSpiMosi(usize),
}

#[derive(Clone, Copy, PartialEq, Eq, Structural, Debug)]
pub struct ReadSub {
    pub pin: Pin,
    pub source: ReadSource,
}

#[derive(Clone, Copy, PartialEq, Eq, Structural, Debug)]
pub struct WriteSub {
    pub pin: Pin,
    pub target: WriteTarget,
}

/// The pin callbacks, in registration order.
pub struct GpioPorts {
    pub read_subs: Vec<ReadSub>,
    pub write_subs: Vec<WriteSub>,
}

/// The level a read source currently shows.
pub open spec fn read_source_level(
    src: ReadSource,
    sw_spis: Seq<SoftwareSpi>,
    fbs: Seq<crate::framebuffers::ImageV>,
) -> bool {
    match src {
        ReadSource::SwSpiMiso(k) => !sw_spis[k as int].cs && sw_spis[k as int].miso,
        ReadSource::TouchDetect(k) => fbs[k as int].touch is None,
    }
}

/// The input-data value of `port`: the OR of every matching read
/// subscription's level at its pin, scanning subscriptions from `i`.
pub open spec fn read_port_from(
    subs: Seq<ReadSub>,
    sw_spis: Seq<SoftwareSpi>,
    fbs: Seq<crate::framebuffers::ImageV>,
    port: u8,
    i: int,
) -> u16
    decreases subs.len() - i,
{
    if i < 0 || i >= subs.len() {
        0u16
    } else {
        let rest = read_port_from(subs, sw_spis, fbs, port, i + 1);
        if subs[i].pin.port == port && read_source_level(subs[i].source, sw_spis, fbs) {
            (rest | (1u16 << subs[i].pin.pin)) as u16
        } else {
            rest
        }
    }
}

impl GpioPorts {
    pub fn new() -> (r: GpioPorts)
        ensures
            r.read_subs@.len() == 0,
            r.write_subs@.len() == 0,
    {
        GpioPorts { read_subs: Vec::new(), write_subs: Vec::new() }
    }

    /// Every subscription points at an existing software-SPI unit or
    /// surface, and pins are in range.
    pub open spec fn wf_with(self, sw_spis: Seq<SoftwareSpi>, fbs: Seq<crate::framebuffers::ImageV>) -> bool {
        &&& forall|i: int|
            0 <= i < self.read_subs.len() ==> {
                let s = #[trigger] self.read_subs[i];
                &&& s.pin.pin < 16
                &&& match s.source {
                    ReadSource::SwSpiMiso(k) => k < sw_spis.len(),
                    ReadSource::TouchDetect(k) => k < fbs.len(),
                }
            }
        &&& forall|i: int|
            0 <= i < self.write_subs.len() ==> {
                let s = #[trigger] self.write_subs[i];
                &&& s.pin.pin < 16
                &&& match s.target {
                    WriteTarget::SwSpiCs(k) => k < sw_spis.len(),
                    WriteTarget::SwSpiClk(k) => k < sw_spis.len(),
                    WriteTarget::SwSpiMosi(k) => k < sw_spis.len(),
                }
            }
    }

    /// Registers a read callback for `pin`.
    pub fn add_read_callback(&mut self, pin: Pin, source: ReadSource)
        ensures
            final(self).read_subs@ == old(self).read_subs@.push(ReadSub { pin, source }),
            final(self).write_subs == old(self).write_subs,
    {
        self.read_subs.push(ReadSub { pin, source });
    }

    /// Registers a write callback for `pin`; callbacks fire in registration
    /// order.
    pub fn add_write_callback(&mut self, pin: Pin, target: WriteTarget)
        ensures
            final(self).write_subs@ == old(self).write_subs@.push(WriteSub { pin, target }),
            final(self).read_subs == old(self).read_subs,
    {
        self.write_subs.push(WriteSub { pin, target });
    }

    /// Samples every read subscription of `port` into an input-data value.
    pub fn read_port(&self, port: u8, sw_spis: &Vec<SoftwareSpi>, fbs: &Framebuffers) -> (v: u16)
        requires
            self.wf_with(sw_spis@, fbs@),
        ensures
            v == read_port_from(self.read_subs@, sw_spis@, fbs@, port, 0),
    {
        let n = self.read_subs.len();
        let mut v: u16 = 0;
        let mut i: usize = n;
        while i > 0
            invariant
                n == self.read_subs.len(),
                i <= n,
                self.wf_with(sw_spis@, fbs@),
                v == read_port_from(self.read_subs@, sw_spis@, fbs@, port, i as int),
            decreases i,
        {
            i = i - 1;
            let sub = self.read_subs[i];
            if sub.pin.port == port {
                let level = match sub.source {
                    ReadSource::SwSpiMiso(k) => sw_spis[k].read_miso(),
                    ReadSource::TouchDetect(k) => fbs.images[k].touch_position.is_none(),
                };
                if level {
                    v = v | (1u16 << sub.pin.pin);
                }
            }
        }
        v
    }

    /// Drives every write subscription registered for `(port, pin)` with the
    /// new level, in registration order.
    pub fn write_port(
        &self,
        port: u8,
        pin: u8,
        value: bool,
        sw_spis: &mut Vec<SoftwareSpi>,
        devices: &mut ExtDevices,
        framebuffers: &mut Framebuffers,
    )
        requires
            self.wf_with(old(sw_spis)@, old(framebuffers)@),
            sw_spis_wf(old(sw_spis)@, old(devices)@),
            old(devices).wf_with(*old(framebuffers)),
        ensures
            (final(sw_spis)@, final(devices)@, final(framebuffers)@) == write_port_spec(
                self.write_subs@,
                old(sw_spis)@,
                old(devices)@,
                old(framebuffers)@,
                port,
                pin,
                value,
                0,
            ),
            sw_spis_wf(final(sw_spis)@, final(devices)@),
            old(devices).same_shape(*final(devices)),
            final(framebuffers).images.len() == old(framebuffers).images.len(),
            forall|j: int|
                0 <= j < old(framebuffers).images.len()
                    ==> (#[trigger] final(framebuffers).images[j]).config
                    == old(framebuffers).images[j].config,
            final(devices).wf_with(*final(framebuffers)),
            sw_spi_shapes(old(sw_spis)@, final(sw_spis)@),
    {
        let ghost sw0 = sw_spis@;
        let ghost d0 = devices@;
        let ghost f0 = framebuffers@;
        let n = self.write_subs.len();
        for idx in 0..n
            invariant
                n == self.write_subs.len(),
                self.wf_with(sw0, old(framebuffers)@),
                write_port_spec(self.write_subs@, sw0, d0, f0, port, pin, value, 0)
                    == write_port_spec(
                    self.write_subs@,
                    sw_spis@,
                    devices@,
                    framebuffers@,
                    port,
                    pin,
                    value,
                    idx as int,
                ),
                sw_spis_wf(sw_spis@, devices@),
                old(devices).same_shape(*devices),
                framebuffers.images.len() == old(framebuffers).images.len(),
                forall|j: int|
                    0 <= j < old(framebuffers).images.len()
                        ==> (#[trigger] framebuffers.images[j]).config
                        == old(framebuffers).images[j].config,
                devices.wf_with(*framebuffers),
                sw_spi_shapes(sw0, sw_spis@),
        {
            let sub = self.write_subs[idx];
            if sub.pin.port == port && sub.pin.pin == pin {
                apply_write_target(sub.target, value, sw_spis, devices, framebuffers);
            }
        }
    }
}

/// Every software-SPI unit is internally consistent and bound (if at all) to
/// an existing device.
pub open spec fn sw_spis_wf(sw: Seq<SoftwareSpi>, d: crate::ext_devices::ExtDevicesV) -> bool {
    forall|k: int|
        0 <= k < sw.len() ==> (#[trigger] sw[k]).wf() && (match sw[k].device {
            Some(h) => handle_ok(d, h),
            None => true,
        })
}

/// The units keep their configuration, names and bindings.
pub open spec fn sw_spi_shapes(a: Seq<SoftwareSpi>, b: Seq<SoftwareSpi>) -> bool {
    &&& b.len() == a.len()
    &&& forall|k: int|
        0 <= k < a.len() ==> (#[trigger] b[k]).config == a[k].config && b[k].name == a[k].name
            && b[k].device == a[k].device
}

/// One write subscription fired: chip-select and MOSI edges latch into the
/// unit; a clock edge may complete a byte, which is exchanged with the bound
/// device (a unit without a device reads zeroes back).
pub open spec fn apply_write_target_spec(
    t: WriteTarget,
    value: bool,
    sw: Seq<SoftwareSpi>,
    d: crate::ext_devices::ExtDevicesV,
    fbs: Seq<crate::framebuffers::ImageV>,
) -> (Seq<SoftwareSpi>, crate::ext_devices::ExtDevicesV, Seq<crate::framebuffers::ImageV>) {
    match t {
        WriteTarget::SwSpiCs(k) => (sw.update(k as int, sw_cs_spec(sw[k as int], value)), d, fbs),
        WriteTarget::SwSpiMosi(k) => (
            sw.update(
                k as int,
                if sw[k as int].cs {
                    sw[k as int]
                } else {
                    SoftwareSpi { mosi: value, ..sw[k as int] }
                },
            ),
            d,
            fbs,
        ),
        WriteTarget::SwSpiClk(k) => {
            let r = sw_clk_spec(sw[k as int], value);
            match r.1 {
                None => (sw.update(k as int, r.0), d, fbs),
                Some(b) => match r.0.device {
                    None => (
                        sw.update(k as int, SoftwareSpi { data_miso: 0, ..r.0 }),
                        d,
                        fbs,
                    ),
                    Some(h) => {
                        let w = crate::ext_devices::serial_write_spec(d, fbs, h, b);
                        let rd = crate::ext_devices::serial_read_spec(w.0, h);
                        (sw.update(k as int, SoftwareSpi { data_miso: rd.0, ..r.0 }), rd.1, w.1)
                    },
                },
            }
        },
    }
}

/// The fan-out of one pin change over the write subscriptions, scanning from
/// `i`: each subscription for `(port, pin)` fires in order.
pub open spec fn write_port_spec(
    subs: Seq<WriteSub>,
    sw: Seq<SoftwareSpi>,
    d: crate::ext_devices::ExtDevicesV,
    fbs: Seq<crate::framebuffers::ImageV>,
    port: u8,
    pin: u8,
    value: bool,
    i: int,
) -> (Seq<SoftwareSpi>, crate::ext_devices::ExtDevicesV, Seq<crate::framebuffers::ImageV>)
    decreases subs.len() - i,
{
    if i < 0 || i >= subs.len() {
        (sw, d, fbs)
    } else {
        let step = if subs[i].pin.port == port && subs[i].pin.pin == pin {
            apply_write_target_spec(subs[i].target, value, sw, d, fbs)
        } else {
            (sw, d, fbs)
        };
        write_port_spec(subs, step.0, step.1, step.2, port, pin, value, i + 1)
    }
}

/// Fires one write subscription.
fn apply_write_target(
    t: WriteTarget,
    value: bool,
    sw_spis: &mut Vec<SoftwareSpi>,
    devices: &mut ExtDevices,
    framebuffers: &mut Framebuffers,
)
    requires
        match t {
            WriteTarget::SwSpiCs(k) => k < old(sw_spis).len(),
            WriteTarget::SwSpiClk(k) => k < old(sw_spis).len(),
            WriteTarget::SwSpiMosi(k) => k < old(sw_spis).len(),
        },
        sw_spis_wf(old(sw_spis)@, old(devices)@),
        old(devices).wf_with(*old(framebuffers)),
    ensures
        (final(sw_spis)@, final(devices)@, final(framebuffers)@) == apply_write_target_spec(
            t,
            value,
            old(sw_spis)@,
            old(devices)@,
            old(framebuffers)@,
        ),
        sw_spis_wf(final(sw_spis)@, final(devices)@),
        old(devices).same_shape(*final(devices)),
        final(framebuffers).images.len() == old(framebuffers).images.len(),
        forall|j: int|
            0 <= j < old(framebuffers).images.len()
                ==> (#[trigger] final(framebuffers).images[j]).config
                == old(framebuffers).images[j].config,
        final(devices).wf_with(*final(framebuffers)),
        sw_spi_shapes(old(sw_spis)@, final(sw_spis)@),
{
    let ghost sw0 = sw_spis@;
    match t {
        WriteTarget::SwSpiCs(k) => {
            let mut unit = sw_spis.remove(k);
            unit.write_cs(value);
            sw_spis.insert(k, unit);
            proof {
                assert(sw_spis@ =~= sw0.update(k as int, sw_cs_spec(sw0[k as int], value)));
            }
        },
        WriteTarget::SwSpiMosi(k) => {
            let mut unit = sw_spis.remove(k);
            unit.write_mosi(value);
            sw_spis.insert(k, unit);
            proof {
                assert(sw_spis@ =~= sw0.update(
                    k as int,
                    if sw0[k as int].cs {
                        sw0[k as int]
                    } else {
                        SoftwareSpi { mosi: value, ..sw0[k as int] }
                    },
                ));
            }
        },
        WriteTarget::SwSpiClk(k) => {
            let mut unit = sw_spis.remove(k);
            let emit = unit.write_clk(value);
            match emit {
                None => {},
                Some(b) => {
                    match unit.device {
                        None => {
                            unit.load_miso(0);
                        },
                        Some(h) => {
                            devices.serial_write(h, b, framebuffers);
                            let reply = devices.serial_read(h);
                            unit.load_miso(reply);
                        },
                    }
                },
            }
            sw_spis.insert(k, unit);
            proof {
                assert(sw_spis@ =~= apply_write_target_spec(
                    t,
                    value,
                    sw0,
                    old(devices)@,
                    old(framebuffers)@,
                ).0);
            }
        },
    }
}

/// How many fields of `stride` bits a port register carries (at most one per
/// pin).
pub open spec fn field_count(stride: u8) -> int {
    if stride == 4 {
        8
    } else {
        16
    }
}

/// The changed fields between two register values, scanning pins upward from
/// `p`: pairs of pin number and new field value, in pin order.
pub open spec fn reg_changes_from(old_v: u32, new_v: u32, stride: u8, p: int) -> Seq<(u8, u8)>
    decreases field_count(stride) - p,
{
    if p < 0 || p >= field_count(stride) {
        Seq::empty()
    } else {
        let mask = (0xFFu32 >> ((8 - stride) as u32)) as u32;
        let f_old = (old_v >> ((p * stride) as u32)) & mask;
        let f_new = (new_v >> ((p * stride) as u32)) & mask;
        let rest = reg_changes_from(old_v, new_v, stride, p + 1);
        if f_old != f_new {
            seq![(p as u8, f_new as u8)] + rest
        } else {
            rest
        }
    }
}

/// The changed fields between two register values, one `(pin, new value)`
/// pair per changed field, in pin order.
pub fn iter_port_reg_changes(old_value: u32, new_value: u32, stride: u8) -> (r: Vec<(u8, u8)>)
    requires
        stride == 1 || stride == 2 || stride == 4,
    ensures
        r@ == reg_changes_from(old_value, new_value, stride, 0),
    decreases 0int,
{
    let count: u32 = if stride == 4 {
        8
    } else {
        16
    };
    let mask: u32 = 0xFF >> ((8 - stride) as u32);
    let mut r: Vec<(u8, u8)> = Vec::new();
    let mut p: u32 = count;
    let mut acc: Vec<(u8, u8)> = Vec::new();
    while p > 0
        invariant
            stride == 1 || stride == 2 || stride == 4,
            count == field_count(stride),
            mask == 0xFFu32 >> ((8 - stride) as u32),
            p <= count,
            acc@ == reg_changes_from(old_value, new_value, stride, p as int),
        decreases p,
    {
        p = p - 1;
        let sh = p * stride as u32;
        proof {
            assert(sh < 32) by (nonlinear_arith)
                requires
                    sh == p * stride && (stride == 4 && p < 8 || (stride == 1 || stride == 2) && p
                        < 16),
            ;
        }
        let f_old = (old_value >> sh) & mask;
        let f_new = (new_value >> sh) & mask;
        if f_old != f_new {
            proof {
                assert(f_new & mask == f_new && f_new <= 0xFF) by (bit_vector)
                    requires
                        f_new == (new_value >> sh) & mask && mask == 0xFFu32 >> ((8 - stride) as u32)
                            && stride <= 8,
                ;
            }
            let mut step: Vec<(u8, u8)> = Vec::new();
            step.push((p as u8, f_new as u8));
            for t in 0..acc.len()
                invariant
                    step.len() == 1 + t,
                    step[0] == (p as u8, f_new as u8),
                    forall|q: int| 0 <= q < t ==> step[q + 1] == acc[q],
                    acc@ == reg_changes_from(old_value, new_value, stride, p + 1),
            {
                let e = acc[t];
                step.push(e);
            }
            proof {
                assert(step@ =~= seq![(p as u8, f_new as u8)] + acc@);
            }
            acc = step;
        }
    }
    acc
}

/// One GPIO port's register shadows.
pub struct Gpio {
    pub port_letter: char,
    pub port: u8,
    pub mode: u32,
    pub otype: u32,
    pub ospeed: u32,
    pub pupd: u32,
    pub od: u32,
    pub lck: u32,
    pub afrl: u32,
    pub afrh: u32,
}

/// The value a GPIO register read returns: the shadow registers read back,
/// `IDR` samples the read subscriptions, `BSRR` reads zero.
pub open spec fn gpio_read_spec(
    g: Gpio,
    ports: GpioPorts,
    sw: Seq<SoftwareSpi>,
    fbs: Seq<crate::framebuffers::ImageV>,
    offset: u32,
) -> u32 {
    if offset == 0x0000 {
        g.mode
    } else if offset == 0x0004 {
        g.otype
    } else if offset == 0x0008 {
        g.ospeed
    } else if offset == 0x000C {
        g.pupd
    } else if offset == 0x0010 {
        read_port_from(ports.read_subs@, sw, fbs, g.port, 0) as u32
    } else if offset == 0x0014 {
        g.od
    } else if offset == 0x001C {
        g.lck
    } else if offset == 0x0020 {
        g.afrl
    } else if offset == 0x0024 {
        g.afrh
    } else {
        0u32
    }
}

/// The pin levels a write drives out, in firing order.
pub open spec fn gpio_write_events(g: Gpio, offset: u32, value: u32) -> Seq<(u8, bool)> {
    if offset == 0x0014 {
        reg_changes_from(g.od, value, 1, 0).map_values(|e: (u8, u8)| (e.0, e.1 != 0))
    } else if offset == 0x0018 {
        let set = value & 0xFFFF;
        let reset = value >> 16;
        reg_changes_from(0, set, 1, 0).map_values(|e: (u8, u8)| (e.0, true))
            + reg_changes_from(0, reset, 1, 0).map_values(|e: (u8, u8)| (e.0, false))
    } else {
        Seq::empty()
    }
}

/// The port after a register write: plain stores for the configuration
/// registers, output-data semantics for `ODR` and `BSRR` (upper half resets,
/// lower half sets).
pub open spec fn gpio_write_next(g: Gpio, offset: u32, value: u32) -> Gpio {
    if offset == 0x0000 {
        Gpio { mode: value, ..g }
    } else if offset == 0x0004 {
        Gpio { otype: value, ..g }
    } else if offset == 0x0008 {
        Gpio { ospeed: value, ..g }
    } else if offset == 0x000C {
        Gpio { pupd: value, ..g }
    } else if offset == 0x0014 {
        Gpio { od: value, ..g }
    } else if offset == 0x0018 {
        Gpio { od: (g.od & !(value >> 16)) | (value & 0xFFFF), ..g }
    } else if offset == 0x001C {
        Gpio { lck: value, ..g }
    } else if offset == 0x0020 {
        Gpio { afrl: value, ..g }
    } else if offset == 0x0024 {
        Gpio { afrh: value, ..g }
    } else {
        g
    }
}

impl Gpio {
    /// A fresh port named by its letter (index `A = 0`).
    pub fn new(port_letter: char, port: u8) -> (r: Gpio)
        ensures
            r == (Gpio {
                port_letter,
                port,
                mode: 0u32,
                otype: 0u32,
                ospeed: 0u32,
                pupd: 0u32,
                od: 0u32,
                lck: 0u32,
                afrl: 0u32,
                afrh: 0u32,
            }),
    {
        Gpio {
            port_letter,
            port,
            mode: 0,
            otype: 0,
            ospeed: 0,
            pupd: 0,
            od: 0,
            lck: 0,
            afrl: 0,
            afrh: 0,
        }
    }

    /// One register read; `IDR` samples the read subscriptions.
    pub fn read(
        &self,
        offset: u32,
        ports: &GpioPorts,
        sw_spis: &Vec<SoftwareSpi>,
        framebuffers: &Framebuffers,
    ) -> (r: u32)
        requires
            ports.wf_with(sw_spis@, framebuffers@),
        ensures
            r == gpio_read_spec(*self, *ports, sw_spis@, framebuffers@, offset),
    {
        if offset == 0x0000 {
            self.mode
        } else if offset == 0x0004 {
            self.otype
        } else if offset == 0x0008 {
            self.ospeed
        } else if offset == 0x000C {
            self.pupd
        } else if offset == 0x0010 {
            ports.read_port(self.port, sw_spis, framebuffers) as u32
        } else if offset == 0x0014 {
            self.od
        } else if offset == 0x001C {
            self.lck
        } else if offset == 0x0020 {
            self.afrl
        } else if offset == 0x0024 {
            self.afrh
        } else {
            0
        }
    }

    /// One register write; returns the pin levels to fan out to the write
    /// subscriptions, in firing order.
    pub fn write(&mut self, offset: u32, value: u32) -> (events: Vec<(u8, bool)>)
        ensures
            *final(self) == gpio_write_next(*old(self), offset, value),
            events@ == gpio_write_events(*old(self), offset, value),
    {
        if offset == 0x0014 {
            let changes = iter_port_reg_changes(self.od, value, 1);
            let mut events: Vec<(u8, bool)> = Vec::new();
            let n = changes.len();
            for t in 0..n
                invariant
                    n == changes.len(),
                    events.len() == t,
                    forall|q: int|
                        0 <= q < t ==> (#[trigger] events[q]) == (changes[q].0, changes[q].1 != 0),
            {
                let e = changes[t];
                events.push((e.0, e.1 != 0));
            }
            self.od = value;
            proof {
                assert(events@ =~= gpio_write_events(*old(self), offset, value));
            }
            events
        } else if offset == 0x0018 {
            let set = value & 0xFFFF;
            let reset = value >> 16;
            let set_changes = iter_port_reg_changes(0, set, 1);
            let reset_changes = iter_port_reg_changes(0, reset, 1);
            let mut events: Vec<(u8, bool)> = Vec::new();
            let n = set_changes.len();
            for t in 0..n
                invariant
                    n == set_changes.len(),
                    events.len() == t,
                    forall|q: int|
                        0 <= q < t ==> (#[trigger] events[q]) == (set_changes[q].0, true),
            {
                let e = set_changes[t];
                events.push((e.0, true));
            }
            let m = reset_changes.len();
            for t in 0..m
                invariant
                    m == reset_changes.len(),
                    n == set_changes.len(),
                    events.len() == n + t,
                    forall|q: int|
                        0 <= q < n ==> (#[trigger] events[q]) == (set_changes[q].0, true),
                    forall|q: int|
                        0 <= q < t ==> (#[trigger] events[n + q]) == (reset_changes[q].0, false),
            {
                let e = reset_changes[t];
                events.push((e.0, false));
            }
            self.od = (self.od & !reset) | set;
            proof {
                let sm = reg_changes_from(0, set, 1, 0).map_values(|e: (u8, u8)| (e.0, true));
                let rm = reg_changes_from(0, reset, 1, 0).map_values(|e: (u8, u8)| (e.0, false));
                assert(sm.len() == n && rm.len() == m);
                assert forall|q: int| 0 <= q < n + m implies events@[q] == (sm + rm)[q] by {
                    if q < n {
                        assert(sm[q] == (set_changes@[q].0, true));
                    } else {
                        let qr = q - n;
                        assert(rm[qr] == (reset_changes@[qr].0, false));
                        assert(events@[n + qr] == (reset_changes@[qr].0, false));
                        assert(q == n + qr);
                    }
                }
                assert(events@ =~= sm + rm);
            }
            events
        } else {
            if offset == 0x0000 {
                self.mode = value;
            } else if offset == 0x0004 {
                self.otype = value;
            } else if offset == 0x0008 {
                self.ospeed = value;
            } else if offset == 0x000C {
                self.pupd = value;
            } else if offset == 0x001C {
                self.lck = value;
            } else if offset == 0x0020 {
                self.afrl = value;
            } else if offset == 0x0024 {
                self.afrh = value;
            }
            let events: Vec<(u8, bool)> = Vec::new();
            proof {
                assert(events@ =~= gpio_write_events(*old(self), offset, value));
            }
            events
        }
    }
}


/// Every entry of the change scan records a pin at or above `p`, below the
/// field count, whose field actually changed, with the new field value; and
/// the recorded pins are strictly increasing (each at most once).
proof fn lemma_reg_changes_sound(old_v: u32, new_v: u32, p: int)
    requires
        0 <= p,
    ensures
        forall|t: int|
            0 <= t < reg_changes_from(old_v, new_v, 1, p).len() ==> {
                let e = #[trigger] reg_changes_from(old_v, new_v, 1, p)[t];
                &&& p <= e.0 < 16
                &&& e.1 == ((new_v >> (e.0 as u32)) & 1) as u8
                &&& (old_v >> (e.0 as u32)) & 1 != (new_v >> (e.0 as u32)) & 1
            },
        forall|t1: int, t2: int|
            0 <= t1 < t2 < reg_changes_from(old_v, new_v, 1, p).len()
                ==> (#[trigger] reg_changes_from(old_v, new_v, 1, p)[t1]).0
                < (#[trigger] reg_changes_from(old_v, new_v, 1, p)[t2]).0,
    decreases 16 - p,
{
    assert(0xFFu32 >> ((8 - 1) as u32) == 1) by (bit_vector);
    if p < 16 {
        lemma_reg_changes_sound(old_v, new_v, p + 1);
        let head_changed = (old_v >> (p as u32)) & 1 != (new_v >> (p as u32)) & 1;
        let rest = reg_changes_from(old_v, new_v, 1, p + 1);
        if head_changed {
            let whole = reg_changes_from(old_v, new_v, 1, p);
            assert(whole =~= seq![(p as u8, (((new_v >> (p as u32)) & 1) as u8))] + rest);
        }
    }
}

/// A pin whose field changed is recorded by the change scan.
proof fn lemma_reg_changes_complete(old_v: u32, new_v: u32, p: int, k: u8)
    requires
        0 <= p <= k < 16,
        (old_v >> (k as u32)) & 1 != (new_v >> (k as u32)) & 1,
    ensures
        exists|t: int|
            0 <= t < reg_changes_from(old_v, new_v, 1, p).len()
                && (#[trigger] reg_changes_from(old_v, new_v, 1, p)[t]) == (
            k,
            (((new_v >> (k as u32)) & 1) as u8),
            ),
    decreases 16 - p,
{
    assert(0xFFu32 >> ((8 - 1) as u32) == 1) by (bit_vector);
    let whole = reg_changes_from(old_v, new_v, 1, p);
    let head_changed = (old_v >> (p as u32)) & 1 != (new_v >> (p as u32)) & 1;
    let rest = reg_changes_from(old_v, new_v, 1, p + 1);
    if p == k {
        assert(whole[0] == (k, (((new_v >> (k as u32)) & 1) as u8)));
    } else {
        lemma_reg_changes_complete(old_v, new_v, p + 1, k);
        let t0 = choose|t: int|
            0 <= t < rest.len() && (#[trigger] rest[t]) == (
                k,
                (((new_v >> (k as u32)) & 1) as u8),
            );
        if head_changed {
            assert(whole[t0 + 1] == rest[t0]);
        } else {
            assert(whole[t0] == rest[t0]);
        }
    }
}

/// GPIO change fan-out: an `ODR` write fires one event for exactly the pins
/// whose output bit changed, carrying the new level, each pin at most once.
/// The router then drives every write subscription of that pin with it, in
/// subscription order.
pub proof fn lemma_odr_change_fanout(g: Gpio, value: u32, k: u8)
    requires
        k < 16,
    ensures
        ({
            let evs = gpio_write_events(g, 0x0014, value);
            let newbit = (value >> (k as u32)) & 1 != 0;
            let changed = (g.od >> (k as u32)) & 1 != (value >> (k as u32)) & 1;
            &&& changed <==> exists|t: int|
                0 <= t < evs.len() && (#[trigger] evs[t]) == (k, newbit)
            &&& !changed ==> forall|t: int| 0 <= t < evs.len() ==> (#[trigger] evs[t]).0 != k
            &&& forall|t1: int, t2: int|
                0 <= t1 < t2 < evs.len() ==> (#[trigger] evs[t1]).0 != (#[trigger] evs[t2]).0
        }),
{
    let changes = reg_changes_from(g.od, value, 1, 0);
    let evs = gpio_write_events(g, 0x0014, value);
    lemma_reg_changes_sound(g.od, value, 0);
    assert(evs.len() == changes.len());
    assert forall|t: int| 0 <= t < evs.len() implies #[trigger] evs[t] == (
        changes[t].0,
        changes[t].1 != 0,
    ) by {
    }
    let newbit = (value >> (k as u32)) & 1 != 0;
    let changed = (g.od >> (k as u32)) & 1 != (value >> (k as u32)) & 1;
    if changed {
        lemma_reg_changes_complete(g.od, value, 0, k);
        let t0 = choose|t: int|
            0 <= t < changes.len() && (#[trigger] changes[t]) == (
                k,
                (((value >> (k as u32)) & 1) as u8),
            );
        assert(((value >> (k as u32)) & 1) as u8 != 0 <==> newbit) by {
            assert((value >> (k as u32)) & 1 < 2) by (bit_vector);
        }
        assert(evs[t0] == (k, newbit));
    }
    if exists|t: int| 0 <= t < evs.len() && (#[trigger] evs[t]) == (k, newbit) {
        let t0 = choose|t: int| 0 <= t < evs.len() && (#[trigger] evs[t]) == (k, newbit);
        assert(changes[t0].0 == k);
    }
}

} // verus!
