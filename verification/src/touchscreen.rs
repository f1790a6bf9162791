//! Resistive touchscreen controller (ADS7846 family): measurement commands
//! sample the bound framebuffer's touch position, scale it into the 12-bit
//! ADC range, and queue a two-byte MSB-first reply.

use vstd::prelude::*;

use crate::framebuffers::{Framebuffers, ImageV};

verus! {

pub struct TouchscreenConfig {
    pub peripheral: String,
    pub framebuffer: String,
    pub flip_x: Option<bool>,
    pub flip_y: Option<bool>,
    pub swap_x_y: Option<bool>,
    /// GPIO pin (for example `"PA12"`) driven low while a touch is present.
    pub touch_detected_pin: Option<String>,
    pub scale_down: Option<u32>,
}

/// The measurement channels.
#[derive(Clone, Copy, PartialEq, Eq, Structural, Debug)]
pub enum TsOperation {
    MeasureX,
    MeasureY,
    MeasureZ1,
    MeasureZ2,
}

/// The operation a command byte requests: bit 7 is the start bit, bits 6..4
/// select the channel. Bytes without a start bit, and unassigned channel
/// codes, request nothing.
pub open spec fn ts_op_of(v: u8) -> Option<TsOperation> {
    if v & 0x80 == 0 {
        None
    } else {
        let op = (v >> 4) & 0b111;
        if op == 0b101 {
            Some(TsOperation::MeasureX)
        } else if op == 0b001 {
            Some(TsOperation::MeasureY)
        } else if op == 0b011 {
            Some(TsOperation::MeasureZ1)
        } else if op == 0b100 {
            Some(TsOperation::MeasureZ2)
        } else {
            None
        }
    }
}

/// Spec-level form of the touchscreen state.
pub struct TouchscreenV {
    pub flip_x: bool,
    pub flip_y: bool,
    pub swap_x_y: bool,
    pub scale_down: Option<u32>,
    pub fb: int,
    pub reply: Option<Seq<u8>>,
}

pub struct Touchscreen {
    pub config: TouchscreenConfig,
    pub name: String,
    /// Index of the bound surface in [`Framebuffers`].
    pub fb: usize,
    pub reply: Option<Vec<u8>>,
}

impl View for Touchscreen {
    type V = TouchscreenV;

    open spec fn view(&self) -> TouchscreenV {
        TouchscreenV {
            flip_x: self.config.flip_x == Some(true),
            flip_y: self.config.flip_y == Some(true),
            swap_x_y: self.config.swap_x_y == Some(true),
            scale_down: self.config.scale_down,
            fb: self.fb as int,
            reply: match self.reply {
                None => None,
                Some(ref d) => Some(d@),
            },
        }
    }
}

/// The raw 12-bit sample for `op` at touch position `(px, py)` on a
/// `width x height` surface: positions scale to `0..=0xFFF`, pressure
/// channels read the constant 10.
pub open spec fn ts_sample(
    t: TouchscreenV,
    op: TsOperation,
    px: u16,
    py: u16,
    width: u16,
    height: u16,
) -> int {
    let op2 = if t.swap_x_y {
        match op {
            TsOperation::MeasureX => TsOperation::MeasureY,
            TsOperation::MeasureY => TsOperation::MeasureX,
            other => other,
        }
    } else {
        op
    };
    let v0: int = match op2 {
        TsOperation::MeasureX => (px * 0xFFF) / (width as int),
        TsOperation::MeasureY => (py * 0xFFF) / (height as int),
        TsOperation::MeasureZ1 => 10,
        TsOperation::MeasureZ2 => 10,
    };
    let v1: int = match op2 {
        TsOperation::MeasureX => if t.flip_x {
            0xFFF - v0
        } else {
            v0
        },
        TsOperation::MeasureY => if t.flip_y {
            0xFFF - v0
        } else {
            v0
        },
        _ => v0,
    };
    match t.scale_down {
        Some(sd) => v1 / (sd as int),
        None => v1,
    }
}

/// The two reply bytes for a 12-bit sample, MSB first, low nibble padded:
/// `0000AABB CCDD0000`.
pub open spec fn ts_reply_bytes(v: int) -> Seq<u8> {
    seq![((v / 16) % 256) as u8, ((v * 16) % 256) as u8]
}

/// The touchscreen after one command byte: a measurement request with a touch
/// present queues its two-byte reply; one without a touch clears the reply;
/// anything else changes nothing.
pub open spec fn ts_write_spec(t: TouchscreenV, fb: ImageV, v: u8) -> TouchscreenV {
    match ts_op_of(v) {
        None => t,
        Some(op) => match fb.touch {
            None => TouchscreenV { reply: None, ..t },
            Some((px, py)) => TouchscreenV {
                reply: Some(ts_reply_bytes(ts_sample(t, op, px, py, fb.width, fb.height))),
                ..t
            },
        },
    }
}

/// The byte one outgoing read returns, and the state after it.
pub open spec fn ts_read_spec(t: TouchscreenV) -> (u8, TouchscreenV) {
    match t.reply {
        Some(d) => if d.len() > 0 {
            (d[0], TouchscreenV { reply: Some(d.drop_first()), ..t })
        } else {
            (0, t)
        },
        None => (0, t),
    }
}

impl Touchscreen {
    /// A configured scale divisor must be usable.
    pub open spec fn wf(self) -> bool {
        self.config.scale_down != Some(0u32)
    }

    /// Binds the touchscreen to the named surface. Rejects a zero scale
    /// divisor.
    pub fn new(config: TouchscreenConfig, framebuffers: &Framebuffers) -> (r: Option<Touchscreen>)
        ensures
            match r {
                Some(t) => {
                    &&& t.wf()
                    &&& t.config == config
                    &&& t.fb < framebuffers.images.len()
                    &&& framebuffers.images[t.fb as int].config.name@ == config.framebuffer@
                    &&& crate::framebuffers::fb_index_from(
                        framebuffers.images@,
                        config.framebuffer@,
                        0,
                    ) == Some(t.fb as int)
                    &&& t@.reply is None
                },
                None => config.scale_down == Some(0u32) || forall|i: int|
                    0 <= i < framebuffers.images.len()
                        ==> (#[trigger] framebuffers.images[i]).config.name@
                        != config.framebuffer@,
            },
    {
        if let Some(sd) = config.scale_down {
            if sd == 0 {
                return None;
            }
        }
        match framebuffers.get(config.framebuffer.as_str()) {
            None => None,
            Some(fb) => Some(Touchscreen { config, name: String::new(), fb, reply: None }),
        }
    }

    /// Records the peripheral this device is bound to; returns the display
    /// name used in traces.
    pub fn connect_peripheral(&mut self, peri_name: &str) -> (r: String)
        ensures
            final(self)@ == old(self)@,
            final(self).config == old(self).config,
            final(self).name@ == peri_name@ + " touchscreen"@,
            r@ == final(self).name@,
    {
        let mut name = String::new();
        name.append(peri_name);
        name.append(" touchscreen");
        self.name = name.clone();
        name
    }

    /// One command byte from the bus; samples the given surface.
    pub fn write(&mut self, v: u8, fb: &crate::framebuffers::Image)
        requires
            old(self).wf(),
            fb@.wf(),
        ensures
            final(self)@ == ts_write_spec(old(self)@, fb@, v),
            final(self).config == old(self).config,
            final(self).name == old(self).name,
            final(self).wf(),
    {
        if v & 0x80 == 0 {
            return ;
        }
        let opbits = (v >> 4) & 0b111;
        let op = if opbits == 0b101 {
            Some(TsOperation::MeasureX)
        } else if opbits == 0b001 {
            Some(TsOperation::MeasureY)
        } else if opbits == 0b011 {
            Some(TsOperation::MeasureZ1)
        } else if opbits == 0b100 {
            Some(TsOperation::MeasureZ2)
        } else {
            None
        };
        let op = match op {
            None => {
                return ;
            },
            Some(op) => op,
        };
        match fb.touch_position {
            None => {
                self.reply = None;
            },
            Some((px, py)) => {
                let swap = self.config.swap_x_y == Some(true);
                let op2 = if swap {
                    match op {
                        TsOperation::MeasureX => TsOperation::MeasureY,
                        TsOperation::MeasureY => TsOperation::MeasureX,
                        other => other,
                    }
                } else {
                    op
                };
                let width = fb.config.width;
                let height = fb.config.height;
                let v0: u32 = match op2 {
                    TsOperation::MeasureX => ((px as u32) * 0xFFF) / (width as u32),
                    TsOperation::MeasureY => ((py as u32) * 0xFFF) / (height as u32),
                    TsOperation::MeasureZ1 => 10,
                    TsOperation::MeasureZ2 => 10,
                };
                proof {
                    assert((px as int) * 0xFFF / (width as int) <= 0xFFF && (py as int) * 0xFFF / (
                    height as int) <= 0xFFF) by (nonlinear_arith)
                        requires
                            px < width && py < height && 0 < width && 0 < height,
                    ;
                }
                let v1: u32 = match op2 {
                    TsOperation::MeasureX => if self.config.flip_x == Some(true) {
                        0xFFF - v0
                    } else {
                        v0
                    },
                    TsOperation::MeasureY => if self.config.flip_y == Some(true) {
                        0xFFF - v0
                    } else {
                        v0
                    },
                    _ => v0,
                };
                let v2: u32 = match self.config.scale_down {
                    Some(sd) => v1 / sd,
                    None => v1,
                };
                let mut d: Vec<u8> = Vec::new();
                d.push((v2 >> 4) as u8);
                d.push((v2 << 4) as u8);
                proof {
                    assert(v2 <= 0xFFF ==> ((v2 >> 4) as u8 == ((v2 as int / 16) % 256) as u8 && (
                    (v2 << 4) as u8) == ((v2 as int * 16) % 256) as u8)) by (bit_vector);
                    assert(d@ =~= ts_reply_bytes(
                        ts_sample(old(self)@, op, px, py, fb@.width, fb@.height),
                    ));
                }
                self.reply = Some(d);
            },
        }
    }

    /// One byte going out on the bus: the next queued reply byte, `0` when
    /// none is waiting.
    pub fn read(&mut self) -> (r: u8)
        ensures
            (r, final(self)@) == ts_read_spec(old(self)@),
            final(self).config == old(self).config,
            final(self).name == old(self).name,
    {
        match &mut self.reply {
            Some(d) => {
                if d.len() > 0 {
                    d.remove(0)
                } else {
                    0
                }
            },
            None => 0,
        }
    }

    /// The level of the touch-detect GPIO line: high (true) while no touch is
    /// present, the open-drain active-low convention.
    pub fn touch_detect_level(fb: &crate::framebuffers::Image) -> (r: bool)
        ensures
            r == (fb@.touch is None),
    {
        match fb.touch_position {
            None => true,
            Some(_) => false,
        }
    }
}

} // verus!
