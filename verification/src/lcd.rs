//! Serial LCD fed with 4-bit grayscale data: each incoming byte carries two
//! nibbles (high first); each nibble expands to an RGB888 gray pixel. Drawing
//! starts on the `StartDrawing` command and fills the framebuffer
//! left-to-right, top-to-bottom, wrapping at the end.

use vstd::prelude::*;

use crate::framebuffers::{Framebuffers, Image, ImageV};
use crate::util::Point;

verus! {

pub struct LcdConfig {
    pub peripheral: String,
    pub framebuffer: String,
}

/// The command bytes the model recognises.
#[derive(Clone, Copy, PartialEq, Eq, Structural, Debug)]
pub enum LcdCommand {
    /// `0xF0`
    GetVersion,
    /// `0xFB`: enter drawing mode at the origin.
    StartDrawing,
    /// `0xF1`
    SetPalette,
    /// `0xF2`
    GetPalette,
}

/// Which command a byte starts, if any.
pub open spec fn lcd_cmd_of(v: u8) -> Option<LcdCommand> {
    if v == 0xF0 {
        Some(LcdCommand::GetVersion)
    } else if v == 0xFB {
        Some(LcdCommand::StartDrawing)
    } else if v == 0xF1 {
        Some(LcdCommand::SetPalette)
    } else if v == 0xF2 {
        Some(LcdCommand::GetPalette)
    } else {
        None
    }
}

/// Spec-level form of the LCD state.
pub struct LcdV {
    pub x: u16,
    pub y: u16,
    pub width: u16,
    pub height: u16,
    pub fb: int,
    pub cmd: Option<(LcdCommand, Seq<u8>)>,
    pub drawing: bool,
}

pub struct Lcd {
    pub config: LcdConfig,
    pub name: String,
    pub current_position: Point,
    pub width: u16,
    pub height: u16,
    /// Index of the bound surface in [`Framebuffers`].
    pub fb: usize,
    pub cmd: Option<(LcdCommand, Vec<u8>)>,
    pub drawing: bool,
}

impl View for Lcd {
    type V = LcdV;

    open spec fn view(&self) -> LcdV {
        LcdV {
            x: self.current_position.x,
            y: self.current_position.y,
            width: self.width,
            height: self.height,
            fb: self.fb as int,
            cmd: match self.cmd {
                None => None,
                Some((c, ref args)) => Some((c, args@)),
            },
            drawing: self.drawing,
        }
    }
}

/// The RGB888 gray cell a 4-bit value expands to.
pub open spec fn gray_pixel(n: u8) -> u32 {
    let c = (((n as u32) << 4) | (n as u32)) as u32;
    ((c << 16) | (c << 8) | c) as u32
}

/// The flat pixel index the LCD writes at `(x, y)`, clamped to the surface.
pub open spec fn lcd_pixel_index(l: LcdV) -> int {
    let x = if l.x < l.width {
        l.x as int
    } else {
        l.width - 1
    };
    let y = if l.y < l.height {
        l.y as int
    } else {
        l.height - 1
    };
    x + y * l.width
}

/// One nibble drawn: the pixel deposited and the cursor advanced, wrapping at
/// the right edge and at the bottom.
pub open spec fn lcd_draw_spec(l: LcdV, pixels: Seq<u32>, n: u8) -> (LcdV, Seq<u32>) {
    let pixels2 = pixels.update(lcd_pixel_index(l), gray_pixel(n));
    let x2 = l.x + 1;
    if x2 >= l.width {
        let y2 = l.y + 1;
        if y2 >= l.height {
            (LcdV { x: 0, y: 0, ..l }, pixels2)
        } else {
            (LcdV { x: 0, y: y2 as u16, ..l }, pixels2)
        }
    } else {
        (LcdV { x: x2 as u16, y: l.y, ..l }, pixels2)
    }
}

/// The LCD after one command-path byte (not in drawing mode).
pub open spec fn lcd_command_spec(l: LcdV, v: u8) -> LcdV {
    match l.cmd {
        Some((cmd, args)) => {
            if cmd is StartDrawing && args.len() + 1 == 0 {
                l
            } else {
                LcdV { cmd: Some((cmd, args.push(v))), ..l }
            }
        },
        None => match lcd_cmd_of(v) {
            Some(LcdCommand::StartDrawing) => LcdV { x: 0, y: 0, drawing: true, cmd: None, ..l },
            Some(cmd) => LcdV { cmd: Some((cmd, Seq::empty())), ..l },
            None => l,
        },
    }
}

/// One incoming byte: two nibbles drawn when in drawing mode, command
/// handling otherwise.
pub open spec fn lcd_write_spec(l: LcdV, pixels: Seq<u32>, v: u8) -> (LcdV, Seq<u32>) {
    if l.drawing {
        let first = lcd_draw_spec(l, pixels, v >> 4);
        lcd_draw_spec(first.0, first.1, v & 0x0F)
    } else {
        (lcd_command_spec(l, v), pixels)
    }
}

impl Lcd {
    /// The LCD agrees with its bound surface about geometry.
    pub open spec fn wf_with(self, fb: ImageV) -> bool {
        &&& fb.wf()
        &&& self.width == fb.width
        &&& self.height == fb.height
    }

    /// Binds the LCD to the named surface.
    pub fn new(config: LcdConfig, framebuffers: &Framebuffers) -> (r: Option<Lcd>)
        ensures
            match r {
                Some(l) => {
                    &&& l.config == config
                    &&& l.fb < framebuffers.images.len()
                    &&& framebuffers.images[l.fb as int].config.name@ == config.framebuffer@
                    &&& l.width == framebuffers.images[l.fb as int].config.width
                    &&& l.height == framebuffers.images[l.fb as int].config.height
                    &&& l@.cmd is None
                    &&& !l@.drawing
                    &&& l@.x == 0 && l@.y == 0
                },
                None => forall|i: int|
                    0 <= i < framebuffers.images.len()
                        ==> (#[trigger] framebuffers.images[i]).config.name@
                        != config.framebuffer@,
            },
    {
        match framebuffers.get(config.framebuffer.as_str()) {
            None => None,
            Some(fb) => {
                let width = framebuffers.images[fb].config.width;
                let height = framebuffers.images[fb].config.height;
                Some(
                    Lcd {
                        config,
                        name: String::new(),
                        current_position: Point { x: 0, y: 0 },
                        width,
                        height,
                        fb,
                        cmd: None,
                        drawing: false,
                    },
                )
            },
        }
    }

    /// Records the peripheral this device is bound to; returns the display
    /// name used in traces.
    pub fn connect_peripheral(&mut self, peri_name: &str) -> (r: String)
        ensures
            final(self)@ == old(self)@,
            final(self).config == old(self).config,
            final(self).name@ == peri_name@ + " LCD"@,
            r@ == final(self).name@,
    {
        let mut name = String::new();
        name.append(peri_name);
        name.append(" LCD");
        self.name = name.clone();
        name
    }

    /// The flat pixel index for `(x, y)`, clamped to the surface; always in
    /// bounds.
    pub fn get_framebuffer_pixel_index(&self, x: u16, y: u16) -> (i: usize)
        requires
            self.width > 0,
            self.height > 0,
        ensures
            i == (if x < self.width {
                x as int
            } else {
                self.width - 1
            }) + (if y < self.height {
                y as int
            } else {
                self.height - 1
            }) * self.width,
            i < self.width * self.height,
    {
        let x = if x < self.width {
            x as usize
        } else {
            (self.width - 1) as usize
        };
        let y = if y < self.height {
            y as usize
        } else {
            (self.height - 1) as usize
        };
        proof {
            assert(x + y * self.width < self.width * self.height && self.width * self.height
                <= 0xFFFF * 0xFFFF) by (nonlinear_arith)
                requires
                    x < self.width && y < self.height && self.width <= 0xFFFF && self.height
                        <= 0xFFFF,
            ;
        }
        x + y * (self.width as usize)
    }

    /// Deposits one gray nibble and advances the cursor.
    pub fn draw_pixel(&mut self, c: u8, framebuffers: &mut Framebuffers)
        requires
            old(self).fb < old(framebuffers).images.len(),
            old(self).wf_with(old(framebuffers).images[old(self).fb as int]@),
        ensures
            ({
                let r = lcd_draw_spec(old(self)@, old(framebuffers)@[old(self).fb as int].pixels, c);
                &&& final(self)@ == r.0
                &&& final(framebuffers)@ == old(framebuffers)@.update(
                    old(self).fb as int,
                    ImageV { pixels: r.1, ..old(framebuffers)@[old(self).fb as int] },
                )
            }),
            forall|j: int|
                0 <= j < old(framebuffers).images.len()
                    ==> (#[trigger] final(framebuffers).images[j]).config
                    == old(framebuffers).images[j].config,
            final(self).config == old(self).config && final(self).name == old(self).name,
            final(self).fb == old(self).fb && final(self).width == old(self).width,
            final(self).height == old(self).height,
            final(self).wf_with(final(framebuffers).images[final(self).fb as int]@),
    {
        let ghost pre_fbs = framebuffers@;
        let ghost pre_imgs = framebuffers.images@;
        let i = self.get_framebuffer_pixel_index(self.current_position.x, self.current_position.y);
        let c32 = ((c as u32) << 4) | (c as u32);
        let c32 = (c32 << 16) | (c32 << 8) | c32;
        proof {
            let n = c;
            assert((((((n as u32) << 4) | (n as u32)) as u32) << 16) | (((((n as u32) << 4) | (
            n as u32)) as u32) << 8) | ((((n as u32) << 4) | (n as u32)) as u32) == gray_pixel(n))
                by (bit_vector);
        }
        let mut img = self.framebuffer_take(framebuffers);
        img.framebuffer.set(i, c32);
        self.framebuffer_put(framebuffers, img);
        let x32 = self.current_position.x as u32 + 1;
        if x32 >= self.width as u32 {
            let y32 = self.current_position.y as u32 + 1;
            if y32 >= self.height as u32 {
                self.current_position = Point { x: 0, y: 0 };
            } else {
                self.current_position = Point { x: 0, y: y32 as u16 };
            }
        } else {
            self.current_position = Point { x: x32 as u16, y: self.current_position.y };
        }
        proof {
            let r = lcd_draw_spec(old(self)@, pre_fbs[old(self).fb as int].pixels, c);
            assert(framebuffers@ =~~= pre_fbs.update(
                old(self).fb as int,
                ImageV { pixels: r.1, ..pre_fbs[old(self).fb as int] },
            ));
        }
    }

    /// Takes the bound surface out of the arena (put back by
    /// [`Self::framebuffer_put`]).
    fn framebuffer_take(&self, framebuffers: &mut Framebuffers) -> (img: Image)
        requires
            self.fb < old(framebuffers).images.len(),
        ensures
            img == old(framebuffers).images[self.fb as int],
            final(framebuffers).images@ == old(framebuffers).images@.remove(self.fb as int),
    {
        framebuffers.images.remove(self.fb)
    }

    fn framebuffer_put(&self, framebuffers: &mut Framebuffers, img: Image)
        requires
            self.fb <= old(framebuffers).images.len(),
        ensures
            final(framebuffers).images@ == old(framebuffers).images@.insert(self.fb as int, img),
    {
        framebuffers.images.insert(self.fb, img);
    }

    /// One incoming byte from the bus.
    pub fn write(&mut self, v: u8, framebuffers: &mut Framebuffers)
        requires
            old(self).fb < old(framebuffers).images.len(),
            old(self).wf_with(old(framebuffers).images[old(self).fb as int]@),
        ensures
            ({
                let r = lcd_write_spec(old(self)@, old(framebuffers)@[old(self).fb as int].pixels, v);
                &&& final(self)@ == r.0
                &&& final(framebuffers)@ == old(framebuffers)@.update(
                    old(self).fb as int,
                    ImageV { pixels: r.1, ..old(framebuffers)@[old(self).fb as int] },
                )
            }),
            forall|j: int|
                0 <= j < old(framebuffers).images.len()
                    ==> (#[trigger] final(framebuffers).images[j]).config
                    == old(framebuffers).images[j].config,
            final(self).config == old(self).config && final(self).name == old(self).name,
            final(self).fb == old(self).fb && final(self).width == old(self).width,
            final(self).height == old(self).height,
            final(self).wf_with(final(framebuffers).images[final(self).fb as int]@),
    {
        if self.drawing {
            self.draw_pixel(v >> 4, framebuffers);
            proof {
                assert(framebuffers.images@.len() == framebuffers@.len());
            }
            self.draw_pixel(v & 0x0F, framebuffers);
            return ;
        }
        let ghost pre_fbs = framebuffers@;
        let cmd_taken = self.cmd.take();
        match cmd_taken {
            Some((cmd, mut args)) => {
                args.push(v);
                self.cmd = Some((cmd, args));
            },
            None => {
                let parsed = if v == 0xF0 {
                    Some(LcdCommand::GetVersion)
                } else if v == 0xFB {
                    Some(LcdCommand::StartDrawing)
                } else if v == 0xF1 {
                    Some(LcdCommand::SetPalette)
                } else if v == 0xF2 {
                    Some(LcdCommand::GetPalette)
                } else {
                    None
                };
                match parsed {
                    Some(LcdCommand::StartDrawing) => {
                        self.current_position = Point { x: 0, y: 0 };
                        self.drawing = true;
                        self.cmd = None;
                    },
                    Some(cmd) => {
                        self.cmd = Some((cmd, Vec::new()));
                    },
                    None => {
                        // Bytes 0x00 and 0xFF are idle fill; anything else is
                        // an unrecognised command and equally ignored.
                    },
                }
            },
        }
        proof {
            assert(framebuffers@ =~~= pre_fbs.update(
                self.fb as int,
                ImageV { pixels: pre_fbs[self.fb as int].pixels, ..pre_fbs[self.fb as int] },
            ));
        }
    }
}

/// The LCD's clamped pixel index always lies inside the surface.
pub proof fn lemma_lcd_pixel_index_bounds(l: LcdV)
    requires
        l.width > 0,
        l.height > 0,
    ensures
        0 <= lcd_pixel_index(l) < l.width * l.height,
{
    let x = if l.x < l.width {
        l.x as int
    } else {
        l.width - 1
    };
    let y = if l.y < l.height {
        l.y as int
    } else {
        l.height - 1
    };
    assert(x + y * l.width < l.width * l.height) by (nonlinear_arith)
        requires
            0 <= x < l.width && 0 <= y < l.height,
    ;
}

} // verus!
