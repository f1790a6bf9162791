//! FSMC-attached display with a 16-bit MCU interface (ST7735/ILI9341 style).
//! One address bit separates command from data accesses. `0x2A`/`0x2B` set
//! the horizontal/vertical draw window, `0x2C` enters drawing mode; data
//! words then deposit RGB565 pixels left-to-right inside the window, wrapping
//! to the next row and back to the top. Configured replies serve data reads
//! for other command bytes.

use vstd::prelude::*;

use crate::framebuffers::{Framebuffers, Image, ImageV};
use crate::util::{Point, Rect};

verus! {

pub struct DisplayConfig {
    pub peripheral: String,
    /// The address bit that distinguishes data (set) from command (clear)
    /// accesses.
    pub cmd_addr_bit: u32,
    pub swap_bytes: Option<bool>,
    pub replies: Option<Vec<ReplyConfig>>,
    pub framebuffer: String,
}

pub struct ReplyConfig {
    pub cmd: u8,
    pub data: Vec<u16>,
}

/// Whether an access addresses the command or the data register.
#[derive(Clone, Copy, PartialEq, Eq, Structural, Debug)]
pub enum Mode {
    Cmd,
    Data,
}

impl Mode {
    /// Decodes the access mode from the raw offset: data when the configured
    /// address bit is set.
    pub fn from_addr(data_addr_bit: u32, offset: u32) -> (r: Mode)
        ensures
            r == mode_of(data_addr_bit, offset),
    {
        if offset & data_addr_bit != 0 {
            Mode::Data
        } else {
            Mode::Cmd
        }
    }
}

/// Spec twin of [`Mode::from_addr`].
pub open spec fn mode_of(data_addr_bit: u32, offset: u32) -> Mode {
    if offset & data_addr_bit != 0 {
        Mode::Data
    } else {
        Mode::Cmd
    }
}

/// Spec-level form of the display state.
pub struct DisplayV {
    pub cmd_addr_bit: u32,
    pub swap_bytes: bool,
    pub replies: Seq<(u8, Seq<u16>)>,
    pub region: Rect,
    pub cmd: Option<(u8, Seq<u16>)>,
    pub reply: Seq<u16>,
    pub drawing: bool,
    pub x: u16,
    pub y: u16,
    pub width: u16,
    pub height: u16,
    pub fb: int,
}

pub struct Display {
    pub config: DisplayConfig,
    pub name: String,
    pub draw_region: Rect,
    pub cmd: Option<(u8, Vec<u16>)>,
    pub reply: Vec<u16>,
    pub drawing: bool,
    pub current_position: Point,
    pub width: u16,
    pub height: u16,
    /// Index of the bound surface in [`Framebuffers`].
    pub fb: usize,
}

impl View for Display {
    type V = DisplayV;

    open spec fn view(&self) -> DisplayV {
        DisplayV {
            cmd_addr_bit: self.config.cmd_addr_bit,
            swap_bytes: self.config.swap_bytes == Some(true),
            replies: match self.config.replies {
                None => Seq::empty(),
                Some(ref rs) => rs@.map_values(|r: ReplyConfig| (r.cmd, r.data@)),
            },
            region: self.draw_region,
            cmd: match self.cmd {
                None => None,
                Some((c, ref args)) => Some((c, args@)),
            },
            reply: self.reply@,
            drawing: self.drawing,
            x: self.current_position.x,
            y: self.current_position.y,
            width: self.width,
            height: self.height,
            fb: self.fb as int,
        }
    }
}

/// A 16-bit value with its bytes exchanged.
pub open spec fn swap16(c: u16) -> u16 {
    ((c & 0xFF) << 8) | (c >> 8)
}

/// The data of the first configured reply for command byte `cmd`, if any.
pub open spec fn find_reply(replies: Seq<(u8, Seq<u16>)>, cmd: u8) -> Option<Seq<u16>>
    decreases replies.len(),
{
    if replies.len() == 0 {
        None
    } else if replies[0].0 == cmd {
        Some(replies[0].1)
    } else {
        find_reply(replies.drop_first(), cmd)
    }
}

/// The flat pixel index the display writes at its cursor, clamped to the
/// surface.
pub open spec fn display_pixel_index(d: DisplayV) -> int {
    let x = if d.x < d.width {
        d.x as int
    } else {
        d.width - 1
    };
    let y = if d.y < d.height {
        d.y as int
    } else {
        d.height - 1
    };
    x + y * d.width
}

/// One pixel deposited at the cursor (bytes swapped when configured), the
/// cursor advanced left-to-right inside the draw window, wrapping to the next
/// row past the right edge and back to the top past the bottom edge.
pub open spec fn display_draw_spec(d: DisplayV, pixels: Seq<u32>, c: u16) -> (DisplayV, Seq<u32>) {
    let c2 = if d.swap_bytes {
        swap16(c)
    } else {
        c
    };
    let pixels2 = pixels.update(display_pixel_index(d), c2 as u32);
    let x2 = d.x + 1;
    if x2 > d.region.right {
        let y2 = d.y + 1;
        if y2 > d.region.bottom {
            (DisplayV { x: d.region.left, y: d.region.top, ..d }, pixels2)
        } else {
            (DisplayV { x: d.region.left, y: y2 as u16, ..d }, pixels2)
        }
    } else {
        (DisplayV { x: x2 as u16, y: d.y, ..d }, pixels2)
    }
}

/// Completes the pending command once its arguments are there: the window
/// setters consume four argument words, `Draw` consumes none and enters
/// drawing mode; any other byte is answered from the configured replies when
/// present, and kept waiting otherwise.
pub open spec fn display_handle_cmd_spec(d: DisplayV) -> DisplayV {
    match d.cmd {
        None => d,
        Some((cmd, args)) => {
            if cmd == 0x2A && args.len() == 4 {
                let left = (args[0] << 8) | args[1];
                let right = (args[2] << 8) | args[3];
                DisplayV {
                    region: Rect { left, right, ..d.region },
                    cmd: None,
                    ..d
                }
            } else if cmd == 0x2B && args.len() == 4 {
                let top = (args[0] << 8) | args[1];
                let bottom = (args[2] << 8) | args[3];
                DisplayV {
                    region: Rect { top, bottom, ..d.region },
                    cmd: None,
                    ..d
                }
            } else if cmd == 0x2C && args.len() == 0 {
                DisplayV {
                    drawing: true,
                    x: d.region.left,
                    y: d.region.top,
                    cmd: None,
                    ..d
                }
            } else {
                match find_reply(d.replies, cmd) {
                    Some(data) => DisplayV { reply: data, cmd: None, ..d },
                    None => d,
                }
            }
        },
    }
}

/// One access arriving at the display: a command write aborts any unfinished
/// command and starts a new one; a data write deposits a pixel while drawing
/// and collects an argument word otherwise; either way the pending command is
/// then given a chance to complete.
pub open spec fn display_write_spec(d: DisplayV, pixels: Seq<u32>, addr: u32, value: u32) -> (
    DisplayV,
    Seq<u32>,
) {
    match mode_of(d.cmd_addr_bit, addr) {
        Mode::Cmd => {
            let d1 = DisplayV {
                drawing: false,
                cmd: Some((value as u8, Seq::empty())),
                ..d
            };
            (display_handle_cmd_spec(d1), pixels)
        },
        Mode::Data => {
            if d.drawing {
                let dr = display_draw_spec(d, pixels, value as u16);
                (display_handle_cmd_spec(dr.0), dr.1)
            } else {
                match d.cmd {
                    Some((cmd, args)) => {
                        let d1 = DisplayV { cmd: Some((cmd, args.push(value as u16))), ..d };
                        (display_handle_cmd_spec(d1), pixels)
                    },
                    None => (display_handle_cmd_spec(d), pixels),
                }
            }
        },
    }
}

/// The word one read returns, and the display after it: data reads pop the
/// reply queue, command reads return zero.
pub open spec fn display_read_spec(d: DisplayV, addr: u32) -> (u32, DisplayV) {
    match mode_of(d.cmd_addr_bit, addr) {
        Mode::Cmd => (0, d),
        Mode::Data => if d.reply.len() > 0 {
            (d.reply[0] as u32, DisplayV { reply: d.reply.drop_first(), ..d })
        } else {
            (0, d)
        },
    }
}

impl Display {
    /// The display agrees with its bound surface about geometry.
    pub open spec fn wf_with(self, fb: ImageV) -> bool {
        &&& fb.wf()
        &&& self.width == fb.width
        &&& self.height == fb.height
    }

    /// Binds the display to the named surface; the draw window starts as the
    /// whole surface.
    pub fn new(config: DisplayConfig, framebuffers: &Framebuffers) -> (r: Option<Display>)
        ensures
            match r {
                Some(d) => {
                    &&& d.config == config
                    &&& d.fb < framebuffers.images.len()
                    &&& framebuffers.images[d.fb as int].config.name@ == config.framebuffer@
                    &&& d.width == framebuffers.images[d.fb as int].config.width
                    &&& d.height == framebuffers.images[d.fb as int].config.height
                    &&& d@.cmd is None
                    &&& d@.reply.len() == 0
                    &&& !d@.drawing
                    &&& d@.x == 0 && d@.y == 0
                    &&& d.draw_region.left == 0 && d.draw_region.top == 0
                    &&& d.width > 0 ==> d.draw_region.right == d.width - 1
                    &&& d.height > 0 ==> d.draw_region.bottom == d.height - 1
                },
                None => match crate::framebuffers::fb_index_from(
                    framebuffers.images@,
                    config.framebuffer@,
                    0,
                ) {
                    None => true,
                    Some(i) => framebuffers.images[i].config.width == 0
                        || framebuffers.images[i].config.height == 0,
                },
            },
    {
        match framebuffers.get(config.framebuffer.as_str()) {
            None => None,
            Some(fb) => {
                let width = framebuffers.images[fb].config.width;
                let height = framebuffers.images[fb].config.height;
                if width == 0 || height == 0 {
                    return None;
                }
                Some(
                    Display {
                        config,
                        name: String::new(),
                        draw_region: Rect { left: 0, top: 0, right: width - 1, bottom: height - 1 },
                        cmd: None,
                        reply: Vec::new(),
                        drawing: false,
                        current_position: Point { x: 0, y: 0 },
                        width,
                        height,
                        fb,
                    },
                )
            },
        }
    }

    /// Records the peripheral this device is bound to; returns the display
    /// name used in traces.
    pub fn connect_peripheral(&mut self, peri_name: &str) -> (r: String)
        ensures
            final(self)@ == old(self)@,
            final(self).config == old(self).config,
            final(self).name@ == peri_name@ + " display"@,
            r@ == final(self).name@,
    {
        let mut name = String::new();
        name.append(peri_name);
        name.append(" display");
        self.name = name.clone();
        name
    }

    /// The flat pixel index for `(x, y)`, clamped to the surface; always in
    /// bounds.
    pub fn get_framebuffer_pixel_index(&self, x: u16, y: u16) -> (i: usize)
        requires
            self.width > 0,
            self.height > 0,
        ensures
            i == (if x < self.width {
                x as int
            } else {
                self.width - 1
            }) + (if y < self.height {
                y as int
            } else {
                self.height - 1
            }) * self.width,
            i < self.width * self.height,
    {
        let x = if x < self.width {
            x as usize
        } else {
            (self.width - 1) as usize
        };
        let y = if y < self.height {
            y as usize
        } else {
            (self.height - 1) as usize
        };
        proof {
            assert(x + y * self.width < self.width * self.height && self.width * self.height
                <= 0xFFFF * 0xFFFF) by (nonlinear_arith)
                requires
                    x < self.width && y < self.height && self.width <= 0xFFFF && self.height
                        <= 0xFFFF,
            ;
        }
        x + y * (self.width as usize)
    }

    /// Deposits one pixel word and advances the cursor inside the draw
    /// window.
    pub fn draw_pixel(&mut self, c: u16, framebuffers: &mut Framebuffers)
        requires
            old(self).fb < old(framebuffers).images.len(),
            old(self).wf_with(old(framebuffers)@[old(self).fb as int]),
        ensures
            ({
                let r = display_draw_spec(
                    old(self)@,
                    old(framebuffers)@[old(self).fb as int].pixels,
                    c,
                );
                &&& final(self)@ == r.0
                &&& final(framebuffers)@ == old(framebuffers)@.update(
                    old(self).fb as int,
                    ImageV { pixels: r.1, ..old(framebuffers)@[old(self).fb as int] },
                )
            }),
            forall|j: int|
                0 <= j < old(framebuffers).images.len()
                    ==> (#[trigger] final(framebuffers).images[j]).config
                    == old(framebuffers).images[j].config,
            final(self).config == old(self).config && final(self).name == old(self).name,
            final(self).fb == old(self).fb && final(self).width == old(self).width,
            final(self).height == old(self).height,
            final(self).wf_with(final(framebuffers)@[final(self).fb as int]),
    {
        let ghost pre_fbs = framebuffers@;
        let c2 = if self.config.swap_bytes == Some(true) {
            ((c & 0xFF) << 8) | (c >> 8)
        } else {
            c
        };
        let i = self.get_framebuffer_pixel_index(self.current_position.x, self.current_position.y);
        let mut img = framebuffers.images.remove(self.fb);
        img.framebuffer.set(i, c2 as u32);
        framebuffers.images.insert(self.fb, img);
        let x32 = self.current_position.x as u32 + 1;
        if x32 > self.draw_region.right as u32 {
            let y32 = self.current_position.y as u32 + 1;
            if y32 > self.draw_region.bottom as u32 {
                self.current_position = Point { x: self.draw_region.left, y: self.draw_region.top };
            } else {
                self.current_position = Point { x: self.draw_region.left, y: y32 as u16 };
            }
        } else {
            self.current_position = Point { x: x32 as u16, y: self.current_position.y };
        }
        proof {
            let r = display_draw_spec(old(self)@, pre_fbs[old(self).fb as int].pixels, c);
            assert(framebuffers@ =~~= pre_fbs.update(
                old(self).fb as int,
                ImageV { pixels: r.1, ..pre_fbs[old(self).fb as int] },
            ));
        }
    }

    /// Gives the pending command a chance to complete.
    pub fn handle_cmd(&mut self)
        ensures
            final(self)@ == display_handle_cmd_spec(old(self)@),
            final(self).config == old(self).config && final(self).name == old(self).name,
            final(self).fb == old(self).fb && final(self).width == old(self).width,
            final(self).height == old(self).height,
    {
        let cmd_taken = self.cmd.take();
        match cmd_taken {
            None => {},
            Some((cmd, args)) => {
                if cmd == 0x2A && args.len() == 4 {
                    let left = (args[0] << 8) | args[1];
                    let right = (args[2] << 8) | args[3];
                    self.draw_region.left = left;
                    self.draw_region.right = right;
                } else if cmd == 0x2B && args.len() == 4 {
                    let top = (args[0] << 8) | args[1];
                    let bottom = (args[2] << 8) | args[3];
                    self.draw_region.top = top;
                    self.draw_region.bottom = bottom;
                } else if cmd == 0x2C && args.len() == 0 {
                    self.drawing = true;
                    self.current_position = Point {
                        x: self.draw_region.left,
                        y: self.draw_region.top,
                    };
                } else {
                    match self.find_reply_exec(cmd) {
                        Some(data) => {
                            self.reply = data;
                        },
                        None => {
                            self.cmd = Some((cmd, args));
                        },
                    }
                }
            },
        }
    }

    /// Looks the command byte up in the configured replies.
    fn find_reply_exec(&self, cmd: u8) -> (r: Option<Vec<u16>>)
        ensures
            match r {
                Some(ref d) => find_reply(self@.replies, cmd) == Some(d@),
                None => find_reply(self@.replies, cmd) is None,
            },
    {
        match &self.config.replies {
            None => None,
            Some(rs) => {
                proof {
                    assert(self@.replies.skip(0) =~= self@.replies);
                }
                let n = rs.len();
                for i in 0..n
                    invariant
                        n == rs.len(),
                        self.config.replies == Some(*rs),
                        find_reply(self@.replies, cmd) == find_reply(
                            self@.replies.skip(i as int),
                            cmd,
                        ),
                {
                    proof {
                        assert(self@.replies.skip(i as int).drop_first() =~= self@.replies.skip(
                            i as int + 1,
                        ));
                        assert(self@.replies[i as int] == (rs[i as int].cmd, rs[i as int].data@));
                    }
                    if rs[i].cmd == cmd {
                        return Some(rs[i].data.clone());
                    }
                }
                None
            },
        }
    }

    /// Ends any command in progress and leaves drawing mode.
    pub fn finish_cmd(&mut self)
        ensures
            *final(self) == (Display { drawing: false, cmd: None, ..*old(self) }),
    {
        self.drawing = false;
        self.cmd = None;
    }

    /// One bus write: command or data, decoded from the raw offset.
    pub fn write(&mut self, addr: u32, value: u32, framebuffers: &mut Framebuffers)
        requires
            old(self).fb < old(framebuffers).images.len(),
            old(self).wf_with(old(framebuffers)@[old(self).fb as int]),
        ensures
            ({
                let r = display_write_spec(
                    old(self)@,
                    old(framebuffers)@[old(self).fb as int].pixels,
                    addr,
                    value,
                );
                &&& final(self)@ == r.0
                &&& final(framebuffers)@ == old(framebuffers)@.update(
                    old(self).fb as int,
                    ImageV { pixels: r.1, ..old(framebuffers)@[old(self).fb as int] },
                )
            }),
            forall|j: int|
                0 <= j < old(framebuffers).images.len()
                    ==> (#[trigger] final(framebuffers).images[j]).config
                    == old(framebuffers).images[j].config,
            final(self).config == old(self).config && final(self).name == old(self).name,
            final(self).fb == old(self).fb && final(self).width == old(self).width,
            final(self).height == old(self).height,
            final(self).wf_with(final(framebuffers)@[final(self).fb as int]),
    {
        let ghost pre_fbs = framebuffers@;
        let mode = Mode::from_addr(self.config.cmd_addr_bit, addr);
        match mode {
            Mode::Cmd => {
                self.finish_cmd();
                self.cmd = Some(((value as u8), Vec::new()));
            },
            Mode::Data => {
                if self.drawing {
                    self.draw_pixel(value as u16, framebuffers);
                    self.handle_cmd();
                    return ;
                } else {
                    let cmd_taken = self.cmd.take();
                    if let Some((cmd, mut args)) = cmd_taken {
                        args.push(value as u16);
                        self.cmd = Some((cmd, args));
                    }
                }
            },
        }
        self.handle_cmd();
        proof {
            assert(framebuffers@ =~~= pre_fbs.update(
                self.fb as int,
                ImageV { pixels: pre_fbs[self.fb as int].pixels, ..pre_fbs[self.fb as int] },
            ));
        }
    }

    /// One bus read: data reads pop the reply queue, command reads return 0.
    pub fn read(&mut self, addr: u32) -> (r: u32)
        ensures
            (r, final(self)@) == display_read_spec(old(self)@, addr),
            final(self).config == old(self).config && final(self).name == old(self).name,
            final(self).fb == old(self).fb && final(self).width == old(self).width,
            final(self).height == old(self).height,
    {
        let mode = Mode::from_addr(self.config.cmd_addr_bit, addr);
        match mode {
            Mode::Cmd => 0,
            Mode::Data => {
                if self.reply.len() > 0 {
                    (self.reply.remove(0)) as u32
                } else {
                    0
                }
            },
        }
    }
}

/// The display's clamped pixel index always lies inside the surface.
pub proof fn lemma_display_pixel_index_bounds(d: DisplayV)
    requires
        d.width > 0,
        d.height > 0,
    ensures
        0 <= display_pixel_index(d) < d.width * d.height,
{
    let x = if d.x < d.width {
        d.x as int
    } else {
        d.width - 1
    };
    let y = if d.y < d.height {
        d.y as int
    } else {
        d.height - 1
    };
    assert(x + y * d.width < d.width * d.height) by (nonlinear_arith)
        requires
            0 <= x < d.width && 0 <= y < d.height,
    ;
}

} // verus!
