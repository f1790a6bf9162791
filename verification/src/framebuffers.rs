//! Framebuffer surfaces: named pixel buffers shared between display-class
//! devices (writers) and touchscreens (readers of the touch position). Pixels
//! are carried as 32-bit cells; RGB565 surfaces use the low 16 bits.
//!
//! The presentation and PNG backends live outside the model; [`Image`] offers
//! the RGB expansion that the PNG writer consumes.

use vstd::prelude::*;

use crate::util::{str_eq, ConfigError};

verus! {

pub struct FramebufferConfig {
    pub name: String,
    pub width: u16,
    pub height: u16,
    /// `"rgb565"` or `"rgb888"`.
    pub mode: String,
    pub image: Option<ImageBackendConfig>,
    pub sdl: Option<bool>,
    pub downscale: Option<u32>,
}

pub struct ImageBackendConfig {
    pub file: String,
}

/// A framebuffer surface: configuration, `width * height` pixel cells, and
/// the current touch position (pixel coordinates), if a pointer is down.
pub struct Image {
    pub config: FramebufferConfig,
    pub framebuffer: Vec<u32>,
    pub touch_position: Option<(u16, u16)>,
}

/// Spec-level form of a surface.
pub struct ImageV {
    pub width: u16,
    pub height: u16,
    pub pixels: Seq<u32>,
    pub touch: Option<(u16, u16)>,
}

impl View for Image {
    type V = ImageV;

    open spec fn view(&self) -> ImageV {
        ImageV {
            width: self.config.width,
            height: self.config.height,
            pixels: self.framebuffer@,
            touch: self.touch_position,
        }
    }
}

impl ImageV {
    /// Positive dimensions, a fully allocated pixel buffer, and a touch
    /// position (when present) inside the surface.
    pub open spec fn wf(self) -> bool {
        &&& self.width > 0
        &&& self.height > 0
        &&& self.pixels.len() == self.width * self.height
        &&& match self.touch {
            Some((x, y)) => x < self.width && y < self.height,
            None => true,
        }
    }
}

impl Image {
    /// Positive dimensions, a fully allocated pixel buffer, and a touch
    /// position (when present) inside the surface.
    pub open spec fn wf(self) -> bool {
        self@.wf()
    }

    /// Allocates a zeroed surface for `config`.
    pub fn new(config: FramebufferConfig) -> (r: Image)
        ensures
            r.config == config,
            r.framebuffer.len() == config.width * config.height,
            forall|i: int| 0 <= i < r.framebuffer.len() ==> r.framebuffer[i] == 0,
            r.touch_position is None,
            config.width > 0 && config.height > 0 ==> r.wf(),
    {
        proof {
            assert(config.width * config.height <= 0xFFFE_0001) by (nonlinear_arith)
                requires
                    config.width <= 0xFFFF && config.height <= 0xFFFF,
            ;
        }
        let n: usize = (config.width as usize) * (config.height as usize);
        let mut framebuffer: Vec<u32> = Vec::new();
        while framebuffer.len() < n
            invariant
                framebuffer.len() <= n,
                forall|i: int| 0 <= i < framebuffer.len() ==> framebuffer[i] == 0,
            decreases n - framebuffer.len(),
        {
            framebuffer.push(0);
        }
        Image { config, framebuffer, touch_position: None }
    }

    /// Expands the RGB565 buffer into 8-bit RGB triples, one per pixel, in
    /// buffer order.
    pub fn get_framebuffer_as_rgb(&self) -> (v: Vec<u8>)
        ensures
            v.len() == 3 * self.framebuffer.len(),
            forall|i: int|
                0 <= i < self.framebuffer.len() ==> {
                    let c = #[trigger] self.framebuffer[i] as u16;
                    &&& v[3 * i] == rgb565_r(c)
                    &&& v[3 * i + 1] == rgb565_g(c)
                    &&& v[3 * i + 2] == rgb565_b(c)
                },
    {
        let n = self.framebuffer.len();
        let mut v: Vec<u8> = Vec::new();
        for i in 0..n
            invariant
                n == self.framebuffer.len(),
                v.len() == 3 * i,
                forall|j: int|
                    0 <= j < i ==> {
                        let c = #[trigger] self.framebuffer[j] as u16;
                        &&& v[3 * j] == rgb565_r(c)
                        &&& v[3 * j + 1] == rgb565_g(c)
                        &&& v[3 * j + 2] == rgb565_b(c)
                    },
        {
            let c = self.framebuffer[i] as u16;
            let r = ((c >> 11) as u32) * 0xFF / 0b11111;
            let g = (((c >> 5) & 0b111111) as u32) * 0xFF / 0b111111;
            let b = ((c & 0b11111) as u32) * 0xFF / 0b11111;
            proof {
                assert(((c >> 11) as u32) * 0xFF / 0b11111 <= 0xFF && (((c >> 5)
                    & 0b111111) as u32) * 0xFF / 0b111111 <= 0xFF && ((c & 0b11111) as u32) * 0xFF
                    / 0b11111 <= 0xFF) by (bit_vector);
            }
            v.push(r as u8);
            v.push(g as u8);
            v.push(b as u8);
        }
        v
    }
}

/// The 8-bit red channel of an RGB565 pixel.
pub open spec fn rgb565_r(c: u16) -> u8 {
    (((c >> 11) as u32) * 0xFF / 0b11111) as u8
}

/// The 8-bit green channel of an RGB565 pixel.
pub open spec fn rgb565_g(c: u16) -> u8 {
    ((((c >> 5) & 0b111111) as u32) * 0xFF / 0b111111) as u8
}

/// The 8-bit blue channel of an RGB565 pixel.
pub open spec fn rgb565_b(c: u16) -> u8 {
    (((c & 0b11111) as u32) * 0xFF / 0b11111) as u8
}

/// A framebuffer entry is usable: exactly one backend (image or
/// presentation) and positive dimensions.
pub open spec fn fb_config_ok(c: FramebufferConfig) -> bool {
    &&& (c.image is Some) != (c.sdl == Some(true))
    &&& c.width > 0
    &&& c.height > 0
}

/// Index of the first surface named `name`, scanning from `i`.
pub open spec fn fb_index_from(images: Seq<Image>, name: Seq<char>, i: int) -> Option<int>
    decreases images.len() - i,
{
    if i < 0 || i >= images.len() {
        None
    } else if images[i].config.name@ == name {
        Some(i)
    } else {
        fb_index_from(images, name, i + 1)
    }
}

/// All framebuffer surfaces, addressed by index; devices hold the index of
/// the surface they were bound to by name.
pub struct Framebuffers {
    pub images: Vec<Image>,
}

impl View for Framebuffers {
    type V = Seq<ImageV>;

    open spec fn view(&self) -> Seq<ImageV> {
        self.images@.map_values(|im: Image| im@)
    }
}

impl Framebuffers {
    pub fn new() -> (r: Framebuffers)
        ensures
            r.images@.len() == 0,
    {
        Framebuffers { images: Vec::new() }
    }

    /// All surfaces are well formed.
    pub open spec fn wf(self) -> bool {
        forall|i: int| 0 <= i < self.images.len() ==> (#[trigger] self.images[i]).wf()
    }

    /// Builds the surfaces from their configurations; succeeds exactly when
    /// every entry names one backend and has positive dimensions.
    #[verifier::loop_isolation(false)]
    pub fn from_config(config: Vec<FramebufferConfig>) -> (r: Result<Framebuffers, ConfigError>)
        ensures
            r is Ok <==> forall|i: int| 0 <= i < config.len() ==> fb_config_ok(#[trigger] config[i]),
            match r {
                Ok(f) => {
                    &&& f.wf()
                    &&& f.images.len() == config.len()
                    &&& forall|i: int|
                        0 <= i < config.len() ==> (#[trigger] f.images[i]).config == config[i]
                            && f.images[i]@.touch is None && forall|t: int|
                            0 <= t < f.images[i]@.pixels.len() ==> f.images[i]@.pixels[t] == 0
                },
                Err(e) => e == ConfigError::BadFramebufferConfig,
            },
    {
        let mut images: Vec<Image> = Vec::new();
        let n = config.len();
        let mut config = config;
        let ghost orig = config@;
        for i in 0..n
            invariant
                n == orig.len(),
                config@ == orig.skip(i as int),
                images.len() == i,
                forall|j: int|
                    0 <= j < i ==> (#[trigger] images[j]).config == orig[j] && images[j]@.touch
                        is None && images[j].wf() && (forall|t: int|
                        0 <= t < images[j]@.pixels.len() ==> images[j]@.pixels[t] == 0),
                forall|j: int| 0 <= j < i ==> fb_config_ok(#[trigger] orig[j]),
        {
            proof {
                assert(orig.skip(i as int).drop_first() =~= orig.skip(i + 1));
            }
            let c = config.remove(0);
            let has_image = c.image.is_some();
            let has_sdl = match c.sdl {
                Some(b) => b,
                None => false,
            };
            if has_image == has_sdl || c.width == 0 || c.height == 0 {
                proof {
                    assert(!fb_config_ok(orig[i as int]));
                }
                return Err(ConfigError::BadFramebufferConfig);
            }
            images.push(Image::new(c));
        }
        Ok(Framebuffers { images })
    }

    /// Looks a surface up by name; `Some(i)` is the first match.
    pub fn get(&self, name: &str) -> (r: Option<usize>)
        ensures
            match r {
                Some(i) => fb_index_from(self.images@, name@, 0) == Some(i as int) && i
                    < self.images.len() && self.images[i as int].config.name@ == name@,
                None => fb_index_from(self.images@, name@, 0) is None && forall|i: int|
                    0 <= i < self.images.len() ==> (#[trigger] self.images[i]).config.name@
                        != name@,
            },
    {
        let n = self.images.len();
        for i in 0..n
            invariant
                n == self.images.len(),
                forall|j: int|
                    0 <= j < i ==> (#[trigger] self.images[j]).config.name@ != name@,
                fb_index_from(self.images@, name@, 0) == fb_index_from(
                    self.images@,
                    name@,
                    i as int,
                ),
        {
            if str_eq(self.images[i].config.name.as_str(), name) {
                return Some(i);
            }
        }
        None
    }
}

} // verus!
