//! SPI controller model: `CR1` is a plain shadow register (bit 11 selects
//! 16-bit frames), `SR` reports ready on alternating reads, and `DR` moves
//! whole frames to and from the bound serial device (high byte first in
//! 16-bit mode), the returned bytes landing in the receive buffer.

use vstd::prelude::*;

use crate::ext_devices::{
    handle_ok, serial_read_spec, serial_write_spec, DeviceHandle, ExtDevices, ExtDevicesV,
};
use crate::framebuffers::{Framebuffers, ImageV};

verus! {

pub struct Spi {
    pub name: String,
    pub cr1: u32,
    pub rx_buffer: u32,
    pub ready_toggle: bool,
    pub device: Option<DeviceHandle>,
}

/// `CR1` bit 11 selects 16-bit frames.
pub open spec fn spi_is_16bits(s: Spi) -> bool {
    s.cr1 & (1u32 << 11) != 0
}

/// The value an SPI register read returns and the state after it: `CR1` and
/// `DR` return their shadow values, `SR` flips between ready (TXE | RXNE)
/// and zero.
pub open spec fn spi_read_spec(s: Spi, offset: u32) -> (u32, Spi) {
    if offset == 0x0000 {
        (s.cr1, s)
    } else if offset == 0x0008 {
        let s2 = Spi { ready_toggle: !s.ready_toggle, ..s };
        (
            if s2.ready_toggle {
                0b11u32
            } else {
                0u32
            },
            s2,
        )
    } else if offset == 0x000C {
        (s.rx_buffer, s)
    } else {
        (0u32, s)
    }
}

/// The controller, device arena and framebuffers after an SPI register
/// write. A `DR` write sends the frame to the bound device (high byte first
/// in 16-bit mode), then reads the same number of bytes back into the
/// receive buffer (packed big-endian); without a device the buffer clears.
pub open spec fn spi_write_spec(
    s: Spi,
    d: ExtDevicesV,
    fbs: Seq<ImageV>,
    offset: u32,
    value: u32,
) -> (Spi, ExtDevicesV, Seq<ImageV>) {
    if offset == 0x0000 {
        (Spi { cr1: value, ..s }, d, fbs)
    } else if offset == 0x000C {
        match s.device {
            None => (Spi { rx_buffer: 0, ..s }, d, fbs),
            Some(h) => if spi_is_16bits(s) {
                let w1 = serial_write_spec(d, fbs, h, ((value >> 8) & 0xFF) as u8);
                let w2 = serial_write_spec(w1.0, w1.1, h, (value & 0xFF) as u8);
                let r1 = serial_read_spec(w2.0, h);
                let r2 = serial_read_spec(r1.1, h);
                (
                    Spi { rx_buffer: (((r1.0 as u32) << 8) | (r2.0 as u32)) as u32, ..s },
                    r2.1,
                    w2.1,
                )
            } else {
                let w1 = serial_write_spec(d, fbs, h, (value & 0xFF) as u8);
                let r1 = serial_read_spec(w1.0, h);
                (Spi { rx_buffer: r1.0 as u32, ..s }, r1.1, w1.1)
            },
        }
    } else {
        (s, d, fbs)
    }
}

impl Spi {
    /// The bound device handle, when present, points at an existing device.
    pub open spec fn wf_with(self, d: ExtDevicesV) -> bool {
        match self.device {
            Some(h) => handle_ok(d, h),
            None => true,
        }
    }

    pub fn new(name: String, device: Option<DeviceHandle>) -> (r: Spi)
        ensures
            r == (Spi {
                name,
                cr1: 0u32,
                rx_buffer: 0u32,
                ready_toggle: false,
                device,
            }),
    {
        Spi { name, cr1: 0, rx_buffer: 0, ready_toggle: false, device }
    }

    /// The controller is in 16-bit frame mode.
    pub fn is_16bits(&self) -> (r: bool)
        ensures
            r == spi_is_16bits(*self),
    {
        self.cr1 & (1u32 << 11) != 0
    }

    pub fn read(&mut self, offset: u32) -> (r: u32)
        ensures
            (r, *final(self)) == spi_read_spec(*old(self), offset),
    {
        if offset == 0x0000 {
            self.cr1
        } else if offset == 0x0008 {
            self.ready_toggle = !self.ready_toggle;
            if self.ready_toggle {
                0b11
            } else {
                0
            }
        } else if offset == 0x000C {
            self.rx_buffer
        } else {
            0
        }
    }

    pub fn write(
        &mut self,
        offset: u32,
        value: u32,
        devices: &mut ExtDevices,
        framebuffers: &mut Framebuffers,
    )
        requires
            old(self).wf_with(old(devices)@),
            old(devices).wf_with(*old(framebuffers)),
        ensures
            (*final(self), final(devices)@, final(framebuffers)@) == spi_write_spec(
                *old(self),
                old(devices)@,
                old(framebuffers)@,
                offset,
                value,
            ),
            old(devices).same_shape(*final(devices)),
            final(framebuffers).images.len() == old(framebuffers).images.len(),
            forall|j: int|
                0 <= j < old(framebuffers).images.len()
                    ==> (#[trigger] final(framebuffers).images[j]).config
                    == old(framebuffers).images[j].config,
            final(devices).wf_with(*final(framebuffers)),
            final(self).wf_with(final(devices)@),
    {
        if offset == 0x0000 {
            self.cr1 = value;
        } else if offset == 0x000C {
            match self.device {
                None => {
                    self.rx_buffer = 0;
                },
                Some(h) => {
                    if self.is_16bits() {
                        devices.serial_write(h, ((value >> 8) & 0xFF) as u8, framebuffers);
                        devices.serial_write(h, (value & 0xFF) as u8, framebuffers);
                        let hi = devices.serial_read(h);
                        let lo = devices.serial_read(h);
                        self.rx_buffer = ((hi as u32) << 8) | (lo as u32);
                    } else {
                        devices.serial_write(h, (value & 0xFF) as u8, framebuffers);
                        let b = devices.serial_read(h);
                        self.rx_buffer = b as u32;
                    }
                },
            }
        }
    }
}

} // verus!
