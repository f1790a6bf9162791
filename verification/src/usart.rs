//! USART model: the status register always reports TXE, TC, RXNE and IDLE,
//! and the data register moves single bytes to and from the bound serial
//! device.

use vstd::prelude::*;

use crate::ext_devices::{
    handle_ok, serial_read_spec, serial_write_spec, DeviceHandle, ExtDevices, ExtDevicesV,
};
use crate::framebuffers::{Framebuffers, ImageV};

verus! {

pub struct Usart {
    pub name: String,
    pub device: Option<DeviceHandle>,
}

/// `SR` with TXE (bit 7), TC (bit 6), RXNE (bit 5) and IDLE (bit 4)
/// asserted.
pub open spec fn usart_sr_value() -> u32 {
    (1u32 << 7) | (1u32 << 6) | (1u32 << 5) | (1u32 << 4)
}

/// The value a USART register read returns and the device arena after it:
/// `SR` is always-ready, `DR` pulls one byte from the bound device (zero
/// without one).
pub open spec fn usart_read_spec(u: Usart, d: ExtDevicesV, offset: u32) -> (u32, ExtDevicesV) {
    if offset == 0x0000 {
        (usart_sr_value(), d)
    } else if offset == 0x0004 {
        match u.device {
            None => (0u32, d),
            Some(h) => {
                let r = serial_read_spec(d, h);
                (r.0 as u32, r.1)
            },
        }
    } else {
        (0u32, d)
    }
}

/// The device arena and framebuffers after a USART register write: `DR`
/// forwards the low byte to the bound device; everything else is ignored.
pub open spec fn usart_write_spec(
    u: Usart,
    d: ExtDevicesV,
    fbs: Seq<ImageV>,
    offset: u32,
    value: u32,
) -> (ExtDevicesV, Seq<ImageV>) {
    if offset == 0x0004 {
        match u.device {
            None => (d, fbs),
            Some(h) => serial_write_spec(d, fbs, h, (value & 0xFF) as u8),
        }
    } else {
        (d, fbs)
    }
}

impl Usart {
    /// The bound device handle, when present, points at an existing device.
    pub open spec fn wf_with(self, d: ExtDevicesV) -> bool {
        match self.device {
            Some(h) => handle_ok(d, h),
            None => true,
        }
    }

    pub fn new(name: String, device: Option<DeviceHandle>) -> (r: Usart)
        ensures
            r == (Usart { name, device }),
    {
        Usart { name, device }
    }

    pub fn read(&self, offset: u32, devices: &mut ExtDevices) -> (r: u32)
        requires
            self.wf_with(old(devices)@),
            forall|i: int|
                0 <= i < old(devices).spi_flashes.len() ==> (#[trigger] old(
                    devices,
                ).spi_flashes[i]).wf(),
        ensures
            (r, final(devices)@) == usart_read_spec(*self, old(devices)@, offset),
            old(devices).same_shape(*final(devices)),
            forall|fbs: Framebuffers|
                old(devices).wf_with(fbs) ==> #[trigger] final(devices).wf_with(fbs),
    {
        if offset == 0x0000 {
            (1u32 << 7) | (1u32 << 6) | (1u32 << 5) | (1u32 << 4)
        } else if offset == 0x0004 {
            match self.device {
                None => 0,
                Some(h) => devices.serial_read(h) as u32,
            }
        } else {
            0
        }
    }

    pub fn write(
        &self,
        offset: u32,
        value: u32,
        devices: &mut ExtDevices,
        framebuffers: &mut Framebuffers,
    )
        requires
            self.wf_with(old(devices)@),
            old(devices).wf_with(*old(framebuffers)),
        ensures
            (final(devices)@, final(framebuffers)@) == usart_write_spec(
                *self,
                old(devices)@,
                old(framebuffers)@,
                offset,
                value,
            ),
            old(devices).same_shape(*final(devices)),
            final(framebuffers).images.len() == old(framebuffers).images.len(),
            forall|j: int|
                0 <= j < old(framebuffers).images.len()
                    ==> (#[trigger] final(framebuffers).images[j]).config
                    == old(framebuffers).images[j].config,
            final(devices).wf_with(*final(framebuffers)),
    {
        if offset == 0x0004 {
            match self.device {
                None => {},
                Some(h) => {
                    devices.serial_write(h, (value & 0xFF) as u8, framebuffers);
                },
            }
        }
    }
}

} // verus!
