//! FSMC (flexible static memory controller): four banks, each 256 MiB of
//! data space forwarded raw to the bank's memory-mapped display device, plus
//! a fixed register file that reads zero and swallows writes. The raw offset
//! reaches the device because displays decode command-versus-data from an
//! address bit.

use vstd::prelude::*;

use crate::ext_devices::{mem_read_spec, mem_write_spec, ExtDevices, ExtDevicesV};
use crate::framebuffers::{Framebuffers, ImageV};

verus! {

/// The FSMC control registers.
#[derive(Clone, Copy, PartialEq, Eq, Structural, Debug)]
pub enum FsmcReg {
    Bcr,
    Btr,
    Pmem,
    Patt,
    Eccr,
    Pcr,
    Sr,
    Bwtr,
    Pio,
    Invalid,
}

/// Where an FSMC offset lands: a bank's data space with its in-bank offset,
/// or a control register of a bank.
#[derive(Clone, Copy, PartialEq, Eq, Structural, Debug)]
pub enum FsmcAccess {
    Data(usize, u32),
    Register(usize, FsmcReg),
}

/// Decodes an offset into the FSMC slot: the first gigabyte is split into
/// four 256 MiB data windows, one per bank; the register file follows.
/// Anything else is an invalid register access.
pub open spec fn fsmc_access_spec(offset: u32) -> FsmcAccess {
    if offset < 0x1000_0000 {
        FsmcAccess::Data(0, offset)
    } else if offset < 0x2000_0000 {
        FsmcAccess::Data(1, (offset - 0x1000_0000) as u32)
    } else if offset < 0x3000_0000 {
        FsmcAccess::Data(2, (offset - 0x2000_0000) as u32)
    } else if offset < 0x4000_0000 {
        FsmcAccess::Data(3, (offset - 0x3000_0000) as u32)
    } else if offset < 0x5000_0000 {
        let r = (offset - 0x4000_0000) as u32;
        if r == 0x0000 {
            FsmcAccess::Register(0, FsmcReg::Bcr)
        } else if r == 0x0004 {
            FsmcAccess::Register(0, FsmcReg::Btr)
        } else if r == 0x0008 {
            FsmcAccess::Register(1, FsmcReg::Bcr)
        } else if r == 0x000C {
            FsmcAccess::Register(1, FsmcReg::Btr)
        } else if r == 0x0010 {
            FsmcAccess::Register(2, FsmcReg::Bcr)
        } else if r == 0x0014 {
            FsmcAccess::Register(2, FsmcReg::Btr)
        } else if r == 0x0018 {
            FsmcAccess::Register(3, FsmcReg::Bcr)
        } else if r == 0x001C {
            FsmcAccess::Register(3, FsmcReg::Btr)
        } else if r == 0x0060 {
            FsmcAccess::Register(1, FsmcReg::Pcr)
        } else if r == 0x0064 {
            FsmcAccess::Register(1, FsmcReg::Sr)
        } else if r == 0x0068 {
            FsmcAccess::Register(1, FsmcReg::Pmem)
        } else if r == 0x006C {
            FsmcAccess::Register(1, FsmcReg::Patt)
        } else if r == 0x0074 {
            FsmcAccess::Register(1, FsmcReg::Eccr)
        } else if r == 0x0080 {
            FsmcAccess::Register(2, FsmcReg::Pcr)
        } else if r == 0x0084 {
            FsmcAccess::Register(2, FsmcReg::Sr)
        } else if r == 0x0088 {
            FsmcAccess::Register(2, FsmcReg::Pmem)
        } else if r == 0x008C {
            FsmcAccess::Register(2, FsmcReg::Patt)
        } else if r == 0x0094 {
            FsmcAccess::Register(2, FsmcReg::Eccr)
        } else if r == 0x00A0 {
            FsmcAccess::Register(3, FsmcReg::Pcr)
        } else if r == 0x00A4 {
            FsmcAccess::Register(3, FsmcReg::Sr)
        } else if r == 0x00A8 {
            FsmcAccess::Register(3, FsmcReg::Pmem)
        } else if r == 0x00AC {
            FsmcAccess::Register(3, FsmcReg::Patt)
        } else if r == 0x00B0 {
            FsmcAccess::Register(3, FsmcReg::Pio)
        } else if r == 0x0104 {
            FsmcAccess::Register(0, FsmcReg::Bwtr)
        } else if r == 0x010C {
            FsmcAccess::Register(1, FsmcReg::Bwtr)
        } else if r == 0x0114 {
            FsmcAccess::Register(2, FsmcReg::Bwtr)
        } else if r == 0x011C {
            FsmcAccess::Register(3, FsmcReg::Bwtr)
        } else {
            FsmcAccess::Register(0, FsmcReg::Invalid)
        }
    } else {
        FsmcAccess::Register(0, FsmcReg::Invalid)
    }
}

/// One FSMC bank: its trace name and the display device bound to its data
/// window, if any.
pub struct Bank {
    pub name: String,
    /// Index into the display list of [`ExtDevices`].
    pub device: Option<usize>,
}

pub struct Fsmc {
    pub banks: Vec<Bank>,
}

/// The word an FSMC read returns and the device arena after it: data reads
/// go to the bank's display (zero without one), register reads return zero.
pub open spec fn fsmc_read_spec(f: Fsmc, d: ExtDevicesV, offset: u32) -> (u32, ExtDevicesV) {
    match fsmc_access_spec(offset) {
        FsmcAccess::Data(bank, off) => match f.banks[bank as int].device {
            Some(i) => mem_read_spec(d, i as int, off),
            None => (0u32, d),
        },
        FsmcAccess::Register(_, _) => (0u32, d),
    }
}

/// The device arena and framebuffers after an FSMC write: data writes go to
/// the bank's display, register writes are traced only.
pub open spec fn fsmc_write_spec(
    f: Fsmc,
    d: ExtDevicesV,
    fbs: Seq<ImageV>,
    offset: u32,
    value: u32,
) -> (ExtDevicesV, Seq<ImageV>) {
    match fsmc_access_spec(offset) {
        FsmcAccess::Data(bank, off) => match f.banks[bank as int].device {
            Some(i) => mem_write_spec(d, fbs, i as int, off, value),
            None => (d, fbs),
        },
        FsmcAccess::Register(_, _) => (d, fbs),
    }
}

impl Fsmc {
    /// Four banks, each bound (if at all) to an existing display.
    pub open spec fn wf_with(self, d: ExtDevicesV) -> bool {
        &&& self.banks.len() == 4
        &&& forall|b: int|
            0 <= b < 4 ==> match (#[trigger] self.banks[b]).device {
                Some(i) => i < d.displays.len(),
                None => true,
            }
    }

    /// Decodes an offset into the FSMC slot.
    pub fn access(offset: u32) -> (r: FsmcAccess)
        ensures
            r == fsmc_access_spec(offset),
            r matches FsmcAccess::Data(bank, _) ==> bank < 4,
            r matches FsmcAccess::Register(bank, _) ==> bank < 4,
    {
        if offset < 0x1000_0000 {
            FsmcAccess::Data(0, offset)
        } else if offset < 0x2000_0000 {
            FsmcAccess::Data(1, offset - 0x1000_0000)
        } else if offset < 0x3000_0000 {
            FsmcAccess::Data(2, offset - 0x2000_0000)
        } else if offset < 0x4000_0000 {
            FsmcAccess::Data(3, offset - 0x3000_0000)
        } else if offset < 0x5000_0000 {
            let r = offset - 0x4000_0000;
            if r == 0x0000 {
                FsmcAccess::Register(0, FsmcReg::Bcr)
            } else if r == 0x0004 {
                FsmcAccess::Register(0, FsmcReg::Btr)
            } else if r == 0x0008 {
                FsmcAccess::Register(1, FsmcReg::Bcr)
            } else if r == 0x000C {
                FsmcAccess::Register(1, FsmcReg::Btr)
            } else if r == 0x0010 {
                FsmcAccess::Register(2, FsmcReg::Bcr)
            } else if r == 0x0014 {
                FsmcAccess::Register(2, FsmcReg::Btr)
            } else if r == 0x0018 {
                FsmcAccess::Register(3, FsmcReg::Bcr)
            } else if r == 0x001C {
                FsmcAccess::Register(3, FsmcReg::Btr)
            } else if r == 0x0060 {
                FsmcAccess::Register(1, FsmcReg::Pcr)
            } else if r == 0x0064 {
                FsmcAccess::Register(1, FsmcReg::Sr)
            } else if r == 0x0068 {
                FsmcAccess::Register(1, FsmcReg::Pmem)
            } else if r == 0x006C {
                FsmcAccess::Register(1, FsmcReg::Patt)
            } else if r == 0x0074 {
                FsmcAccess::Register(1, FsmcReg::Eccr)
            } else if r == 0x0080 {
                FsmcAccess::Register(2, FsmcReg::Pcr)
            } else if r == 0x0084 {
                FsmcAccess::Register(2, FsmcReg::Sr)
            } else if r == 0x0088 {
                FsmcAccess::Register(2, FsmcReg::Pmem)
            } else if r == 0x008C {
                FsmcAccess::Register(2, FsmcReg::Patt)
            } else if r == 0x0094 {
                FsmcAccess::Register(2, FsmcReg::Eccr)
            } else if r == 0x00A0 {
                FsmcAccess::Register(3, FsmcReg::Pcr)
            } else if r == 0x00A4 {
                FsmcAccess::Register(3, FsmcReg::Sr)
            } else if r == 0x00A8 {
                FsmcAccess::Register(3, FsmcReg::Pmem)
            } else if r == 0x00AC {
                FsmcAccess::Register(3, FsmcReg::Patt)
            } else if r == 0x00B0 {
                FsmcAccess::Register(3, FsmcReg::Pio)
            } else if r == 0x0104 {
                FsmcAccess::Register(0, FsmcReg::Bwtr)
            } else if r == 0x010C {
                FsmcAccess::Register(1, FsmcReg::Bwtr)
            } else if r == 0x0114 {
                FsmcAccess::Register(2, FsmcReg::Bwtr)
            } else if r == 0x011C {
                FsmcAccess::Register(3, FsmcReg::Bwtr)
            } else {
                FsmcAccess::Register(0, FsmcReg::Invalid)
            }
        } else {
            FsmcAccess::Register(0, FsmcReg::Invalid)
        }
    }

    pub fn read(&self, offset: u32, devices: &mut ExtDevices) -> (r: u32)
        requires
            self.wf_with(old(devices)@),
        ensures
            (r, final(devices)@) == fsmc_read_spec(*self, old(devices)@, offset),
            old(devices).same_shape(*final(devices)),
            forall|fbs: Framebuffers|
                old(devices).wf_with(fbs) ==> #[trigger] final(devices).wf_with(fbs),
    {
        match Self::access(offset) {
            FsmcAccess::Data(bank, off) => match self.banks[bank].device {
                Some(i) => devices.mem_read(i, off),
                None => 0,
            },
            FsmcAccess::Register(_, _) => 0,
        }
    }

    pub fn write(
        &self,
        offset: u32,
        value: u32,
        devices: &mut ExtDevices,
        framebuffers: &mut Framebuffers,
    )
        requires
            self.wf_with(old(devices)@),
            old(devices).wf_with(*old(framebuffers)),
        ensures
            (final(devices)@, final(framebuffers)@) == fsmc_write_spec(
                *self,
                old(devices)@,
                old(framebuffers)@,
                offset,
                value,
            ),
            old(devices).same_shape(*final(devices)),
            final(framebuffers).images.len() == old(framebuffers).images.len(),
            forall|j: int|
                0 <= j < old(framebuffers).images.len()
                    ==> (#[trigger] final(framebuffers).images[j]).config
                    == old(framebuffers).images[j].config,
            final(devices).wf_with(*final(framebuffers)),
    {
        match Self::access(offset) {
            FsmcAccess::Data(bank, off) => match self.banks[bank].device {
                Some(i) => devices.mem_write(i, off, value, framebuffers),
                None => {},
            },
            FsmcAccess::Register(_, _) => {},
        }
    }
}

} // verus!
