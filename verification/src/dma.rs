//! DMA controller model: eight streams of plain registers. Writing a
//! stream's `CR` with the enable bit set triggers one synchronous transfer,
//! described by a [`TransferRequest`] that the caller carries out; the
//! stream then clears `NDTR` and stages a `CR` value with the enable bit
//! cleared for the next read. A staged zero-length write transfer instead
//! toggles the enable bit on successive reads to defeat firmware busy-waits.

use vstd::prelude::*;

verus! {

/// Transfer direction decoded from `CR` bits 7..6.
#[derive(Clone, Copy, PartialEq, Eq, Structural, Debug)]
pub enum Dir {
    /// `00`: peripheral to memory.
    Read,
    /// `01`: memory to peripheral.
    Write,
    /// `10`: memory to memory.
    MemCopy,
    /// `11`: not a valid direction.
    Invalid,
}

#[derive(Clone, Copy, PartialEq, Eq, Structural, Debug)]
pub struct Stream {
    pub cr: u32,
    pub next_cr: Option<u32>,
    pub ndtr: u32,
    pub par: u32,
    pub m0ar: u32,
    pub m1ar: u32,
    pub fcr: u32,
}

/// One transfer the enabling `CR` write asks for.
#[derive(Clone, Copy, PartialEq, Eq, Structural, Debug)]
pub struct TransferRequest {
    pub dir: Dir,
    /// The peripheral-side address (`PAR`).
    pub par: u32,
    /// The memory-side address (`M1AR` when `CR` bit 19 is set, else `M0AR`).
    pub mem_addr: u32,
    /// `word size * NDTR` bytes.
    pub size: usize,
}

pub open spec fn stream_channel(s: Stream) -> u8 {
    ((s.cr >> 25) & 0b111) as u8
}

pub open spec fn stream_dir(s: Stream) -> Dir {
    let d = (s.cr >> 6) & 0b11;
    if d == 0b00 {
        Dir::Read
    } else if d == 0b01 {
        Dir::Write
    } else if d == 0b10 {
        Dir::MemCopy
    } else {
        Dir::Invalid
    }
}

/// The transfer word size in bytes, from `CR` bits 12..11 (1, 2 or 4).
pub open spec fn stream_word_size(s: Stream) -> int {
    let w = (s.cr >> 11) & 0b11;
    if w == 0b00 {
        1
    } else if w == 0b01 {
        2
    } else if w == 0b10 {
        4
    } else {
        1
    }
}

/// The transfer size in bytes.
pub open spec fn stream_data_size(s: Stream) -> int {
    stream_word_size(s) * s.ndtr
}

/// The memory-side address: `M1AR` when `CR` bit 19 is set, else `M0AR`.
pub open spec fn stream_data_addr(s: Stream) -> u32 {
    if (s.cr >> 19) & 1 != 0 {
        s.m1ar
    } else {
        s.m0ar
    }
}

/// The value a stream register read returns and the stream after it. A `CR`
/// read first rotates in any staged value, then returns the current one; a
/// zero-length write-direction transfer stages the control value with the
/// enable bit toggled, so successive reads flap it and defeat firmware
/// busy-waits.
pub open spec fn stream_read_spec(s: Stream, offset: u32) -> (u32, Stream) {
    if offset == 0x0000 {
        let s1 = match s.next_cr {
            Some(n) => Stream { cr: n, next_cr: None, ..s },
            None => s,
        };
        let s2 = if stream_dir(s1) is Write && stream_data_size(s1) == 0 {
            Stream { next_cr: Some(s1.cr ^ 1), ..s1 }
        } else {
            s1
        };
        (s1.cr, s2)
    } else if offset == 0x0004 {
        (s.ndtr, s)
    } else if offset == 0x0008 {
        (s.par, s)
    } else if offset == 0x000C {
        (s.m0ar, s)
    } else if offset == 0x0010 {
        (s.m1ar, s)
    } else if offset == 0x0014 {
        (s.fcr, s)
    } else {
        (0u32, s)
    }
}

/// The stream after a register write, and the transfer the write triggers.
/// An enabling `CR` write captures the transfer from the new control value
/// and the current `NDTR`, zeroes `NDTR` and leaves `CR` with the enable
/// bit already cleared: the next `CR` read returns the completed value.
pub open spec fn stream_write_spec(s: Stream, offset: u32, value: u32) -> (
    Stream,
    Option<TransferRequest>,
) {
    if offset == 0x0000 {
        let s1 = Stream { cr: value, ..s };
        if value & 1 != 0 {
            let req = TransferRequest {
                dir: stream_dir(s1),
                par: s1.par,
                mem_addr: stream_data_addr(s1),
                size: stream_data_size(s1) as usize,
            };
            (Stream { cr: value & !1, ndtr: 0, next_cr: None, ..s1 }, Some(req))
        } else {
            (s1, None)
        }
    } else if offset == 0x0004 {
        (Stream { ndtr: value & 0xFFFF, ..s }, None)
    } else if offset == 0x0008 {
        (Stream { par: value, ..s }, None)
    } else if offset == 0x000C {
        (Stream { m0ar: value, ..s }, None)
    } else if offset == 0x0010 {
        (Stream { m1ar: value, ..s }, None)
    } else if offset == 0x0014 {
        (Stream { fcr: value, ..s }, None)
    } else {
        (s, None)
    }
}

impl Stream {
    /// `NDTR` carries at most 16 bits, so transfer sizes fit comfortably.
    pub open spec fn wf(self) -> bool {
        self.ndtr <= 0xFFFF
    }

    /// A stream with all registers zero.
    pub open spec fn zeroed_spec() -> Stream {
        Stream {
            cr: 0u32,
            next_cr: None,
            ndtr: 0u32,
            par: 0u32,
            m0ar: 0u32,
            m1ar: 0u32,
            fcr: 0u32,
        }
    }

    pub fn zeroed() -> (r: Stream)
        ensures
            r == Stream::zeroed_spec(),
    {
        Stream { cr: 0, next_cr: None, ndtr: 0, par: 0, m0ar: 0, m1ar: 0, fcr: 0 }
    }

    pub fn read(&mut self, offset: u32) -> (r: u32)
        ensures
            (r, *final(self)) == stream_read_spec(*old(self), offset),
            old(self).wf() ==> final(self).wf(),
    {
        if offset == 0x0000 {
            if let Some(next_cr) = self.next_cr.take() {
                self.cr = next_cr;
            }
            let v = self.cr;
            let dir_bits = (self.cr >> 6) & 0b11;
            let word_size: u32 = {
                let w = (self.cr >> 11) & 0b11;
                if w == 0b00 {
                    1
                } else if w == 0b01 {
                    2
                } else if w == 0b10 {
                    4
                } else {
                    1
                }
            };
            proof {
                assert(word_size * self.ndtr == 0 <==> self.ndtr == 0) by (nonlinear_arith)
                    requires
                        word_size >= 1,
                ;
            }
            if dir_bits == 0b01 && self.ndtr == 0 {
                self.next_cr = Some(self.cr ^ 1);
            }
            v
        } else if offset == 0x0004 {
            self.ndtr
        } else if offset == 0x0008 {
            self.par
        } else if offset == 0x000C {
            self.m0ar
        } else if offset == 0x0010 {
            self.m1ar
        } else if offset == 0x0014 {
            self.fcr
        } else {
            0
        }
    }

    pub fn write(&mut self, offset: u32, value: u32) -> (req: Option<TransferRequest>)
        requires
            old(self).wf(),
        ensures
            (*final(self), req) == stream_write_spec(*old(self), offset, value),
            final(self).wf(),
    {
        if offset == 0x0000 {
            self.cr = value;
            if value & 1 != 0 {
                let dir_bits = (self.cr >> 6) & 0b11;
                let dir = if dir_bits == 0b00 {
                    Dir::Read
                } else if dir_bits == 0b01 {
                    Dir::Write
                } else if dir_bits == 0b10 {
                    Dir::MemCopy
                } else {
                    Dir::Invalid
                };
                let w = (self.cr >> 11) & 0b11;
                let word_size: u32 = if w == 0b00 {
                    1
                } else if w == 0b01 {
                    2
                } else if w == 0b10 {
                    4
                } else {
                    1
                };
                let mem_addr = if (self.cr >> 19) & 1 != 0 {
                    self.m1ar
                } else {
                    self.m0ar
                };
                let size = (word_size as usize) * (self.ndtr as usize);
                let req = TransferRequest { dir, par: self.par, mem_addr, size };
                self.cr = value & !1;
                self.ndtr = 0;
                self.next_cr = None;
                Some(req)
            } else {
                None
            }
        } else if offset == 0x0004 {
            self.ndtr = value & 0xFFFF;
            proof {
                assert(value & 0xFFFF <= 0xFFFF) by (bit_vector);
            }
            None
        } else if offset == 0x0008 {
            self.par = value;
            None
        } else if offset == 0x000C {
            self.m0ar = value;
            None
        } else if offset == 0x0010 {
            self.m1ar = value;
            None
        } else if offset == 0x0014 {
            self.fcr = value;
            None
        } else {
            None
        }
    }
}

/// Where a DMA register offset lands: the controller registers below 0x28,
/// or a stream's register bank (stride 0x18, based at 0x10).
#[derive(Clone, Copy, PartialEq, Eq, Structural, Debug)]
pub enum Access {
    Reg(u32),
    StreamReg(usize, u32),
}

impl Access {
    /// Decodes a register offset.
    pub fn from_offset(offset: u32) -> (r: Access)
        ensures
            r == access_from_offset(offset),
    {
        if offset < 0x28 {
            Access::Reg(offset)
        } else {
            let stride: u32 = 0x18;
            let start: u32 = 0x10;
            let offset = offset - start;
            Access::StreamReg((offset / stride) as usize, offset % stride)
        }
    }
}

/// Spec twin of [`Access::from_offset`].
pub open spec fn access_from_offset(offset: u32) -> Access {
    if offset < 0x28 {
        Access::Reg(offset)
    } else {
        Access::StreamReg(((offset - 0x10) / 0x18) as usize, ((offset - 0x10) % 0x18) as u32)
    }
}

pub struct Dma {
    pub name: String,
    pub streams: Vec<Stream>,
}

impl View for Dma {
    type V = Seq<Stream>;

    open spec fn view(&self) -> Seq<Stream> {
        self.streams@
    }
}

/// The value a DMA register read returns and the streams after it: dispatch
/// to the stream banks, zero elsewhere. A stream index past the eight
/// implemented streams reads zero.
pub open spec fn dma_read_spec(streams: Seq<Stream>, offset: u32) -> (u32, Seq<Stream>) {
    match access_from_offset(offset) {
        Access::StreamReg(i, off) => if i < streams.len() {
            let r = stream_read_spec(streams[i as int], off);
            (r.0, streams.update(i as int, r.1))
        } else {
            (0u32, streams)
        },
        Access::Reg(_) => (0u32, streams),
    }
}

/// The streams after a DMA register write, and the transfer it triggers.
pub open spec fn dma_write_spec(streams: Seq<Stream>, offset: u32, value: u32) -> (
    Seq<Stream>,
    Option<TransferRequest>,
) {
    match access_from_offset(offset) {
        Access::StreamReg(i, off) => if i < streams.len() {
            let r = stream_write_spec(streams[i as int], off, value);
            (streams.update(i as int, r.0), r.1)
        } else {
            (streams, None)
        },
        Access::Reg(_) => (streams, None),
    }
}

impl Dma {
    /// Eight streams, each with a 16-bit `NDTR`.
    pub open spec fn wf(self) -> bool {
        &&& self.streams.len() == 8
        &&& forall|i: int| 0 <= i < self.streams.len() ==> (#[trigger] self.streams[i]).wf()
    }

    /// A fresh controller with all streams zeroed.
    pub fn new(name: String) -> (r: Dma)
        ensures
            r.wf(),
            r.name == name,
            forall|i: int| 0 <= i < 8 ==> r@[i] == Stream::zeroed_spec(),
    {
        let mut streams: Vec<Stream> = Vec::new();
        for i in 0..8usize
            invariant
                streams.len() == i,
                forall|j: int| 0 <= j < i ==> streams[j] == Stream::zeroed_spec(),
        {
            streams.push(Stream::zeroed());
        }
        Dma { name, streams }
    }

    pub fn read(&mut self, offset: u32) -> (r: u32)
        requires
            old(self).wf(),
        ensures
            (r, final(self)@) == dma_read_spec(old(self)@, offset),
            final(self).name == old(self).name,
            final(self).wf(),
    {
        match Access::from_offset(offset) {
            Access::StreamReg(i, off) => {
                if i < self.streams.len() {
                    let mut s = self.streams[i];
                    let r = s.read(off);
                    self.streams.set(i, s);
                    r
                } else {
                    0
                }
            },
            Access::Reg(_) => 0,
        }
    }

    pub fn write(&mut self, offset: u32, value: u32) -> (req: Option<TransferRequest>)
        requires
            old(self).wf(),
        ensures
            (final(self)@, req) == dma_write_spec(old(self)@, offset, value),
            final(self).name == old(self).name,
            final(self).wf(),
    {
        match Access::from_offset(offset) {
            Access::StreamReg(i, off) => {
                if i < self.streams.len() {
                    let mut s = self.streams[i];
                    let req = s.write(off, value);
                    self.streams.set(i, s);
                    req
                } else {
                    None
                }
            },
            Access::Reg(_) => None,
        }
    }
}

} // verus!
