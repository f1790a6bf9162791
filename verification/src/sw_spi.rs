//! Software SPI: synthesises full-duplex SPI transactions from GPIO edges.
//! A falling chip-select edge resets the shifters; each rising clock edge
//! (while selected) shifts MISO out MSB-first and MOSI in; every eighth bit
//! completes a byte, which the caller exchanges with the bound device and
//! loads the answer back into the MISO shifter.
//!
//! Chip select is active low throughout.

use vstd::prelude::*;

use crate::ext_devices::DeviceHandle;

verus! {

pub struct SoftwareSpiConfig {
    pub name: String,
    /// Pin names in the `"PA12"` style.
    pub cs: Option<String>,
    pub clk: String,
    pub miso: String,
    pub mosi: String,
}

pub struct SoftwareSpi {
    pub config: SoftwareSpiConfig,
    pub name: String,
    pub data_mosi: u8,
    pub data_miso: u8,
    pub bit_index: u8,
    pub cs: bool,
    pub clk: bool,
    pub mosi: bool,
    pub miso: bool,
    pub device: Option<DeviceHandle>,
}

/// The state after a chip-select edge: a falling edge resets the shifters
/// and latched lines.
pub open spec fn sw_cs_spec(s: SoftwareSpi, value: bool) -> SoftwareSpi {
    if s.cs && !value {
        SoftwareSpi {
            data_mosi: 0,
            data_miso: 0,
            bit_index: 0,
            clk: false,
            mosi: false,
            miso: false,
            cs: value,
            ..s
        }
    } else {
        SoftwareSpi { cs: value, ..s }
    }
}

/// The state after a clock edge, and the completed MOSI byte when this was
/// the eighth rising edge. While chip select is high the edge is ignored.
pub open spec fn sw_clk_spec(s: SoftwareSpi, value: bool) -> (SoftwareSpi, Option<u8>) {
    if s.cs {
        (s, None)
    } else if !s.clk && value {
        let miso_level = s.data_miso & 0x80 != 0;
        let shifted_miso = (s.data_miso << 1) as u8;
        let shifted_mosi = if s.mosi {
            ((s.data_mosi << 1) | 1) as u8
        } else {
            (s.data_mosi << 1) as u8
        };
        let bit2 = (s.bit_index + 1) as u8;
        if bit2 == 8 {
            (
                SoftwareSpi {
                    miso: miso_level,
                    data_miso: shifted_miso,
                    data_mosi: shifted_mosi,
                    bit_index: 0,
                    clk: value,
                    ..s
                },
                Some(shifted_mosi),
            )
        } else {
            (
                SoftwareSpi {
                    miso: miso_level,
                    data_miso: shifted_miso,
                    data_mosi: shifted_mosi,
                    bit_index: bit2,
                    clk: value,
                    ..s
                },
                None,
            )
        }
    } else {
        (SoftwareSpi { clk: value, ..s }, None)
    }
}

impl SoftwareSpi {
    /// The bit counter stays below one byte.
    pub open spec fn wf(self) -> bool {
        self.bit_index < 8
    }

    pub fn new(config: SoftwareSpiConfig, name: String, device: Option<DeviceHandle>) -> (r:
        SoftwareSpi)
        ensures
            r.config == config,
            r.name == name,
            r.device == device,
            r.data_mosi == 0 && r.data_miso == 0 && r.bit_index == 0,
            !r.cs && !r.clk && !r.mosi && !r.miso,
            r.wf(),
    {
        SoftwareSpi {
            config,
            name,
            data_mosi: 0,
            data_miso: 0,
            bit_index: 0,
            cs: false,
            clk: false,
            mosi: false,
            miso: false,
            device,
        }
    }

    /// A chip-select edge from GPIO.
    pub fn write_cs(&mut self, value: bool)
        ensures
            *final(self) == sw_cs_spec(*old(self), value),
            old(self).wf() ==> final(self).wf(),
    {
        if self.cs && !value {
            self.data_mosi = 0;
            self.data_miso = 0;
            self.bit_index = 0;
            self.clk = false;
            self.mosi = false;
            self.miso = false;
        }
        self.cs = value;
    }

    /// A clock edge from GPIO; returns the completed MOSI byte on every
    /// eighth rising edge, to be exchanged with the bound device.
    pub fn write_clk(&mut self, value: bool) -> (emit: Option<u8>)
        requires
            old(self).wf(),
        ensures
            (*final(self), emit) == sw_clk_spec(*old(self), value),
            final(self).wf(),
    {
        if self.cs {
            return None;
        }
        if !self.clk && value {
            self.miso = self.data_miso & 0x80 != 0;
            self.data_miso = self.data_miso << 1;
            self.data_mosi = if self.mosi {
                (self.data_mosi << 1) | 1
            } else {
                self.data_mosi << 1
            };
            let next_bit = self.bit_index + 1;
            if next_bit == 8 {
                self.bit_index = 0;
                self.clk = value;
                return Some(self.data_mosi);
            }
            self.bit_index = next_bit;
        }
        self.clk = value;
        None
    }

    /// Loads the device's answer byte into the MISO shifter.
    pub fn load_miso(&mut self, v: u8)
        ensures
            *final(self) == (SoftwareSpi { data_miso: v, ..*old(self) }),
    {
        self.data_miso = v;
    }

    /// The MISO level read back through GPIO: the latched level while
    /// selected, low otherwise.
    pub fn read_miso(&self) -> (r: bool)
        ensures
            r == (!self.cs && self.miso),
    {
        if self.cs {
            false
        } else {
            self.miso
        }
    }

    /// A MOSI level change from GPIO; ignored while chip select is high.
    pub fn write_mosi(&mut self, value: bool)
        ensures
            *final(self) == (if old(self).cs {
                *old(self)
            } else {
                SoftwareSpi { mosi: value, ..*old(self) }
            }),
    {
        if self.cs {
            return ;
        }
        self.mosi = value;
    }
}

/// One bit-banged bit: the MOSI level is latched, then the clock rises and
/// falls again.
pub open spec fn sw_bit_step(s: SoftwareSpi, m: bool) -> (SoftwareSpi, Option<u8>) {
    let with_mosi = if s.cs {
        s
    } else {
        SoftwareSpi { mosi: m, ..s }
    };
    let rise = sw_clk_spec(with_mosi, true);
    (sw_clk_spec(rise.0, false).0, rise.1)
}

/// The byte eight MOSI levels assemble, most significant bit first.
pub open spec fn frame_byte(
    m7: bool,
    m6: bool,
    m5: bool,
    m4: bool,
    m3: bool,
    m2: bool,
    m1: bool,
    m0: bool,
) -> u8 {
    (((if m7 {
        128u8
    } else {
        0u8
    }) | (if m6 {
        64u8
    } else {
        0u8
    }) | (if m5 {
        32u8
    } else {
        0u8
    }) | (if m4 {
        16u8
    } else {
        0u8
    }) | (if m3 {
        8u8
    } else {
        0u8
    }) | (if m2 {
        4u8
    } else {
        0u8
    }) | (if m1 {
        2u8
    } else {
        0u8
    }) | (if m0 {
        1u8
    } else {
        0u8
    })) as u8)
}

/// Software-SPI byte frame: with chip select low and the clock idle, eight
/// rising clock edges with MOSI levels `m7..m0` emit exactly one completed
/// byte — on the eighth edge, assembled MSB-first — and none before; the
/// caller then exchanges it with the bound device in a single write
/// followed by a single read. Meanwhile the byte previously loaded into the
/// MISO shifter is presented MSB-first, one bit per rising edge.
pub proof fn lemma_sw_spi_byte_frame(
    s0: SoftwareSpi,
    m7: bool,
    m6: bool,
    m5: bool,
    m4: bool,
    m3: bool,
    m2: bool,
    m1: bool,
    m0: bool,
)
    requires
        !s0.cs,
        !s0.clk,
        s0.bit_index == 0,
    ensures
        ({
            let r = s0.data_miso;
            let t1 = sw_bit_step(s0, m7);
            let t2 = sw_bit_step(t1.0, m6);
            let t3 = sw_bit_step(t2.0, m5);
            let t4 = sw_bit_step(t3.0, m4);
            let t5 = sw_bit_step(t4.0, m3);
            let t6 = sw_bit_step(t5.0, m2);
            let t7 = sw_bit_step(t6.0, m1);
            let t8 = sw_bit_step(t7.0, m0);
            &&& t1.1 is None && t2.1 is None && t3.1 is None && t4.1 is None
            &&& t5.1 is None && t6.1 is None && t7.1 is None
            &&& t8.1 == Some(frame_byte(m7, m6, m5, m4, m3, m2, m1, m0))
            &&& t1.0.miso == (r & 0x80 != 0) && t2.0.miso == (r & 0x40 != 0)
            &&& t3.0.miso == (r & 0x20 != 0) && t4.0.miso == (r & 0x10 != 0)
            &&& t5.0.miso == (r & 0x08 != 0) && t6.0.miso == (r & 0x04 != 0)
            &&& t7.0.miso == (r & 0x02 != 0) && t8.0.miso == (r & 0x01 != 0)
        }),
{
    let r = s0.data_miso;
    let d = s0.data_mosi;
    let v1 = if m7 {
        ((d << 1) | 1) as u8
    } else {
        (d << 1) as u8
    };
    let v2 = if m6 {
        ((v1 << 1) | 1) as u8
    } else {
        (v1 << 1) as u8
    };
    let v3 = if m5 {
        ((v2 << 1) | 1) as u8
    } else {
        (v2 << 1) as u8
    };
    let v4 = if m4 {
        ((v3 << 1) | 1) as u8
    } else {
        (v3 << 1) as u8
    };
    let v5 = if m3 {
        ((v4 << 1) | 1) as u8
    } else {
        (v4 << 1) as u8
    };
    let v6 = if m2 {
        ((v5 << 1) | 1) as u8
    } else {
        (v5 << 1) as u8
    };
    let v7 = if m1 {
        ((v6 << 1) | 1) as u8
    } else {
        (v6 << 1) as u8
    };
    let v8 = if m0 {
        ((v7 << 1) | 1) as u8
    } else {
        (v7 << 1) as u8
    };
    assert(v8 == frame_byte(m7, m6, m5, m4, m3, m2, m1, m0)) by (bit_vector)
        requires
            v1 == (if m7 { ((d << 1) | 1) as u8 } else { (d << 1) as u8 }),
            v2 == (if m6 { ((v1 << 1) | 1) as u8 } else { (v1 << 1) as u8 }),
            v3 == (if m5 { ((v2 << 1) | 1) as u8 } else { (v2 << 1) as u8 }),
            v4 == (if m4 { ((v3 << 1) | 1) as u8 } else { (v3 << 1) as u8 }),
            v5 == (if m3 { ((v4 << 1) | 1) as u8 } else { (v4 << 1) as u8 }),
            v6 == (if m2 { ((v5 << 1) | 1) as u8 } else { (v5 << 1) as u8 }),
            v7 == (if m1 { ((v6 << 1) | 1) as u8 } else { (v6 << 1) as u8 }),
            v8 == (if m0 { ((v7 << 1) | 1) as u8 } else { (v7 << 1) as u8 }),
    ;
    assert(((r << 1) & 0x80 != 0) == (r & 0x40 != 0) && (((r << 1) << 1) & 0x80 != 0) == (r
        & 0x20 != 0) && ((((r << 1) << 1) << 1) & 0x80 != 0) == (r & 0x10 != 0) && (((((r << 1)
        << 1) << 1) << 1) & 0x80 != 0) == (r & 0x08 != 0) && ((((((r << 1) << 1) << 1) << 1)
        << 1) & 0x80 != 0) == (r & 0x04 != 0) && (((((((r << 1) << 1) << 1) << 1) << 1) << 1)
        & 0x80 != 0) == (r & 0x02 != 0) && ((((((((r << 1) << 1) << 1) << 1) << 1) << 1) << 1)
        & 0x80 != 0) == (r & 0x01 != 0)) by (bit_vector);
}

} // verus!
