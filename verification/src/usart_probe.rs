//! USART probe: collects outgoing bytes into lines (completed on `\n`) and
//! feeds queued host-input bytes back to the firmware. The host side of the
//! queue is filled by the embedding program; an empty queue reads as `0`.

use vstd::prelude::*;

verus! {

pub struct UsartProbeConfig {
    pub peripheral: String,
}

/// Spec-level form of the probe state.
pub struct UsartProbeV {
    /// Bytes of the line being collected.
    pub rx: Seq<u8>,
    /// Host input not yet consumed by the firmware.
    pub input: Seq<u8>,
}

pub struct UsartProbe {
    pub config: UsartProbeConfig,
    pub name: String,
    pub rx: Vec<u8>,
    pub input: Vec<u8>,
}

impl View for UsartProbe {
    type V = UsartProbeV;

    open spec fn view(&self) -> UsartProbeV {
        UsartProbeV { rx: self.rx@, input: self.input@ }
    }
}

/// The probe after one outgoing byte, and the completed line, if this byte
/// ended one.
pub open spec fn probe_write_spec(p: UsartProbeV, v: u8) -> (UsartProbeV, Option<Seq<u8>>) {
    if v == 0x0A {
        (UsartProbeV { rx: Seq::empty(), ..p }, Some(p.rx))
    } else {
        (UsartProbeV { rx: p.rx.push(v), ..p }, None)
    }
}

/// The byte one incoming read returns, and the probe after it.
pub open spec fn probe_read_spec(p: UsartProbeV) -> (u8, UsartProbeV) {
    if p.input.len() > 0 {
        (p.input[0], UsartProbeV { input: p.input.drop_first(), ..p })
    } else {
        (0, p)
    }
}

impl UsartProbe {
    pub fn new(config: UsartProbeConfig) -> (r: UsartProbe)
        ensures
            r.config == config,
            r@.rx.len() == 0,
            r@.input.len() == 0,
    {
        UsartProbe { config, name: String::new(), rx: Vec::new(), input: Vec::new() }
    }

    /// Records the peripheral this device is bound to; returns the display
    /// name used in traces.
    pub fn connect_peripheral(&mut self, peri_name: &str) -> (r: String)
        ensures
            final(self)@ == old(self)@,
            final(self).config == old(self).config,
            final(self).name@ == peri_name@ + " usart-probe"@,
            r@ == final(self).name@,
    {
        let mut name = String::new();
        name.append(peri_name);
        name.append(" usart-probe");
        self.name = name.clone();
        name
    }

    /// One byte sent by the firmware; returns the finished line when the byte
    /// is a newline (the caller logs it).
    pub fn write(&mut self, v: u8) -> (line: Option<Vec<u8>>)
        ensures
            final(self)@ == probe_write_spec(old(self)@, v).0,
            match line {
                Some(ref l) => probe_write_spec(old(self)@, v).1 == Some(l@),
                None => probe_write_spec(old(self)@, v).1 is None,
            },
            final(self).config == old(self).config,
            final(self).name == old(self).name,
    {
        if v == 0x0A {
            let mut line: Vec<u8> = Vec::new();
            core::mem::swap(&mut line, &mut self.rx);
            Some(line)
        } else {
            self.rx.push(v);
            None
        }
    }

    /// One byte read by the firmware: the next queued host byte, `0` when
    /// none is waiting.
    pub fn read(&mut self) -> (r: u8)
        ensures
            (r, final(self)@) == probe_read_spec(old(self)@),
            final(self).config == old(self).config,
            final(self).name == old(self).name,
    {
        if self.input.len() > 0 {
            self.input.remove(0)
        } else {
            0
        }
    }

    /// Queues one host byte for the firmware to read.
    pub fn push_input(&mut self, v: u8)
        ensures
            final(self)@ == (UsartProbeV { input: old(self)@.input.push(v), ..old(self)@ }),
            final(self).config == old(self).config,
            final(self).name == old(self).name,
    {
        self.input.push(v);
    }
}

} // verus!
