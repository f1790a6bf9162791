//! SPI NOR flash model: accumulates command bytes from the bus, answers with
//! JEDEC/device identification or streamed file content. Bytes `0x00` and
//! `0xFF` outside a command are idle fill.

use vstd::prelude::*;

verus! {

pub struct SpiFlashConfig {
    pub peripheral: String,
    pub jedec_id: u32,
    pub file: String,
    pub size: usize,
}

/// The commands the model recognises.
#[derive(Clone, Copy, PartialEq, Eq, Structural, Debug)]
pub enum FlashCommand {
    /// `0x03`: stream bytes from a 24-bit big-endian address.
    ReadData,
    /// `0x9F`: reply with the 32-bit JEDEC ID, big-endian.
    ReadJedecId,
    /// `0x90`: reply with the constant device ID `0xAABBCC`, big-endian.
    ReadDeviceId,
}

/// A pending reply: either queued bytes or a cursor into the flash content
/// that wraps modulo the configured size.
pub enum FlashReply {
    FileContent(usize),
    Data(Vec<u8>),
}

/// Spec-level form of a pending reply.
pub enum FlashReplyV {
    FileContent(int),
    Data(Seq<u8>),
}

/// Spec-level form of the flash state.
pub struct SpiFlashV {
    pub jedec_id: u32,
    pub size: int,
    pub content: Seq<u8>,
    pub reply: Option<FlashReplyV>,
    pub cmd: Option<(FlashCommand, Seq<u8>)>,
}

pub struct SpiFlash {
    pub config: SpiFlashConfig,
    pub name: String,
    pub content: Vec<u8>,
    pub reply: Option<FlashReply>,
    pub cmd: Option<(FlashCommand, Vec<u8>)>,
}

impl View for SpiFlash {
    type V = SpiFlashV;

    open spec fn view(&self) -> SpiFlashV {
        SpiFlashV {
            jedec_id: self.config.jedec_id,
            size: self.config.size as int,
            content: self.content@,
            reply: match self.reply {
                None => None,
                Some(FlashReply::FileContent(a)) => Some(FlashReplyV::FileContent(a as int)),
                Some(FlashReply::Data(ref d)) => Some(FlashReplyV::Data(d@)),
            },
            cmd: match self.cmd {
                None => None,
                Some((c, ref args)) => Some((c, args@)),
            },
        }
    }
}

/// Which command a byte starts, if any.
pub open spec fn flash_cmd_of(v: u8) -> Option<FlashCommand> {
    if v == 0x03 {
        Some(FlashCommand::ReadData)
    } else if v == 0x9F {
        Some(FlashCommand::ReadJedecId)
    } else if v == 0x90 {
        Some(FlashCommand::ReadDeviceId)
    } else {
        None
    }
}

/// The four big-endian bytes of a 32-bit word.
pub open spec fn be4(id: u32) -> Seq<u8> {
    seq![(id >> 24) as u8, ((id >> 16) & 0xFF) as u8, ((id >> 8) & 0xFF) as u8, (id & 0xFF) as u8]
}

/// Executable twin of [`be4`].
pub fn be4_exec(id: u32) -> (r: Vec<u8>)
    ensures
        r@ == be4(id),
{
    let mut d: Vec<u8> = Vec::new();
    d.push((id >> 24) as u8);
    d.push(((id >> 16) & 0xFF) as u8);
    d.push(((id >> 8) & 0xFF) as u8);
    d.push((id & 0xFF) as u8);
    proof {
        assert((id >> 24) < 0x100 && ((id >> 16) & 0xFF) < 0x100 && ((id >> 8) & 0xFF) < 0x100)
            by (bit_vector);
        assert(d@ =~= be4(id));
    }
    d
}

/// The reply a complete command produces; `None` while arguments are still
/// missing. A `ReadData` address beyond the flash size wraps modulo the size.
pub open spec fn flash_process(f: SpiFlashV, cmd: FlashCommand, args: Seq<u8>) -> Option<
    FlashReplyV,
> {
    match cmd {
        FlashCommand::ReadJedecId => if args.len() == 0 {
            Some(FlashReplyV::Data(be4(f.jedec_id)))
        } else {
            None
        },
        FlashCommand::ReadDeviceId => if args.len() == 0 {
            Some(FlashReplyV::Data(be4(0xAABBCC)))
        } else {
            None
        },
        FlashCommand::ReadData => if args.len() == 3 {
            Some(
                FlashReplyV::FileContent(
                    (args[0] * 0x1_0000 + args[1] * 0x100 + args[2]) % f.size,
                ),
            )
        } else {
            None
        },
    }
}

/// The state after one incoming byte: argument collection, command start, or
/// idle fill.
pub open spec fn flash_write_spec(f: SpiFlashV, v: u8) -> SpiFlashV {
    match f.cmd {
        Some((cmd, args)) => {
            let args2 = args.push(v);
            match flash_process(f, cmd, args2) {
                Some(rep) => SpiFlashV { reply: Some(rep), cmd: None, ..f },
                None => SpiFlashV { cmd: Some((cmd, args2)), ..f },
            }
        },
        None => match flash_cmd_of(v) {
            Some(cmd) => match flash_process(f, cmd, Seq::empty()) {
                Some(rep) => SpiFlashV { reply: Some(rep), cmd: None, ..f },
                None => SpiFlashV { cmd: Some((cmd, Seq::empty())), ..f },
            },
            None => f,
        },
    }
}

/// The byte one outgoing read returns, and the state after it.
pub open spec fn flash_read_spec(f: SpiFlashV) -> (u8, SpiFlashV) {
    match f.reply {
        Some(FlashReplyV::Data(d)) => if d.len() > 0 {
            (d[0], SpiFlashV { reply: Some(FlashReplyV::Data(d.drop_first())), ..f })
        } else {
            (0, f)
        },
        Some(FlashReplyV::FileContent(a)) => (
            f.content[a],
            SpiFlashV { reply: Some(FlashReplyV::FileContent((a + 1) % f.size)), ..f },
        ),
        None => (0, f),
    }
}

impl SpiFlash {
    /// The content buffer always spans exactly the configured, nonzero size,
    /// any `FileContent` cursor stays inside it, and a `ReadData` command
    /// never holds more than its three address bytes.
    pub open spec fn wf(self) -> bool {
        &&& self.config.size > 0
        &&& self.content.len() == self.config.size
        &&& match self.reply {
            Some(FlashReply::FileContent(a)) => a < self.config.size,
            _ => true,
        }
        &&& match self.cmd {
            Some((FlashCommand::ReadData, ref args)) => args.len() < 3,
            _ => true,
        }
    }

    /// Builds the flash from its configuration and the raw file image, padded
    /// with zeroes or truncated to the configured size.
    pub fn new(config: SpiFlashConfig, file_content: Vec<u8>) -> (r: SpiFlash)
        requires
            config.size > 0,
        ensures
            r.wf(),
            r.config == config,
            r@.jedec_id == config.jedec_id,
            r@.size == config.size,
            r@.reply is None,
            r@.cmd is None,
            r@.content.len() == config.size,
            forall|i: int|
                0 <= i < config.size ==> r@.content[i] == (if i < file_content@.len() {
                    file_content@[i]
                } else {
                    0
                }),
    {
        let mut content: Vec<u8> = Vec::new();
        let n = config.size;
        for i in 0..n
            invariant
                n == config.size,
                content.len() == i,
                forall|j: int|
                    0 <= j < i ==> content[j] == (if j < file_content@.len() {
                        file_content@[j]
                    } else {
                        0
                    }),
        {
            if i < file_content.len() {
                let b = file_content[i];
                content.push(b);
            } else {
                content.push(0);
            }
        }
        SpiFlash { config, name: String::new(), content, reply: None, cmd: None }
    }

    /// Records the peripheral this device is bound to; returns the display
    /// name used in traces.
    pub fn connect_peripheral(&mut self, peri_name: &str) -> (r: String)
        ensures
            final(self)@ == old(self)@,
            final(self).config == old(self).config,
            final(self).name@ == peri_name@ + " spi-flash"@,
            r@ == final(self).name@,
    {
        let mut name = String::new();
        name.append(peri_name);
        name.append(" spi-flash");
        self.name = name.clone();
        name
    }

    /// One byte arriving from the bus.
    pub fn write(&mut self, v: u8)
        requires
            old(self).wf(),
        ensures
            final(self).wf(),
            final(self)@ == flash_write_spec(old(self)@, v),
            final(self).config == old(self).config,
            final(self).name == old(self).name,
    {
        let cmd_taken = self.cmd.take();
        match cmd_taken {
            Some((cmd, mut args)) => {
                args.push(v);
                match self.try_process_command(cmd, &args) {
                    Some(reply) => {
                        self.reply = Some(reply);
                        self.cmd = None;
                    },
                    None => {
                        self.cmd = Some((cmd, args));
                    },
                }
            },
            None => {
                let parsed = if v == 0x03 {
                    Some(FlashCommand::ReadData)
                } else if v == 0x9F {
                    Some(FlashCommand::ReadJedecId)
                } else if v == 0x90 {
                    Some(FlashCommand::ReadDeviceId)
                } else {
                    None
                };
                match parsed {
                    Some(cmd) => {
                        let empty: Vec<u8> = Vec::new();
                        match self.try_process_command(cmd, &empty) {
                            Some(reply) => {
                                self.reply = Some(reply);
                                self.cmd = None;
                            },
                            None => {
                                self.cmd = Some((cmd, empty));
                            },
                        }
                    },
                    None => {
                        // Bytes 0x00 and 0xFF are idle fill; anything else is
                        // an unrecognised command and equally ignored.
                    },
                }
            },
        }
    }

    /// The reply a complete command produces; `None` while argument bytes are
    /// still missing.
    pub fn try_process_command(&self, cmd: FlashCommand, args: &Vec<u8>) -> (r: Option<FlashReply>)
        requires
            self.wf(),
        ensures
            match r {
                Some(FlashReply::FileContent(a)) => flash_process(self@, cmd, args@) == Some(
                    FlashReplyV::FileContent(a as int),
                ) && a < self.config.size,
                Some(FlashReply::Data(ref d)) => flash_process(self@, cmd, args@) == Some(
                    FlashReplyV::Data(d@),
                ),
                None => flash_process(self@, cmd, args@) is None,
            },
    {
        match cmd {
            FlashCommand::ReadJedecId => {
                if args.len() == 0 {
                    Some(FlashReply::Data(be4_exec(self.config.jedec_id)))
                } else {
                    None
                }
            },
            FlashCommand::ReadDeviceId => {
                if args.len() == 0 {
                    Some(FlashReply::Data(be4_exec(0xAABBCC)))
                } else {
                    None
                }
            },
            FlashCommand::ReadData => {
                if args.len() == 3 {
                    let addr = (args[0] as usize) * 0x1_0000 + (args[1] as usize) * 0x100 + (
                    args[2] as usize);
                    let addr = addr % self.config.size;
                    Some(FlashReply::FileContent(addr))
                } else {
                    None
                }
            },
        }
    }

    /// One byte going out on the bus.
    pub fn read(&mut self) -> (r: u8)
        requires
            old(self).wf(),
        ensures
            final(self).wf(),
            (r, final(self)@) == flash_read_spec(old(self)@),
            final(self).config == old(self).config,
            final(self).name == old(self).name,
    {
        match &mut self.reply {
            Some(FlashReply::Data(d)) => {
                if d.len() > 0 {
                    d.remove(0)
                } else {
                    0
                }
            },
            Some(FlashReply::FileContent(a)) => {
                let c = self.content[*a];
                *a = (*a + 1) % self.config.size;
                c
            },
            None => 0,
        }
    }
}

} // verus!
