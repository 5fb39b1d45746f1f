//! The NBD wire codec: a 28-byte request header decoded into a typed
//! command with flags, offset and length, and a 16-byte reply header
//! encoded either onto a growable buffer or into a pre-sized one.
//!
//! All fields are big-endian. A request is
//! `[magic:u32][type_and_flags:u32][handle:u64][from:u64][len:u32]`;
//! the command is the low 16 bits of the type word and the flag bits are
//! the high 16. A reply is `[magic:u32][error:i32][handle:u64]`.

use vstd::prelude::*;

use crate::bytes::{
    be32_at, be64_at, lemma_be32_round_trip, lemma_be64_round_trip, put_u32_be, put_u64_be,
    read_u32_be, read_u64_be, u32_to_be, u64_to_be,
};

verus! {

/// Magic value opening every request header.
pub const REQUEST_MAGIC: u32 = 0x2560_9513;

/// Magic value opening every reply header.
pub const REPLY_MAGIC: u32 = 0x6744_6698;

/// Mask selecting the command number out of the type word.
pub const CMD_MASK_COMMAND: u32 = 0x0000_ffff;

/// Size of an encoded request header in bytes.
pub const SIZE_OF_REQUEST: usize = 28;

/// Size of an encoded reply header in bytes.
pub const SIZE_OF_REPLY: usize = 16;

/// The commands the kernel may send.
#[derive(Clone, Copy, Debug, PartialEq, Eq, Structural)]
pub enum Command {
    Read,
    Write,
    Disc,
    Flush,
    Trim,
    WriteZeroes,
}

/// Per-request flag bits from the high half of the type word.
#[derive(Clone, Copy, Debug, PartialEq, Eq, Structural)]
pub struct RequestFlags {
    /// Force Unit Access: make the write durable before acknowledging.
    pub fua: bool,
    /// For WriteZeroes: do not punch a hole, allocate the zeroed range.
    pub no_hole: bool,
}

/// A decoded request header.
#[derive(Clone, Copy, Debug, PartialEq, Eq, Structural)]
pub struct Request {
    pub magic: u32,
    pub command: Command,
    pub flags: RequestFlags,
    pub handle: u64,
    pub from: u64,
    pub len: usize,
}

/// A reply header. `error` is an errno-style code, 0 meaning success;
/// `handle` echoes the request the reply answers.
#[derive(Clone, Copy, Debug, PartialEq, Eq, Structural)]
pub struct Reply {
    pub magic: u32,
    pub error: i32,
    pub handle: u64,
}

/// Why a buffer failed to decode. The conditions are distinct so that a
/// caller can tell a truncated frame from a corrupt one.
#[derive(Clone, Copy, Debug, PartialEq, Eq, Structural)]
pub enum CodecError {
    /// Fewer bytes than a full header.
    ShortBuffer,
    /// The magic field does not hold the request magic.
    BadMagic,
    /// The command number is outside the known table.
    BadCommand,
}

/// The wire number of a command.
pub open spec fn command_code(c: Command) -> u32 {
    match c {
        Command::Read => 0,
        Command::Write => 1,
        Command::Disc => 2,
        Command::Flush => 3,
        Command::Trim => 4,
        Command::WriteZeroes => 5,
    }
}

/// The command a wire number decodes to, if any.
pub open spec fn command_of(v: u32) -> Option<Command> {
    if v == 0 {
        Some(Command::Read)
    } else if v == 1 {
        Some(Command::Write)
    } else if v == 2 {
        Some(Command::Disc)
    } else if v == 3 {
        Some(Command::Flush)
    } else if v == 4 {
        Some(Command::Trim)
    } else if v == 5 {
        Some(Command::WriteZeroes)
    } else {
        None
    }
}

/// The type word combining a command number with its flag bits.
pub open spec fn type_word(c: Command, fua: bool, no_hole: bool) -> u32 {
    command_code(c) | (if fua {
        0x1_0000u32
    } else {
        0u32
    }) | (if no_hole {
        0x2_0000u32
    } else {
        0u32
    })
}

/// What a byte sequence decodes to: a request, or the first failure the
/// decoder meets, checking length, then magic, then the command number.
pub open spec fn parse_request(s: Seq<u8>) -> Result<Request, CodecError> {
    if s.len() < 28 {
        Err(CodecError::ShortBuffer)
    } else if be32_at(s, 0) != REQUEST_MAGIC {
        Err(CodecError::BadMagic)
    } else {
        let tw = be32_at(s, 4);
        match command_of(tw & CMD_MASK_COMMAND) {
            None => Err(CodecError::BadCommand),
            Some(c) => Ok(
                Request {
                    magic: REQUEST_MAGIC,
                    command: c,
                    flags: RequestFlags {
                        fua: (tw >> 16) & 1 == 1,
                        no_hole: (tw >> 16) & 2 == 2,
                    },
                    handle: be64_at(s, 8),
                    from: be64_at(s, 16),
                    len: be32_at(s, 24) as usize,
                },
            ),
        }
    }
}

/// The 28 bytes a request encodes to. The length field is the low 32 bits
/// of `len`; every decoded request has `len` within them.
pub open spec fn request_bytes(req: Request) -> Seq<u8> {
    u32_to_be(req.magic) + u32_to_be(type_word(req.command, req.flags.fua, req.flags.no_hole))
        + u64_to_be(req.handle) + u64_to_be(req.from) + u32_to_be(
        ((req.len as int) % 0x1_0000_0000) as u32,
    )
}

/// The unsigned word carrying an errno code on the wire: its two's
/// complement in 32 bits.
pub open spec fn error_word(e: i32) -> u32 {
    if e >= 0 {
        e as u32
    } else {
        (e + 0x1_0000_0000) as u32
    }
}

/// The 16 bytes a reply encodes to.
pub open spec fn reply_bytes(r: Reply) -> Seq<u8> {
    u32_to_be(r.magic) + u32_to_be(error_word(r.error)) + u64_to_be(r.handle)
}

impl Request {
    /// Decodes a request header. The buffer must hold a whole header, its
    /// magic must match, and its command number must be in the table;
    /// each failure is reported distinctly, checked in that order.
    pub fn try_from_bytes(d: &[u8]) -> (r: Result<Request, CodecError>)
        ensures
            r == parse_request(d@),
    {
        if d.len() < SIZE_OF_REQUEST {
            return Err(CodecError::ShortBuffer);
        }
        let magic = read_u32_be(d, 0);
        let tw = read_u32_be(d, 4);
        let handle = read_u64_be(d, 8);
        let from = read_u64_be(d, 16);
        let len = read_u32_be(d, 24) as usize;

        if magic != REQUEST_MAGIC {
            return Err(CodecError::BadMagic);
        }
        let cmd_v = tw & CMD_MASK_COMMAND;
        let command = if cmd_v == 0 {
            Command::Read
        } else if cmd_v == 1 {
            Command::Write
        } else if cmd_v == 2 {
            Command::Disc
        } else if cmd_v == 3 {
            Command::Flush
        } else if cmd_v == 4 {
            Command::Trim
        } else if cmd_v == 5 {
            Command::WriteZeroes
        } else {
            return Err(CodecError::BadCommand);
        };
        let fl = tw >> 16;
        let fua = fl & 1 == 1;
        let no_hole = fl & 2 == 2;

        Ok(
            Request {
                magic,
                command,
                flags: RequestFlags { fua, no_hole },
                handle,
                from,
                len,
            },
        )
    }

    /// Encodes the request back to its 28 wire bytes.
    pub fn to_bytes(&self) -> (out: Vec<u8>)
        requires
            self.len <= u32::MAX,
        ensures
            out@ == request_bytes(*self),
    {
        let mut out: Vec<u8> = Vec::new();
        put_u32_be(&mut out, self.magic);
        let code: u32 = match self.command {
            Command::Read => 0,
            Command::Write => 1,
            Command::Disc => 2,
            Command::Flush => 3,
            Command::Trim => 4,
            Command::WriteZeroes => 5,
        };
        let tw = code | (if self.flags.fua {
            0x1_0000u32
        } else {
            0u32
        }) | (if self.flags.no_hole {
            0x2_0000u32
        } else {
            0u32
        });
        put_u32_be(&mut out, tw);
        put_u64_be(&mut out, self.handle);
        put_u64_be(&mut out, self.from);
        put_u32_be(&mut out, self.len as u32);
        proof {
            assert(self.len as u32 == (((self.len as int) % 0x1_0000_0000) as u32));
            assert(out@ =~= request_bytes(*self));
        }
        out
    }
}

impl Reply {
    /// A fresh success reply for a request: the reply magic, error 0, and
    /// the request's handle echoed for correlation.
    pub fn from_request(request: &Request) -> (r: Reply)
        ensures
            r.magic == REPLY_MAGIC,
            r.error == 0,
            r.handle == request.handle,
    {
        Reply { magic: REPLY_MAGIC, handle: request.handle, error: 0 }
    }

    /// Appends the 16 wire bytes of the reply to a growable buffer.
    /// Appending cannot fail.
    pub fn append_to_vec(&self, buf: &mut Vec<u8>) -> (r: Result<(), CodecError>)
        ensures
            r == Ok::<(), CodecError>(()),
            final(buf)@ == old(buf)@ + reply_bytes(*self),
    {
        put_u32_be(buf, self.magic);
        let w: u32 = if self.error >= 0 {
            self.error as u32
        } else {
            ((self.error as i64) + 0x1_0000_0000i64) as u32
        };
        put_u32_be(buf, w);
        put_u64_be(buf, self.handle);
        proof {
            assert(w == error_word(self.error));
            assert(buf@ =~= old(buf)@ + reply_bytes(*self));
        }
        Ok(())
    }

    /// Writes the 16 wire bytes of the reply over the front of a pre-sized
    /// buffer, leaving any tail and the length unchanged; the output bytes
    /// are the very bytes `append_to_vec` produces. A buffer shorter than
    /// a reply is refused untouched.
    pub fn write_to_slice(&self, buf: &mut Vec<u8>) -> (r: Result<(), CodecError>)
        ensures
            old(buf)@.len() >= 16 ==> r == Ok::<(), CodecError>(())
                && final(buf)@ == reply_bytes(*self) + old(buf)@.skip(16),
            old(buf)@.len() < 16 ==> r == Err::<(), CodecError>(CodecError::ShortBuffer)
                && final(buf)@ == old(buf)@,
    {
        if buf.len() < SIZE_OF_REPLY {
            return Err(CodecError::ShortBuffer);
        }
        let mut tmp: Vec<u8> = Vec::new();
        let _ = self.append_to_vec(&mut tmp);
        let mut i: usize = 0;
        while i < SIZE_OF_REPLY
            invariant
                tmp@ == reply_bytes(*self),
                tmp@.len() == 16,
                i <= 16,
                buf@.len() == old(buf)@.len() >= 16,
                forall|j: int| 0 <= j < i ==> buf@[j] == tmp@[j],
                forall|j: int| i <= j < buf@.len() ==> buf@[j] == old(buf)@[j],
            decreases 16 - i,
        {
            let b = tmp[i];
            buf[i] = b;
            i += 1;
        }
        proof {
            assert(buf@ =~= reply_bytes(*self) + old(buf)@.skip(16));
        }
        Ok(())
    }
}

/// Decoding, re-encoding, and decoding again gives back the same request:
/// the command, flags, handle, offset and length survive a round trip
/// through the wire format.
pub proof fn lemma_request_round_trip(s: Seq<u8>, req: Request)
    requires
        parse_request(s) == Ok::<Request, CodecError>(req),
    ensures
        parse_request(request_bytes(req)) == Ok::<Request, CodecError>(req),
{
    let tw0 = be32_at(s, 4);
    let code = command_code(req.command);
    let fm: u32 = if req.flags.fua {
        0x1_0000u32
    } else {
        0u32
    };
    let nm: u32 = if req.flags.no_hole {
        0x2_0000u32
    } else {
        0u32
    };
    let tw = type_word(req.command, req.flags.fua, req.flags.no_hole);
    assert(code <= 5);
    assert(tw == code | fm | nm);

    let t = request_bytes(req);
    let a = u32_to_be(req.magic);
    let b = u32_to_be(tw);
    let c = u64_to_be(req.handle);
    let d = u64_to_be(req.from);
    let e = u32_to_be(((req.len as int) % 0x1_0000_0000) as u32);
    assert(t.len() == 28);
    assert(be32_at(t, 0) == be32_at(a, 0));
    lemma_be32_round_trip(req.magic);
    assert(be32_at(t, 4) == be32_at(b, 0));
    lemma_be32_round_trip(tw);
    assert(be64_at(t, 8) == be64_at(c, 0));
    lemma_be64_round_trip(req.handle);
    assert(be64_at(t, 16) == be64_at(d, 0));
    lemma_be64_round_trip(req.from);
    assert(be32_at(t, 24) == be32_at(e, 0));
    assert(req.len <= u32::MAX);
    assert(((req.len as int) % 0x1_0000_0000) as u32 == req.len as u32);
    lemma_be32_round_trip(req.len as u32);

    assert((tw & CMD_MASK_COMMAND) == code && ((tw >> 16) & 1 == 1) == (fm == 0x1_0000u32) && ((tw
        >> 16) & 2 == 2) == (nm == 0x2_0000u32)) by (bit_vector)
        requires
            code <= 5 && (fm == 0 || fm == 0x1_0000u32) && (nm == 0 || nm == 0x2_0000u32) && tw == (
            code | fm | nm),
    ;
    assert(command_of(tw & CMD_MASK_COMMAND) == Some(req.command));
    assert(parse_request(t) == Ok::<Request, CodecError>(req));
}

/// Encoding a reply onto a growable buffer and into a pre-sized 16-byte
/// buffer produce byte-identical output: the bytes `append_to_vec` adds
/// are the bytes `write_to_slice` leaves.
pub proof fn lemma_reply_encodings_agree(
    r: Reply,
    grow_old: Seq<u8>,
    grow_new: Seq<u8>,
    sized_old: Seq<u8>,
    sized_new: Seq<u8>,
)
    requires
        grow_new == grow_old + reply_bytes(r),
        sized_old.len() == 16,
        sized_new == reply_bytes(r) + sized_old.skip(16),
    ensures
        grow_new.skip(grow_old.len() as int) == sized_new,
{
    assert(grow_new.skip(grow_old.len() as int) =~= reply_bytes(r));
    assert(sized_new =~= reply_bytes(r));
}

} // verus!
