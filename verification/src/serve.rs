//! The per-request servicing step: decode one header, dispatch it to the
//! block device, and frame the reply — a success header followed at once
//! by the read payload, or a header alone carrying an errno-style code.
//! A Write needs its payload before it can be dispatched, so the step
//! reports that and a second entry point finishes the request. Decode
//! failures are the caller's to treat as fatal for the connection: past a
//! corrupt header no handle can be trusted.

use vstd::prelude::*;

use crate::codec::{parse_request, reply_bytes, CodecError, Command, Reply, Request, REPLY_MAGIC};
use crate::device::{bump, read_extent, MemBackedDevice, ENOSPC};

verus! {

/// A success reply echoing `handle`.
pub open spec fn ok_reply(handle: u64) -> Reply {
    Reply { magic: REPLY_MAGIC, error: 0, handle }
}

/// A failure reply echoing `handle` and carrying `error`.
pub open spec fn err_reply(handle: u64, error: i32) -> Reply {
    Reply { magic: REPLY_MAGIC, error, handle }
}

/// A sequence of `n` zero bytes.
pub open spec fn zero_seq(n: nat) -> Seq<u8> {
    Seq::new(n, |i: int| 0u8)
}

/// The `n` bytes a read at `offset` returns: the backing store's bytes
/// where it reaches, zeroes past its end.
pub open spec fn read_image(contents: Seq<u8>, offset: u64, n: nat) -> Seq<u8> {
    Seq::new(
        n,
        |i: int|
            if offset + i < contents.len() {
                contents[offset + i]
            } else {
                0u8
            },
    )
}

/// The backing store after writing `payload` at `offset`: grown to cover
/// the written range if need be, with any gap reading as zero.
pub open spec fn write_image(contents: Seq<u8>, offset: u64, payload: Seq<u8>) -> Seq<u8> {
    Seq::new(
        if offset + payload.len() > contents.len() {
            (offset + payload.len()) as nat
        } else {
            contents.len()
        },
        |i: int|
            if offset <= i < offset + payload.len() {
                payload[i - offset]
            } else if i < contents.len() {
                contents[i]
            } else {
                0u8
            },
    )
}

/// The backing store after trimming `[offset, offset + n)`: the part of
/// the range it holds reads as zero, and its length is kept.
pub open spec fn trim_image(contents: Seq<u8>, offset: u64, n: nat) -> Seq<u8> {
    Seq::new(
        contents.len(),
        |i: int|
            if offset <= i < offset + n {
                0u8
            } else {
                contents[i]
            },
    )
}

/// What one decoded header asks of the caller.
#[derive(Debug)]
pub enum HeaderOutcome {
    /// The request is complete: send `wire` back, and end the connection
    /// after doing so if `done` is set.
    Respond { wire: Vec<u8>, done: bool },
    /// The request is a Write: its `req.len` payload bytes follow the
    /// header on the wire and must be handed to `on_payload`.
    NeedPayload { req: Request },
}

/// Services one request header. A frame that does not decode is returned
/// as the decode error, the device untouched. A Read fills `req.len`
/// bytes (zero past the backing's end) and its reply is the success
/// header followed at once by those bytes. Flush and Trim dispatch to the
/// device and reply with a bare success header, as does Disc, which also
/// ends the connection. WriteZeroes writes `req.len` zero bytes, replying
/// with the device's error code if the range cannot be addressed. A Write
/// must wait for its payload.
pub fn on_header(dev: &mut MemBackedDevice, frame: &[u8]) -> (r: Result<HeaderOutcome, CodecError>)
    ensures
        match parse_request(frame@) {
            Err(e) => r == Err::<HeaderOutcome, CodecError>(e) && *final(dev) == *old(dev),
            Ok(req) => match req.command {
                Command::Write => r == Ok::<HeaderOutcome, CodecError>(
                    HeaderOutcome::NeedPayload { req },
                ) && *final(dev) == *old(dev),
                Command::Read => {
                    &&& (r matches Ok(HeaderOutcome::Respond { wire, done }) && done == false
                        && wire@ == reply_bytes(ok_reply(req.handle)) + read_image(
                        old(dev).contents(),
                        req.from,
                        req.len as nat,
                    ))
                    &&& final(dev).contents() == old(dev).contents()
                    &&& final(dev).spec_block_size() == old(dev).spec_block_size()
                    &&& final(dev).cursor() == req.from + read_extent(
                        old(dev).contents().len(),
                        req.from,
                        req.len as nat,
                    )
                    &&& final(dev).seeks() == (if req.from != old(dev).cursor() {
                        bump(old(dev).seeks())
                    } else {
                        old(dev).seeks()
                    })
                },
                Command::Disc => (r matches Ok(HeaderOutcome::Respond { wire, done }) && done
                    == true && wire@ == reply_bytes(ok_reply(req.handle))) && *final(dev) == *old(
                    dev,
                ),
                Command::Flush => (r matches Ok(HeaderOutcome::Respond { wire, done }) && done
                    == false && wire@ == reply_bytes(ok_reply(req.handle))) && *final(dev) == *old(
                    dev,
                ),
                Command::Trim => {
                    &&& (r matches Ok(HeaderOutcome::Respond { wire, done }) && done == false
                        && wire@ == reply_bytes(ok_reply(req.handle)))
                    &&& final(dev).contents() == (if req.flags.no_hole {
                        old(dev).contents()
                    } else {
                        trim_image(old(dev).contents(), req.from, req.len as nat)
                    })
                    &&& final(dev).spec_block_size() == old(dev).spec_block_size()
                    &&& final(dev).cursor() == old(dev).cursor()
                    &&& final(dev).seeks() == old(dev).seeks()
                },
                Command::WriteZeroes => {
                    &&& req.from + req.len > usize::MAX ==> (r matches Ok(
                        HeaderOutcome::Respond { wire, done },
                    ) && done == false && wire@ == reply_bytes(err_reply(req.handle, ENOSPC)))
                        && *final(dev) == *old(dev)
                    &&& req.from + req.len <= usize::MAX ==> {
                        &&& (r matches Ok(HeaderOutcome::Respond { wire, done }) && done == false
                            && wire@ == reply_bytes(ok_reply(req.handle)))
                        &&& final(dev).contents() == write_image(
                            old(dev).contents(),
                            req.from,
                            zero_seq(req.len as nat),
                        )
                        &&& final(dev).spec_block_size() == old(dev).spec_block_size()
                        &&& final(dev).cursor() == req.from + req.len
                        &&& final(dev).seeks() == (if req.from != old(dev).cursor() {
                            bump(old(dev).seeks())
                        } else {
                            old(dev).seeks()
                        })
                    }
                },
            },
        },
{
    let req = match Request::try_from_bytes(frame) {
        Err(e) => {
            return Err(e);
        },
        Ok(req) => req,
    };
    match req.command {
        Command::Write => Ok(HeaderOutcome::NeedPayload { req }),
        Command::Read => {
            let mut buf: Vec<u8> = vec![0u8; req.len];
            let _ = dev.read(req.from, &mut buf);
            proof {
                assert(buf@ =~= read_image(old(dev).contents(), req.from, req.len as nat));
            }
            let ghost img = buf@;
            let reply = Reply::from_request(&req);
            proof {
                assert(reply == ok_reply(req.handle));
            }
            let mut wire: Vec<u8> = Vec::new();
            let _ = reply.append_to_vec(&mut wire);
            wire.append(&mut buf);
            proof {
                assert(wire@ == reply_bytes(ok_reply(req.handle)) + img);
            }
            Ok(HeaderOutcome::Respond { wire, done: false })
        },
        Command::Disc => {
            let reply = Reply::from_request(&req);
            proof {
                assert(reply == ok_reply(req.handle));
            }
            let mut wire: Vec<u8> = Vec::new();
            let _ = reply.append_to_vec(&mut wire);
            Ok(HeaderOutcome::Respond { wire, done: true })
        },
        Command::Flush => {
            let _ = dev.flush();
            let reply = Reply::from_request(&req);
            proof {
                assert(reply == ok_reply(req.handle));
            }
            let mut wire: Vec<u8> = Vec::new();
            let _ = reply.append_to_vec(&mut wire);
            Ok(HeaderOutcome::Respond { wire, done: false })
        },
        Command::Trim => {
            let _ = dev.trim(req.from, req.len, req.flags.no_hole);
            proof {
                if !req.flags.no_hole {
                    assert(final(dev).contents() =~= trim_image(
                        old(dev).contents(),
                        req.from,
                        req.len as nat,
                    ));
                }
            }
            let reply = Reply::from_request(&req);
            proof {
                assert(reply == ok_reply(req.handle));
            }
            let mut wire: Vec<u8> = Vec::new();
            let _ = reply.append_to_vec(&mut wire);
            Ok(HeaderOutcome::Respond { wire, done: false })
        },
        Command::WriteZeroes => {
            let zeros: Vec<u8> = vec![0u8; req.len];
            proof {
                assert(zeros@ =~= zero_seq(req.len as nat));
            }
            let res = dev.write(req.from, zeros.as_slice(), req.flags.fua);
            let reply = match res {
                Ok(_) => {
                    proof {
                        assert(final(dev).contents() =~= write_image(
                            old(dev).contents(),
                            req.from,
                            zero_seq(req.len as nat),
                        ));
                    }
                    let r = Reply::from_request(&req);
                    proof {
                        assert(r == ok_reply(req.handle));
                    }
                    r
                },
                Err(code) => {
                    let r = Reply { magic: REPLY_MAGIC, error: code, handle: req.handle };
                    proof {
                        assert(r == err_reply(req.handle, ENOSPC));
                    }
                    r
                },
            };
            let mut wire: Vec<u8> = Vec::new();
            let _ = reply.append_to_vec(&mut wire);
            Ok(HeaderOutcome::Respond { wire, done: false })
        },
    }
}

/// Finishes a Write whose payload has arrived: writes it at `req.from`
/// and frames the reply — success, or the device's error code with the
/// device untouched if the range cannot be addressed.
pub fn on_payload(dev: &mut MemBackedDevice, req: &Request, payload: &[u8]) -> (wire: Vec<u8>)
    requires
        req.command == Command::Write,
        payload@.len() == req.len,
    ensures
        req.from + req.len > usize::MAX ==> wire@ == reply_bytes(err_reply(req.handle, ENOSPC))
            && *final(dev) == *old(dev),
        req.from + req.len <= usize::MAX ==> {
            &&& wire@ == reply_bytes(ok_reply(req.handle))
            &&& final(dev).contents() == write_image(old(dev).contents(), req.from, payload@)
            &&& final(dev).spec_block_size() == old(dev).spec_block_size()
            &&& final(dev).cursor() == req.from + req.len
            &&& final(dev).seeks() == (if req.from != old(dev).cursor() {
                bump(old(dev).seeks())
            } else {
                old(dev).seeks()
            })
        },
{
    let res = dev.write(req.from, payload, req.flags.fua);
    let reply = match res {
        Ok(_) => {
            proof {
                assert(final(dev).contents() =~= write_image(
                    old(dev).contents(),
                    req.from,
                    payload@,
                ));
            }
            let r = Reply::from_request(req);
            proof {
                assert(r == ok_reply(req.handle));
            }
            r
        },
        Err(code) => {
            let r = Reply { magic: REPLY_MAGIC, error: code, handle: req.handle };
            proof {
                assert(r == err_reply(req.handle, ENOSPC));
            }
            r
        },
    };
    let mut wire: Vec<u8> = Vec::new();
    let _ = reply.append_to_vec(&mut wire);
    wire
}

} // verus!
