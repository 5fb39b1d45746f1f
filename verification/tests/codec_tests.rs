use nbdmount::codec::{
    CodecError, Command, Reply, Request, CMD_MASK_COMMAND, REPLY_MAGIC, REQUEST_MAGIC,
    SIZE_OF_REPLY, SIZE_OF_REQUEST,
};

fn frame(magic: u32, type_word: u32, handle: u64, from: u64, len: u32) -> Vec<u8> {
    let mut d = Vec::new();
    d.extend_from_slice(&magic.to_be_bytes());
    d.extend_from_slice(&type_word.to_be_bytes());
    d.extend_from_slice(&handle.to_be_bytes());
    d.extend_from_slice(&from.to_be_bytes());
    d.extend_from_slice(&len.to_be_bytes());
    d
}

#[test]
fn constants_match_wire_format() {
    assert_eq!(SIZE_OF_REQUEST, 28);
    assert_eq!(SIZE_OF_REPLY, 16);
    assert_eq!(REQUEST_MAGIC, 0x2560_9513);
    assert_eq!(REPLY_MAGIC, 0x6744_6698);
    assert_eq!(CMD_MASK_COMMAND, 0x0000_ffff);
}

#[test]
fn decode_valid_read_request() {
    let d = frame(REQUEST_MAGIC, 0, 0xdead_beef_0102_0304, 4096, 512);
    assert_eq!(d.len(), 28);
    let req = Request::try_from_bytes(&d).unwrap();
    assert_eq!(req.magic, REQUEST_MAGIC);
    assert_eq!(req.command, Command::Read);
    assert_eq!(req.handle, 0xdead_beef_0102_0304);
    assert_eq!(req.from, 4096);
    assert_eq!(req.len, 512);
    assert!(!req.flags.fua);
    assert!(!req.flags.no_hole);
}

#[test]
fn decode_every_command_number() {
    let expect = [
        (0u32, Command::Read),
        (1, Command::Write),
        (2, Command::Disc),
        (3, Command::Flush),
        (4, Command::Trim),
        (5, Command::WriteZeroes),
    ];
    for (v, c) in expect {
        let req = Request::try_from_bytes(&frame(REQUEST_MAGIC, v, 1, 0, 0)).unwrap();
        assert_eq!(req.command, c);
    }
}

#[test]
fn decode_flag_bits() {
    let req = Request::try_from_bytes(&frame(REQUEST_MAGIC, (1 << 16) | 1, 7, 0, 8)).unwrap();
    assert_eq!(req.command, Command::Write);
    assert!(req.flags.fua);
    assert!(!req.flags.no_hole);

    let req = Request::try_from_bytes(&frame(REQUEST_MAGIC, (1 << 17) | 5, 7, 0, 8)).unwrap();
    assert_eq!(req.command, Command::WriteZeroes);
    assert!(!req.flags.fua);
    assert!(req.flags.no_hole);
}

#[test]
fn decode_failures_are_distinct() {
    let bad_magic = Request::try_from_bytes(&frame(REQUEST_MAGIC + 1, 0, 1, 0, 0)).unwrap_err();
    assert_eq!(bad_magic, CodecError::BadMagic);

    let bad_command = Request::try_from_bytes(&frame(REQUEST_MAGIC, 6, 1, 0, 0)).unwrap_err();
    assert_eq!(bad_command, CodecError::BadCommand);

    assert_ne!(bad_magic, bad_command);
}

#[test]
fn decode_short_buffer_is_underflow_not_panic() {
    let mut d = frame(REQUEST_MAGIC, 0, 1, 0, 0);
    d.truncate(27);
    let err = Request::try_from_bytes(&d).unwrap_err();
    assert_eq!(err, CodecError::ShortBuffer);
    assert_ne!(err, CodecError::BadMagic);
    assert_ne!(err, CodecError::BadCommand);
}

#[test]
fn decode_then_reencode_reproduces_fields() {
    let d = frame(REQUEST_MAGIC, (1 << 16) | 4, 0x1122_3344_5566_7788, 99, 1234);
    let req = Request::try_from_bytes(&d).unwrap();
    let encoded = req.to_bytes();
    assert_eq!(encoded, d);
    let again = Request::try_from_bytes(&encoded).unwrap();
    assert_eq!(again.command, req.command);
    assert_eq!(again.handle, req.handle);
    assert_eq!(again.from, req.from);
    assert_eq!(again.len, req.len);
    assert_eq!(again.flags, req.flags);
}

#[test]
fn reply_from_request_echoes_handle_with_no_error() {
    let d = frame(REQUEST_MAGIC, 0, 0xabcd, 0, 16);
    let req = Request::try_from_bytes(&d).unwrap();
    let reply = Reply::from_request(&req);
    assert_eq!(reply.handle, req.handle);
    assert_eq!(reply.error, 0);
    assert_eq!(reply.magic, REPLY_MAGIC);
}

#[test]
fn reply_encodings_are_byte_identical() {
    let reply = Reply { magic: REPLY_MAGIC, error: -5, handle: 0x0102_0304_0506_0708 };

    let mut grown: Vec<u8> = Vec::new();
    reply.append_to_vec(&mut grown).unwrap();

    let mut sized: Vec<u8> = vec![0u8; 16];
    reply.write_to_slice(&mut sized).unwrap();

    assert_eq!(grown, sized);
    assert_eq!(grown.len(), 16);
}

#[test]
fn reply_encoding_exact_bytes() {
    let reply = Reply { magic: REPLY_MAGIC, error: -5, handle: 0x0102_0304_0506_0708 };
    let mut out: Vec<u8> = Vec::new();
    reply.append_to_vec(&mut out).unwrap();
    let expected = [
        0x67, 0x44, 0x66, 0x98, // reply magic
        0xff, 0xff, 0xff, 0xfb, // -5 in two's complement
        0x01, 0x02, 0x03, 0x04, 0x05, 0x06, 0x07, 0x08, // handle
    ];
    assert_eq!(out, expected);
}

#[test]
fn reply_write_to_short_buffer_is_refused() {
    let reply = Reply { magic: REPLY_MAGIC, error: 0, handle: 1 };
    let mut sized: Vec<u8> = vec![7u8; 15];
    let err = reply.write_to_slice(&mut sized).unwrap_err();
    assert_eq!(err, CodecError::ShortBuffer);
    assert_eq!(sized, vec![7u8; 15]);
}

#[test]
fn reply_write_to_slice_keeps_tail() {
    let reply = Reply { magic: REPLY_MAGIC, error: 0, handle: 2 };
    let mut sized: Vec<u8> = vec![9u8; 20];
    reply.write_to_slice(&mut sized).unwrap();
    let mut grown: Vec<u8> = Vec::new();
    reply.append_to_vec(&mut grown).unwrap();
    assert_eq!(&sized[..16], &grown[..]);
    assert_eq!(&sized[16..], &[9u8; 4]);
}
