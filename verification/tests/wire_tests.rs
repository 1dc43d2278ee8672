use channel_bridge::channel::{RecvPoll, SendPoll};
use channel_bridge::codec::{PostcardByteCodec, U32Codec};
use channel_bridge::wire::{ByteReader, ByteWriter, BytePipe, WsReceiver, WsSender};
use channel_bridge::ws::WsError;

fn buf(n: usize) -> Vec<u8> {
    vec![0u8; n]
}

fn feed(pipe: &mut BytePipe, bytes: &[u8]) {
    assert!(matches!(pipe.write_all(bytes), SendPoll::Sent));
}

#[test]
fn wire_round_trip_unmasked() {
    let pipe = BytePipe::new();
    let mut tx = WsSender::new(pipe, U32Codec, buf(8), None);
    assert!(matches!(tx.send(&0xcafe_f00du32), SendPoll::Sent));
    let (pipe, codec, _) = tx.into_parts();
    let mut rx = WsReceiver::new(pipe, codec, buf(8));
    match rx.recv() {
        RecvPoll::Received(Some(m)) => assert_eq!(m, 0xcafe_f00du32),
        _ => panic!("the sent message must come back"),
    }
    assert!(matches!(rx.recv(), RecvPoll::Pending));
}

#[test]
fn wire_round_trip_masked() {
    let pipe = BytePipe::new();
    let mut tx = WsSender::new(pipe, U32Codec, buf(8), Some(0x2112_aabb));
    assert!(matches!(tx.send(&7u32), SendPoll::Sent));
    let (pipe, codec, _) = tx.into_parts();
    let mut rx = WsReceiver::new(pipe, codec, buf(8));
    match rx.recv() {
        RecvPoll::Received(Some(m)) => assert_eq!(m, 7u32),
        _ => panic!("unmasking must reproduce the payload"),
    }
}

#[test]
fn wire_masked_payload_differs_on_the_wire() {
    // the same message, masked and unmasked, must not look the same
    let pipe = BytePipe::new();
    let mut tx = WsSender::new(pipe, U32Codec, buf(8), None);
    assert!(matches!(tx.send(&42u32), SendPoll::Sent));
    let (mut plain, _, _) = tx.into_parts();
    let pipe = BytePipe::new();
    let mut tx = WsSender::new(pipe, U32Codec, buf(8), Some(0xffff_ffff));
    assert!(matches!(tx.send(&42u32), SendPoll::Sent));
    let (mut masked, _, _) = tx.into_parts();
    // skip both headers (2 bytes plain, 2 + 4 key bytes masked), compare payloads
    let mut drop2 = buf(2);
    assert!(matches!(plain.read_exact(&mut drop2, 2), RecvPoll::Received(())));
    let mut p1 = buf(4);
    assert!(matches!(plain.read_exact(&mut p1, 4), RecvPoll::Received(())));
    let mut drop6 = buf(6);
    assert!(matches!(masked.read_exact(&mut drop6, 6), RecvPoll::Received(())));
    let mut p2 = buf(4);
    assert!(matches!(masked.read_exact(&mut p2, 4), RecvPoll::Received(())));
    assert_ne!(p1, p2);
    // the all-ones key flips every bit
    for i in 0..4 {
        assert_eq!(p1[i] ^ 0xff, p2[i]);
    }
}

#[test]
fn wire_two_byte_length_form() {
    // a payload over 125 bytes takes the two-byte extended length
    let msg: Vec<u8> = (0..200u32).map(|x| (x % 251) as u8).collect();
    let pipe = BytePipe::new();
    let mut tx = WsSender::new(pipe, PostcardByteCodec, buf(512), None);
    assert!(matches!(tx.send(&msg), SendPoll::Sent));
    let (pipe, codec, _) = tx.into_parts();
    let mut rx = WsReceiver::new(pipe, codec, buf(512));
    match rx.recv() {
        RecvPoll::Received(Some(m)) => assert_eq!(m, msg),
        _ => panic!("a long frame must round-trip"),
    }
}

#[test]
fn wire_eight_byte_length_form() {
    // a payload of 65536 bytes or more takes the eight-byte extended length
    let msg: Vec<u8> = vec![7u8; 70_000];
    let pipe = BytePipe::new();
    let mut tx = WsSender::new(pipe, PostcardByteCodec, buf(80_000), Some(1));
    assert!(matches!(tx.send(&msg), SendPoll::Sent));
    let (pipe, codec, _) = tx.into_parts();
    let mut rx = WsReceiver::new(pipe, codec, buf(80_000));
    match rx.recv() {
        RecvPoll::Received(Some(m)) => assert_eq!(m, msg),
        _ => panic!("a very long frame must round-trip"),
    }
}

#[test]
fn wire_partial_header_is_pending_and_resumes() {
    // an unmasked binary frame, arriving one byte at a time
    let whole = [0x82u8, 0x04, 42, 0, 0, 0];
    let pipe = BytePipe::new();
    let mut rx = WsReceiver::new(pipe, U32Codec, buf(8));
    for i in 0..whole.len() {
        let (mut p, codec, b, owed) = rx.into_parts();
        feed(&mut p, &whole[i..i + 1]);
        rx = WsReceiver::resume(p, codec, b, owed);
        if i + 1 < whole.len() {
            assert!(matches!(rx.recv(), RecvPoll::Pending));
        }
    }
    match rx.recv() {
        RecvPoll::Received(Some(m)) => assert_eq!(m, 42u32),
        _ => panic!("the frame must be read once it is whole"),
    }
}

#[test]
fn wire_ping_larger_than_buffer_is_absorbed() {
    let mut pipe = BytePipe::new();
    // a ping with a 100-byte payload, far over the 8-byte buffer
    feed(&mut pipe, &[0x89, 100]);
    feed(&mut pipe, &[0u8; 100]);
    // then a real message
    feed(&mut pipe, &[0x82, 0x04, 9, 0, 0, 0]);
    let mut rx = WsReceiver::new(pipe, U32Codec, buf(8));
    match rx.recv() {
        RecvPoll::Received(Some(m)) => assert_eq!(m, 9u32),
        _ => panic!("an oversized ping is still absorbed"),
    }
}

#[test]
fn wire_interrupted_ping_drain_resumes() {
    let mut pipe = BytePipe::new();
    // the ping header and only half of its payload
    feed(&mut pipe, &[0x89, 100]);
    feed(&mut pipe, &[0u8; 50]);
    let mut rx = WsReceiver::new(pipe, U32Codec, buf(8));
    assert!(matches!(rx.recv(), RecvPoll::Pending));
    // the rest of the ping payload and a message arrive later
    let (mut p, codec, b, owed) = rx.into_parts();
    // the whole ping payload is still owed: nothing of it was drained yet
    assert_eq!(owed, 100);
    feed(&mut p, &[0u8; 50]);
    feed(&mut p, &[0x82, 0x04, 1, 1, 0, 0]);
    let mut rx = WsReceiver::resume(p, codec, b, owed);
    match rx.recv() {
        RecvPoll::Received(Some(m)) => assert_eq!(m, 0x0101u32),
        _ => panic!("the drain must pick up where it stopped"),
    }
}

#[test]
fn wire_reserved_bits_are_a_violation() {
    let mut pipe = BytePipe::new();
    feed(&mut pipe, &[0xf2, 0x00]);
    let mut rx = WsReceiver::new(pipe, U32Codec, buf(8));
    assert!(matches!(rx.recv(), RecvPoll::Failed(WsError::UnknownFrameError)));
}

#[test]
fn wire_unknown_opcode_is_a_violation() {
    let mut pipe = BytePipe::new();
    feed(&mut pipe, &[0x83, 0x00]);
    let mut rx = WsReceiver::new(pipe, U32Codec, buf(8));
    assert!(matches!(rx.recv(), RecvPoll::Failed(WsError::UnknownFrameError)));
}

#[test]
fn wire_text_frame_is_unknown() {
    let mut pipe = BytePipe::new();
    feed(&mut pipe, &[0x81, 0x02, 0x68, 0x69]);
    let mut rx = WsReceiver::new(pipe, U32Codec, buf(8));
    assert!(matches!(rx.recv(), RecvPoll::Failed(WsError::UnknownFrameError)));
}

#[test]
fn wire_oversized_frame_reports_overflow_from_header_alone() {
    let mut pipe = BytePipe::new();
    // a 9-byte binary frame against an 8-byte buffer; no payload sent yet
    feed(&mut pipe, &[0x82, 0x09]);
    let mut rx = WsReceiver::new(pipe, U32Codec, buf(8));
    match rx.recv() {
        RecvPoll::Failed(WsError::OversizedFrame(d)) => assert_eq!(d, 1),
        _ => panic!("the size check needs no payload bytes"),
    }
}

#[test]
fn wire_close_ends_stream() {
    let mut pipe = BytePipe::new();
    feed(&mut pipe, &[0x88, 0x00]);
    let mut rx = WsReceiver::new(pipe, U32Codec, buf(8));
    assert!(matches!(rx.recv(), RecvPoll::Received(None)));
}

#[test]
fn wire_undecodable_binary_is_a_decode_error() {
    let mut pipe = BytePipe::new();
    feed(&mut pipe, &[0x82, 0x03, 1, 2, 3]);
    let mut rx = WsReceiver::new(pipe, U32Codec, buf(8));
    assert!(matches!(
        rx.recv(),
        RecvPoll::Failed(WsError::CodecError((), _))
    ));
}

#[test]
fn wire_encode_overflow_writes_nothing() {
    let pipe = BytePipe::new();
    let mut tx = WsSender::new(pipe, U32Codec, buf(2), None);
    assert!(matches!(
        tx.send(&1u32),
        SendPoll::Failed(WsError::CodecError((), _))
    ));
    let (pipe, codec, _) = tx.into_parts();
    let mut rx = WsReceiver::new(pipe, codec, buf(8));
    assert!(matches!(rx.recv(), RecvPoll::Pending));
}

#[test]
fn wire_non_canonical_length_form_is_accepted() {
    // a four-byte payload announced through the two-byte length form
    let mut pipe = BytePipe::new();
    feed(&mut pipe, &[0x82, 126, 0x00, 0x04, 42, 0, 0, 0]);
    let mut rx = WsReceiver::new(pipe, U32Codec, buf(8));
    match rx.recv() {
        RecvPoll::Received(Some(m)) => assert_eq!(m, 42u32),
        _ => panic!("the longer length form still names a valid frame"),
    }
}
