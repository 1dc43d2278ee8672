use channel_bridge::channel::{RecvPoll, SendPoll};
use channel_bridge::codec::{PostcardByteCodec, U32Codec};
use channel_bridge::ws::{
    CodecDirection, FramePipe, FrameKind, FrameSender, WsError, WsSvcReceiver, WsSvcSender,
};

fn buf(n: usize) -> Vec<u8> {
    vec![0u8; n]
}

#[test]
fn frame_round_trip_u32() {
    let pipe = FramePipe::new();
    let mut tx = WsSvcSender::new(pipe, U32Codec, buf(8));
    assert!(matches!(tx.send(&0xdead_beefu32), SendPoll::Sent));
    let (pipe, codec, _) = tx.into_parts();
    let mut rx = WsSvcReceiver::new(pipe, codec, buf(8));
    match rx.recv() {
        RecvPoll::Received(Some(m)) => assert_eq!(m, 0xdead_beefu32),
        _ => panic!("the sent message must come back"),
    }
    assert!(matches!(rx.recv(), RecvPoll::Pending));
}

#[test]
fn frame_round_trip_bytes_codec() {
    let pipe = FramePipe::new();
    let mut tx = WsSvcSender::new(pipe, PostcardByteCodec, buf(64));
    let msg: Vec<u8> = vec![9, 8, 7, 6];
    assert!(matches!(tx.send(&msg), SendPoll::Sent));
    let (pipe, codec, _) = tx.into_parts();
    let mut rx = WsSvcReceiver::new(pipe, codec, buf(64));
    match rx.recv() {
        RecvPoll::Received(Some(m)) => assert_eq!(m, vec![9, 8, 7, 6]),
        _ => panic!("the sent message must come back"),
    }
}

#[test]
fn oversized_frame_reports_overflow_never_decodes() {
    let mut pipe = FramePipe::new();
    // a 9-byte frame against an 8-byte buffer: one byte over
    assert!(matches!(
        pipe.send_frame(FrameKind::Binary, &[0u8; 9]),
        SendPoll::Sent
    ));
    let mut rx = WsSvcReceiver::new(pipe, U32Codec, buf(8));
    match rx.recv() {
        RecvPoll::Failed(WsError::OversizedFrame(d)) => assert_eq!(d, 1),
        _ => panic!("an oversized frame must fault with the overflow amount"),
    }
}

#[test]
fn oversized_close_frame_is_still_oversized() {
    let mut pipe = FramePipe::new();
    assert!(matches!(
        pipe.send_frame(FrameKind::Close, &[0u8; 10]),
        SendPoll::Sent
    ));
    let mut rx = WsSvcReceiver::new(pipe, U32Codec, buf(4));
    match rx.recv() {
        RecvPoll::Failed(WsError::OversizedFrame(d)) => assert_eq!(d, 6),
        _ => panic!("the size check comes before the kind check"),
    }
}

#[test]
fn ping_is_absorbed_before_message() {
    let mut pipe = FramePipe::new();
    assert!(matches!(pipe.send_frame(FrameKind::Ping, &[]), SendPoll::Sent));
    let mut tx = WsSvcSender::new(pipe, U32Codec, buf(8));
    assert!(matches!(tx.send(&42u32), SendPoll::Sent));
    let (pipe, codec, _) = tx.into_parts();
    let mut rx = WsSvcReceiver::new(pipe, codec, buf(8));
    // one receive call: the ping is never observable
    match rx.recv() {
        RecvPoll::Received(Some(m)) => assert_eq!(m, 42u32),
        _ => panic!("the ping must be transparent"),
    }
}

#[test]
fn oversized_ping_is_still_absorbed() {
    let mut pipe = FramePipe::new();
    assert!(matches!(
        pipe.send_frame(FrameKind::Ping, &[0u8; 32]),
        SendPoll::Sent
    ));
    let mut tx = WsSvcSender::new(pipe, U32Codec, buf(8));
    assert!(matches!(tx.send(&5u32), SendPoll::Sent));
    let (pipe, codec, _) = tx.into_parts();
    let mut rx = WsSvcReceiver::new(pipe, codec, buf(8));
    match rx.recv() {
        RecvPoll::Received(Some(m)) => assert_eq!(m, 5u32),
        _ => panic!("control frames are absorbed whatever their size"),
    }
}

#[test]
fn pong_is_absorbed_too() {
    let mut pipe = FramePipe::new();
    assert!(matches!(pipe.send_frame(FrameKind::Pong, &[1]), SendPoll::Sent));
    assert!(matches!(pipe.send_frame(FrameKind::Close, &[]), SendPoll::Sent));
    let mut rx = WsSvcReceiver::new(pipe, U32Codec, buf(8));
    assert!(matches!(rx.recv(), RecvPoll::Received(None)));
}

#[test]
fn close_frame_ends_stream_without_error() {
    let mut pipe = FramePipe::new();
    assert!(matches!(pipe.send_frame(FrameKind::Close, &[]), SendPoll::Sent));
    let mut rx = WsSvcReceiver::new(pipe, U32Codec, buf(8));
    match rx.recv() {
        RecvPoll::Received(None) => {}
        _ => panic!("close is the end-of-stream sentinel, not an error"),
    }
}

#[test]
fn text_frame_is_unknown() {
    let mut pipe = FramePipe::new();
    assert!(matches!(pipe.send_frame(FrameKind::Text, &[65, 66]), SendPoll::Sent));
    let mut rx = WsSvcReceiver::new(pipe, U32Codec, buf(8));
    assert!(matches!(rx.recv(), RecvPoll::Failed(WsError::UnknownFrameError)));
}

#[test]
fn continuation_frame_is_unknown() {
    let mut pipe = FramePipe::new();
    assert!(matches!(pipe.send_frame(FrameKind::Continuation, &[1]), SendPoll::Sent));
    let mut rx = WsSvcReceiver::new(pipe, U32Codec, buf(8));
    assert!(matches!(rx.recv(), RecvPoll::Failed(WsError::UnknownFrameError)));
}

#[test]
fn undecodable_payload_is_a_decode_error() {
    let mut pipe = FramePipe::new();
    // three bytes cannot be a fixed-width 32-bit message
    assert!(matches!(pipe.send_frame(FrameKind::Binary, &[1, 2, 3]), SendPoll::Sent));
    let mut rx = WsSvcReceiver::new(pipe, U32Codec, buf(8));
    match rx.recv() {
        RecvPoll::Failed(WsError::CodecError((), d)) => assert_eq!(d, CodecDirection::Decode),
        _ => panic!("codec failures propagate as decode errors"),
    }
}

#[test]
fn encoding_that_does_not_fit_is_an_encode_error() {
    let pipe = FramePipe::new();
    // a 32-bit message needs four bytes; give the sender two
    let mut tx = WsSvcSender::new(pipe, U32Codec, buf(2));
    match tx.send(&7u32) {
        SendPoll::Failed(WsError::CodecError((), d)) => assert_eq!(d, CodecDirection::Encode),
        _ => panic!("an encoding that does not fit must fail with an encode error"),
    }
    // nothing was written to the transport
    let (pipe, codec, _) = tx.into_parts();
    let mut rx = WsSvcReceiver::new(pipe, codec, buf(8));
    assert!(matches!(rx.recv(), RecvPoll::Pending));
}

#[test]
fn empty_transport_receive_is_pending() {
    let pipe = FramePipe::new();
    let mut rx = WsSvcReceiver::new(pipe, U32Codec, buf(8));
    for _ in 0..10 {
        assert!(matches!(rx.recv(), RecvPoll::Pending));
    }
}

#[test]
fn messages_keep_their_order() {
    let pipe = FramePipe::new();
    let mut tx = WsSvcSender::new(pipe, U32Codec, buf(8));
    for m in [3u32, 1, 4, 1, 5] {
        assert!(matches!(tx.send(&m), SendPoll::Sent));
    }
    let (pipe, codec, _) = tx.into_parts();
    let mut rx = WsSvcReceiver::new(pipe, codec, buf(8));
    for want in [3u32, 1, 4, 1, 5] {
        match rx.recv() {
            RecvPoll::Received(Some(m)) => assert_eq!(m, want),
            _ => panic!("messages arrive in the order they were sent"),
        }
    }
    assert!(matches!(rx.recv(), RecvPoll::Pending));
}
