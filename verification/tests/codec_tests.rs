use channel_bridge::codec::{Codec, PostcardByteCodec, U32Codec};

#[test]
fn u32_encodes_little_endian() {
    let mut buf = vec![0u8; 8];
    let n = U32Codec.encode(&0x0102_0304u32, &mut buf).unwrap();
    assert_eq!(n, 4);
    assert_eq!(&buf[..4], &[0x04, 0x03, 0x02, 0x01]);
}

#[test]
fn u32_decodes_little_endian() {
    assert_eq!(U32Codec.decode(&[0x04, 0x03, 0x02, 0x01]).unwrap(), 0x0102_0304u32);
}

#[test]
fn u32_round_trip() {
    let mut buf = vec![0u8; 4];
    for m in [0u32, 1, 0xffff_ffff, 0x8000_0001] {
        let n = U32Codec.encode(&m, &mut buf).unwrap();
        assert_eq!(U32Codec.decode(&buf[..n]).unwrap(), m);
    }
}

#[test]
fn u32_rejects_wrong_lengths() {
    assert!(U32Codec.decode(&[1, 2, 3]).is_err());
    assert!(U32Codec.decode(&[1, 2, 3, 4, 5]).is_err());
    let mut buf = vec![0u8; 3];
    assert!(U32Codec.encode(&7u32, &mut buf).is_err());
}

#[test]
fn bytes_encode_is_length_prefixed() {
    let mut buf = vec![0u8; 16];
    let n = PostcardByteCodec.encode(&vec![1u8, 2, 3], &mut buf).unwrap();
    assert_eq!(n, 4);
    assert_eq!(&buf[..4], &[3, 1, 2, 3]);
}

#[test]
fn bytes_encode_empty_is_one_byte() {
    let mut buf = vec![0u8; 4];
    let n = PostcardByteCodec.encode(&Vec::new(), &mut buf).unwrap();
    assert_eq!(n, 1);
    assert_eq!(buf[0], 0);
}

#[test]
fn bytes_long_vector_gets_two_byte_prefix() {
    // 200 does not fit in seven bits: 200 = 0x48 + high bit, then 1
    let msg = vec![0xabu8; 200];
    let mut buf = vec![0u8; 256];
    let n = PostcardByteCodec.encode(&msg, &mut buf).unwrap();
    assert_eq!(n, 202);
    assert_eq!(buf[0], 0xc8);
    assert_eq!(buf[1], 0x01);
    assert_eq!(&buf[2..202], &msg[..]);
}

#[test]
fn bytes_decode_reads_prefix_and_payload() {
    let got = PostcardByteCodec.decode(&[3, 9, 8, 7]).unwrap();
    assert_eq!(got, vec![9, 8, 7]);
}

#[test]
fn bytes_decode_ignores_trailing_input() {
    let got = PostcardByteCodec.decode(&[1, 42, 99, 99]).unwrap();
    assert_eq!(got, vec![42]);
}

#[test]
fn bytes_decode_rejects_short_input() {
    assert!(PostcardByteCodec.decode(&[5, 1, 2]).is_err());
    assert!(PostcardByteCodec.decode(&[]).is_err());
}

#[test]
fn bytes_encode_fails_when_buffer_too_small() {
    let mut buf = vec![0u8; 3];
    assert!(PostcardByteCodec.encode(&vec![1u8, 2, 3], &mut buf).is_err());
}

#[test]
fn bytes_round_trip() {
    let msg: Vec<u8> = (0..=255u8).collect();
    let mut buf = vec![0u8; 300];
    let n = PostcardByteCodec.encode(&msg, &mut buf).unwrap();
    assert_eq!(PostcardByteCodec.decode(&buf[..n]).unwrap(), msg);
}

#[test]
fn bytes_decode_accepts_non_canonical_length() {
    // a length of five written in two varint bytes instead of one
    let got = PostcardByteCodec
        .decode(&[0x85, 0x00, 1, 2, 3, 4, 5])
        .unwrap();
    assert_eq!(got, vec![1, 2, 3, 4, 5]);
}

#[test]
fn bytes_decode_rejects_overlong_length() {
    // ten varint bytes whose last carries more than one bit
    let mut input = vec![0x80u8; 9];
    input.push(0x02);
    assert!(PostcardByteCodec.decode(&input).is_err());
}
