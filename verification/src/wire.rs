//! The wire form of the frame protocol: how a frame header and a masked
//! payload are laid out as bytes on a plain byte stream.
//!
//! A header is two bytes — a final-frame bit, an opcode, a mask bit and a
//! seven-bit length — followed by an extended big-endian length of two or
//! eight bytes when the payload is long, and a four-byte masking key when
//! the payload is masked.  A masked payload is the plain payload combined
//! byte by byte with the repeating key; applying the key twice gives the
//! plain bytes back.

use vstd::prelude::*;
use crate::channel::{SendPoll, RecvPoll};
use crate::codec::Codec;
use crate::ws::{FrameKind, WsError, CodecDirection, RecvModel};

verus! {

/// A byte-stream transport capability that writes whole chunks: either all
/// of the given bytes go out, or none do.
pub trait ByteWriter {
    type Error;

    /// The bytes this transport has accepted, oldest first.
    spec fn written(&self) -> Seq<u8>;

    fn write_all(&mut self, bytes: &[u8]) -> (r: SendPoll<(), Self::Error>)
        ensures
            match r {
                SendPoll::Sent => final(self).written() == old(self).written() + bytes@,
                SendPoll::Pending(_) => final(self).written() == old(self).written(),
                SendPoll::Failed(_) => final(self).written() == old(self).written(),
            },
    ;
}

/// A byte-stream transport capability that reads exact amounts and can put
/// bytes back, as a buffered reader can.
///
/// A read either delivers exactly the requested count into the front of the
/// buffer, or is pending — only when that many bytes have not arrived — and
/// consumes nothing, or fails.  Putting bytes back prepends them, so a
/// parser interrupted between fields can restore the stream.
pub trait ByteReader {
    type Error;

    /// The bytes this transport holds for delivery, oldest first.
    spec fn incoming(&self) -> Seq<u8>;

    fn read_exact(&mut self, buf: &mut Vec<u8>, n: usize) -> (r: RecvPoll<(), Self::Error>)
        requires
            n <= old(buf)@.len(),
        ensures
            final(buf)@.len() == old(buf)@.len(),
            match r {
                RecvPoll::Received(_) => old(self).incoming().len() >= n && final(buf)@.subrange(
                    0,
                    n as int,
                ) == old(self).incoming().subrange(0, n as int) && final(self).incoming() == old(self).incoming().skip(n as int),
                RecvPoll::Pending => old(self).incoming().len() < n && final(self).incoming()
                    == old(self).incoming() && final(buf)@ == old(buf)@,
                RecvPoll::Failed(_) => final(self).incoming() == old(self).incoming() && final(buf)@ == old(buf)@,
            },
    ;

    fn unread(&mut self, bytes: &[u8])
        ensures
            final(self).incoming() == bytes@ + old(self).incoming(),
    ;
}

/// The opcode on the wire for each frame kind.
pub open spec fn opcode_of(kind: FrameKind) -> u8 {
    match kind {
        FrameKind::Continuation => 0,
        FrameKind::Text => 1,
        FrameKind::Binary => 2,
        FrameKind::Close => 8,
        FrameKind::Ping => 9,
        FrameKind::Pong => 10,
    }
}

/// The frame kind a wire opcode names, if any.
pub open spec fn kind_of(opcode: u8) -> Option<FrameKind> {
    if opcode == 0 {
        Some(FrameKind::Continuation)
    } else if opcode == 1 {
        Some(FrameKind::Text)
    } else if opcode == 2 {
        Some(FrameKind::Binary)
    } else if opcode == 8 {
        Some(FrameKind::Close)
    } else if opcode == 9 {
        Some(FrameKind::Ping)
    } else if opcode == 10 {
        Some(FrameKind::Pong)
    } else {
        None
    }
}

/// A sixteen-bit number as two big-endian bytes.
pub open spec fn spec_u16_to_be(x: u16) -> Seq<u8> {
    seq![((x >> 8) & 0xff) as u8, (x & 0xff) as u8]
}

/// The sixteen-bit number two big-endian bytes hold.
pub open spec fn spec_u16_from_be(s: Seq<u8>) -> u16
    recommends
        s.len() == 2,
{
    (s[0] as u16) << 8 | (s[1] as u16)
}

/// A thirty-two-bit number as four big-endian bytes.
pub open spec fn spec_u32_to_be(x: u32) -> Seq<u8> {
    seq![
        ((x >> 24) & 0xff) as u8,
        ((x >> 16) & 0xff) as u8,
        ((x >> 8) & 0xff) as u8,
        (x & 0xff) as u8,
    ]
}

/// The thirty-two-bit number four big-endian bytes hold.
pub open spec fn spec_u32_from_be(s: Seq<u8>) -> u32
    recommends
        s.len() == 4,
{
    (s[0] as u32) << 24 | (s[1] as u32) << 16 | (s[2] as u32) << 8 | (s[3] as u32)
}

/// A sixty-four-bit number as eight big-endian bytes.
pub open spec fn spec_u64_to_be(x: u64) -> Seq<u8> {
    seq![
        ((x >> 56) & 0xff) as u8,
        ((x >> 48) & 0xff) as u8,
        ((x >> 40) & 0xff) as u8,
        ((x >> 32) & 0xff) as u8,
        ((x >> 24) & 0xff) as u8,
        ((x >> 16) & 0xff) as u8,
        ((x >> 8) & 0xff) as u8,
        (x & 0xff) as u8,
    ]
}

/// The sixty-four-bit number eight big-endian bytes hold.
pub open spec fn spec_u64_from_be(s: Seq<u8>) -> u64
    recommends
        s.len() == 8,
{
    (s[0] as u64) << 56 | (s[1] as u64) << 48 | (s[2] as u64) << 40 | (s[3] as u64) << 32 | (
    s[4] as u64) << 24 | (s[5] as u64) << 16 | (s[6] as u64) << 8 | (s[7] as u64)
}

/// Reading big-endian bytes back gives the number they were made from, and
/// writing a number read from four bytes gives those bytes back.
pub proof fn lemma_be_round_trips()
    ensures
        forall|x: u16| #[trigger] spec_u16_from_be(spec_u16_to_be(x)) == x,
        forall|x: u32| #[trigger] spec_u32_from_be(spec_u32_to_be(x)) == x,
        forall|x: u64| #[trigger] spec_u64_from_be(spec_u64_to_be(x)) == x,
        forall|s: Seq<u8>| s.len() == 4 ==> #[trigger] spec_u32_to_be(spec_u32_from_be(s)) == s,
{
    assert forall|s: Seq<u8>| s.len() == 4 implies #[trigger] spec_u32_to_be(spec_u32_from_be(s))
        == s by {
        let x = spec_u32_from_be(s);
        let s0 = s[0];
        let s1 = s[1];
        let s2 = s[2];
        let s3 = s[3];
        assert((((s0 as u32) << 24 | (s1 as u32) << 16 | (s2 as u32) << 8 | (s3 as u32)) >> 24)
            & 0xff == s0 && (((s0 as u32) << 24 | (s1 as u32) << 16 | (s2 as u32) << 8 | (
        s3 as u32)) >> 16) & 0xff == s1 && (((s0 as u32) << 24 | (s1 as u32) << 16 | (s2 as u32)
            << 8 | (s3 as u32)) >> 8) & 0xff == s2 && ((s0 as u32) << 24 | (s1 as u32) << 16 | (
        s2 as u32) << 8 | (s3 as u32)) & 0xff == s3) by (bit_vector);
        assert(spec_u32_to_be(x) =~= s);
    }
    assert forall|x: u16| #[trigger] spec_u16_from_be(spec_u16_to_be(x)) == x by {
        assert(((((x >> 8) & 0xff) as u8) as u16) << 8 | (((x & 0xff) as u8) as u16) == x)
            by (bit_vector);
    }
    assert forall|x: u32| #[trigger] spec_u32_from_be(spec_u32_to_be(x)) == x by {
        assert(((((x >> 24) & 0xff) as u8) as u32) << 24 | ((((x >> 16) & 0xff) as u8) as u32)
            << 16 | ((((x >> 8) & 0xff) as u8) as u32) << 8 | (((x & 0xff) as u8) as u32) == x)
            by (bit_vector);
    }
    assert forall|x: u64| #[trigger] spec_u64_from_be(spec_u64_to_be(x)) == x by {
        assert(((((x >> 56) & 0xff) as u8) as u64) << 56 | ((((x >> 48) & 0xff) as u8) as u64)
            << 48 | ((((x >> 40) & 0xff) as u8) as u64) << 40 | ((((x >> 32) & 0xff) as u8) as u64)
            << 32 | ((((x >> 24) & 0xff) as u8) as u64) << 24 | ((((x >> 16) & 0xff) as u8) as u64)
            << 16 | ((((x >> 8) & 0xff) as u8) as u64) << 8 | (((x & 0xff) as u8) as u64) == x)
            by (bit_vector);
    }
}

/// The payload combined with the repeating four-byte key: byte `i` of the
/// result is byte `i` of the payload combined with key byte `i mod 4`.
pub open spec fn masked(p: Seq<u8>, key: u32) -> Seq<u8> {
    Seq::new(p.len(), |i: int| p[i] ^ spec_u32_to_be(key)[i % 4])
}

/// The payload as the wire carries it: masked when a key is used, plain
/// otherwise.
pub open spec fn apply_mask(p: Seq<u8>, mask: Option<u32>) -> Seq<u8> {
    match mask {
        Some(key) => masked(p, key),
        None => p,
    }
}

/// Masking is its own inverse: applying the same key twice gives the plain
/// payload back.
pub proof fn lemma_mask_involution(p: Seq<u8>, key: u32)
    ensures
        masked(masked(p, key), key) == p,
{
    assert forall|i: int| 0 <= i < p.len() implies masked(masked(p, key), key)[i] == p[i] by {
        let m = spec_u32_to_be(key)[i % 4];
        let a = p[i];
        assert((a ^ m) ^ m == a) by (bit_vector);
    }
    assert(masked(masked(p, key), key) =~= p);
}

/// The header bytes of one unfragmented frame: the final bit and opcode,
/// the mask bit and length, the extended length if the payload is long, and
/// the masking key if there is one.
pub open spec fn header_bytes(kind: FrameKind, mask: Option<u32>, len: u64) -> Seq<u8> {
    let b0 = (0x80 | opcode_of(kind)) as u8;
    let mbit: u8 = if mask is Some {
        0x80
    } else {
        0
    };
    let len_part = if len < 126 {
        seq![(mbit | (len as u8)) as u8]
    } else if len < 65536 {
        seq![(mbit | 126) as u8] + spec_u16_to_be(len as u16)
    } else {
        seq![(mbit | 127) as u8] + spec_u64_to_be(len)
    };
    let mask_part = match mask {
        Some(key) => spec_u32_to_be(key),
        None => Seq::<u8>::empty(),
    };
    seq![b0] + len_part + mask_part
}

/// Everything one frame puts on the wire: its header, then its payload as
/// the wire carries it.
pub open spec fn frame_bytes(kind: FrameKind, mask: Option<u32>, payload: Seq<u8>) -> Seq<u8> {
    header_bytes(kind, mask, payload.len() as u64) + apply_mask(payload, mask)
}

/// A parsed frame header: what kind of frame follows, its masking key if
/// any, its payload length, and how many bytes the header took.
pub struct ParsedHeader {
    pub kind: FrameKind,
    pub mask: Option<u32>,
    pub len: u64,
    pub consumed: nat,
}

/// What the head of a byte stream holds.
pub enum HeaderParse {
    /// Too few bytes so far to tell.
    Incomplete,
    /// The reserved bits or the opcode are invalid: a protocol violation.
    Malformed,
    /// A complete, valid header.
    Parsed(ParsedHeader),
}

/// Reads one frame header off the head of a byte stream.
pub open spec fn parse_header(b: Seq<u8>) -> HeaderParse {
    if b.len() < 2 {
        HeaderParse::Incomplete
    } else if b[0] & 0x70 != 0 {
        HeaderParse::Malformed
    } else {
        match kind_of(b[0] & 0x0f) {
            None => HeaderParse::Malformed,
            Some(kind) => {
                let has_mask = b[1] & 0x80 != 0;
                let len7 = b[1] & 0x7f;
                let ext: nat = if len7 == 126 {
                    2
                } else if len7 == 127 {
                    8
                } else {
                    0
                };
                let mask_len: nat = if has_mask {
                    4
                } else {
                    0
                };
                if b.len() < 2 + ext + mask_len {
                    HeaderParse::Incomplete
                } else {
                    let len: u64 = if len7 == 126 {
                        spec_u16_from_be(b.subrange(2, 4)) as u64
                    } else if len7 == 127 {
                        spec_u64_from_be(b.subrange(2, 10))
                    } else {
                        len7 as u64
                    };
                    let mask: Option<u32> = if has_mask {
                        Some(spec_u32_from_be(b.subrange(2 + ext as int, 2 + ext as int + 4)))
                    } else {
                        None
                    };
                    HeaderParse::Parsed(
                        ParsedHeader { kind, mask, len, consumed: 2 + ext + mask_len },
                    )
                }
            },
        }
    }
}

/// Parsing inverts header writing: the header bytes of any frame, whatever
/// follows them, parse back to exactly that frame's header.
pub proof fn lemma_header_round_trip(kind: FrameKind, mask: Option<u32>, len: u64, tail: Seq<u8>)
    ensures
        parse_header(header_bytes(kind, mask, len) + tail) == HeaderParse::Parsed(
            (ParsedHeader {
                kind,
                mask,
                len,
                consumed: header_bytes(kind, mask, len).len(),
            }),
        ),
{
    lemma_be_round_trips();
    let h = header_bytes(kind, mask, len);
    let b = h + tail;
    let op = opcode_of(kind);
    let b0 = (0x80 | op) as u8;
    assert(op == 0 || op == 1 || op == 2 || op == 8 || op == 9 || op == 10);
    assert(b0 & 0x70 == 0 && b0 & 0x0f == op) by (bit_vector)
        requires
            op == 0 || op == 1 || op == 2 || op == 8 || op == 9 || op == 10,
            b0 == (0x80 | op) as u8,
    ;
    let mbit: u8 = if mask is Some {
        0x80
    } else {
        0
    };
    if len < 126 {
        let l = len as u8;
        let b1 = (mbit | l) as u8;
        assert((b1 & 0x80 != 0) == (mbit == 0x80) && b1 & 0x7f == l && l < 126) by (bit_vector)
            requires
                l < 126,
                mbit == 0x80 || mbit == 0,
                b1 == (mbit | l) as u8,
        ;
        match mask {
            Some(key) => {
                assert(b.subrange(2, 6) =~= spec_u32_to_be(key));
            },
            None => {},
        }
    } else if len < 65536 {
        let b1 = (mbit | 126) as u8;
        assert((b1 & 0x80 != 0) == (mbit == 0x80) && b1 & 0x7f == 126) by (bit_vector)
            requires
                mbit == 0x80 || mbit == 0,
                b1 == (mbit | 126) as u8,
        ;
        assert(b.subrange(2, 4) =~= spec_u16_to_be(len as u16));
        match mask {
            Some(key) => {
                assert(b.subrange(4, 8) =~= spec_u32_to_be(key));
            },
            None => {},
        }
    } else {
        let b1 = (mbit | 127) as u8;
        assert((b1 & 0x80 != 0) == (mbit == 0x80) && b1 & 0x7f == 127) by (bit_vector)
            requires
                mbit == 0x80 || mbit == 0,
                b1 == (mbit | 127) as u8,
        ;
        assert(b.subrange(2, 10) =~= spec_u64_to_be(len));
        match mask {
            Some(key) => {
                assert(b.subrange(10, 14) =~= spec_u32_to_be(key));
            },
            None => {},
        }
    }
}

/// The masking key as the four bytes that repeat over the payload.
fn u32_be_bytes(key: u32) -> (v: Vec<u8>)
    ensures
        v@ == spec_u32_to_be(key),
{
    let mut v: Vec<u8> = Vec::new();
    v.push(((key >> 24) & 0xff) as u8);
    v.push(((key >> 16) & 0xff) as u8);
    v.push(((key >> 8) & 0xff) as u8);
    v.push((key & 0xff) as u8);
    proof {
        assert(v@ =~= spec_u32_to_be(key));
    }
    v
}

/// Writes one frame header into a fresh buffer.
fn encode_header(kind: FrameKind, mask: Option<u32>, len: u64) -> (v: Vec<u8>)
    ensures
        v@ == header_bytes(kind, mask, len),
{
    let mut v: Vec<u8> = Vec::new();
    let opcode: u8 = match kind {
        FrameKind::Continuation => 0,
        FrameKind::Text => 1,
        FrameKind::Binary => 2,
        FrameKind::Close => 8,
        FrameKind::Ping => 9,
        FrameKind::Pong => 10,
    };
    v.push(0x80 | opcode);
    let mbit: u8 = if mask.is_some() {
        0x80
    } else {
        0
    };
    if len < 126 {
        v.push(mbit | (len as u8));
    } else if len < 65536 {
        v.push(mbit | 126);
        let l = len as u16;
        v.push(((l >> 8) & 0xff) as u8);
        v.push((l & 0xff) as u8);
    } else {
        v.push(mbit | 127);
        v.push(((len >> 56) & 0xff) as u8);
        v.push(((len >> 48) & 0xff) as u8);
        v.push(((len >> 40) & 0xff) as u8);
        v.push(((len >> 32) & 0xff) as u8);
        v.push(((len >> 24) & 0xff) as u8);
        v.push(((len >> 16) & 0xff) as u8);
        v.push(((len >> 8) & 0xff) as u8);
        v.push((len & 0xff) as u8);
    }
    match mask {
        Some(key) => {
            let kb = u32_be_bytes(key);
            v.push(kb[0]);
            v.push(kb[1]);
            v.push(kb[2]);
            v.push(kb[3]);
        },
        None => {},
    }
    proof {
        assert(v@ =~= header_bytes(kind, mask, len));
    }
    v
}

/// The stream past its first `n` bytes, or nothing when it is shorter.
pub open spec fn skip_upto(b: Seq<u8>, n: nat) -> Seq<u8> {
    if n == 0 {
        b
    } else if n <= b.len() {
        b.skip(n as int)
    } else {
        Seq::empty()
    }
}

/// What one message-receive makes of a byte stream, against a buffer of
/// capacity `cap`: the outcome, and where the stream stands afterwards.
///
/// Absorbed control frames are consumed whole, whatever their size.  A
/// malformed header is a protocol violation that consumes only the two
/// bytes that revealed it; an oversized, text or continuation frame is
/// reported as soon as its header is read, leaving the stream at its unread
/// payload — all three faults end the connection, so the stream is not
/// re-synchronized.  A binary frame's payload is unmasked and decoded; a
/// close frame ends the stream.
pub open spec fn recv_bytes_model<C: Codec>(codec: C, bytes: Seq<u8>, cap: nat) -> (RecvModel<
    <C::Data as View>::V,
>, Seq<u8>)
    decreases bytes.len(),
{
    match parse_header(bytes) {
        HeaderParse::Incomplete => (RecvModel::Starved, bytes),
        HeaderParse::Malformed => (RecvModel::Unknown, skip_upto(bytes, 2)),
        HeaderParse::Parsed(h) => {
            let total = h.consumed + h.len as nat;
            if h.kind.is_absorbed() {
                if total <= bytes.len() {
                    recv_bytes_model(codec, bytes.skip(total as int), cap)
                } else {
                    (RecvModel::Starved, bytes)
                }
            } else if h.len as nat > cap {
                (RecvModel::Oversized((h.len - cap) as nat), bytes.skip(h.consumed as int))
            } else if h.kind is Text || h.kind is Continuation {
                (RecvModel::Unknown, bytes.skip(h.consumed as int))
            } else if total > bytes.len() {
                (RecvModel::Starved, bytes)
            } else if h.kind is Binary {
                let payload = apply_mask(
                    bytes.subrange(h.consumed as int, total as int),
                    h.mask,
                );
                match codec.dec(payload) {
                    Some(m) => (RecvModel::Delivered(m), bytes.skip(total as int)),
                    None => (RecvModel::Undecodable, bytes.skip(total as int)),
                }
            } else {
                (RecvModel::Closed, bytes.skip(total as int))
            }
        },
    }
}

/// The sending half of the framing layer over a plain byte stream: a byte
/// transport, a codec, one caller-owned fixed serialization buffer, and the
/// masking key this endpoint applies to what it sends, if any.
pub struct WsSender<W, C: Codec> {
    write: W,
    codec: C,
    buf: Vec<u8>,
    mask: Option<u32>,
}

impl<W: ByteWriter, C: Codec> WsSender<W, C> {
    /// The underlying byte transport.
    pub closed spec fn transport(&self) -> W {
        self.write
    }

    /// The codec in use.
    pub closed spec fn codec(&self) -> C {
        self.codec
    }

    /// The fixed capacity of the serialization buffer.
    pub closed spec fn buf_len(&self) -> nat {
        self.buf@.len()
    }

    /// The masking key applied to outgoing payloads, if any.
    pub closed spec fn mask_key(&self) -> Option<u32> {
        self.mask
    }

    pub fn new(write: W, codec: C, buf: Vec<u8>, mask: Option<u32>) -> (s: Self)
        ensures
            s.transport() == write,
            s.codec() == codec,
            s.buf_len() == buf@.len(),
            s.mask_key() == mask,
    {
        WsSender { write, codec, buf, mask }
    }

    /// Takes the sender apart again: the transport, the codec, and the
    /// buffer, unchanged in size.
    pub fn into_parts(self) -> (r: (W, C, Vec<u8>))
        ensures
            r.0 == self.transport(),
            r.1 == self.codec(),
            r.2@.len() == self.buf_len(),
    {
        (self.write, self.codec, self.buf)
    }

    /// Serializes one message into the buffer and writes it to the byte
    /// stream as a single unfragmented binary frame — header, then the
    /// payload masked with this endpoint's key.  Fails with an encode error
    /// exactly when the encoding does not fit the buffer, and with a
    /// transport error when the write fails; a pending transport leaves the
    /// stream untouched, to be polled again.
    pub fn send(&mut self, data: &C::Data) -> (r: SendPoll<(), WsError<W::Error, C::Error>>)
        ensures
            final(self).codec() == old(self).codec(),
            final(self).buf_len() == old(self).buf_len(),
            final(self).mask_key() == old(self).mask_key(),
            ({
                let e = old(self).codec().enc(data@);
                let w0 = old(self).transport().written();
                &&& (e.len() > old(self).buf_len() ==> (r matches SendPoll::Failed(
                    WsError::CodecError(_, d),
                ) && d is Encode) && final(self).transport().written() == w0)
                &&& (e.len() <= old(self).buf_len() ==> match r {
                    SendPoll::Sent => final(self).transport().written() == w0 + frame_bytes(
                        FrameKind::Binary,
                        old(self).mask_key(),
                        e,
                    ),
                    SendPoll::Pending(_) => final(self).transport().written() == w0,
                    SendPoll::Failed(err) => (err matches WsError::IoError(_)) && final(self).transport().written() == w0,
                })
            }),
    {
        let n = match self.codec.encode(data, &mut self.buf) {
            Ok(n) => n,
            Err(e) => {
                return SendPoll::Failed(WsError::CodecError(e, CodecDirection::Encode));
            },
        };
        let ghost e = self.codec.enc(data@);
        let mut frame = encode_header(FrameKind::Binary, self.mask, n as u64);
        let ghost header = frame@;
        match self.mask {
            None => {
                let mut i: usize = 0;
                while i < n
                    invariant
                        i <= n,
                        n <= self.buf@.len(),
                        frame@ == header + self.buf@.subrange(0, i as int),
                    decreases n - i,
                {
                    frame.push(self.buf[i]);
                    proof {
                        assert(frame@ =~= header + self.buf@.subrange(0, i + 1 as int));
                    }
                    i = i + 1;
                }
                proof {
                    assert(self.buf@.subrange(0, n as int) == e);
                    assert(frame@ == header + apply_mask(e, self.mask));
                }
            },
            Some(key) => {
                let kb = u32_be_bytes(key);
                let mut i: usize = 0;
                while i < n
                    invariant
                        i <= n,
                        n <= self.buf@.len(),
                        kb@ == spec_u32_to_be(key),
                        frame@ == header + masked(self.buf@.subrange(0, i as int), key),
                    decreases n - i,
                {
                    frame.push(self.buf[i] ^ kb[i % 4]);
                    proof {
                        assert(frame@ =~= header + masked(self.buf@.subrange(0, i + 1 as int), key));
                    }
                    i = i + 1;
                }
                proof {
                    assert(self.buf@.subrange(0, n as int) == e);
                    assert(frame@ == header + apply_mask(e, self.mask));
                }
            },
        }
        match self.write.write_all(frame.as_slice()) {
            SendPoll::Sent => SendPoll::Sent,
            SendPoll::Pending(_) => SendPoll::Pending(()),
            SendPoll::Failed(e) => SendPoll::Failed(WsError::IoError(e)),
        }
    }
}

/// The receiving half of the framing layer over a plain byte stream: a byte
/// transport, a codec, one caller-owned fixed frame buffer, and a count of
/// payload bytes an already-handled frame still owes the stream.
pub struct WsReceiver<R, C: Codec> {
    read: R,
    codec: C,
    buf: Vec<u8>,
    skip: u64,
}

impl<R: ByteReader, C: Codec> WsReceiver<R, C> {
    /// The underlying byte transport.
    pub closed spec fn transport(&self) -> R {
        self.read
    }

    /// The codec in use.
    pub closed spec fn codec(&self) -> C {
        self.codec
    }

    /// The fixed capacity of the frame buffer.
    pub closed spec fn buf_len(&self) -> nat {
        self.buf@.len()
    }

    /// Payload bytes of an already-handled frame not yet drained.
    pub closed spec fn owed(&self) -> nat {
        self.skip as nat
    }

    /// The stream as the caller sees it: past the owed drain.
    pub closed spec fn logical(&self) -> Seq<u8> {
        skip_upto(self.read.incoming(), self.skip as nat)
    }

    pub fn new(read: R, codec: C, buf: Vec<u8>) -> (s: Self)
        ensures
            s.transport() == read,
            s.codec() == codec,
            s.buf_len() == buf@.len(),
            s.owed() == 0,
            s.logical() == read.incoming(),
    {
        WsReceiver { read, codec, buf, skip: 0 }
    }

    /// Rebuilds a receiver that was taken apart, owed drain included, so
    /// the stream position is carried over exactly.
    pub fn resume(read: R, codec: C, buf: Vec<u8>, owed: u64) -> (s: Self)
        ensures
            s.transport() == read,
            s.codec() == codec,
            s.buf_len() == buf@.len(),
            s.owed() == owed,
    {
        WsReceiver { read, codec, buf, skip: owed }
    }

    /// Takes the receiver apart again: the transport, the codec, the buffer
    /// (unchanged in size), and the payload bytes still owed to an
    /// already-handled frame — hand them all to [`WsReceiver::resume`] to
    /// carry on at the same stream position.
    pub fn into_parts(self) -> (r: (R, C, Vec<u8>, u64))
        ensures
            r.0 == self.transport(),
            r.1 == self.codec(),
            r.2@.len() == self.buf_len(),
            r.3 == self.owed(),
    {
        (self.read, self.codec, self.buf, self.skip)
    }

    /// Pulls the owed payload bytes off the stream, through a small scratch
    /// buffer, resuming where an earlier pending poll stopped.
    #[verifier::loop_isolation(false)]
    fn drain(&mut self) -> (r: RecvPoll<(), R::Error>)
        ensures
            final(self).codec() == old(self).codec(),
            final(self).buf_len() == old(self).buf_len(),
            match r {
                RecvPoll::Received(_) => final(self).owed() == 0 && old(self).transport().incoming().len() >= old(self).owed() && final(self).transport().incoming() == old(self).transport().incoming().skip(
                    old(self).owed() as int,
                ),
                RecvPoll::Pending => old(self).transport().incoming().len() < old(self).owed()
                    && final(self).logical().len() == 0,
                RecvPoll::Failed(_) => true,
            },
    {
        if self.skip == 0 {
            return RecvPoll::Received(());
        }
        let ghost inc0 = self.read.incoming();
        let ghost owed0 = self.skip as nat;
        let mut chunk: Vec<u8> = vec![0u8; 64];
        while self.skip > 0
            invariant
                chunk@.len() == 64,
                self.codec == old(self).codec(),
                self.buf@.len() == old(self).buf_len(),
                self.skip as nat <= owed0,
                // the stream consumed so far came off the owed drain
                inc0.len() >= owed0 - self.skip as nat,
                self.read.incoming() == inc0.skip((owed0 - self.skip as nat) as int),
            decreases self.skip,
        {
            let c: usize = if self.skip < 64 {
                self.skip as usize
            } else {
                64
            };
            let ghost done = owed0 - self.skip as nat;
            match self.read.read_exact(&mut chunk, c) {
                RecvPoll::Received(_) => {
                    proof {
                        assert(inc0.skip(done as int).skip(c as int) =~= inc0.skip(
                            (done + c) as int,
                        ));
                    }
                    self.skip = self.skip - (c as u64);
                },
                RecvPoll::Pending => {
                    proof {
                        // fewer bytes than one chunk: the whole logical
                        // stream is behind the drain, so it is empty
                        assert(self.read.incoming().len() < c);
                        assert(inc0.len() < owed0);
                        assert(skip_upto(inc0, owed0).len() == 0);
                        assert(self.logical().len() == 0);
                    }
                    return RecvPoll::Pending;
                },
                RecvPoll::Failed(e) => {
                    return RecvPoll::Failed(e);
                },
            }
        }
        proof {
            assert(self.read.incoming() == inc0.skip(owed0 as int));
        }
        RecvPoll::Received(())
    }

    /// Reads one frame header off the stream, field by field.  When part
    /// of a header has not arrived yet, the bytes already read are put back
    /// so the stream is exactly as it was.
    #[verifier::loop_isolation(false)]
    fn read_header(&mut self) -> (r: HeaderPoll<R::Error>)
        requires
            old(self).owed() == 0,
        ensures
            final(self).codec() == old(self).codec(),
            final(self).buf_len() == old(self).buf_len(),
            final(self).owed() == 0,
            ({
                let q = old(self).transport().incoming();
                match r {
                    HeaderPoll::Got(kind, mask, len) => parse_header(q) matches HeaderParse::Parsed(
                        h,
                    ) && h.kind == kind && h.mask == mask && h.len == len && q.len() >= h.consumed
                        && final(self).transport().incoming() == q.skip(h.consumed as int),
                    HeaderPoll::Starved => parse_header(q) is Incomplete && final(self).transport().incoming() == q,
                    HeaderPoll::Bad => parse_header(q) is Malformed && q.len() >= 2 && final(self).transport().incoming() == q.skip(2),
                    HeaderPoll::TransportFailed(_) => true,
                }
            }),
    {
        let ghost q = self.read.incoming();
        // the two fixed header bytes
        let mut h2: Vec<u8> = vec![0u8; 2];
        match self.read.read_exact(&mut h2, 2) {
            RecvPoll::Received(_) => {},
            RecvPoll::Pending => {
                return HeaderPoll::Starved;
            },
            RecvPoll::Failed(e) => {
                return HeaderPoll::TransportFailed(e);
            },
        }
        proof {
            assert(h2@ =~= q.subrange(0, 2));
            assert(h2@[0] == q[0] && h2@[1] == q[1]);
        }
        let b0 = h2[0];
        let b1 = h2[1];
        if b0 & 0x70 != 0 {
            // reserved bits set: a protocol violation
            return HeaderPoll::Bad;
        }
        let op = b0 & 0x0f;
        let kind: FrameKind = if op == 0 {
            FrameKind::Continuation
        } else if op == 1 {
            FrameKind::Text
        } else if op == 2 {
            FrameKind::Binary
        } else if op == 8 {
            FrameKind::Close
        } else if op == 9 {
            FrameKind::Ping
        } else if op == 10 {
            FrameKind::Pong
        } else {
            // an opcode this protocol does not know
            return HeaderPoll::Bad;
        };
        proof {
            assert(kind_of(op) == Some(kind));
        }
        let len7 = b1 & 0x7f;
        let has_mask = (b1 & 0x80) != 0;
        let ghost ext_n: nat = if len7 == 126 {
            2
        } else if len7 == 127 {
            8
        } else {
            0
        };
        // the extended length
        let mut ext: Vec<u8> = Vec::new();
        let mut len: u64 = len7 as u64;
        if len7 == 126 {
            ext = vec![0u8; 2];
            match self.read.read_exact(&mut ext, 2) {
                RecvPoll::Received(_) => {
                    let l16: u16 = ((ext[0] as u16) << 8) | (ext[1] as u16);
                    len = l16 as u64;
                },
                RecvPoll::Pending => {
                    self.read.unread(h2.as_slice());
                    proof {
                        assert(self.read.incoming() =~= q);
                    }
                    return HeaderPoll::Starved;
                },
                RecvPoll::Failed(e) => {
                    return HeaderPoll::TransportFailed(e);
                },
            }
        } else if len7 == 127 {
            ext = vec![0u8; 8];
            match self.read.read_exact(&mut ext, 8) {
                RecvPoll::Received(_) => {
                    len = ((ext[0] as u64) << 56) | ((ext[1] as u64) << 48) | ((ext[2] as u64)
                        << 40) | ((ext[3] as u64) << 32) | ((ext[4] as u64) << 24) | ((
                    ext[5] as u64) << 16) | ((ext[6] as u64) << 8) | (ext[7] as u64);
                },
                RecvPoll::Pending => {
                    self.read.unread(h2.as_slice());
                    proof {
                        assert(self.read.incoming() =~= q);
                    }
                    return HeaderPoll::Starved;
                },
                RecvPoll::Failed(e) => {
                    return HeaderPoll::TransportFailed(e);
                },
            }
        }
        proof {
            if ext_n > 0 {
                assert(ext@ =~= q.skip(2).subrange(0, ext_n as int));
                assert(q.skip(2).subrange(0, ext_n as int) =~= q.subrange(2, 2 + ext_n as int));
                assert(self.read.incoming() =~= q.skip(2 + ext_n as int));
            }
        }
        // the masking key
        let ghost mask_n: nat = if has_mask {
            4
        } else {
            0
        };
        let mut mask_key: Option<u32> = None;
        if has_mask {
            let mut mkb: Vec<u8> = vec![0u8; 4];
            match self.read.read_exact(&mut mkb, 4) {
                RecvPoll::Received(_) => {
                    let k: u32 = ((mkb[0] as u32) << 24) | ((mkb[1] as u32) << 16) | ((
                    mkb[2] as u32) << 8) | (mkb[3] as u32);
                    mask_key = Some(k);
                    proof {
                        assert(mkb@ =~= q.skip(2 + ext_n as int).subrange(0, 4));
                        assert(q.skip(2 + ext_n as int).subrange(0, 4) =~= q.subrange(
                            2 + ext_n as int,
                            (2 + ext_n + 4) as int,
                        ));
                    }
                },
                RecvPoll::Pending => {
                    self.read.unread(ext.as_slice());
                    self.read.unread(h2.as_slice());
                    proof {
                        if ext_n > 0 {
                            assert(ext@ + q.skip(2 + ext_n as int) =~= q.skip(2));
                        } else {
                            assert(ext@ + q.skip(2) =~= q.skip(2));
                        }
                        assert(h2@ + q.skip(2) =~= q);
                    }
                    return HeaderPoll::Starved;
                },
                RecvPoll::Failed(e) => {
                    return HeaderPoll::TransportFailed(e);
                },
            }
        }
        let ghost consumed: nat = 2 + ext_n + mask_n;
        proof {
            assert(self.read.incoming() =~= q.skip(consumed as int));
            assert(parse_header(q) == HeaderParse::Parsed(
                (ParsedHeader { kind, mask: mask_key, len, consumed }),
            ));
        }
        HeaderPoll::Got(kind, mask_key, len)
    }

    /// Receives one message off the byte stream: finishes any owed drain,
    /// reads one frame header, and then behaves exactly as
    /// [`recv_bytes_model`] says: ping and pong are absorbed whatever their
    /// size, an oversized frame faults with the overflow amount (saturated
    /// to the machine word) before its payload is ever touched, text and
    /// continuation frames fault as unknown, a binary payload is unmasked
    /// and decoded, and a close frame ends the stream.
    #[verifier::loop_isolation(false)]
    #[verifier::rlimit(50)]
    pub fn recv(&mut self) -> (r: RecvPoll<Option<C::Data>, WsError<R::Error, C::Error>>)
        ensures
            final(self).codec() == old(self).codec(),
            final(self).buf_len() == old(self).buf_len(),
            ({
                let (out, rest) = recv_bytes_model(
                    old(self).codec(),
                    old(self).logical(),
                    old(self).buf_len(),
                );
                match r {
                    RecvPoll::Received(om) => match om {
                        Some(m) => out == RecvModel::<<C::Data as View>::V>::Delivered(m@)
                            && final(self).logical() == rest,
                        None => out is Closed && final(self).logical() == rest,
                    },
                    RecvPoll::Pending => out is Starved,
                    RecvPoll::Failed(err) => match err {
                        WsError::IoError(_) => true,
                        WsError::UnknownFrameError => out is Unknown && final(self).logical()
                            == rest,
                        WsError::CodecError(_, d) => d is Decode && out is Undecodable && final(self).logical() == rest,
                        WsError::OversizedFrame(nn) => (out matches RecvModel::Oversized(a) && (
                        if a > usize::MAX as nat {
                            nn == usize::MAX
                        } else {
                            nn as nat == a
                        })) && final(self).logical() == rest,
                    },
                }
            }),
        decreases self.transport().incoming().len(),
    {
        let ghost cap = old(self).buf_len();
        match self.drain() {
            RecvPoll::Received(_) => {},
            RecvPoll::Pending => {
                return RecvPoll::Pending;
            },
            RecvPoll::Failed(e) => {
                return RecvPoll::Failed(WsError::IoError(e));
            },
        }
        let ghost q = self.read.incoming();
        proof {
            assert(q == old(self).logical());
        }
        let (kind, mask_key, len) = match self.read_header() {
            HeaderPoll::Got(kind, mask_key, len) => (kind, mask_key, len),
            HeaderPoll::Starved => {
                return RecvPoll::Pending;
            },
            HeaderPoll::Bad => {
                return RecvPoll::Failed(WsError::UnknownFrameError);
            },
            HeaderPoll::TransportFailed(e) => {
                return RecvPoll::Failed(WsError::IoError(e));
            },
        };
        let ghost hdr = parse_header(q)->Parsed_0;
        let ghost consumed = hdr.consumed;
        match kind {
            FrameKind::Ping | FrameKind::Pong => {
                self.skip = len;
                match self.drain() {
                    RecvPoll::Received(_) => {
                        proof {
                            assert(q.skip(consumed as int).skip(len as int) =~= q.skip(
                                (consumed + len) as int,
                            ));
                            assert(consumed + len <= q.len());
                            assert(recv_bytes_model(self.codec, q, cap) == recv_bytes_model(
                                self.codec,
                                self.read.incoming(),
                                cap,
                            ));
                            assert(self.logical() == self.read.incoming());
                        }
                        self.recv()
                    },
                    RecvPoll::Pending => {
                        proof {
                            assert(q.len() < consumed + len);
                        }
                        RecvPoll::Pending
                    },
                    RecvPoll::Failed(e) => {
                        RecvPoll::Failed(WsError::IoError(e))
                    },
                }
            },
            _ => {
                if len > (self.buf.len() as u64) {
                    let over = len - (self.buf.len() as u64);
                    let nn: usize = if over > (usize::MAX as u64) {
                        usize::MAX
                    } else {
                        over as usize
                    };
                    return RecvPoll::Failed(WsError::OversizedFrame(nn));
                }
                match kind {
                    FrameKind::Text | FrameKind::Continuation => {
                        RecvPoll::Failed(WsError::UnknownFrameError)
                    },
                    _ => {
                        // a binary or close frame: its payload fits the buffer
                        let lenu = len as usize;
                        let ghost wire_payload = q.subrange(
                            consumed as int,
                            (consumed + len) as int,
                        );
                        match self.read.read_exact(&mut self.buf, lenu) {
                            RecvPoll::Pending => {
                                // put the header back so the next poll sees
                                // the whole frame from its start
                                self.unread_header(kind, mask_key, len);
                                RecvPoll::Pending
                            },
                            RecvPoll::Failed(e) => {
                                RecvPoll::Failed(WsError::IoError(e))
                            },
                            RecvPoll::Received(_) => {
                                proof {
                                    assert(self.buf@.subrange(0, lenu as int) =~= wire_payload);
                                    assert(self.read.incoming() =~= q.skip(
                                        (consumed + len) as int,
                                    ));
                                }
                                match kind {
                                    FrameKind::Close => {
                                        RecvPoll::Received(None)
                                    },
                                    _ => {
                                        // a binary frame: unmask, then decode
                                        match mask_key {
                                            Some(key) => {
                                                self.unmask(key, lenu, Ghost(wire_payload));
                                            },
                                            None => {},
                                        }
                                        let payload = vstd::slice::slice_subrange(
                                            self.buf.as_slice(),
                                            0,
                                            lenu,
                                        );
                                        match self.codec.decode(payload) {
                                            Ok(m) => RecvPoll::Received(Some(m)),
                                            Err(e) => RecvPoll::Failed(
                                                WsError::CodecError(e, CodecDirection::Decode),
                                            ),
                                        }
                                    },
                                }
                            },
                        }
                    },
                }
            },
        }
    }

    /// Applies the masking key over the front of the frame buffer, undoing
    /// the wire's masking of the payload it now holds.
    #[verifier::loop_isolation(false)]
    fn unmask(&mut self, key: u32, lenu: usize, wire_payload: Ghost<Seq<u8>>)
        requires
            lenu <= old(self).buf_len(),
            wire_payload@.len() == lenu,
            old(self).buf@.subrange(0, lenu as int) == wire_payload@,
        ensures
            final(self).read == old(self).read,
            final(self).codec == old(self).codec,
            final(self).skip == old(self).skip,
            final(self).buf@.len() == old(self).buf@.len(),
            final(self).buf@.subrange(0, lenu as int) == masked(wire_payload@, key),
    {
        let mkb = u32_be_bytes(key);
        let mut i: usize = 0;
        while i < lenu
            invariant
                i <= lenu,
                lenu <= self.buf@.len(),
                mkb@ == spec_u32_to_be(key),
                forall|j: int|
                    0 <= j < i ==> self.buf@[j] == wire_payload@[j] ^ spec_u32_to_be(key)[j % 4],
                forall|j: int| i <= j < lenu ==> self.buf@[j] == wire_payload@[j],
                self.buf@.len() == old(self).buf@.len(),
                self.read == old(self).read,
                self.skip == old(self).skip,
                self.codec == old(self).codec,
            decreases lenu - i,
        {
            let b = self.buf[i];
            let m = mkb[i % 4];
            self.buf[i] = b ^ m;
            i = i + 1;
        }
        proof {
            assert(self.buf@.subrange(0, lenu as int) =~= masked(wire_payload@, key));
        }
    }
}

impl<R: ByteReader, C: Codec> WsReceiver<R, C> {
    /// Puts one just-read frame header back on the stream, in canonical
    /// form: the next poll parses it to the same frame.
    fn unread_header(&mut self, kind: FrameKind, mask: Option<u32>, len: u64)
        ensures
            final(self).codec == old(self).codec,
            final(self).skip == old(self).skip,
            final(self).buf == old(self).buf,
            final(self).read.incoming() == header_bytes(kind, mask, len) + old(
                self,
            ).read.incoming(),
    {
        let hdr = encode_header(kind, mask, len);
        self.read.unread(hdr.as_slice());
    }
}

/// Wire round-trip: a message whose encoding fits the buffer, put on the
/// wire exactly as a send emits it — one binary frame, masked or not — is
/// reproduced exactly by one receive, which consumes exactly that frame's
/// bytes.
pub proof fn lemma_wire_round_trip<C: Codec>(
    codec: C,
    m: <C::Data as View>::V,
    mask: Option<u32>,
    cap: nat,
    rest: Seq<u8>,
)
    requires
        codec.enc(m).len() <= cap,
        cap <= usize::MAX,
    ensures
        recv_bytes_model(codec, frame_bytes(FrameKind::Binary, mask, codec.enc(m)) + rest, cap)
            == (RecvModel::<<C::Data as View>::V>::Delivered(m), rest),
{
    let e = codec.enc(m);
    let len = e.len() as u64;
    let h = header_bytes(FrameKind::Binary, mask, len);
    let wire = apply_mask(e, mask);
    let bytes = frame_bytes(FrameKind::Binary, mask, e) + rest;
    assert(bytes =~= h + (wire + rest));
    lemma_header_round_trip(FrameKind::Binary, mask, len, wire + rest);
    let total = h.len() + e.len();
    assert(bytes.subrange(h.len() as int, total as int) =~= wire);
    match mask {
        Some(key) => {
            lemma_mask_involution(e, key);
        },
        None => {},
    }
    codec.lemma_round_trip(m);
    assert(bytes.skip(total as int) =~= rest);
}

/// An in-memory byte transport: bytes written on one side come back in
/// order on the other, with room to put bytes back.  A loopback of the
/// byte stream that never pends on write and never fails.
pub struct BytePipe {
    bytes: Vec<u8>,
    past: Ghost<Seq<u8>>,
}

impl BytePipe {
    /// The bytes written and not yet read, oldest first.
    pub closed spec fn pending_bytes(&self) -> Seq<u8> {
        self.bytes@
    }

    /// Everything the write side ever accepted, oldest first.
    pub closed spec fn history(&self) -> Seq<u8> {
        self.past@
    }

    pub fn new() -> (p: BytePipe)
        ensures
            p.pending_bytes() == Seq::<u8>::empty(),
            p.history() == Seq::<u8>::empty(),
    {
        BytePipe { bytes: Vec::new(), past: Ghost(Seq::empty()) }
    }
}

/// How the pipe's two capability views relate to its own model: what a
/// reader sees incoming is what the pipe holds, and what the writer has
/// written is the write history.
pub proof fn lemma_byte_pipe_views(p: BytePipe)
    ensures
        p.incoming() == p.pending_bytes(),
        p.written() == p.history(),
{
}

impl ByteWriter for BytePipe {
    type Error = ();

    /// Everything the write side ever accepted.
    closed spec fn written(&self) -> Seq<u8> {
        self.past@
    }

    /// Appends the chunk; an in-memory write always succeeds.
    fn write_all(&mut self, bytes: &[u8]) -> (r: SendPoll<(), ()>)
        ensures
            r is Sent,
            final(self).pending_bytes() == old(self).pending_bytes() + bytes@,
    {
        self.bytes.extend_from_slice(bytes);
        self.past = Ghost(self.past@ + bytes@);
        SendPoll::Sent
    }
}

impl ByteReader for BytePipe {
    type Error = ();

    /// The bytes written and not yet read.
    closed spec fn incoming(&self) -> Seq<u8> {
        self.bytes@
    }

    /// Delivers exactly `n` bytes when that many are held; pending
    /// otherwise.  An in-memory read never fails.
    fn read_exact(&mut self, buf: &mut Vec<u8>, n: usize) -> (r: RecvPoll<(), ()>)
        ensures
            r is Received <==> n <= old(self).pending_bytes().len(),
            r !is Failed,
            final(self).history() == old(self).history(),
    {
        if self.bytes.len() < n {
            return RecvPoll::Pending;
        }
        let mut i: usize = 0;
        while i < n
            invariant
                i <= n,
                n <= self.bytes@.len(),
                n <= buf@.len(),
                buf@.len() == old(buf)@.len(),
                self.bytes@ == old(self).bytes@,
                forall|j: int| 0 <= j < i ==> buf@[j] == self.bytes@[j],
            decreases n - i,
        {
            buf[i] = self.bytes[i];
            i = i + 1;
        }
        let tail = self.bytes.split_off(n);
        self.bytes = tail;
        proof {
            assert(buf@.subrange(0, n as int) =~= old(self).bytes@.subrange(0, n as int));
            assert(self.bytes@ =~= old(self).bytes@.skip(n as int));
        }
        RecvPoll::Received(())
    }

    /// Puts bytes back at the front of the stream.
    fn unread(&mut self, bytes: &[u8])
        ensures
            final(self).history() == old(self).history(),
    {
        let mut joined = vstd::slice::slice_to_vec(bytes);
        joined.append(&mut self.bytes);
        self.bytes = joined;
    }
}

/// What reading a header yielded.
enum HeaderPoll<E> {
    /// A complete valid header: the frame kind, the masking key if any, and
    /// the payload length.
    Got(FrameKind, Option<u32>, u64),
    /// Not enough bytes yet; nothing was consumed.
    Starved,
    /// Reserved bits or an unknown opcode: a protocol violation.
    Bad,
    /// The transport failed.
    TransportFailed(E),
}

} // verus!
