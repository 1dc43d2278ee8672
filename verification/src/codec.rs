//! The pluggable message codec capability and two concrete codecs: a
//! schema-typed fixed-width one, and a compact self-describing binary one
//! backed by an outside serializer.
//!
//! A codec turns one typed message into bytes inside a caller-owned buffer
//! and back.  The framing layer is agnostic to which codec is plugged in:
//! it only relies on this contract.

use vstd::prelude::*;
use vstd::arithmetic::power2::{pow2, lemma_pow2_adds, lemma2_to64};
use vstd::bytes::{
    spec_u32_to_le_bytes,
    spec_u32_from_le_bytes,
    lemma_auto_spec_u32_to_from_le_bytes,
    u32_to_le_bytes,
    u32_from_le_bytes,
};

verus! {

/// A message codec: `enc` is the (total) encoding of a message, `dec` the
/// (partial) reading of bytes back into a message, and decoding inverts
/// encoding.  `encode` fails exactly when the encoding does not fit the
/// caller's buffer; `decode` fails exactly on bytes that decode to nothing.
pub trait Codec {
    type Data: View;

    type Error;

    /// The bytes this codec produces for a message.
    spec fn enc(&self, m: <Self::Data as View>::V) -> Seq<u8>;

    /// The message this codec reads from a byte string, if any.
    spec fn dec(&self, b: Seq<u8>) -> Option<<Self::Data as View>::V>;

    /// Decoding inverts encoding, for every message whose encoding a real
    /// buffer could hold.
    proof fn lemma_round_trip(&self, m: <Self::Data as View>::V)
        requires
            self.enc(m).len() <= usize::MAX,
        ensures
            self.dec(self.enc(m)) == Some(m),
    ;

    /// Serializes `m` into the front of `buf`, returning the bytes used.
    fn encode(&self, m: &Self::Data, buf: &mut Vec<u8>) -> (r: Result<usize, Self::Error>)
        ensures
            final(buf)@.len() == old(buf)@.len(),
            match r {
                Ok(n) => n == self.enc(m@).len() && n <= final(buf)@.len() && final(buf)@.subrange(
                    0,
                    n as int,
                ) == self.enc(m@),
                Err(_) => self.enc(m@).len() > old(buf)@.len(),
            },
    ;

    /// Reads one message back out of `b`.
    fn decode(&self, b: &[u8]) -> (r: Result<Self::Data, Self::Error>)
        ensures
            match r {
                Ok(m) => self.dec(b@) == Some(m@),
                Err(_) => self.dec(b@) is None,
            },
    ;
}

/// A schema-typed fixed-width codec: a message is one 32-bit number, encoded
/// as exactly four little-endian bytes.
pub struct U32Codec;

impl Codec for U32Codec {
    type Data = u32;

    type Error = ();

    open spec fn enc(&self, m: u32) -> Seq<u8> {
        spec_u32_to_le_bytes(m)
    }

    open spec fn dec(&self, b: Seq<u8>) -> Option<u32> {
        if b.len() == 4 {
            Some(spec_u32_from_le_bytes(b))
        } else {
            None
        }
    }

    proof fn lemma_round_trip(&self, m: u32) {
        lemma_auto_spec_u32_to_from_le_bytes();
    }

    fn encode(&self, m: &u32, buf: &mut Vec<u8>) -> (r: Result<usize, ()>)
        ensures
            r is Ok <==> old(buf)@.len() >= 4,
    {
        proof {
            lemma_auto_spec_u32_to_from_le_bytes();
        }
        if buf.len() < 4 {
            Err(())
        } else {
            let bytes = u32_to_le_bytes(*m);
            buf[0] = bytes[0];
            buf[1] = bytes[1];
            buf[2] = bytes[2];
            buf[3] = bytes[3];
            proof {
                assert(buf@.subrange(0, 4) =~= spec_u32_to_le_bytes(*m));
            }
            Ok(4)
        }
    }

    fn decode(&self, b: &[u8]) -> (r: Result<u32, ()>)
        ensures
            r is Ok <==> b@.len() == 4,
    {
        if b.len() == 4 {
            Ok(u32_from_le_bytes(b))
        } else {
            Err(())
        }
    }
}

/// The canonical unsigned little-endian base-128 rendering of a number:
/// seven value bits per byte, high bit set on every byte but the last.
pub open spec fn varint(n: nat) -> Seq<u8>
    decreases n,
{
    if n < 128 {
        seq![n as u8]
    } else {
        seq![((n % 128 + 128) as u8)] + varint(n / 128)
    }
}

/// The value and width of the base-128 number at the head of `b`, read the
/// way a 64-bit length is read back: `i` bytes of it have been read already,
/// at most ten bytes are read in all, and the tenth may carry only its
/// lowest value bit.  Non-canonical renderings are accepted; an overlong or
/// missing terminator is not.
pub open spec fn take_varint(b: Seq<u8>, i: nat) -> Option<(nat, nat)>
    decreases b.len(),
{
    if b.len() == 0 {
        None
    } else {
        let v = b[0];
        if v & 0x80 == 0 {
            if i == 9 && v > 1 {
                None
            } else {
                Some((((v & 0x7f) as nat), 1))
            }
        } else {
            if i >= 9 {
                None
            } else {
                match take_varint(b.drop_first(), i + 1) {
                    None => None,
                    Some((val, used)) => Some((((v & 0x7f) as nat) + 128 * val, used + 1)),
                }
            }
        }
    }
}

/// What the compact self-describing format makes of a byte string holding a
/// byte-vector message: a length prefix followed by that many bytes, with
/// trailing bytes ignored.
pub open spec fn bytes_dec(b: Seq<u8>) -> Option<Seq<u8>> {
    match take_varint(b, 0) {
        None => None,
        Some((len, used)) => if used + len <= b.len() {
            Some(b.subrange(used as int, (used + len) as int))
        } else {
            None
        },
    }
}

/// The encoding of a byte-vector message in the same format: its length,
/// then its bytes.
pub open spec fn bytes_enc(v: Seq<u8>) -> Seq<u8> {
    varint(v.len()) + v
}

proof fn lemma_low_bits(v: u8)
    ensures
        v < 128 ==> (v & 0x80 == 0 && v & 0x7f == v),
        v >= 128 ==> (v & 0x80 != 0 && v & 0x7f == v - 128),
{
    assert(v < 128 ==> (v & 0x80 == 0 && v & 0x7f == v)) by (bit_vector);
    assert(v >= 128 ==> (v & 0x80 != 0 && v & 0x7f == v - 128)) by (bit_vector);
}

/// Reading back a canonical rendering from byte position `i` recovers the
/// value and consumes exactly the rendering, whatever follows it.
proof fn lemma_take_varint_of_canonical(n: nat, tail: Seq<u8>, i: nat)
    requires
        i <= 9,
        n < pow2(7 * ((9 - i) as nat) + 1),
    ensures
        take_varint(varint(n) + tail, i) == Some((n, varint(n).len())),
    decreases n,
{
    let b = varint(n) + tail;
    assert(b[0] == varint(n)[0]);
    if n < 128 {
        lemma_low_bits(n as u8);
        if i == 9 {
            lemma2_to64();
            assert(pow2(1) == 2);
        }
    } else {
        let v = (n % 128 + 128) as u8;
        lemma_low_bits(v);
        let m = n / 128;
        assert(n % 128 + 128 * m == n) by (nonlinear_arith)
            requires
                m == n / 128,
        ;
        assert(n % 128 < 128) by (nonlinear_arith);
        // 128 value bits would remain past position nine
        assert(i < 9) by {
            if i == 9 {
                lemma2_to64();
                assert(pow2(1) == 2);
            }
        }
        lemma_pow2_adds(7 * ((9 - (i + 1)) as nat) + 1, 7);
        assert(pow2(7) == 128) by {
            lemma2_to64();
        }
        assert(m < pow2(7 * ((9 - (i + 1)) as nat) + 1)) by (nonlinear_arith)
            requires
                n < pow2(7 * ((9 - (i + 1)) as nat) + 1) * 128,
                m == n / 128,
        ;
        lemma_take_varint_of_canonical(m, tail, i + 1);
        assert((varint(n) + tail).drop_first() =~= varint(m) + tail);
    }
}

/// The error type of the outside serializer, carried through opaquely.
#[verifier::external_type_specification]
#[verifier::external_body]
pub struct ExPostcardError(postcard::Error);

/// Relies on postcard::to_slice on a byte vector: the front of the buffer
/// receives the vector's length as a canonical base-128 varint followed by
/// the vector's bytes, and the call fails (with a buffer-full error) exactly
/// when that does not fit.
#[verifier::external_body]
fn postcard_to_slice_bytes(v: &Vec<u8>, buf: &mut Vec<u8>) -> (r: Result<usize, postcard::Error>)
    ensures
        final(buf)@.len() == old(buf)@.len(),
        match r {
            Ok(n) => n == bytes_enc(v@).len() && n <= final(buf)@.len() && final(buf)@.subrange(
                0,
                n as int,
            ) == bytes_enc(v@),
            Err(_) => bytes_enc(v@).len() > old(buf)@.len(),
        },
{
    match postcard::to_slice(v, buf.as_mut_slice()) {
        Ok(used) => Ok(used.len()),
        Err(e) => Err(e),
    }
}

/// Relies on postcard::from_bytes on a byte vector, built for a 64-bit
/// target: a varint length (at most ten bytes, the tenth at most one) is
/// read, then that many bytes; trailing input is ignored; anything shorter
/// or an overlong varint is an error.
#[verifier::external_body]
fn postcard_from_bytes_vec(b: &[u8]) -> (r: Result<Vec<u8>, postcard::Error>)
    ensures
        match r {
            Ok(v) => bytes_dec(b@) == Some(v@),
            Err(_) => bytes_dec(b@) is None,
        },
{
    postcard::from_bytes::<Vec<u8>>(b)
}

/// The compact self-describing binary codec: a message is a byte vector,
/// encoded by the outside serializer as a length prefix followed by the raw
/// bytes.
pub struct PostcardByteCodec;

impl Codec for PostcardByteCodec {
    type Data = Vec<u8>;

    type Error = postcard::Error;

    open spec fn enc(&self, m: Seq<u8>) -> Seq<u8> {
        bytes_enc(m)
    }

    open spec fn dec(&self, b: Seq<u8>) -> Option<Seq<u8>> {
        bytes_dec(b)
    }

    proof fn lemma_round_trip(&self, m: Seq<u8>) {
        lemma_bytes_round_trip(m);
    }

    fn encode(&self, m: &Vec<u8>, buf: &mut Vec<u8>) -> (r: Result<usize, postcard::Error>) {
        postcard_to_slice_bytes(m, buf)
    }

    fn decode(&self, b: &[u8]) -> (r: Result<Vec<u8>, postcard::Error>) {
        postcard_from_bytes_vec(b)
    }
}

/// Decoding inverts encoding for byte-vector messages whose encoding a real
/// buffer could hold.
pub proof fn lemma_bytes_round_trip(v: Seq<u8>)
    requires
        bytes_enc(v).len() <= usize::MAX,
    ensures
        bytes_dec(bytes_enc(v)) == Some(v),
{
    lemma2_to64();
    assert(pow2(32) * pow2(32) == pow2(64)) by {
        lemma_pow2_adds(32, 32);
    }
    lemma_take_varint_of_canonical(v.len(), v, 0);
    let used = varint(v.len()).len();
    assert(bytes_enc(v).subrange(used as int, (used + v.len()) as int) =~= v);
}

} // verus!
