//! The message-framing layer: typed messages carried as single binary
//! frames of a streamed frame protocol, over a frame-level transport
//! capability, using a caller-owned fixed buffer and a pluggable codec.
//!
//! Sending serializes one message and wraps it in one unfragmented binary
//! frame.  Receiving absorbs ping and pong frames transparently, rejects
//! text and continuation frames, rejects frames larger than the buffer
//! without ever decoding a partial payload, hands binary payloads to the
//! codec, and treats a close frame as a successful end of stream.

use vstd::prelude::*;
use crate::channel::{SendPoll, RecvPoll};
use crate::codec::Codec;

verus! {

/// The kind tag of one frame of the streamed message protocol.
#[derive(Clone, Copy, PartialEq, Eq, Structural, Debug)]
pub enum FrameKind {
    Binary,
    Text,
    Continuation,
    Ping,
    Pong,
    Close,
}

impl FrameKind {
    /// Ping and pong carry protocol signaling only and are absorbed by the
    /// receive loop, never surfaced to the caller.
    pub open spec fn is_absorbed(self) -> bool {
        self is Ping || self is Pong
    }
}

/// One frame as the transport model sees it: a kind tag and payload bytes,
/// scoped to one read or write.
pub struct SpecFrame {
    pub kind: FrameKind,
    pub payload: Seq<u8>,
}

/// Which half of the codec a codec error came from.
#[derive(Clone, Copy, PartialEq, Eq, Structural, Debug)]
pub enum CodecDirection {
    Encode,
    Decode,
}

/// What can go wrong while framing messages.  A close frame is not an
/// error: it ends the stream successfully.
pub enum WsError<E, C> {
    /// The transport failed.
    IoError(E),
    /// A text or continuation frame arrived; this protocol only ever
    /// carries single unfragmented binary frames.
    UnknownFrameError,
    /// The codec failed, encoding or decoding.
    CodecError(C, CodecDirection),
    /// A frame exceeded the buffer, by this many bytes; its payload is
    /// never partially decoded.
    OversizedFrame(usize),
}

/// A frame-level transport capability that writes whole frames.
pub trait FrameSender {
    type Error;

    /// The frames this transport has accepted, oldest first.
    spec fn sent_frames(&self) -> Seq<SpecFrame>;

    fn send_frame(&mut self, kind: FrameKind, payload: &[u8]) -> (r: SendPoll<(), Self::Error>)
        ensures
            match r {
                SendPoll::Sent => final(self).sent_frames() == old(self).sent_frames().push(
                    (SpecFrame { kind: kind, payload: payload@ }),
                ),
                SendPoll::Pending(_) => final(self).sent_frames() == old(self).sent_frames(),
                SendPoll::Failed(_) => final(self).sent_frames() == old(self).sent_frames(),
            },
    ;
}

/// A frame-level transport capability that reads whole frames.
///
/// A read yields the head frame's kind and its true payload size; the
/// payload itself is copied into the caller's buffer only as far as it
/// fits, so a size beyond the buffer's length reports a frame that was too
/// large to hold.
pub trait FrameReceiver {
    type Error;

    /// The frames this transport still holds for delivery, oldest first.
    spec fn queued_frames(&self) -> Seq<SpecFrame>;

    fn recv_frame(&mut self, buf: &mut Vec<u8>) -> (r: RecvPoll<(FrameKind, usize), Self::Error>)
        ensures
            final(buf)@.len() == old(buf)@.len(),
            match r {
                RecvPoll::Received(kn) => ({
                    let q = old(self).queued_frames();
                    &&& q.len() > 0
                    &&& kn.0 == q[0].kind
                    &&& kn.1 == q[0].payload.len()
                    &&& final(self).queued_frames() == q.drop_first()
                    &&& (q[0].payload.len() <= old(buf)@.len() ==> final(buf)@.subrange(
                        0,
                        q[0].payload.len() as int,
                    ) == q[0].payload)
                }),
                RecvPoll::Pending => final(self).queued_frames() == old(self).queued_frames()
                    && final(buf)@ == old(buf)@,
                RecvPoll::Failed(_) => final(self).queued_frames() == old(self).queued_frames()
                    && final(buf)@ == old(buf)@,
            },
    ;
}

/// The outcome of receiving one message against a frame queue.
pub enum RecvModel<M> {
    /// The queue ran out before a message, close, or fault: the caller
    /// would suspend and poll again.
    Starved,
    /// A binary frame fit the buffer and decoded to this message.
    Delivered(M),
    /// A close frame ended the stream.
    Closed,
    /// A text or continuation frame arrived.
    Unknown,
    /// A frame exceeded the buffer capacity by this many bytes.
    Oversized(nat),
    /// A binary frame fit the buffer but did not decode.
    Undecodable,
}

/// What one message-receive makes of a frame queue, against a buffer of
/// capacity `cap`: the outcome, and the frames left unconsumed.
///
/// Ping and pong frames are absorbed whatever their size.  Any other frame
/// is first held against the buffer capacity — an oversized frame is a
/// fault before its kind or payload is ever looked at, so no partial
/// payload is decoded.
pub open spec fn recv_model<C: Codec>(codec: C, frames: Seq<SpecFrame>, cap: nat) -> (RecvModel<
    <C::Data as View>::V,
>, Seq<SpecFrame>)
    decreases frames.len(),
{
    if frames.len() == 0 {
        (RecvModel::Starved, frames)
    } else {
        let f = frames[0];
        let rest = frames.drop_first();
        if f.kind.is_absorbed() {
            recv_model(codec, rest, cap)
        } else if f.payload.len() > cap {
            (RecvModel::Oversized((f.payload.len() - cap) as nat), rest)
        } else if f.kind is Text || f.kind is Continuation {
            (RecvModel::Unknown, rest)
        } else if f.kind is Binary {
            match codec.dec(f.payload) {
                Some(m) => (RecvModel::Delivered(m), rest),
                None => (RecvModel::Undecodable, rest),
            }
        } else {
            (RecvModel::Closed, rest)
        }
    }
}

/// The first `k` frames of `q` are all absorbed control frames.
pub open spec fn absorbed_prefix(q: Seq<SpecFrame>, k: int) -> bool {
    0 <= k <= q.len() && forall|j: int| 0 <= j < k ==> (#[trigger] q[j].kind).is_absorbed()
}

/// Frame round-trip: a message whose encoding fits the buffer, framed as
/// one binary frame exactly as a send emits it, is reproduced exactly by
/// one receive, which consumes exactly that frame.
pub proof fn lemma_frame_round_trip<C: Codec>(
    codec: C,
    m: <C::Data as View>::V,
    cap: nat,
    rest: Seq<SpecFrame>,
)
    requires
        codec.enc(m).len() <= cap,
        cap <= usize::MAX,
    ensures
        recv_model(
            codec,
            seq![(SpecFrame { kind: FrameKind::Binary, payload: codec.enc(m) })] + rest,
            cap,
        ) == (RecvModel::<<C::Data as View>::V>::Delivered(m), rest),
{
    codec.lemma_round_trip(m);
    let f = SpecFrame { kind: FrameKind::Binary, payload: codec.enc(m) };
    assert((seq![f] + rest).drop_first() =~= rest);
}

/// Control-frame transparency: an absorbed control frame at the head of
/// the queue never changes what a receive yields, whatever its size.
pub proof fn lemma_control_frame_absorbed<C: Codec>(
    codec: C,
    f: SpecFrame,
    rest: Seq<SpecFrame>,
    cap: nat,
)
    requires
        f.kind.is_absorbed(),
    ensures
        recv_model(codec, seq![f] + rest, cap) == recv_model(codec, rest, cap),
{
    assert((seq![f] + rest).drop_first() =~= rest);
}

/// Close handling: a close frame that fits the buffer ends the stream,
/// which is a successful outcome, not an error.
pub proof fn lemma_close_ends_stream<C: Codec>(
    codec: C,
    f: SpecFrame,
    rest: Seq<SpecFrame>,
    cap: nat,
)
    requires
        f.kind is Close,
        f.payload.len() <= cap,
    ensures
        recv_model(codec, seq![f] + rest, cap) == (
            RecvModel::<<C::Data as View>::V>::Closed,
            rest,
        ),
{
    assert((seq![f] + rest).drop_first() =~= rest);
}

/// Oversized frames are a hard fault, never a partial decode: a
/// non-control frame larger than the buffer yields exactly the overflow
/// amount, and the codec is never consulted.
pub proof fn lemma_oversized_never_decoded<C: Codec>(
    codec: C,
    f: SpecFrame,
    rest: Seq<SpecFrame>,
    cap: nat,
)
    requires
        !f.kind.is_absorbed(),
        f.payload.len() > cap,
    ensures
        recv_model(codec, seq![f] + rest, cap) == (
            RecvModel::<<C::Data as View>::V>::Oversized((f.payload.len() - cap) as nat),
            rest,
        ),
{
    assert((seq![f] + rest).drop_first() =~= rest);
}

/// The sending half of the framing layer: a frame transport, a codec, and
/// one caller-owned fixed buffer that every message is serialized into.
pub struct WsSvcSender<S, C: Codec> {
    ws_sender: S,
    codec: C,
    buf: Vec<u8>,
}

impl<S: FrameSender, C: Codec> WsSvcSender<S, C> {
    /// The underlying frame transport.
    pub closed spec fn transport(&self) -> S {
        self.ws_sender
    }

    /// The codec in use.
    pub closed spec fn codec(&self) -> C {
        self.codec
    }

    /// The fixed capacity of the serialization buffer.
    pub closed spec fn buf_len(&self) -> nat {
        self.buf@.len()
    }

    pub fn new(ws_sender: S, codec: C, buf: Vec<u8>) -> (s: Self)
        ensures
            s.transport() == ws_sender,
            s.codec() == codec,
            s.buf_len() == buf@.len(),
    {
        WsSvcSender { ws_sender, codec, buf }
    }

    /// Takes the sender apart again: the transport, the codec, and the
    /// buffer, unchanged in size.
    pub fn into_parts(self) -> (r: (S, C, Vec<u8>))
        ensures
            r.0 == self.transport(),
            r.1 == self.codec(),
            r.2@.len() == self.buf_len(),
    {
        (self.ws_sender, self.codec, self.buf)
    }

    /// Serializes one message into the buffer and writes it as a single
    /// unfragmented binary frame.  Fails with an encode error exactly when
    /// the encoding does not fit the buffer, and with a transport error
    /// when the write fails; a pending transport leaves everything as it
    /// was, to be polled again.
    pub fn send(&mut self, data: &C::Data) -> (r: SendPoll<(), WsError<S::Error, C::Error>>)
        ensures
            final(self).codec() == old(self).codec(),
            final(self).buf_len() == old(self).buf_len(),
            ({
                let e = old(self).codec().enc(data@);
                let sent0 = old(self).transport().sent_frames();
                &&& (e.len() > old(self).buf_len() ==> (r matches SendPoll::Failed(
                    WsError::CodecError(_, d),
                ) && d is Encode) && final(self).transport().sent_frames() == sent0)
                &&& (e.len() <= old(self).buf_len() ==> match r {
                    SendPoll::Sent => final(self).transport().sent_frames() == sent0.push(
                        (SpecFrame { kind: FrameKind::Binary, payload: e }),
                    ),
                    SendPoll::Pending(_) => final(self).transport().sent_frames() == sent0,
                    SendPoll::Failed(err) => (err matches WsError::IoError(_)) && final(self).transport().sent_frames() == sent0,
                })
            }),
    {
        let n = match self.codec.encode(data, &mut self.buf) {
            Ok(n) => n,
            Err(e) => {
                return SendPoll::Failed(WsError::CodecError(e, CodecDirection::Encode));
            },
        };
        let frame = vstd::slice::slice_subrange(self.buf.as_slice(), 0, n);
        match self.ws_sender.send_frame(FrameKind::Binary, frame) {
            SendPoll::Sent => SendPoll::Sent,
            SendPoll::Pending(_) => SendPoll::Pending(()),
            SendPoll::Failed(e) => SendPoll::Failed(WsError::IoError(e)),
        }
    }
}

/// The receiving half of the framing layer: a frame transport, a codec, and
/// one caller-owned fixed buffer that every frame is read into.
pub struct WsSvcReceiver<R, C> {
    ws_receiver: R,
    codec: C,
    buf: Vec<u8>,
}

impl<R: FrameReceiver, C: Codec> WsSvcReceiver<R, C> {
    /// The underlying frame transport.
    pub closed spec fn transport(&self) -> R {
        self.ws_receiver
    }

    /// The codec in use.
    pub closed spec fn codec(&self) -> C {
        self.codec
    }

    /// The fixed capacity of the frame buffer.
    pub closed spec fn buf_len(&self) -> nat {
        self.buf@.len()
    }

    pub fn new(ws_receiver: R, codec: C, buf: Vec<u8>) -> (s: Self)
        ensures
            s.transport() == ws_receiver,
            s.codec() == codec,
            s.buf_len() == buf@.len(),
    {
        WsSvcReceiver { ws_receiver, codec, buf }
    }

    /// Takes the receiver apart again: the transport, the codec, and the
    /// buffer, unchanged in size.
    pub fn into_parts(self) -> (r: (R, C, Vec<u8>))
        ensures
            r.0 == self.transport(),
            r.1 == self.codec(),
            r.2@.len() == self.buf_len(),
    {
        (self.ws_receiver, self.codec, self.buf)
    }

    /// Receives one message: reads frames until one is meaningful to the
    /// caller, absorbing ping and pong transparently.  Yields the decoded
    /// message of a binary frame, the end-of-stream sentinel for a close
    /// frame, and the matching fault for anything else, exactly as
    /// [`recv_model`] says; a pending or failing transport surfaces after
    /// only absorbed control frames have been consumed.
    #[verifier::loop_isolation(false)]
    pub fn recv(&mut self) -> (r: RecvPoll<Option<C::Data>, WsError<R::Error, C::Error>>)
        ensures
            final(self).codec() == old(self).codec(),
            final(self).buf_len() == old(self).buf_len(),
            ({
                let q0 = old(self).transport().queued_frames();
                let (out, rest) = recv_model(old(self).codec(), q0, old(self).buf_len());
                match r {
                    RecvPoll::Received(om) => match om {
                        Some(m) => out == RecvModel::<<C::Data as View>::V>::Delivered(m@)
                            && final(self).transport().queued_frames() == rest,
                        None => out is Closed && final(self).transport().queued_frames() == rest,
                    },
                    RecvPoll::Pending => exists|k: int|
                        absorbed_prefix(q0, k) && final(self).transport().queued_frames()
                            == q0.skip(k),
                    RecvPoll::Failed(err) => match err {
                        WsError::IoError(_) => exists|k: int|
                            absorbed_prefix(q0, k) && final(self).transport().queued_frames()
                                == q0.skip(k),
                        WsError::UnknownFrameError => out is Unknown && final(self).transport().queued_frames() == rest,
                        WsError::CodecError(_, d) => d is Decode && out is Undecodable && final(self).transport().queued_frames() == rest,
                        WsError::OversizedFrame(nn) => out == RecvModel::<
                            <C::Data as View>::V,
                        >::Oversized(nn as nat) && final(self).transport().queued_frames() == rest,
                    },
                }
            }),
            ({
                let (out, rest) = recv_model(
                    old(self).codec(),
                    old(self).transport().queued_frames(),
                    old(self).buf_len(),
                );
                out is Starved ==> (r is Pending || (r matches RecvPoll::Failed(
                    WsError::IoError(_),
                )))
            }),
    {
        proof {
            let q0 = old(self).transport().queued_frames();
            assert(absorbed_prefix(q0, 0) && q0.skip(0) =~= q0);
        }
        loop
            invariant
                self.codec == old(self).codec(),
                self.buf@.len() == old(self).buf_len(),
                recv_model(self.codec, self.ws_receiver.queued_frames(), self.buf@.len())
                    == recv_model(
                    old(self).codec(),
                    old(self).transport().queued_frames(),
                    old(self).buf_len(),
                ),
                exists|k: int|
                    absorbed_prefix(old(self).transport().queued_frames(), k)
                        && self.ws_receiver.queued_frames() == old(self).transport().queued_frames().skip(k),
            decreases self.ws_receiver.queued_frames().len(),
        {
            let ghost qpre = self.ws_receiver.queued_frames();
            match self.ws_receiver.recv_frame(&mut self.buf) {
                RecvPoll::Received(kn) => {
                    let (kind, size) = kn;
                    match kind {
                        FrameKind::Ping | FrameKind::Pong => {
                            proof {
                                let q0 = old(self).transport().queued_frames();
                                let k = choose|k: int|
                                    absorbed_prefix(q0, k) && qpre == q0.skip(k);
                                assert(qpre[0] == q0[k]);
                                assert(absorbed_prefix(q0, k + 1));
                                assert(self.ws_receiver.queued_frames() =~= q0.skip(k + 1));
                            }
                        },
                        _ => {
                            if size > self.buf.len() {
                                return RecvPoll::Failed(
                                    WsError::OversizedFrame(size - self.buf.len()),
                                );
                            }
                            match kind {
                                FrameKind::Text | FrameKind::Continuation => {
                                    return RecvPoll::Failed(WsError::UnknownFrameError);
                                },
                                FrameKind::Binary => {
                                    let payload = vstd::slice::slice_subrange(
                                        self.buf.as_slice(),
                                        0,
                                        size,
                                    );
                                    match self.codec.decode(payload) {
                                        Ok(m) => {
                                            return RecvPoll::Received(Some(m));
                                        },
                                        Err(e) => {
                                            return RecvPoll::Failed(
                                                WsError::CodecError(e, CodecDirection::Decode),
                                            );
                                        },
                                    }
                                },
                                _ => {
                                    return RecvPoll::Received(None);
                                },
                            }
                        },
                    }
                },
                RecvPoll::Pending => {
                    return RecvPoll::Pending;
                },
                RecvPoll::Failed(e) => {
                    return RecvPoll::Failed(WsError::IoError(e));
                },
            }
        }
    }
}

/// One frame with an owned payload: what the in-memory transport stores.
pub struct Frame {
    pub kind: FrameKind,
    pub payload: Vec<u8>,
}

impl View for Frame {
    type V = SpecFrame;

    open spec fn view(&self) -> SpecFrame {
        SpecFrame { kind: self.kind, payload: self.payload@ }
    }
}

/// An in-memory frame transport: frames written on one side come back in
/// order on the other.  A loopback of the frame protocol, with unbounded
/// room, that never pends on write and never fails.
pub struct FramePipe {
    frames: Vec<Frame>,
    past: Ghost<Seq<SpecFrame>>,
}

impl FramePipe {
    /// The frames written and not yet read, oldest first.
    pub closed spec fn held_frames(&self) -> Seq<SpecFrame> {
        self.frames@.map_values(|f: Frame| f@)
    }

    /// The frames already read back out, oldest first.
    pub closed spec fn taken_frames(&self) -> Seq<SpecFrame> {
        self.past@
    }

    pub fn new() -> (p: FramePipe)
        ensures
            p.held_frames() == Seq::<SpecFrame>::empty(),
            p.taken_frames() == Seq::<SpecFrame>::empty(),
    {
        let p = FramePipe { frames: Vec::new(), past: Ghost(Seq::empty()) };
        proof {
            assert(p.held_frames() =~= Seq::<SpecFrame>::empty());
        }
        p
    }
}

/// How the pipe's two capability views relate to its own model: what a
/// receiver sees queued is what the pipe holds, and everything accepted as
/// a sender is what was read back followed by what it holds.
pub proof fn lemma_pipe_views(p: FramePipe)
    ensures
        p.queued_frames() == p.held_frames(),
        p.sent_frames() == p.taken_frames() + p.held_frames(),
{
}

impl FrameSender for FramePipe {
    type Error = ();

    /// Everything ever written: the frames read back, then those held.
    closed spec fn sent_frames(&self) -> Seq<SpecFrame> {
        self.past@ + self.held_frames()
    }

    /// Stores one frame; an in-memory write always succeeds.
    fn send_frame(&mut self, kind: FrameKind, payload: &[u8]) -> (r: SendPoll<(), ()>)
        ensures
            r is Sent,
    {
        let owned = vstd::slice::slice_to_vec(payload);
        self.frames.push(Frame { kind, payload: owned });
        proof {
            assert(self.frames@.map_values(|f: Frame| f@) =~= old(self).frames@.map_values(
                |f: Frame| f@,
            ).push((SpecFrame { kind: kind, payload: payload@ })));
            assert(self.sent_frames() =~= old(self).sent_frames().push(
                (SpecFrame { kind: kind, payload: payload@ }),
            ));
        }
        SendPoll::Sent
    }
}

impl FrameReceiver for FramePipe {
    type Error = ();

    /// The frames written and not yet read.
    closed spec fn queued_frames(&self) -> Seq<SpecFrame> {
        self.frames@.map_values(|f: Frame| f@)
    }

    /// Hands out the oldest held frame: its kind and true size, and as much
    /// of its payload as the buffer can hold.  Pending when empty; an
    /// in-memory read never fails.
    fn recv_frame(&mut self, buf: &mut Vec<u8>) -> (r: RecvPoll<(FrameKind, usize), ()>)
        ensures
            r is Received <==> old(self).held_frames().len() > 0,
            r !is Failed,
    {
        if self.frames.len() == 0 {
            return RecvPoll::Pending;
        }
        let f = self.frames.remove(0);
        proof {
            assert(self.frames@.map_values(|ff: Frame| ff@) =~= old(self).frames@.map_values(
                |ff: Frame| ff@,
            ).drop_first());
        }
        self.past = Ghost(self.past@.push(f@));
        let n = f.payload.len();
        let limit = if n < buf.len() {
            n
        } else {
            buf.len()
        };
        let mut i: usize = 0;
        while i < limit
            invariant
                i <= limit,
                limit <= n,
                n == f.payload@.len(),
                limit <= buf@.len(),
                buf@.len() == old(buf)@.len(),
                forall|j: int| 0 <= j < i ==> buf@[j] == f.payload@[j],
            decreases limit - i,
        {
            buf[i] = f.payload[i];
            i = i + 1;
        }
        proof {
            if n <= old(buf)@.len() {
                assert(buf@.subrange(0, n as int) =~= f.payload@);
            }
        }
        RecvPoll::Received((f.kind, n))
    }
}

} // verus!
