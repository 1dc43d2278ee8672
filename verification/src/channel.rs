//! The duplex-channel capability: senders, receivers, and the nil
//! placeholder endpoints.
//!
//! A channel endpoint is modelled by the sequence of items it has accepted
//! (for a sender) or still holds for delivery (for a receiver).  Operations
//! are poll-style: a call that would suspend in an asynchronous setting
//! returns a pending outcome instead of blocking, and the caller polls again.

use vstd::prelude::*;
use core::marker::PhantomData;

verus! {

/// Outcome of one poll of a send operation.
///
/// `Pending` hands the unaccepted item back to the caller, which models a
/// suspended send: the backend has not taken the item yet, and the caller
/// retries with the same value.
pub enum SendPoll<D, E> {
    /// The backend accepted the item.
    Sent,
    /// The backend cannot take the item yet; the caller keeps it and retries.
    Pending(D),
    /// The backend reported a terminal error.
    Failed(E),
}

/// Outcome of one poll of a receive operation.
pub enum RecvPoll<D, E> {
    /// The backend delivered the next item.
    Received(D),
    /// No item is available yet; the caller polls again.
    Pending,
    /// The backend reported a terminal error.
    Failed(E),
}

/// A sender capability: anything that accepts a stream of typed items.
///
/// The model of a sender is the sequence of items it has accepted so far.
/// A successful send appends exactly the offered item; a pending or failed
/// send leaves the history unchanged.
pub trait Sender {
    type Data;
    type Error;

    /// The items this endpoint has accepted, oldest first.
    spec fn sent(&self) -> Seq<Self::Data>;

    fn send(&mut self, data: Self::Data) -> (r: SendPoll<Self::Data, Self::Error>)
        ensures
            match r {
                SendPoll::Sent => final(self).sent() == old(self).sent().push(data),
                SendPoll::Pending(d) => d == data && final(self).sent() == old(self).sent(),
                SendPoll::Failed(_) => final(self).sent() == old(self).sent(),
            },
    ;
}

/// A receiver capability: anything that delivers a stream of typed items.
///
/// The model of a receiver is the sequence of items it still holds for
/// delivery, oldest first.  A successful receive delivers exactly the head
/// of that sequence; a pending or failed receive leaves it unchanged.
pub trait Receiver {
    type Data;
    type Error;

    /// The items this endpoint still holds for delivery, oldest first.
    spec fn queued(&self) -> Seq<Self::Data>;

    fn recv(&mut self) -> (r: RecvPoll<Self::Data, Self::Error>)
        ensures
            match r {
                RecvPoll::Received(d) => old(self).queued().len() > 0
                    && d == old(self).queued()[0]
                    && final(self).queued() == old(self).queued().drop_first(),
                RecvPoll::Pending => final(self).queued() == old(self).queued(),
                RecvPoll::Failed(_) => final(self).queued() == old(self).queued(),
            },
    ;
}

/// The no-op sender: reports success for every item and has no effect.
///
/// Accepted items are recorded only in the ghost history, so contracts about
/// the history still hold.
pub struct NilSender<D, E> {
    log: Ghost<Seq<D>>,
    _err: PhantomData<E>,
}

impl<D, E> Sender for NilSender<D, E> {
    type Data = D;
    type Error = E;

    closed spec fn sent(&self) -> Seq<D> {
        self.log@
    }

    fn send(&mut self, data: D) -> (r: SendPoll<D, E>)
        ensures
            r is Sent,
    {
        self.log = Ghost(self.log@.push(data));
        SendPoll::Sent
    }
}

/// A placeholder sender for a pairing whose sending side is intentionally
/// absent: it always reports success without effect.
pub fn nil_sender<D, E>() -> (s: NilSender<D, E>)
    ensures
        s.sent() == Seq::<D>::empty(),
{
    NilSender { log: Ghost(Seq::empty()), _err: PhantomData }
}

/// The never-ready receiver: it holds no items and never resolves.
pub struct NilReceiver<D, E> {
    _data: PhantomData<D>,
    _err: PhantomData<E>,
}

impl<D, E> Receiver for NilReceiver<D, E> {
    type Data = D;
    type Error = E;

    closed spec fn queued(&self) -> Seq<D> {
        Seq::empty()
    }

    fn recv(&mut self) -> (r: RecvPoll<D, E>)
        ensures
            r is Pending,
    {
        RecvPoll::Pending
    }
}

/// A placeholder receiver for a pairing whose receiving side is
/// intentionally absent: every poll of it is pending, so it never resolves.
pub fn nil_receiver<D, E>() -> (s: NilReceiver<D, E>)
    ensures
        s.queued() == Seq::<D>::empty(),
{
    NilReceiver { _data: PhantomData, _err: PhantomData }
}

/// A pairwise transform over channel items: each input yields either one
/// output or nothing at all.  Returning `None` filters the item out.
pub trait Transform {
    type In;
    type Out;

    /// What the transform yields for a given input.
    spec fn map_spec(&self, x: Self::In) -> Option<Self::Out>;

    fn map(&self, x: &Self::In) -> (r: Option<Self::Out>)
        ensures
            r == self.map_spec(*x),
    ;
}

/// The retained image of an item sequence under a transform: each item is
/// replaced by what the transform yields for it, and filtered items vanish.
/// Relative order of the retained items is preserved.
pub open spec fn kept<F: Transform>(f: F, q: Seq<F::In>) -> Seq<F::Out>
    decreases q.len(),
{
    if q.len() == 0 {
        Seq::empty()
    } else {
        match f.map_spec(q[0]) {
            Some(v) => seq![v] + kept(f, q.drop_first()),
            None => kept(f, q.drop_first()),
        }
    }
}

/// Skipping one filtered head item leaves the retained image unchanged.
pub proof fn lemma_kept_skips_filtered<F: Transform>(f: F, q: Seq<F::In>)
    requires
        q.len() > 0,
        f.map_spec(q[0]) is None,
    ensures
        kept(f, q) == kept(f, q.drop_first()),
{
}

/// A retained head item stands first in the retained image, and the rest of
/// the image is the image of the rest.
pub proof fn lemma_kept_head<F: Transform>(f: F, q: Seq<F::In>)
    requires
        q.len() > 0,
        f.map_spec(q[0]) is Some,
    ensures
        kept(f, q).len() > 0,
        f.map_spec(q[0]) matches Some(v) && kept(f, q)[0] == v,
        kept(f, q).drop_first() == kept(f, q.drop_first()),
{
    let v = kept(f, q)[0];
    assert(kept(f, q).drop_first() =~= kept(f, q.drop_first()));
}

/// A transform that lets small values through unchanged and filters the
/// rest out: a value passes exactly when it is at most the limit.
pub struct Threshold {
    pub limit: u32,
}

impl Transform for Threshold {
    type In = u32;

    type Out = u32;

    open spec fn map_spec(&self, x: u32) -> Option<u32> {
        if x <= self.limit {
            Some(x)
        } else {
            None
        }
    }

    fn map(&self, x: &u32) -> (r: Option<u32>) {
        if *x <= self.limit {
            Some(*x)
        } else {
            None
        }
    }
}

/// A channel adapter that composes an inner channel with a transform.
///
/// Sent items pass through the transform before reaching the inner channel;
/// a filtered item is silently dropped and the send still reports success.
/// Received items are pulled from the inner channel until the transform
/// retains one; filtered items are consumed and discarded, never yielded.
pub struct Mapper<C, F: Transform> {
    channel: C,
    transform: F,
    log: Ghost<Seq<F::In>>,
}

impl<C, F: Transform> Mapper<C, F> {
    /// The inner channel endpoint.
    pub closed spec fn inner(&self) -> C {
        self.channel
    }

    /// The transform this adapter applies.
    pub closed spec fn transformer(&self) -> F {
        self.transform
    }

    pub fn new(channel: C, mapper: F) -> (m: Mapper<C, F>)
        ensures
            m.inner() == channel,
            m.transformer() == mapper,
            m.sent() == Seq::<F::In>::empty(),
    {
        Mapper { channel, transform: mapper, log: Ghost(Seq::empty()) }
    }

    /// Takes the adapter apart again: the inner channel and the transform.
    pub fn into_parts(self) -> (r: (C, F))
        ensures
            r.0 == self.inner(),
            r.1 == self.transformer(),
    {
        (self.channel, self.transform)
    }
}

impl<C, F: Transform> Mapper<C, F> {
    /// The items this adapter has accepted for sending, filtered or not.
    pub closed spec fn sent(&self) -> Seq<F::In> {
        self.log@
    }
}

impl<C, F> Sender for Mapper<C, F> where C: Sender, F: Transform<Out = C::Data> {
    type Data = F::In;
    type Error = C::Error;

    closed spec fn sent(&self) -> Seq<F::In> {
        self.log@
    }

    /// Sends one item through the transform.  A filtered item is dropped
    /// without ever reaching the inner channel, and the call still reports
    /// success; a retained item is offered to the inner channel and that
    /// outcome is passed through.
    fn send(&mut self, data: F::In) -> (r: SendPoll<F::In, C::Error>)
        ensures
            final(self).transformer() == old(self).transformer(),
            old(self).transformer().map_spec(data) is None ==> r is Sent
                && final(self).inner() == old(self).inner(),
            (old(self).transformer().map_spec(data) matches Some(v) ==> match r {
                SendPoll::Sent => final(self).inner().sent() == old(self).inner().sent().push(v),
                SendPoll::Pending(d) => d == data
                    && final(self).inner().sent() == old(self).inner().sent(),
                SendPoll::Failed(_) => final(self).inner().sent() == old(self).inner().sent(),
            }),
    {
        match self.transform.map(&data) {
            Some(inner_data) => {
                match self.channel.send(inner_data) {
                    SendPoll::Sent => {
                        self.log = Ghost(self.log@.push(data));
                        SendPoll::Sent
                    },
                    SendPoll::Pending(_) => SendPoll::Pending(data),
                    SendPoll::Failed(e) => SendPoll::Failed(e),
                }
            },
            None => {
                self.log = Ghost(self.log@.push(data));
                SendPoll::Sent
            },
        }
    }
}

impl<C, F> Receiver for Mapper<C, F> where C: Receiver, F: Transform<In = C::Data> {
    type Data = F::Out;
    type Error = C::Error;

    closed spec fn queued(&self) -> Seq<F::Out> {
        kept(self.transform, self.channel.queued())
    }

    /// Pulls from the inner channel until the transform retains an item.
    /// Filtered items are consumed and discarded; the retained items keep
    /// their relative order, which the inherited contract states over the
    /// retained image of the inner queue.
    #[verifier::loop_isolation(false)]
    fn recv(&mut self) -> (r: RecvPoll<F::Out, C::Error>)
        ensures
            final(self).transformer() == old(self).transformer(),
    {
        loop
            invariant
                self.transform == old(self).transformer(),
                kept(self.transform, self.channel.queued())
                    == kept(old(self).transformer(), old(self).inner().queued()),
            decreases self.channel.queued().len(),
        {
            let ghost qpre = self.channel.queued();
            match self.channel.recv() {
                RecvPoll::Received(d) => {
                    match self.transform.map(&d) {
                        Some(v) => {
                            proof {
                                lemma_kept_head(self.transform, qpre);
                            }
                            return RecvPoll::Received(v);
                        },
                        None => {
                            proof {
                                lemma_kept_skips_filtered(self.transform, qpre);
                            }
                        },
                    }
                },
                RecvPoll::Pending => {
                    return RecvPoll::Pending;
                },
                RecvPoll::Failed(e) => {
                    return RecvPoll::Failed(e);
                },
            }
        }
    }
}

/// How the adapter's sender view relates to its parts: what it has accepted
/// through the sender capability is its own accepted history.
pub proof fn lemma_mapper_sender_view<C: Sender, F: Transform<Out = C::Data>>(m: Mapper<C, F>)
    ensures
        Sender::sent(&m) == m.sent(),
{
}

/// How the adapter's receiver view relates to its parts: what a receiver
/// sees queued is the retained image of the inner channel's queue.
pub proof fn lemma_mapper_receiver_view<C: Receiver, F: Transform<In = C::Data>>(m: Mapper<C, F>)
    ensures
        Receiver::queued(&m) == kept(m.transformer(), m.inner().queued()),
{
}

/// An in-process bounded first-in-first-out channel: the single hand-off
/// point between a producer and a consumer.
///
/// A send on a full channel is pending (the producer suspends: this is the
/// backpressure point), never a silent drop; a receive on an empty channel
/// is pending.  Neither operation ever fails.
pub struct FifoChannel<T> {
    items: Vec<T>,
    cap: usize,
    past: Ghost<Seq<T>>,
}

impl<T> FifoChannel<T> {
    /// The bound this channel was created with.
    pub closed spec fn capacity(&self) -> usize {
        self.cap
    }

    /// The undelivered items, oldest first.
    pub closed spec fn held(&self) -> Seq<T> {
        self.items@
    }

    /// The items already delivered to the consumer, oldest first.
    pub closed spec fn delivered(&self) -> Seq<T> {
        self.past@
    }

    /// A channel that holds at most `cap` undelivered items.
    pub fn new(cap: usize) -> (c: FifoChannel<T>)
        ensures
            c.capacity() == cap,
            c.held() == Seq::<T>::empty(),
            c.delivered() == Seq::<T>::empty(),
    {
        FifoChannel { items: Vec::new(), cap, past: Ghost(Seq::empty()) }
    }
}

/// How the channel's two capability views relate to its own model: what it
/// still holds is what a receiver sees queued, and everything it ever
/// accepted as a sender is what it delivered followed by what it holds.
pub proof fn lemma_fifo_views<T>(c: FifoChannel<T>)
    ensures
        c.queued() == c.held(),
        c.sent() == c.delivered() + c.held(),
{
}

impl<T> Sender for FifoChannel<T> {
    type Data = T;
    type Error = ();

    /// Everything ever accepted: the delivered items followed by the ones
    /// still held.
    closed spec fn sent(&self) -> Seq<T> {
        self.past@ + self.items@
    }

    /// Accepts the item if a slot is free; hands it back as pending when the
    /// channel is full.
    fn send(&mut self, data: T) -> (r: SendPoll<T, ()>)
        ensures
            r is Sent <==> old(self).held().len() < old(self).capacity(),
            r !is Failed,
            final(self).capacity() == old(self).capacity(),
            final(self).delivered() == old(self).delivered(),
            r is Sent ==> final(self).held() == old(self).held().push(data),
            r !is Sent ==> final(self).held() == old(self).held(),
    {
        if self.items.len() < self.cap {
            self.items.push(data);
            proof {
                assert(self.past@ + self.items@ =~= (old(self).past@ + old(self).items@).push(
                    data,
                ));
            }
            SendPoll::Sent
        } else {
            SendPoll::Pending(data)
        }
    }
}

impl<T> Receiver for FifoChannel<T> {
    type Data = T;
    type Error = ();

    /// The undelivered items, oldest first.
    closed spec fn queued(&self) -> Seq<T> {
        self.items@
    }

    /// Delivers the oldest held item; pending when the channel is empty.
    fn recv(&mut self) -> (r: RecvPoll<T, ()>)
        ensures
            r is Received <==> old(self).held().len() > 0,
            r !is Failed,
            final(self).capacity() == old(self).capacity(),
            r matches RecvPoll::Received(d) ==> d == old(self).held()[0] && final(self).delivered() == old(self).delivered().push(d) && final(self).held() == old(self).held().drop_first(),
            r is Pending ==> final(self).delivered() == old(self).delivered() && final(self).held()
                == old(self).held(),
    {
        if self.items.len() > 0 {
            let d = self.items.remove(0);
            self.past = Ghost(self.past@.push(d));
            RecvPoll::Received(d)
        } else {
            RecvPoll::Pending
        }
    }
}

} // verus!
