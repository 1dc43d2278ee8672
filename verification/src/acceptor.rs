//! The connection dispatcher: `P` fixed worker slots, one dedicated buffer
//! pair per worker, and a bounded dispatch queue of capacity `W`.
//!
//! The accept loop enqueues each accepted connection; when the queue is
//! full the enqueue is pending and the accept loop suspends — the system's
//! single backpressure point.  Each worker alternates between idle (waiting
//! on the queue) and serving (running one handler invocation on its own
//! buffer pair).  Connections are dispatched in arrival order, each to
//! exactly one worker that was idle; a handler outcome is recorded and ends
//! only that connection, never the worker.
//!
//! The buffers are reserved once at construction — two per worker, each of
//! size `B` — and worker `i` alone uses pair `i` for the pool's whole
//! lifetime, so the framing layer above needs no locking.

use vstd::prelude::*;
use crate::channel::{FifoChannel, SendPoll, RecvPoll, Sender, Receiver, lemma_fifo_views};

verus! {

/// One worker slot: waiting on the queue, or running one handler.
#[derive(Clone, Copy, PartialEq, Eq, Structural, Debug)]
pub enum WorkerState {
    Idle,
    Serving,
}

/// The pool: `P` workers with buffer pairs of size `B`, and a dispatch
/// queue of capacity `W` holding connection handles of type `C`.
pub struct Acceptor<C, const P: usize, const B: usize, const W: usize> {
    send_bufs: Vec<Vec<u8>>,
    recv_bufs: Vec<Vec<u8>>,
    workers: Vec<WorkerState>,
    queue: FifoChannel<C>,
    ok_count: u64,
    err_count: u64,
    accept_err_count: u64,
    closing: bool,
}

impl<C, const P: usize, const B: usize, const W: usize> Acceptor<C, P, B, W> {
    /// The state of each worker slot.
    pub closed spec fn worker_states(&self) -> Seq<WorkerState> {
        self.workers@
    }

    /// The connections accepted and not yet dispatched, in arrival order.
    pub closed spec fn pending_conns(&self) -> Seq<C> {
        self.queue.held()
    }

    /// The connections dispatched to workers so far, in dispatch order.
    pub closed spec fn served_conns(&self) -> Seq<C> {
        self.queue.delivered()
    }

    /// Every connection ever accepted into the queue, in arrival order.
    pub closed spec fn arrived_conns(&self) -> Seq<C> {
        self.queue.sent()
    }

    /// Handler invocations that returned successfully.
    pub closed spec fn handled_ok(&self) -> u64 {
        self.ok_count
    }

    /// Handler invocations that returned an error.
    pub closed spec fn handled_err(&self) -> u64 {
        self.err_count
    }

    /// Accepts that failed; each is recorded and the accept loop goes on.
    pub closed spec fn accept_errors(&self) -> u64 {
        self.accept_err_count
    }

    /// Whether the pool has been told to shut down.
    pub closed spec fn is_closing(&self) -> bool {
        self.closing
    }

    /// Shape of a well-formed pool: `P` worker slots, two buffers of size
    /// `B` for each, and a queue bounded by `W`.
    pub closed spec fn wf(&self) -> bool {
        &&& self.workers@.len() == P
        &&& self.send_bufs@.len() == P
        &&& self.recv_bufs@.len() == P
        &&& (forall|i: int| 0 <= i < P ==> (#[trigger] self.send_bufs@[i])@.len() == B)
        &&& (forall|i: int| 0 <= i < P ==> (#[trigger] self.recv_bufs@[i])@.len() == B)
        &&& self.queue.capacity() == W
    }

    /// Builds the pool: reserves the `2 * P` buffers of size `B` up front;
    /// nothing is allocated during operation.  All workers start idle and
    /// the queue starts empty.
    pub fn new() -> (a: Self)
        ensures
            a.wf(),
            a.worker_states() == Seq::new(P as nat, |i: int| WorkerState::Idle),
            a.pending_conns() == Seq::<C>::empty(),
            a.served_conns() == Seq::<C>::empty(),
            a.handled_ok() == 0,
            a.handled_err() == 0,
            a.accept_errors() == 0,
            !a.is_closing(),
    {
        let mut send_bufs: Vec<Vec<u8>> = Vec::new();
        let mut recv_bufs: Vec<Vec<u8>> = Vec::new();
        let mut workers: Vec<WorkerState> = Vec::new();
        while workers.len() < P
            invariant
                workers@.len() <= P,
                send_bufs@.len() == workers@.len(),
                recv_bufs@.len() == workers@.len(),
                forall|i: int| 0 <= i < workers@.len() ==> (#[trigger] send_bufs@[i])@.len() == B,
                forall|i: int| 0 <= i < workers@.len() ==> (#[trigger] recv_bufs@[i])@.len() == B,
                forall|i: int| 0 <= i < workers@.len() ==> workers@[i] == WorkerState::Idle,
            decreases P - workers.len(),
        {
            send_bufs.push(vec![0u8; B]);
            recv_bufs.push(vec![0u8; B]);
            workers.push(WorkerState::Idle);
        }
        let a = Acceptor {
            send_bufs,
            recv_bufs,
            workers,
            queue: FifoChannel::new(W),
            ok_count: 0,
            err_count: 0,
            accept_err_count: 0,
            closing: false,
        };
        proof {
            assert(a.worker_states() =~= Seq::new(P as nat, |i: int| WorkerState::Idle));
        }
        a
    }

    /// The accept loop's step for one accepted connection: puts it on the
    /// dispatch queue.  When the queue already holds `W` connections the
    /// handle comes back pending and the accept loop suspends until a
    /// worker has made room — backpressure, never unbounded buffering.  A
    /// pool that was shut down refuses the connection outright.
    pub fn enqueue(&mut self, conn: C) -> (r: SendPoll<C, ()>)
        requires
            old(self).wf(),
        ensures
            final(self).wf(),
            final(self).worker_states() == old(self).worker_states(),
            final(self).served_conns() == old(self).served_conns(),
            final(self).handled_ok() == old(self).handled_ok(),
            final(self).handled_err() == old(self).handled_err(),
            final(self).accept_errors() == old(self).accept_errors(),
            final(self).is_closing() == old(self).is_closing(),
            r is Sent <==> !old(self).is_closing() && old(self).pending_conns().len() < W,
            r is Sent ==> final(self).pending_conns() == old(self).pending_conns().push(conn),
            r !is Sent ==> final(self).pending_conns() == old(self).pending_conns(),
            r matches SendPoll::Pending(c) ==> c == conn,
            r is Failed <==> old(self).is_closing(),
    {
        if self.closing {
            return SendPoll::Failed(());
        }
        self.queue.send(conn)
    }

    /// The explicit shutdown step: the pool stops taking new connections.
    /// Connections already queued are still dispatched and served, so a
    /// shutdown drains the pool rather than abandoning work.
    pub fn shut_down(&mut self)
        requires
            old(self).wf(),
        ensures
            final(self).wf(),
            final(self).is_closing(),
            final(self).worker_states() == old(self).worker_states(),
            final(self).pending_conns() == old(self).pending_conns(),
            final(self).served_conns() == old(self).served_conns(),
            final(self).handled_ok() == old(self).handled_ok(),
            final(self).handled_err() == old(self).handled_err(),
            final(self).accept_errors() == old(self).accept_errors(),
    {
        self.closing = true;
    }

    /// One worker's attempt to pick up work: the first idle worker takes
    /// the connection at the head of the queue and starts serving it.  No
    /// dispatch happens while every worker is busy or the queue is empty.
    ///
    /// Dispatch order is arrival order, and the chosen worker was idle, so
    /// no two connections ever share a worker — or its buffer pair — at
    /// the same time.
    pub fn dispatch(&mut self) -> (r: Option<(usize, C)>)
        requires
            old(self).wf(),
        ensures
            final(self).wf(),
            final(self).handled_ok() == old(self).handled_ok(),
            final(self).handled_err() == old(self).handled_err(),
            final(self).accept_errors() == old(self).accept_errors(),
            final(self).is_closing() == old(self).is_closing(),
            match r {
                Some(wc) => ({
                    &&& wc.0 < P
                    &&& old(self).worker_states()[wc.0 as int] is Idle
                    &&& (forall|j: int|
                        0 <= j < wc.0 ==> old(self).worker_states()[j] is Serving)
                    &&& final(self).worker_states() == old(self).worker_states().update(
                        wc.0 as int,
                        WorkerState::Serving,
                    )
                    &&& old(self).pending_conns().len() > 0
                    &&& wc.1 == old(self).pending_conns()[0]
                    &&& final(self).pending_conns() == old(self).pending_conns().drop_first()
                    &&& final(self).served_conns() == old(self).served_conns().push(wc.1)
                }),
                None => ({
                    &&& final(self).worker_states() == old(self).worker_states()
                    &&& final(self).pending_conns() == old(self).pending_conns()
                    &&& final(self).served_conns() == old(self).served_conns()
                    &&& (old(self).pending_conns().len() == 0 || forall|j: int|
                        0 <= j < P ==> old(self).worker_states()[j] is Serving)
                }),
            },
    {
        let mut w: usize = 0;
        while w < P
            invariant
                old(self).wf(),
                *self == *old(self),
                w <= P,
                forall|j: int| 0 <= j < w ==> old(self).worker_states()[j] is Serving,
            ensures
                old(self).wf(),
                *self == *old(self),
                w <= P,
                forall|j: int| 0 <= j < w ==> old(self).worker_states()[j] is Serving,
                w < P ==> old(self).worker_states()[w as int] is Idle,
            decreases P - w,
        {
            match self.workers[w] {
                WorkerState::Idle => {
                    break ;
                },
                WorkerState::Serving => {
                    w = w + 1;
                },
            }
        }
        if w == P {
            return None;
        }
        match self.queue.recv() {
            RecvPoll::Received(conn) => {
                proof {
                    lemma_fifo_views(old(self).queue);
                }
                self.workers[w] = WorkerState::Serving;
                Some((w, conn))
            },
            RecvPoll::Pending => None,
            RecvPoll::Failed(_) => None,
        }
    }

    /// A worker's step when its handler invocation returns: the outcome is
    /// recorded for observability and the worker goes back to waiting on
    /// the queue.  A handler error ends only that one connection; the
    /// worker itself never terminates on it.
    pub fn complete(&mut self, worker: usize, ok: bool)
        requires
            old(self).wf(),
            worker < P,
            old(self).worker_states()[worker as int] is Serving,
        ensures
            final(self).wf(),
            final(self).worker_states() == old(self).worker_states().update(
                worker as int,
                WorkerState::Idle,
            ),
            final(self).pending_conns() == old(self).pending_conns(),
            final(self).served_conns() == old(self).served_conns(),
            final(self).accept_errors() == old(self).accept_errors(),
            final(self).is_closing() == old(self).is_closing(),
            ok ==> final(self).handled_ok() == saturated_incr(old(self).handled_ok())
                && final(self).handled_err() == old(self).handled_err(),
            !ok ==> final(self).handled_err() == saturated_incr(old(self).handled_err())
                && final(self).handled_ok() == old(self).handled_ok(),
    {
        self.workers[worker] = WorkerState::Idle;
        if ok {
            self.ok_count = incr_counter(self.ok_count);
        } else {
            self.err_count = incr_counter(self.err_count);
        }
    }

    /// The accept loop's step for a failed accept: record it and go on
    /// accepting.  An accept error is never fatal.
    pub fn record_accept_error(&mut self)
        requires
            old(self).wf(),
        ensures
            final(self).wf(),
            final(self).worker_states() == old(self).worker_states(),
            final(self).pending_conns() == old(self).pending_conns(),
            final(self).served_conns() == old(self).served_conns(),
            final(self).handled_ok() == old(self).handled_ok(),
            final(self).handled_err() == old(self).handled_err(),
            final(self).is_closing() == old(self).is_closing(),
            final(self).accept_errors() == saturated_incr(old(self).accept_errors()),
    {
        self.accept_err_count = incr_counter(self.accept_err_count);
    }

    /// The recorded handler outcomes: how many invocations returned
    /// successfully, and how many returned an error.
    pub fn handled_counts(&self) -> (r: (u64, u64))
        ensures
            r.0 == self.handled_ok(),
            r.1 == self.handled_err(),
    {
        (self.ok_count, self.err_count)
    }

    /// How many accepts have failed; each was recorded and skipped.
    pub fn accept_error_count(&self) -> (r: u64)
        ensures
            r == self.accept_errors(),
    {
        self.accept_err_count
    }

    /// Whether the pool has been told to shut down.
    pub fn is_shut_down(&self) -> (r: bool)
        ensures
            r == self.is_closing(),
    {
        self.closing
    }

    /// The dedicated buffer pair of one worker: the send buffer and the
    /// receive buffer, each of size `B`.
    pub fn buffer_pair(&self, worker: usize) -> (r: (&Vec<u8>, &Vec<u8>))
        requires
            self.wf(),
            worker < P,
        ensures
            r.0@.len() == B,
            r.1@.len() == B,
    {
        (&self.send_bufs[worker], &self.recv_bufs[worker])
    }
}

/// A count one higher, until the counter is exhausted.
pub open spec fn saturated_incr(n: u64) -> u64 {
    if n < u64::MAX {
        (n + 1) as u64
    } else {
        n
    }
}

fn incr_counter(n: u64) -> (r: u64)
    ensures
        r == saturated_incr(n),
{
    if n < u64::MAX {
        n + 1
    } else {
        n
    }
}

/// First-in-first-out service: in every reachable pool state, the
/// connections dispatched so far followed by those still queued are exactly
/// the connections accepted into the queue, in arrival order — dispatch
/// never reorders or skips.
pub proof fn lemma_fifo_service<C, const P: usize, const B: usize, const W: usize>(
    a: Acceptor<C, P, B, W>,
)
    ensures
        a.arrived_conns() == a.served_conns() + a.pending_conns(),
{
    lemma_fifo_views(a.queue);
}

} // verus!
