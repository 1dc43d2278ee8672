//! An asynchronous communication substrate for allocation-averse network
//! services, modelled as poll-style state machines: a coalesced one-shot
//! wake primitive, a duplex-channel capability with a transforming adapter,
//! a WebSocket message-framing codec over caller-supplied fixed buffers,
//! and a fixed-size worker-pool connection dispatcher.
//!
//! Every suspension point is made explicit: an operation that would
//! suspend in an asynchronous setting returns a pending outcome instead,
//! and the surrounding executor polls it again.

pub mod channel;
pub mod codec;
pub mod acceptor;
pub mod notification;
pub mod wire;
pub mod ws;
