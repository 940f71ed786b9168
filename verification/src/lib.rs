//! Core logic of a MIDI-over-network bridge.
//!
//! Bytes produced by a local MIDI endpoint are delimited into messages,
//! framed, shipped across a stream connection and replayed verbatim on the
//! remote side.  This crate holds the parts of that system that are pure
//! logic, each with a verified contract:
//!
//! - [`midi`]: the incremental parser that turns an arbitrarily chunked raw
//!   MIDI byte stream into discrete messages;
//! - [`frame`]: the fixed-size wire frame codec and the frame reassembler;
//! - [`rtp`]: the session-invitation control-packet codec;
//! - [`sender`] and [`receiver`]: the decision logic of the two bridge
//!   worker roles, written as state machines.  An embedding program owns the
//!   sockets, channels and threads, performs each action the machines ask
//!   for, and feeds the outcome back in as events.

use vstd::prelude::*;

pub mod frame;
pub mod midi;
pub mod receiver;
pub mod rtp;
pub mod sender;

verus! {

/// The byte stream a sequence of read chunks delivers, in order.
pub open spec fn concat_chunks(chunks: Seq<Seq<u8>>) -> Seq<u8>
    decreases chunks.len(),
{
    if chunks.len() == 0 {
        Seq::empty()
    } else {
        chunks[0] + concat_chunks(chunks.drop_first())
    }
}

/// Model of a peer's socket address: an IPv4 address held as one big-endian
/// number, and a port.  The embedding program converts between this and the
/// operating system's address type.
#[derive(Clone, Copy, Debug, PartialEq, Eq, Hash, Structural)]
pub struct PeerAddr {
    pub ip: u32,
    pub port: u16,
}

/// Fault seen by the caller-side bridge handle: the worker replied with a
/// response that does not answer the submitted request.
#[derive(Clone, Copy, Debug, PartialEq, Eq, Structural)]
pub enum BridgeError {
    UnexpectedResponse,
}

/// Create the sender role's bridge state for a freshly bound listening
/// endpoint.  The embedding program binds the listening socket first and
/// calls this only once the bind has succeeded, so construction faults stay
/// synchronous for the caller.
pub fn new_sender(binding_addr: PeerAddr) -> (s: sender::Sender)
    ensures
        s@.local == binding_addr,
        s@.table == Seq::<PeerAddr>::empty(),
        s@.phase == sender::SenderPhase::Idle,
        s@.wf(),
{
    sender::Sender::new(binding_addr)
}

/// Create the receiver role's bridge state for a peer the embedding program
/// has just connected to.  Connection faults abort before this is called.
pub fn new_receiver(sender_addr: PeerAddr) -> (r: receiver::Receiver)
    ensures
        r@.peer == sender_addr,
        r@.pending == Seq::<u8>::empty(),
        r@.phase == receiver::ReceiverPhase::Idle,
        r@.wf(),
{
    receiver::Receiver::new(sender_addr)
}

} // verus!
