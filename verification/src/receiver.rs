//! Receiver role: the bridge worker that replays a peer's wire stream on
//! the local MIDI output.
//!
//! The worker is connected to one sender.  After the `Receive` request it
//! loops: read bytes from the peer, reassemble whole wire frames, decode
//! each payload, and hand the decoded messages to the local MIDI sink.  A
//! zero-length read is the peer's orderly shutdown; any other read fault is
//! an input/output fault.  The embedding program owns the socket and
//! channels: it performs each blocking read and reports its outcome to the
//! [`Receiver`] state machine.

use vstd::prelude::*;
use crate::PeerAddr;
use crate::frame::MidiFrame;
use crate::frame::frames_msgs;
use crate::frame::frames_rest;
use crate::sender::ThreadReturn;

verus! {

/// Requests a caller submits to the receiver worker.
pub enum Request {
    /// Start replaying the peer's stream on the local MIDI output.
    Receive,
}

/// Replies the receiver worker returns, one per request.
#[derive(Debug)]
pub enum Response {
    /// The worker is now receiving from the peer.
    StartReceiving,
}

/// Where the receiver worker stands.
pub enum ReceiverPhase {
    /// Waiting for the next request.
    Idle,
    /// Replaying the peer's stream.
    Receiving,
    /// Stopped, with the reason its owner sees on join.
    Done(ThreadReturn),
}

/// Ghost image of a [`Receiver`]: the peer it is connected to, the bytes of
/// a partial wire frame carried between reads, and the phase.
pub ghost struct ReceiverView {
    pub peer: PeerAddr,
    pub pending: Seq<u8>,
    pub phase: ReceiverPhase,
}

impl ReceiverView {
    /// Between reads the carried bytes never hold a whole frame.
    pub open spec fn wf(self) -> bool {
        self.pending.len() < 33
    }
}

/// State of the receiver worker.
pub struct Receiver {
    peer: PeerAddr,
    pending: Vec<u8>,
    phase: ReceiverPhase,
}

impl View for Receiver {
    type V = ReceiverView;

    closed spec fn view(&self) -> ReceiverView {
        ReceiverView { peer: self.peer, pending: self.pending@, phase: self.phase }
    }
}

impl Receiver {
    /// A receiver connected to `peer`, with no bytes carried and no request
    /// yet.
    pub fn new(peer: PeerAddr) -> (r: Receiver)
        ensures
            r@.peer == peer,
            r@.pending == Seq::<u8>::empty(),
            r@.phase == ReceiverPhase::Idle,
            r@.wf(),
    {
        Receiver { peer, pending: Vec::new(), phase: ReceiverPhase::Idle }
    }

    /// The peer this receiver is connected to.
    pub fn peer_addr(&self) -> (a: PeerAddr)
        ensures
            a == self@.peer,
    {
        self.peer
    }

    /// True while the worker is waiting for a request.
    pub fn is_idle(&self) -> (b: bool)
        ensures
            b == (self@.phase matches ReceiverPhase::Idle),
    {
        match self.phase {
            ReceiverPhase::Idle => true,
            _ => false,
        }
    }

    /// True while the worker is replaying the peer's stream.
    pub fn is_receiving(&self) -> (b: bool)
        ensures
            b == (self@.phase matches ReceiverPhase::Receiving),
    {
        match self.phase {
            ReceiverPhase::Receiving => true,
            _ => false,
        }
    }

    /// `Receive` outcome: the worker enters the read loop and the reply says
    /// receiving has started.
    pub fn handle_receive(&mut self) -> (resp: Response)
        requires
            old(self)@.phase matches ReceiverPhase::Idle,
        ensures
            resp == Response::StartReceiving,
            final(self)@.phase == ReceiverPhase::Receiving,
            final(self)@.pending == old(self)@.pending,
            final(self)@.peer == old(self)@.peer,
    {
        self.phase = ReceiverPhase::Receiving;
        Response::StartReceiving
    }

    /// One successful read from the peer: reassemble whole frames out of the
    /// carried bytes plus this chunk, and return their decoded payloads, in
    /// order, for the MIDI sink.  Bytes of a trailing partial frame stay
    /// carried for the next read.
    pub fn handle_bytes(&mut self, chunk: &[u8]) -> (msgs: Vec<Vec<u8>>)
        requires
            old(self)@.wf(),
            old(self)@.phase matches ReceiverPhase::Receiving,
        ensures
            final(self)@.wf(),
            msgs.deep_view() == frames_msgs(old(self)@.pending + chunk@),
            final(self)@.pending == frames_rest(old(self)@.pending + chunk@),
            final(self)@.phase == old(self)@.phase,
            final(self)@.peer == old(self)@.peer,
    {
        let ghost whole: Seq<u8> = old(self)@.pending + chunk@;
        let mut msgs: Vec<Vec<u8>> = Vec::new();
        self.pending.extend_from_slice(chunk);
        proof {
            assert(self@.pending =~= whole);
            assert(msgs.deep_view() =~~= Seq::<Seq<u8>>::empty());
            assert(Seq::<Seq<u8>>::empty() + frames_msgs(self@.pending) =~~= frames_msgs(
                self@.pending,
            ));
        }

        while self.pending.len() >= 33
            invariant
                self@.phase matches ReceiverPhase::Receiving,
                self@.peer == old(self)@.peer,
                frames_msgs(whole) =~~= msgs.deep_view() + frames_msgs(self@.pending),
                frames_rest(whole) == frames_rest(self@.pending),
            decreases self@.pending.len(),
        {
            let ghost pre: Seq<u8> = self@.pending;
            let ghost pre_msgs: Seq<Seq<u8>> = msgs.deep_view();
            let head: &[u8] = &self.pending.as_slice()[0..33];
            let payload: Vec<u8> = MidiFrame::get_payload(head);
            proof {
                assert(head@ =~= pre.take(33));
            }
            msgs.push(payload);
            let rest: Vec<u8> = self.pending.split_off(33);
            self.pending = rest;
            proof {
                assert(self@.pending =~= pre.skip(33));
                assert(msgs.deep_view() =~~= pre_msgs + seq![crate::frame::spec_decode(
                    pre.take(33),
                )]);
                assert(frames_msgs(pre) == seq![crate::frame::spec_decode(pre.take(33))]
                    + frames_msgs(pre.skip(33)));
                assert(pre_msgs + frames_msgs(pre) =~~= msgs.deep_view() + frames_msgs(
                    self@.pending,
                ));
            }
        }

        proof {
            assert(frames_msgs(self@.pending) =~~= Seq::<Seq<u8>>::empty());
            assert(msgs.deep_view() + Seq::<Seq<u8>>::empty() =~~= msgs.deep_view());
        }
        msgs
    }

    /// A zero-length read: the peer closed the connection.  An orderly end
    /// of the receiving session, not an input/output fault.
    pub fn read_end(&mut self) -> (r: ThreadReturn)
        requires
            old(self)@.phase matches ReceiverPhase::Receiving,
        ensures
            r == ThreadReturn::ReceiveEnd,
            final(self)@.phase == ReceiverPhase::Done(ThreadReturn::ReceiveEnd),
            final(self)@.pending == old(self)@.pending,
            final(self)@.peer == old(self)@.peer,
    {
        self.phase = ReceiverPhase::Done(ThreadReturn::ReceiveEnd);
        ThreadReturn::ReceiveEnd
    }

    /// A read from the peer failed: the receiving session ends with an
    /// input/output fault.
    pub fn read_failed(&mut self) -> (r: ThreadReturn)
        requires
            old(self)@.phase matches ReceiverPhase::Receiving,
        ensures
            r == ThreadReturn::Read,
            final(self)@.phase == ReceiverPhase::Done(ThreadReturn::Read),
            final(self)@.pending == old(self)@.pending,
            final(self)@.peer == old(self)@.peer,
    {
        self.phase = ReceiverPhase::Done(ThreadReturn::Read);
        ThreadReturn::Read
    }

    /// The request channel closed: the owning handle is gone and the worker
    /// stops.
    pub fn request_channel_closed(&mut self) -> (r: ThreadReturn)
        ensures
            r == ThreadReturn::Recv,
            final(self)@.phase == ReceiverPhase::Done(ThreadReturn::Recv),
            final(self)@.pending == old(self)@.pending,
            final(self)@.peer == old(self)@.peer,
    {
        self.phase = ReceiverPhase::Done(ThreadReturn::Recv);
        ThreadReturn::Recv
    }
}

/// The caller side of `receive`: the only reply to a `Receive` request says
/// receiving has started.
pub fn expect_start_receiving(resp: Response) -> (r: Result<(), crate::BridgeError>)
    ensures
        resp == Response::StartReceiving && r == Ok::<(), crate::BridgeError>(()),
{
    match resp {
        Response::StartReceiving => Ok(()),
    }
}

} // verus!
