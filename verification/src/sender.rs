//! Sender role: the bridge worker that forwards local MIDI messages to one
//! connected peer over a stream transport.
//!
//! The worker owns a listening endpoint and a connection table mapping peer
//! addresses to accepted, not-yet-claimed connections.  `OpenRoom` admits
//! one peer into the table; `AcceptClient` claims it and starts streaming.
//! The embedding program owns the sockets and channels: it performs each
//! blocking operation (accept, channel receive, write) and reports its
//! outcome to the [`Sender`] state machine, which makes every decision and
//! produces exactly one reply per request.

use vstd::prelude::*;
use crate::PeerAddr;
use crate::frame::MidiFrame;
use crate::frame::spec_encode;

verus! {

/// Requests a caller submits to the sender worker.
pub enum Request<A> {
    /// Block until one peer connects; admit it into the connection table.
    OpenRoom,
    /// Claim the admitted peer and start streaming MIDI payloads to it.
    AcceptClient(A),
}

/// Replies the sender worker returns, one per request.
#[derive(Debug)]
pub enum Response<A> {
    /// A peer connected and is now admitted under this address.
    NewClient(A),
    /// Streaming to the claimed peer has started.
    StartStream,
    /// The address to claim was never admitted: a valid, retryable outcome
    /// of `AcceptClient` before the matching `OpenRoom`, not a fault.
    ClientNotFound,
}

/// Why a bridge worker stopped.  Every fault becomes one of these; the
/// worker never panics on an expected condition.
#[derive(Clone, Copy, Debug, PartialEq, Eq, Structural)]
pub enum ThreadReturn {
    /// The transport could not be constructed.
    InitError,
    /// The request channel closed: the owning handle is gone.
    Recv,
    /// A reply channel closed before the reply was delivered.
    Send,
    /// A transport operation towards the peer (an accept or a write)
    /// failed.
    Write,
    /// Reading from the peer failed.
    Read,
    /// The local MIDI input stopped delivering.
    MidiRecvError,
    /// The local MIDI output refused a message.
    MidiSendError,
    /// The worker thread could not be joined.
    JoinError,
    /// The peer closed the connection: orderly end of a receiving session.
    ReceiveEnd,
    /// The payload producer closed its channel: orderly end of a sending
    /// session.
    SendEnd,
}

/// Where the sender worker stands.
pub enum SenderPhase {
    /// Waiting for the next request.
    Idle,
    /// Forwarding payloads to the claimed peer.
    Streaming(PeerAddr),
    /// Stopped, with the reason its owner sees on join.
    Done(ThreadReturn),
}

/// Ghost image of a [`Sender`]: the bound address, the admitted peers in
/// admission order, and the phase.
pub ghost struct SenderView {
    pub local: PeerAddr,
    pub table: Seq<PeerAddr>,
    pub phase: SenderPhase,
}

impl SenderView {
    /// The connection table holds each admitted peer once.
    pub open spec fn wf(self) -> bool {
        forall|i: int, j: int|
            0 <= i < j < self.table.len() ==> self.table[i] != self.table[j]
    }
}

/// Outcome of admitting a freshly accepted peer: the peer joins the table
/// (once) and the reply names its address.
pub open spec fn spec_open_room(s: SenderView, addr: PeerAddr) -> (SenderView, Response<
    PeerAddr,
>) {
    (
        SenderView {
            table: if s.table.contains(addr) {
                s.table
            } else {
                s.table.push(addr)
            },
            ..s
        },
        Response::NewClient(addr),
    )
}

/// Outcome of claiming a peer: an admitted peer leaves the table and
/// streaming starts; an unknown peer changes nothing and the reply says so.
pub open spec fn spec_accept_client(s: SenderView, addr: PeerAddr) -> (SenderView, Response<
    PeerAddr,
>) {
    match s.table.index_of_first(addr) {
        Some(i) => (
            SenderView { table: s.table.remove(i), phase: SenderPhase::Streaming(addr), ..s },
            Response::StartStream,
        ),
        None => (s, Response::ClientNotFound),
    }
}

/// A reply answers the request it was produced for.
pub open spec fn response_matches(req: Request<PeerAddr>, resp: Response<PeerAddr>) -> bool {
    match req {
        Request::OpenRoom => resp matches Response::NewClient(_),
        Request::AcceptClient(_) => resp matches Response::StartStream || resp
            matches Response::ClientNotFound,
    }
}

/// State of the sender worker.  The embedding program keeps the accepted
/// stream for each admitted address and drops it when the machine removes
/// the address from its table.
pub struct Sender {
    local: PeerAddr,
    table: Vec<PeerAddr>,
    phase: SenderPhase,
}

impl View for Sender {
    type V = SenderView;

    closed spec fn view(&self) -> SenderView {
        SenderView { local: self.local, table: self.table@, phase: self.phase }
    }
}

impl Sender {
    /// A sender bound to `local`, with no peer admitted and no request yet.
    pub fn new(local: PeerAddr) -> (s: Sender)
        ensures
            s@.local == local,
            s@.table == Seq::<PeerAddr>::empty(),
            s@.phase == SenderPhase::Idle,
            s@.wf(),
    {
        Sender { local, table: Vec::new(), phase: SenderPhase::Idle }
    }

    /// The address this sender listens on.
    pub fn local_addr(&self) -> (a: PeerAddr)
        ensures
            a == self@.local,
    {
        self.local
    }

    /// True while the worker is waiting for a request.
    pub fn is_idle(&self) -> (b: bool)
        ensures
            b == (self@.phase matches SenderPhase::Idle),
    {
        match self.phase {
            SenderPhase::Idle => true,
            _ => false,
        }
    }

    /// True while the worker is streaming to a claimed peer.
    pub fn is_streaming(&self) -> (b: bool)
        ensures
            b == (self@.phase matches SenderPhase::Streaming(_)),
    {
        match self.phase {
            SenderPhase::Streaming(_) => true,
            _ => false,
        }
    }

    /// First table index holding `addr`, if the peer is admitted.
    fn find_peer(&self, addr: PeerAddr) -> (r: Option<usize>)
        ensures
            match r {
                Some(j) => self@.table.index_of_first(addr) == Some(j as int),
                None => !self@.table.contains(addr),
            },
    {
        let n: usize = self.table.len();
        let mut i: usize = 0;
        while i < n
            invariant
                i <= n,
                n == self@.table.len(),
                forall|k: int| 0 <= k < i ==> self@.table[k] != addr,
            decreases n - i,
        {
            if self.table[i] == addr {
                proof {
                    self@.table.index_of_first_ensures(addr);
                }
                return Some(i);
            }
            i = i + 1;
        }
        None
    }

    /// `OpenRoom` outcome once the listening socket has accepted a peer at
    /// `addr`: admit it and reply with its address.
    pub fn open_room_accepted(&mut self, addr: PeerAddr) -> (resp: Response<PeerAddr>)
        requires
            old(self)@.wf(),
            old(self)@.phase matches SenderPhase::Idle,
        ensures
            (final(self)@, resp) == spec_open_room(old(self)@, addr),
            final(self)@.wf(),
            final(self)@.table.contains(addr),
            response_matches(Request::OpenRoom, resp),
    {
        match self.find_peer(addr) {
            Some(_) => {},
            None => {
                self.table.push(addr);
            },
        }
        proof {
            old(self)@.table.index_of_first_ensures(addr);
            assert(self@.table.contains(addr)) by {
                if !old(self)@.table.contains(addr) {
                    assert(self@.table.last() == addr);
                }
            }
        }
        Response::NewClient(addr)
    }

    /// `AcceptClient` outcome: claim an admitted peer and start streaming,
    /// or reply `ClientNotFound` and change nothing.
    pub fn accept_client(&mut self, addr: PeerAddr) -> (resp: Response<PeerAddr>)
        requires
            old(self)@.wf(),
            old(self)@.phase matches SenderPhase::Idle,
        ensures
            (final(self)@, resp) == spec_accept_client(old(self)@, addr),
            final(self)@.wf(),
            response_matches(Request::AcceptClient(addr), resp),
    {
        proof {
            old(self)@.table.index_of_first_ensures(addr);
        }
        match self.find_peer(addr) {
            Some(i) => {
                self.table.remove(i);
                self.phase = SenderPhase::Streaming(addr);
                proof {
                    lemma_remove_keeps_distinct(old(self)@.table, i as int);
                }
                Response::StartStream
            },
            None => Response::ClientNotFound,
        }
    }

    /// One payload pulled from the MIDI channel while streaming: the wire
    /// frame to write to the claimed peer.
    pub fn stream_payload(&self, msg: &[u8]) -> (wire: Vec<u8>)
        requires
            self@.phase matches SenderPhase::Streaming(_),
        ensures
            wire@ == spec_encode(msg@),
            wire@.len() == 33,
    {
        let f = MidiFrame::from_bytes(msg);
        let wire = f.serialize();
        proof {
            crate::frame::lemma_encode_of_take(msg@);
        }
        wire
    }

    /// The payload channel closed: the producer is gone.  An orderly end of
    /// the sending session, not an input/output fault.
    pub fn payload_channel_closed(&mut self) -> (r: ThreadReturn)
        requires
            old(self)@.phase matches SenderPhase::Streaming(_),
        ensures
            r == ThreadReturn::SendEnd,
            final(self)@.phase == SenderPhase::Done(ThreadReturn::SendEnd),
            final(self)@.table == old(self)@.table,
            final(self)@.local == old(self)@.local,
    {
        self.phase = SenderPhase::Done(ThreadReturn::SendEnd);
        ThreadReturn::SendEnd
    }

    /// A write to the claimed peer failed: the streaming session ends with
    /// an input/output fault.
    pub fn write_failed(&mut self) -> (r: ThreadReturn)
        requires
            old(self)@.phase matches SenderPhase::Streaming(_),
        ensures
            r == ThreadReturn::Write,
            final(self)@.phase == SenderPhase::Done(ThreadReturn::Write),
            final(self)@.table == old(self)@.table,
            final(self)@.local == old(self)@.local,
    {
        self.phase = SenderPhase::Done(ThreadReturn::Write);
        ThreadReturn::Write
    }

    /// Accepting a peer failed: `OpenRoom` ends the worker with an
    /// input/output fault.
    pub fn accept_failed(&mut self) -> (r: ThreadReturn)
        requires
            old(self)@.phase matches SenderPhase::Idle,
        ensures
            r == ThreadReturn::Write,
            final(self)@.phase == SenderPhase::Done(ThreadReturn::Write),
            final(self)@.table == old(self)@.table,
            final(self)@.local == old(self)@.local,
    {
        self.phase = SenderPhase::Done(ThreadReturn::Write);
        ThreadReturn::Write
    }

    /// The request channel closed: the owning handle is gone and the worker
    /// stops.
    pub fn request_channel_closed(&mut self) -> (r: ThreadReturn)
        ensures
            r == ThreadReturn::Recv,
            final(self)@.phase == SenderPhase::Done(ThreadReturn::Recv),
            final(self)@.table == old(self)@.table,
            final(self)@.local == old(self)@.local,
    {
        self.phase = SenderPhase::Done(ThreadReturn::Recv);
        ThreadReturn::Recv
    }
}

/// Removing one element of a duplicate-free sequence keeps it
/// duplicate-free.
proof fn lemma_remove_keeps_distinct(t: Seq<PeerAddr>, i: int)
    requires
        0 <= i < t.len(),
        forall|p: int, q: int| 0 <= p < q < t.len() ==> t[p] != t[q],
    ensures
        forall|p: int, q: int| 0 <= p < q < t.remove(i).len() ==> t.remove(i)[p] != t.remove(i)[q],
{
    assert forall|p: int, q: int|
        0 <= p < q < t.remove(i).len() implies t.remove(i)[p] != t.remove(i)[q] by {
        let p0 = if p < i {
            p
        } else {
            p + 1
        };
        let q0 = if q < i {
            q
        } else {
            q + 1
        };
        assert(t.remove(i)[p] == t[p0]);
        assert(t.remove(i)[q] == t[q0]);
    }
}

/// The caller side of `wait_for_client`: only `NewClient` answers an
/// `OpenRoom` request; any other reply is a protocol fault.
pub fn expect_new_client(resp: Response<PeerAddr>) -> (r: Result<PeerAddr, crate::BridgeError>)
    ensures
        match resp {
            Response::NewClient(a) => r == Ok::<PeerAddr, crate::BridgeError>(a),
            _ => r == Err::<PeerAddr, crate::BridgeError>(crate::BridgeError::UnexpectedResponse),
        },
{
    match resp {
        Response::NewClient(a) => Ok(a),
        _ => Err(crate::BridgeError::UnexpectedResponse),
    }
}

/// The caller side of `send`: only `StartStream` lets the caller hand the
/// session over to the worker; `ClientNotFound` is reported to retry.
pub fn expect_start_stream(resp: Response<PeerAddr>) -> (r: Result<bool, crate::BridgeError>)
    ensures
        match resp {
            Response::StartStream => r == Ok::<bool, crate::BridgeError>(true),
            Response::ClientNotFound => r == Ok::<bool, crate::BridgeError>(false),
            _ => r == Err::<bool, crate::BridgeError>(crate::BridgeError::UnexpectedResponse),
        },
{
    match resp {
        Response::StartStream => Ok(true),
        Response::ClientNotFound => Ok(false),
        _ => Err(crate::BridgeError::UnexpectedResponse),
    }
}

/// Handshake ordering: claiming a peer that no `OpenRoom` has admitted
/// replies `ClientNotFound` and leaves the worker state untouched, so any
/// later `OpenRoom` behaves exactly as it would have without the early
/// claim.
pub proof fn lemma_accept_client_unknown(s: SenderView, addr: PeerAddr)
    requires
        !s.table.contains(addr),
    ensures
        spec_accept_client(s, addr).1 == Response::<PeerAddr>::ClientNotFound,
        spec_accept_client(s, addr).0 == s,
        forall|a: PeerAddr| #[trigger] spec_open_room(spec_accept_client(s, addr).0, a)
            == spec_open_room(s, a),
{
    s.table.index_of_first_ensures(addr);
}

/// At most one reply per request: the worker's decision is a function of
/// its state and the request alone, and the reply it produces answers that
/// request and no other.
pub proof fn lemma_matched_reply(s: SenderView, req: Request<PeerAddr>, accepted: PeerAddr)
    ensures
        match req {
            Request::OpenRoom => response_matches(req, spec_open_room(s, accepted).1),
            Request::AcceptClient(a) => response_matches(req, spec_accept_client(s, a).1),
        },
{
    match req {
        Request::OpenRoom => {},
        Request::AcceptClient(a) => {
            s.table.index_of_first_ensures(a);
        },
    }
}

} // verus!

