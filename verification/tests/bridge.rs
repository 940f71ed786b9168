use passeri::receiver::{Receiver, Response as RecvResponse};
use passeri::sender::{
    expect_new_client, expect_start_stream, Response, Sender, ThreadReturn,
};
use passeri::{new_receiver, new_sender, BridgeError, PeerAddr};

fn addr(ip: u32, port: u16) -> PeerAddr {
    PeerAddr { ip, port }
}

#[test]
fn bridges_remember_their_endpoint_addresses() {
    let sender = new_sender(addr(0x0A00_0001, 9000));
    assert_eq!(sender.local_addr(), addr(0x0A00_0001, 9000));
    let receiver = new_receiver(addr(0x7F00_0001, 5000));
    assert_eq!(receiver.peer_addr(), addr(0x7F00_0001, 5000));
}

#[test]
fn accept_before_open_room_yields_client_not_found() {
    let mut sender = new_sender(addr(0, 9000));
    let peer = addr(0x7F00_0001, 5000);

    // Claiming a peer nobody admitted never blocks and is not a fault.
    assert!(matches!(sender.accept_client(peer), Response::ClientNotFound));

    // A later OpenRoom for the same peer is unaffected.
    match sender.open_room_accepted(peer) {
        Response::NewClient(a) => assert_eq!(a, peer),
        _ => panic!("expected the new client reply"),
    }
    assert!(matches!(sender.accept_client(peer), Response::StartStream));
}

#[test]
fn claimed_peer_leaves_the_table() {
    let mut sender = new_sender(addr(0, 9000));
    let peer = addr(0x7F00_0001, 5000);
    sender.open_room_accepted(peer);
    assert!(matches!(sender.accept_client(peer), Response::StartStream));

    // Once claimed, the same peer cannot be claimed again.
    let mut second = new_sender(addr(0, 9000));
    second.open_room_accepted(peer);
    second.accept_client(peer);
    assert!(!second.is_idle());
    assert!(second.is_streaming());
}

#[test]
fn each_request_gets_its_own_matched_reply() {
    let mut sender = new_sender(addr(0, 9000));
    let first = addr(1, 1111);
    let second = addr(2, 2222);

    // Requests are handled one at a time, each with exactly one reply.
    assert!(matches!(
        sender.open_room_accepted(first),
        Response::NewClient(a) if a == first
    ));
    assert!(matches!(
        sender.open_room_accepted(second),
        Response::NewClient(a) if a == second
    ));
    assert!(matches!(sender.accept_client(second), Response::StartStream));
}

#[test]
fn handle_side_response_validation() {
    let peer = addr(3, 3333);
    assert_eq!(expect_new_client(Response::NewClient(peer)), Ok(peer));
    assert_eq!(
        expect_new_client(Response::StartStream),
        Err(BridgeError::UnexpectedResponse)
    );
    assert_eq!(expect_start_stream(Response::StartStream), Ok(true));
    assert_eq!(expect_start_stream(Response::ClientNotFound), Ok(false));
    assert_eq!(
        expect_start_stream(Response::NewClient(peer)),
        Err(BridgeError::UnexpectedResponse)
    );
}

#[test]
fn sender_shutdown_reasons() {
    let peer = addr(4, 4444);

    let mut sender = new_sender(addr(0, 9000));
    sender.open_room_accepted(peer);
    sender.accept_client(peer);
    assert_eq!(sender.payload_channel_closed(), ThreadReturn::SendEnd);

    let mut sender = new_sender(addr(0, 9000));
    sender.open_room_accepted(peer);
    sender.accept_client(peer);
    assert_eq!(sender.write_failed(), ThreadReturn::Write);

    let mut sender = new_sender(addr(0, 9000));
    assert_eq!(sender.accept_failed(), ThreadReturn::Write);

    let mut sender = new_sender(addr(0, 9000));
    assert_eq!(sender.request_channel_closed(), ThreadReturn::Recv);
}

#[test]
fn receiver_shutdown_reasons() {
    let mut receiver = new_receiver(addr(9, 9999));
    assert!(matches!(
        receiver.handle_receive(),
        RecvResponse::StartReceiving
    ));
    assert_eq!(receiver.read_end(), ThreadReturn::ReceiveEnd);

    let mut receiver = new_receiver(addr(9, 9999));
    receiver.handle_receive();
    assert_eq!(receiver.read_failed(), ThreadReturn::Read);
}

/// Run one end-to-end bridging scenario in memory: frame each fed chunk on
/// the sender side, concatenate the wire bytes, deliver them to the
/// receiver re-chunked at the given size, and return what the receiver
/// hands the MIDI sink.
fn bridge(payloads: &[&[u8]], delivery_chunk: usize) -> Vec<u8> {
    let peer = addr(0x7F00_0001, 6000);
    let mut sender: Sender = new_sender(addr(0, 9000));
    sender.open_room_accepted(peer);
    assert!(matches!(sender.accept_client(peer), Response::StartStream));

    let mut wire: Vec<u8> = Vec::new();
    for payload in payloads {
        wire.extend_from_slice(&sender.stream_payload(payload));
    }

    let mut receiver: Receiver = new_receiver(peer);
    receiver.handle_receive();
    let mut sink: Vec<u8> = Vec::new();
    for piece in wire.chunks(delivery_chunk) {
        for msg in receiver.handle_bytes(piece) {
            sink.extend_from_slice(&msg);
        }
    }
    assert_eq!(receiver.read_end(), ThreadReturn::ReceiveEnd);
    sink
}

#[test]
fn end_to_end_bridging_reproduces_the_fed_bytes() {
    // A fixed byte sequence fed to the sender in chunks of 32 bytes arrives
    // byte for byte at the receiver's sink, however the wire stream is
    // re-chunked in transit.
    let source: Vec<u8> = (0u16..200).map(|i| (i % 251) as u8).collect();
    let fed: Vec<&[u8]> = source.chunks(32).collect();
    for delivery_chunk in [1, 7, 32, 33, 50, 700] {
        assert_eq!(bridge(&fed, delivery_chunk), source);
    }
}

#[test]
fn receiver_carries_partial_frames_between_reads() {
    let peer = addr(1, 7000);
    let mut sender = new_sender(addr(0, 9000));
    sender.open_room_accepted(peer);
    sender.accept_client(peer);
    let wire = sender.stream_payload(&[0x90, 0x3C, 0x40]);

    let mut receiver = new_receiver(peer);
    receiver.handle_receive();
    assert_eq!(receiver.handle_bytes(&wire[..10]), Vec::<Vec<u8>>::new());
    assert_eq!(receiver.handle_bytes(&wire[10..32]), Vec::<Vec<u8>>::new());
    let msgs = receiver.handle_bytes(&wire[32..]);
    assert_eq!(msgs, vec![vec![0x90, 0x3C, 0x40]]);
}
