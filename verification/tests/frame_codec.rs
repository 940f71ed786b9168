use passeri::frame::{MidiFrame, MAX_PAYLOAD, WIRE_LEN};

#[test]
fn one_frame_is_one_length_byte_plus_the_padded_payload() {
    assert_eq!(WIRE_LEN, MAX_PAYLOAD + 1);
}

#[test]
fn round_trip_of_a_short_message() {
    let msg: Vec<u8> = vec![0x90, 0x3C, 0x40];
    let wire = MidiFrame::from_bytes(&msg).serialize();
    assert_eq!(wire.len(), WIRE_LEN);
    assert_eq!(wire[0], 3);
    assert_eq!(&wire[1..4], &[0x90, 0x3C, 0x40]);
    assert!(wire[4..].iter().all(|b| *b == 0));
    assert_eq!(MidiFrame::get_payload(&wire), msg);
}

#[test]
fn round_trip_of_an_empty_message() {
    let wire = MidiFrame::from_bytes(&[]).serialize();
    assert_eq!(wire, vec![0u8; 33]);
    assert_eq!(MidiFrame::get_payload(&wire), Vec::<u8>::new());
}

#[test]
fn round_trip_of_a_full_frame() {
    let msg: Vec<u8> = (1..=32).collect();
    let wire = MidiFrame::from_bytes(&msg).serialize();
    assert_eq!(wire[0], 32);
    assert_eq!(MidiFrame::get_payload(&wire), msg);
}

#[test]
fn oversized_message_is_truncated_to_the_capacity() {
    let msg: Vec<u8> = (0..40).collect();
    let wire = MidiFrame::from_bytes(&msg).serialize();
    assert_eq!(wire[0], 32);
    assert_eq!(MidiFrame::get_payload(&wire), msg[..32].to_vec());
}

#[test]
fn corrupt_length_byte_is_clamped_on_decode() {
    let mut wire = vec![0u8; 33];
    wire[0] = 0xFF;
    for (i, b) in wire.iter_mut().enumerate().skip(1) {
        *b = i as u8;
    }
    let payload = MidiFrame::get_payload(&wire);
    assert_eq!(payload.len(), 32);
    assert_eq!(payload, wire[1..33].to_vec());
}
