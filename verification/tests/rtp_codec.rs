use passeri::rtp::{get_eof, get_u32, ControlPacket, Error, Frame};

fn packet(cmd: [u8; 2], token: u32, ssrc: u32, name: Option<&str>) -> Vec<u8> {
    let mut p: Vec<u8> = vec![0xFF, 0xFF, cmd[0], cmd[1]];
    p.extend_from_slice(&[0, 0, 0, 2]);
    p.extend_from_slice(&token.to_be_bytes());
    p.extend_from_slice(&ssrc.to_be_bytes());
    if let Some(nm) = name {
        p.extend_from_slice(nm.as_bytes());
        p.push(0);
    }
    p
}

#[test]
fn u32_is_read_big_endian() {
    assert_eq!(get_u32(&[0, 0, 0, 2]), 2);
    assert_eq!(get_u32(&[1, 2, 3, 4]), 0x0102_0304);
    assert_eq!(get_u32(&[0xFF, 0xFF, 0xFF, 0xFF]), u32::MAX);
}

#[test]
fn eof_finds_the_first_zero() {
    assert_eq!(get_eof(&[1, 2, 0, 4, 0]), Some(2));
    assert_eq!(get_eof(&[0]), Some(0));
    assert_eq!(get_eof(&[1, 2, 3]), None);
    assert_eq!(get_eof(&[]), None);
}

#[test]
fn invitation_packet_parses_with_its_name() {
    let p = packet([0x49, 0x4E], 7, 0xDEAD_BEEF, Some("studio"));
    match Frame::parse(&p) {
        Ok(Frame::IN(cp)) => {
            assert_eq!(cp.initiator_token, 7);
            assert_eq!(cp.ssrc, 0xDEAD_BEEF);
            assert_eq!(cp.name.as_deref(), Some("studio"));
        }
        _ => panic!("expected an invitation frame"),
    }
}

#[test]
fn acceptance_packet_parses_with_its_name() {
    let p = packet([0x4F, 0x4B], 1, 2, Some("desk"));
    match Frame::parse(&p) {
        Ok(Frame::OK(cp)) => {
            assert_eq!(cp.initiator_token, 1);
            assert_eq!(cp.ssrc, 2);
            assert_eq!(cp.name.as_deref(), Some("desk"));
        }
        _ => panic!("expected an acceptance frame"),
    }
}

#[test]
fn rejection_and_goodbye_packets_carry_no_name() {
    let no = packet([0x4E, 0x4F], 3, 4, None);
    match Frame::parse(&no) {
        Ok(Frame::NO(cp)) => {
            assert_eq!(cp.initiator_token, 3);
            assert_eq!(cp.ssrc, 4);
            assert_eq!(cp.name, None);
        }
        _ => panic!("expected a rejection frame"),
    }
    let by = packet([0x42, 0x59], 5, 6, None);
    match Frame::parse(&by) {
        Ok(Frame::BY(cp)) => {
            assert_eq!(cp.initiator_token, 5);
            assert_eq!(cp.ssrc, 6);
            assert_eq!(cp.name, None);
        }
        _ => panic!("expected an end-of-session frame"),
    }
}

#[test]
fn short_packets_are_incomplete() {
    assert!(matches!(Frame::parse(&vec![]), Err(Error::Incomplete)));
    assert!(matches!(
        Frame::parse(&vec![0xFF, 0xFF, 0x49, 0x4E]),
        Err(Error::Incomplete)
    ));
    // Exactly the first eight bytes: still incomplete, not yet validated.
    assert!(matches!(
        Frame::parse(&vec![0xFF, 0xFF, 0x49, 0x4E, 0, 0, 0, 2]),
        Err(Error::Incomplete)
    ));
    // Header alone, valid but not enough for the fixed fields.
    assert!(matches!(
        Frame::parse(&vec![0xFF, 0xFF, 0x49, 0x4E, 0, 0, 0, 2, 9]),
        Err(Error::Incomplete)
    ));
}

#[test]
fn named_packet_without_terminator_is_incomplete() {
    let mut p = packet([0x49, 0x4E], 7, 8, None);
    p.extend_from_slice(b"unfinished");
    assert!(matches!(Frame::parse(&p), Err(Error::Incomplete)));
}

#[test]
fn bad_marker_version_or_command_is_invalid() {
    let mut bad_marker = packet([0x49, 0x4E], 7, 8, Some("x"));
    bad_marker[0] = 0x00;
    assert!(matches!(Frame::parse(&bad_marker), Err(Error::Invalid)));

    let mut bad_version = packet([0x49, 0x4E], 7, 8, Some("x"));
    bad_version[7] = 3;
    assert!(matches!(Frame::parse(&bad_version), Err(Error::Invalid)));

    let unknown_cmd = packet([0x5A, 0x5A], 7, 8, None);
    assert!(matches!(Frame::parse(&unknown_cmd), Err(Error::Invalid)));
}

#[test]
fn control_packet_fields_are_read_at_fixed_offsets() {
    let p = packet([0x4E, 0x4F], 0x0102_0304, 0x0A0B_0C0D, None);
    let cp = ControlPacket::parse(&p).ok().unwrap();
    assert_eq!(cp.initiator_token, 0x0102_0304);
    assert_eq!(cp.ssrc, 0x0A0B_0C0D);
    assert_eq!(cp.name, None);
}

#[test]
fn name_with_invalid_utf8_is_replaced_not_rejected() {
    let mut p = packet([0x49, 0x4E], 1, 2, None);
    p.extend_from_slice(&[0xC3, 0x28]);
    p.push(0);
    match Frame::parse(&p) {
        Ok(Frame::IN(cp)) => {
            let name = cp.name.unwrap();
            assert_eq!(name, String::from_utf8_lossy(&[0xC3, 0x28]).into_owned());
        }
        _ => panic!("expected an invitation frame"),
    }
}
