use passeri::midi::MidiParser;

#[test]
fn test_midi_messages() {
    let midi_messages: Vec<u8> = vec![
        0x90, 0x3C, 0x40, // Note On, Middle C, Velocity 64
        0x80, 0x3C, 0x40, // Note Off, Middle C, Velocity 64
        0xB0, 0x07, 0x7F, // Control Change, Volume, Max
        0xF0, // SysEx start
        0x43, // Manufacturer ID (Yamaha)
        0x10, // Device ID
        0x3E, // Model ID
        0x12, // Command ID
        0x00, 0x7F, 0x00, // Parameters
        0xF7, // SysEx end
    ];

    let expected: Vec<Vec<u8>> = vec![
        vec![0x90, 0x3C, 0x40],
        vec![0x80, 0x3C, 0x40],
        vec![0xB0, 0x07, 0x7F],
        vec![0xF0, 0x43, 0x10, 0x3E, 0x12, 0x00, 0x7F, 0x00, 0xF7],
    ];

    for chunk_size in 1..midi_messages.len() {
        let mut midi_parser = MidiParser::new();
        let mut out: Vec<Vec<u8>> = vec![];
        for msg in midi_messages.chunks(chunk_size) {
            out.append(&mut midi_parser.parse(msg));
        }
        if let Some(res) = midi_parser.flush() {
            out.push(res);
        }
        assert_eq!(out, expected);
        println!("{out:x?}");
    }
}

#[test]
fn parse_of_empty_chunk_yields_nothing() {
    let mut parser = MidiParser::new();
    assert_eq!(parser.parse(&[]), Vec::<Vec<u8>>::new());
    assert_eq!(parser.flush(), None);
}

#[test]
fn status_byte_closes_the_open_message() {
    let mut parser = MidiParser::new();
    assert_eq!(parser.parse(&[0x90, 0x3C, 0x40]), Vec::<Vec<u8>>::new());
    let done = parser.parse(&[0x80]);
    assert_eq!(done, vec![vec![0x90, 0x3C, 0x40]]);
    assert_eq!(parser.flush(), Some(vec![0x80]));
}

#[test]
fn sysex_terminator_does_not_open_a_message() {
    let mut parser = MidiParser::new();
    let out = parser.parse(&[0xF0, 0x01, 0x02, 0xF7, 0x90]);
    assert_eq!(out, vec![vec![0xF0, 0x01, 0x02, 0xF7]]);
    assert_eq!(parser.flush(), Some(vec![0x90]));
}

#[test]
fn data_bytes_before_any_status_byte_open_a_message() {
    let mut parser = MidiParser::new();
    assert_eq!(parser.parse(&[0x01, 0x02]), Vec::<Vec<u8>>::new());
    assert_eq!(parser.flush(), Some(vec![0x01, 0x02]));
    assert_eq!(parser.flush(), None);
}

#[test]
fn buffered_message_survives_across_calls() {
    let mut parser = MidiParser::new();
    assert_eq!(parser.parse(&[0x90]), Vec::<Vec<u8>>::new());
    assert_eq!(parser.parse(&[0x3C]), Vec::<Vec<u8>>::new());
    assert_eq!(parser.parse(&[0x40]), Vec::<Vec<u8>>::new());
    let out = parser.parse(&[0xB0, 0x07]);
    assert_eq!(out, vec![vec![0x90, 0x3C, 0x40]]);
    assert_eq!(parser.flush(), Some(vec![0xB0, 0x07]));
}
