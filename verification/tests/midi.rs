use pedalboard_bridge::midi::{scan_events, MidiEvent, SysexAssembler};

#[test]
fn sysex_is_assembled_from_fragments() {
    let mut assembler = SysexAssembler::new();
    assert!(assembler.push(&[0x90, 0x40, 0xF0, 0x01]).is_empty());
    assert!(assembler.push(&[]).is_empty());
    assert_eq!(assembler.push(&[0x02, 0xF7, 0x03, 0xF7, 0xF0]), vec![vec![0xF0, 0x01, 0x02, 0xF7]]);
    assert_eq!(assembler.push(&[0xF7, 0xF0, 0x05, 0xF7]), vec![vec![0xF0, 0xF7], vec![0xF0, 0x05, 0xF7]]);
}

#[test]
fn cuts_make_no_difference() {
    let bytes = [0xF7u8, 0x01, 0xF0, 0x7E, 0x7F, 0xF0, 0x11, 0xF7, 0x22, 0xF0, 0x33, 0x44, 0xF7, 0xF0, 0x55];
    let mut whole = SysexAssembler::new();
    let expected = whole.push(&bytes);
    assert_eq!(expected, vec![vec![0xF0, 0x11, 0xF7], vec![0xF0, 0x33, 0x44, 0xF7]]);
    for cut in 0..=bytes.len() {
        let mut assembler = SysexAssembler::new();
        let mut got = assembler.push(&bytes[..cut]);
        got.extend(assembler.push(&bytes[cut..]));
        assert_eq!(got, expected);
    }
}

#[test]
fn new_start_drops_the_message_in_the_making() {
    let mut assembler = SysexAssembler::new();
    assert_eq!(assembler.push(&[0xF0, 1, 2, 0xF0, 3, 0xF7]), vec![vec![0xF0, 3, 0xF7]]);
}

#[test]
fn events_are_found() {
    assert_eq!(
        scan_events(&[0xC0, 5, 0xB2, 7, 100, 0xCF, 1]),
        vec![
            MidiEvent::ProgramChange { program: 5 },
            MidiEvent::ControlChange { channel: 3, cc: 7, value: 100 },
            MidiEvent::ProgramChange { program: 1 },
        ]
    );
    assert_eq!(scan_events(&[0xBF, 1, 2]), vec![MidiEvent::ControlChange { channel: 16, cc: 1, value: 2 }]);
}

#[test]
fn truncated_events_are_passed_over() {
    assert!(scan_events(&[]).is_empty());
    assert!(scan_events(&[0xC0]).is_empty());
    assert!(scan_events(&[0xB0, 7]).is_empty());
    assert!(scan_events(&[0x90, 0x40, 0x7F, 0x12]).is_empty());
    assert_eq!(scan_events(&[0xB0, 0xC1, 9]), vec![MidiEvent::ControlChange { channel: 1, cc: 0xC1, value: 9 }]);
    assert_eq!(scan_events(&[0xB0, 0xC1]), vec![]);
    assert_eq!(scan_events(&[0x05, 0xC1, 9, 0xC2]), vec![MidiEvent::ProgramChange { program: 9 }]);
}
