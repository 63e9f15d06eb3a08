use midi_toolkit::events::encode_var_length_value;
use midi_toolkit::events::Event;
use midi_toolkit::events::MIDIEvent;
use midi_toolkit::events::SerializeEvent;
use midi_toolkit::events::SerializeEventWithDelta;
use midi_toolkit::events::TextEventKind;
use midi_toolkit::io::FullRamTrackReader;
use midi_toolkit::io::MIDIParseError;
use midi_toolkit::io::MIDIWriteError;
use midi_toolkit::io::TrackParser;
use midi_toolkit::sequence::event::Delta;

fn make_example_playback_events() -> Vec<Vec<u8>> {
    vec![
        vec![0x82, 0x40, 0x00],
        vec![0x94, 0x40, 0x20],
        vec![0xA3, 0x40, 0x20],
        vec![0xA3, 0x40, 0x20],
        vec![0xBF, 0x32, 0x12],
        vec![0xC0, 0x14],
        vec![0xD5, 0x7F],
        vec![0xE7, 0x23, 0x68],
    ]
}

fn parse_from_vec(mut vec: Vec<u8>) -> Delta<u64, Event> {
    vec.insert(0, 64);
    let reader = FullRamTrackReader::new_from_vec(None, vec);
    let mut parser = TrackParser::new(reader);
    parser.next().unwrap().unwrap()
}

fn parse_all(mut bytes: Vec<u8>) -> Vec<Result<Delta<u64, Event>, MIDIParseError>> {
    bytes.extend_from_slice(&[0x00, 0xFF, 0x2F, 0x00]);
    parse_raw(bytes)
}

fn parse_raw(bytes: Vec<u8>) -> Vec<Result<Delta<u64, Event>, MIDIParseError>> {
    let reader = FullRamTrackReader::new_from_vec(Some(3), bytes);
    let mut parser = TrackParser::new(reader);
    let mut out = Vec::new();
    while let Some(item) = parser.next() {
        out.push(item);
    }
    assert!(parser.next().is_none());
    out
}

fn serialize_all(events: &[Delta<u64, Event>]) -> Vec<u8> {
    let mut buf = Vec::new();
    for e in events {
        e.serialize_event_with_delta(&mut buf).unwrap();
    }
    buf
}

#[test]
fn end_to_end_parse_serialize() {
    let events = make_example_playback_events();
    for event_bytes in events.iter() {
        let event = parse_from_vec(event_bytes.clone());
        let serialized = event.as_u32().unwrap();
        let mut compressed: u32 = 0x00;
        let mut offset: u32 = 0;
        for v in event_bytes.iter() {
            compressed = compressed | ((*v as u32) << offset);
            offset += 8;
        }
        assert_eq!(serialized, compressed);
    }
}

#[test]
fn var_length_values() {
    assert_eq!(encode_var_length_value(0), vec![0x00]);
    assert_eq!(encode_var_length_value(0x40), vec![0x40]);
    assert_eq!(encode_var_length_value(0x7F), vec![0x7F]);
    assert_eq!(encode_var_length_value(0x80), vec![0x81, 0x00]);
    assert_eq!(encode_var_length_value(0x2000), vec![0xC0, 0x00]);
    assert_eq!(encode_var_length_value(0x3FFF), vec![0xFF, 0x7F]);
    assert_eq!(encode_var_length_value(0x0FFF_FFFF), vec![0xFF, 0xFF, 0xFF, 0x7F]);
}

#[test]
fn var_length_round_trip() {
    for n in [0u64, 1, 127, 128, 16383, 16384, (1 << 28) - 1, 1 << 28, (1 << 56) - 1, u64::MAX] {
        let mut bytes = encode_var_length_value(n);
        bytes.extend_from_slice(&[0xF6]);
        let events = parse_all(bytes);
        assert_eq!(events, vec![Ok(Event::new_delta_tune_request_event(n))]);
    }
}

#[test]
fn minimal_round_trip() {
    let input = vec![0x00, 0x90, 0x3C, 0x40, 0x10, 0x80, 0x3C, 0x00];
    let events: Vec<_> = parse_all(input.clone()).into_iter().map(|e| e.unwrap()).collect();
    assert_eq!(
        events,
        vec![
            Event::new_delta_note_on_event(0u64, 0, 60, 64),
            Event::new_delta_note_off_event(16u64, 0, 60),
        ]
    );
    assert_eq!(serialize_all(&events), input);
}

#[test]
fn running_status() {
    let events = parse_all(vec![0x00, 0x90, 0x3C, 0x40, 0x10, 0x3E, 0x40]);
    assert_eq!(
        events,
        vec![
            Ok(Event::new_delta_note_on_event(0u64, 0, 60, 64)),
            Ok(Event::new_delta_note_on_event(16u64, 0, 62, 64)),
        ]
    );
    let qualified = parse_all(vec![0x00, 0x90, 0x3C, 0x40, 0x10, 0x90, 0x3E, 0x40]);
    assert_eq!(events, qualified);
}

#[test]
fn note_on_with_velocity_zero_is_note_off() {
    let events = parse_all(vec![0x00, 0x90, 0x3C, 0x00]);
    assert_eq!(events, vec![Ok(Event::new_delta_note_off_event(0u64, 0, 60))]);
}

#[test]
fn end_of_track_is_terminal() {
    let events = parse_raw(vec![0x00, 0xFF, 0x2F, 0x00, 0x00, 0x90, 0x3C, 0x40]);
    assert_eq!(events, vec![]);
}

#[test]
fn truncated_event_fails_once() {
    let events = parse_raw(vec![0x00, 0x90, 0x3C]);
    assert_eq!(
        events,
        vec![Err(MIDIParseError::UnexpectedTrackEnd {
            track_number: Some(3),
            track_start: 0,
            expected_track_end: 3,
            found_track_end: 3,
        })]
    );
}

#[test]
fn wrong_meta_length_is_corrupt() {
    let events = parse_raw(vec![0x05, 0xFF, 0x51, 0x02, 0x01, 0x02]);
    assert_eq!(
        events,
        vec![Err(MIDIParseError::CorruptEvent { track_number: Some(3), position: 4 })]
    );
}

#[test]
fn meta_and_system_events_round_trip() {
    let events = vec![
        Event::new_delta_tempo_event(0u64, 0x07A120),
        Event::new_delta_text_event(3u64, TextEventKind::TrackName, vec![0x41, 0x42]),
        Event::new_delta_unknown_meta_event(200u64, 0x60, vec![1, 2, 3]),
        Event::new_delta_system_exclusive_message_event(1u64, vec![0x7E, 0x00]),
        Event::new_delta_pitch_wheel_change_event(5u64, 2, -8192),
        Event::new_delta_pitch_wheel_change_event(5u64, 2, 8191),
        Event::new_delta_song_position_pointer_event(0u64, 0x1234),
        Event::new_delta_song_select_event(0u64, 5),
        Event::new_delta_channel_prefix_event(0u64, 3),
        Event::new_delta_midi_port_event(0u64, 1),
        Event::new_delta_smpte_offset_event(0u64, 1, 2, 3, 4, 5),
        Event::new_delta_time_signature_event(0u64, 4, 2, 24, 8),
        Event::new_delta_key_signature_event(0u64, 2, 1),
        Event::new_delta_control_change_event(9u64, 15, 7, 100),
        Event::new_delta_program_change_event(9u64, 1, 42),
        Event::new_delta_channel_pressure_event(9u64, 1, 42),
        Event::new_delta_polyphonic_key_pressure_event(9u64, 1, 42, 43),
        Event::new_delta_undefined_event(1u64, 0xF4),
    ];
    let bytes = serialize_all(&events);
    let parsed: Vec<_> = parse_all(bytes.clone()).into_iter().map(|e| e.unwrap()).collect();
    assert_eq!(parsed, events);
    assert_eq!(serialize_all(&parsed), bytes);
}

#[test]
fn tempo_bytes() {
    let mut buf = Vec::new();
    let n = Event::new_tempo_event(500000).serialize_event(&mut buf).unwrap();
    assert_eq!(buf, vec![0xFF, 0x51, 0x03, 0x07, 0xA1, 0x20]);
    assert_eq!(n, 6);
}

#[test]
fn color_has_no_wire_form() {
    let color = midi_toolkit::events::MIDIColor { r: 1, g: 2, b: 3, a: 4 };
    let e = Event::new_delta_color_event(7u64, 0, color, None);
    let mut buf = vec![9u8];
    assert_eq!(e.serialize_event_with_delta(&mut buf), Err(MIDIWriteError::NotImplemented));
    assert_eq!(buf, vec![9u8]);
}

#[test]
fn capability_queries() {
    let on = Event::new_note_on_event(3, 60, 100);
    assert_eq!(on.key(), Some(60));
    assert_eq!(on.channel(), Some(3));
    assert_eq!(on.as_u32(), Some(0x93 | (60 << 8) | (100 << 16)));
    let tempo = Event::new_tempo_event(1234);
    assert_eq!(tempo.key(), None);
    assert_eq!(tempo.channel(), None);
    assert_eq!(tempo.as_u32(), None);
    let port = Event::new_midi_port_event(2);
    assert_eq!(port.channel(), Some(2));
    assert_eq!(port.as_u32(), None);
}
