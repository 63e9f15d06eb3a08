use midi_toolkit::events::Event;
use midi_toolkit::events::TempoEvent;
use midi_toolkit::io::DiskTrackState;
use midi_toolkit::io::FullRamTrackReader;
use midi_toolkit::io::MIDIFile;
use midi_toolkit::io::MIDIParseError;
use midi_toolkit::io::TrackParser;
use midi_toolkit::sequence::event::get_channel_statistics;
use midi_toolkit::sequence::event::get_channels_array_statistics;
use midi_toolkit::sequence::event::stats::tempo_weighted_ticks;
use midi_toolkit::sequence::event::Delta;
use midi_toolkit::sequence::event::Track;

fn channel_a() -> Vec<Result<Delta<u64, Event>, u8>> {
    vec![
        Ok(Event::new_delta_tempo_event(0, 500000)),
        Ok(Event::new_delta_note_on_event(10, 0, 1, 1)),
        Ok(Event::new_delta_note_off_event(10, 0, 1)),
        Ok(Event::new_delta_tempo_event(5, 250000)),
        Ok(Event::new_delta_note_on_event(10, 0, 1, 1)),
        Ok(Event::new_delta_tune_request_event(65)),
    ]
}

fn channel_b() -> Vec<Result<Delta<u64, Event>, u8>> {
    vec![
        Ok(Event::new_delta_note_on_event(3, 1, 1, 1)),
        Ok(Event::new_delta_tempo_event(9, 1000000)),
        Ok(Event::new_delta_note_off_event(8, 1, 1)),
    ]
}

#[test]
fn channel_statistics_count_and_gather() {
    let stats = get_channel_statistics(channel_a()).unwrap();
    assert_eq!(stats.note_on_count(), 2);
    assert_eq!(stats.note_count(), 2);
    assert_eq!(stats.note_off_count(), 1);
    assert_eq!(stats.total_event_count(), 6);
    assert_eq!(stats.other_event_count(), 3);
    assert_eq!(stats.total_length_ticks(), 100);
    assert_eq!(
        stats.tempo_events(),
        &vec![
            Delta::new(0, TempoEvent::new(500000)),
            Delta::new(25, TempoEvent::new(250000)),
        ]
    );
    assert_eq!(stats.total_tempo_weighted_ticks(), 25 * 500000 + 75 * 250000);
}

#[test]
fn channel_statistics_give_the_failure() {
    let mut events = channel_a();
    events.insert(2, Err(7));
    assert_eq!(get_channel_statistics(events), Err(7));
}

#[test]
fn tempo_walk_stops_at_the_first_tempo_beyond_the_end() {
    let tempos = vec![
        Delta::new(10, TempoEvent::new(1000)),
        Delta::new(100, TempoEvent::new(2000)),
        Delta::new(1, TempoEvent::new(3000)),
    ];
    assert_eq!(tempo_weighted_ticks(&tempos, 50), 10 * 500000 + 40 * 1000);
    assert_eq!(tempo_weighted_ticks(&tempos, 5), 5 * 500000);
    assert_eq!(tempo_weighted_ticks(&Vec::new(), 96), 96 * 500000);
}

#[test]
fn group_statistics_sum_and_merge() {
    let group = get_channels_array_statistics(vec![channel_a(), channel_b()]).unwrap();
    let merged = vec![
        Delta::new(0, TempoEvent::new(500000)),
        Delta::new(12, TempoEvent::new(1000000)),
        Delta::new(13, TempoEvent::new(250000)),
    ];
    assert_eq!(group.channels().len(), 2);
    assert_eq!(group.channels()[0].note_on_count(), 2);
    assert_eq!(group.channels()[1].note_on_count(), 1);
    assert_eq!(group.channels()[0].tempo_events(), &merged);
    assert_eq!(group.channels()[1].tempo_events(), &merged);
    assert_eq!(group.group().note_on_count(), 3);
    assert_eq!(group.group().note_off_count(), 2);
    assert_eq!(group.group().total_event_count(), 9);
    assert_eq!(group.group().total_length_ticks(), 100);
    assert_eq!(group.group().tempo_events(), &merged);
    let mut broken = channel_b();
    broken.push(Err(4));
    assert_eq!(get_channels_array_statistics(vec![channel_a(), broken]).err(), Some(4));
}

fn two_track_file() -> Vec<u8> {
    let mut file = vec![0x4D, 0x54, 0x68, 0x64, 0, 0, 0, 6, 0, 1, 0, 2, 0, 96];
    let first = [0x00, 0x90, 0x3C, 0x40, 0x00, 0x91, 0x3D, 0x40, 0x0A, 0x80, 0x3C, 0x00, 0x00, 0xFF, 0x2F, 0x00];
    let second = [0x05, 0x92, 0x3E, 0x40, 0x00, 0x92, 0x3F, 0x40, 0x00, 0xFF, 0x2F, 0x00];
    file.extend_from_slice(&[0x4D, 0x54, 0x72, 0x6B, 0, 0, 0, first.len() as u8]);
    file.extend_from_slice(&first);
    file.extend_from_slice(&[0x4D, 0x54, 0x72, 0x6B, 0, 0, 0, second.len() as u8]);
    file.extend_from_slice(&second);
    file
}

#[test]
fn merged_events_of_a_file() {
    let file = MIDIFile::open_from_stream_in_ram(two_track_file()).unwrap();
    let merged = file.iter_all_events_merged();
    assert_eq!(
        merged,
        vec![
            Ok(Event::new_delta_note_on_event(0, 0, 60, 64)),
            Ok(Event::new_delta_note_on_event(0, 1, 61, 64)),
            Ok(Event::new_delta_note_on_event(5, 2, 62, 64)),
            Ok(Event::new_delta_note_on_event(0, 2, 63, 64)),
            Ok(Event::new_delta_note_off_event(5, 0, 60)),
        ]
    );
    let batches = file.iter_all_events_merged_batches();
    let counts: Vec<(u64, usize)> =
        batches.iter().map(|b| (b.as_ref().unwrap().delta, b.as_ref().unwrap().event.count())).collect();
    assert_eq!(counts, vec![(0, 2), (5, 2), (5, 1)]);
}

#[test]
fn merged_events_of_a_file_with_their_tracks() {
    let file = MIDIFile::open_from_stream_in_ram(two_track_file()).unwrap();
    let merged = file.iter_all_track_events_merged();
    let tracks: Vec<(u64, u32)> =
        merged.iter().map(|e| (e.as_ref().unwrap().delta, e.as_ref().unwrap().event.track)).collect();
    assert_eq!(tracks, vec![(0, 0), (0, 0), (5, 1), (0, 1), (5, 0)]);
    assert_eq!(
        merged[2],
        Ok(Delta::new(5, Track::new(Event::new_note_on_event(2, 62, 64), 1)))
    );
    assert_eq!(file.iter_all_track_events_merged_batches().len(), 3);
}

#[test]
fn merged_events_end_with_the_failure_of_a_track() {
    let mut bytes = two_track_file();
    let last = bytes.len() - 1;
    bytes[last] = 0x01;
    let file = MIDIFile::open_from_stream_in_ram(bytes).unwrap();
    let merged = file.iter_all_events_merged();
    assert_eq!(
        merged.last(),
        Some(&Err(MIDIParseError::CorruptEvent { track_number: Some(1), position: 58 }))
    );
}

#[test]
fn collect_gathers_a_track() {
    let reader = FullRamTrackReader::new_at(Some(2), 100, vec![0x00, 0xF6, 0x01, 0xF6, 0x02]);
    let mut parser = TrackParser::new(reader);
    assert_eq!(
        parser.collect(),
        vec![
            Ok(Event::new_delta_tune_request_event(0)),
            Ok(Event::new_delta_tune_request_event(1)),
            Err(MIDIParseError::UnexpectedTrackEnd {
                track_number: Some(2),
                track_start: 100,
                expected_track_end: 105,
                found_track_end: 105,
            }),
        ]
    );
    assert_eq!(parser.next(), None);
}

#[test]
fn checkpoint_resumes_with_running_status() {
    let bytes = vec![0x00, 0x90, 0x3C, 0x40, 0x10, 0x3E, 0x40, 0x00, 0xFF, 0x2F, 0x00];
    let mut parser = TrackParser::new(FullRamTrackReader::new_from_vec(None, bytes.clone()));
    assert_eq!(parser.next(), Some(Ok(Event::new_delta_note_on_event(0, 0, 60, 64))));
    let checkpoint = parser.checkpoint();
    assert_eq!(checkpoint.reader_pos(), 4);
    let reader = FullRamTrackReader::new(None, bytes, 4, 11);
    let mut resumed = TrackParser::from_checkpoint(reader, checkpoint);
    assert_eq!(resumed.next(), Some(Ok(Event::new_delta_note_on_event(16, 0, 62, 64))));
    assert_eq!(resumed.next(), None);
}

#[test]
fn disk_track_reads_are_planned_ahead() {
    let mut state = DiskTrackState::new(Some(1), 1000, 524288 + 10);
    assert_eq!(state.next_buffer_req_length(), 524288);
    assert_eq!(state.send_next_read(None), Some((1000, 524288)));
    assert!(!state.finished_sending_reads());
    assert_eq!(state.send_next_read(Some(4)), Some((1000 + 524288, 4)));
    assert_eq!(state.send_next_read(Some(100)), Some((1000 + 524288 + 4, 6)));
    assert!(state.finished_sending_reads());
    assert_eq!(state.send_next_read(Some(100)), None);
    assert_eq!(state.pos(), 1000);
    assert!(!state.consume(2));
    assert_eq!(state.pos(), 1001);
    assert!(state.consume(2));
    assert_eq!(state.pos(), 1002);
    assert!(!state.is_at_end());
    assert_eq!(
        state.end_error(),
        MIDIParseError::UnexpectedTrackEnd {
            track_number: Some(1),
            track_start: 1000,
            expected_track_end: 1000 + 524288 + 10,
            found_track_end: 1002,
        }
    );
}
