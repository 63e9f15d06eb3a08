use midi_toolkit::events::Event;
use midi_toolkit::io::midi_file::next_track_chunk;
use midi_toolkit::io::midi_file::read_file_header;
use midi_toolkit::io::midi_file::TrackPos;
use midi_toolkit::io::MIDILoadError;
use midi_toolkit::io::MIDIWriter;
use midi_toolkit::io::RAMReader;
use midi_toolkit::notes::Note;
use midi_toolkit::sequence::common::threaded_buffer::buffer_is_end;
use midi_toolkit::sequence::event::convert_events_into_batches;
use midi_toolkit::sequence::event::into_track_events;
use midi_toolkit::sequence::event::merge_events;
use midi_toolkit::sequence::event::Delta;
use midi_toolkit::sequence::group_streams;
use midi_toolkit::sequence::merge_in_pairs;
use midi_toolkit::sequence::merge_notes_in_pairs;
use midi_toolkit::sequence::note::merge_notes;
use midi_toolkit::sequence::note::merge_notes_iterator;
use midi_toolkit::sequence::BufferFill;

fn stream(items: &[(u64, u8)]) -> Vec<Result<Delta<u64, Event>, u8>> {
    items.iter().map(|(d, k)| Ok(Event::new_delta_note_on_event(*d, 0, *k, 1))).collect()
}

fn note(start: u64, key: u8) -> Result<Note<u64>, u8> {
    Ok(Note { start, len: 1, key, channel: 0, velocity: 9 })
}

#[test]
fn streams_are_dealt_in_turn() {
    let groups = group_streams(vec![0, 1, 2, 3, 4, 5, 6, 7, 8, 9], 4);
    assert_eq!(groups, vec![vec![0, 4, 8], vec![1, 5, 9], vec![2, 6], vec![3, 7]]);
    let few = group_streams(vec![7, 8], 4);
    assert_eq!(few, vec![vec![7], vec![8], vec![], vec![]]);
}

#[test]
fn merge_in_pairs_goes_round_by_round() {
    let a = stream(&[(0, 1), (9, 2)]);
    let b = stream(&[(4, 11)]);
    let c = stream(&[(2, 21)]);
    let d = stream(&[(1, 31)]);
    let e = stream(&[(3, 41)]);
    let first = merge_events(a.clone(), b.clone());
    let second = merge_events(c.clone(), d.clone());
    let expected = merge_events(merge_events(first, second), e.clone());
    assert_eq!(merge_in_pairs(vec![a.clone(), b, c, d, e]), expected);
    assert_eq!(merge_in_pairs(vec![a.clone()]), a);
}

#[test]
fn notes_merge_in_pairs() {
    let a = vec![note(0, 1), note(9, 2)];
    let b = vec![note(4, 11)];
    let c = vec![note(2, 21), Err(5)];
    let expected = merge_notes(merge_notes(a.clone(), b.clone()), c.clone());
    assert_eq!(merge_notes_in_pairs(vec![a, b, c]), expected);
    assert_eq!(expected, vec![note(0, 1), note(2, 21), Err(5)]);
}

#[test]
fn streams_of_notes_join_one_after_the_other() {
    let streams = vec![
        vec![note(4, 1), note(9, 2)],
        vec![],
        vec![note(5, 11), note(6, 12)],
        vec![note(1, 21)],
    ];
    assert_eq!(
        merge_notes_iterator(streams),
        vec![note(4, 1), note(1, 21), note(5, 11), note(6, 12), note(9, 2)]
    );
    assert_eq!(
        merge_notes_iterator(vec![vec![note(4, 1), note(6, 2)], vec![Err(3)], vec![note(5, 9)]]),
        vec![Err(3)]
    );
    assert_eq!(
        merge_notes_iterator(vec![vec![note(4, 1)], vec![note(5, 9)], vec![Err(3)]]),
        vec![note(4, 1), Err(3)]
    );
    assert_eq!(merge_notes_iterator(Vec::<Vec<Result<Note<u64>, u8>>>::new()), vec![]);
}

#[test]
fn batches_lend_their_events() {
    let events: Vec<Result<Delta<u64, Event>, u8>> = stream(&[(3, 1), (0, 2)]);
    let batches = convert_events_into_batches(events);
    let batch = batches[0].as_ref().unwrap();
    let lent = batch.iter_events();
    assert_eq!(lent.len(), 2);
    assert_eq!((lent[0].delta, lent[0].event), (3, &Event::new_note_on_event(0, 1, 1)));
    assert_eq!((lent[1].delta, lent[1].event), (0, &Event::new_note_on_event(0, 2, 1)));
    let marked = into_track_events(batches.clone(), 6);
    let lent = marked[0].as_ref().unwrap().iter_events();
    assert_eq!(lent[1].delta, 0);
    assert_eq!(lent[1].event.track, 6);
    assert_eq!(lent[1].event.event, &Event::new_note_on_event(0, 2, 1));
}

#[test]
fn buffers_fill_up_to_the_failure() {
    let mut fill = BufferFill::new(2);
    assert!(fill.wants_item());
    fill.took_item(false);
    assert!(fill.wants_item());
    fill.took_item(false);
    assert!(!fill.wants_item());
    fill.start_buffer();
    assert!(fill.wants_item());
    fill.took_item(true);
    assert!(!fill.wants_item());
    fill.start_buffer();
    assert!(!fill.wants_item());
    let mut other = BufferFill::new(5);
    other.source_ended();
    assert!(!other.wants_item());
    assert!(buffer_is_end(0));
    assert!(!buffer_is_end(1));
}

#[test]
fn chunk_walk_steps() {
    let track = vec![0x4D, 0x54, 0x72, 0x6B, 0, 0, 1, 2];
    assert_eq!(
        next_track_chunk(1000, 14, &track),
        Ok((TrackPos { pos: 22, len: 258 }, 280))
    );
    assert_eq!(next_track_chunk(279, 14, &track), Err(MIDILoadError::CorruptChunks));
    assert_eq!(next_track_chunk(21, 14, &track), Err(MIDILoadError::CorruptChunks));
    let other = vec![0x4D, 0x54, 0x68, 0x64, 0, 0, 0, 6];
    assert_eq!(next_track_chunk(1000, 14, &other), Err(MIDILoadError::CorruptChunks));
    let header = vec![0x4D, 0x54, 0x68, 0x64, 0, 0, 0, 6, 0, 1, 0, 9, 0x01, 0xE0];
    assert_eq!(read_file_header(&header), Ok((1, 480)));
    assert_eq!(read_file_header(&header[..13].to_vec()), Err(MIDILoadError::CorruptChunks));
}

#[test]
fn the_cursor_moves_on_past_the_end() {
    let mut reader = RAMReader::new(vec![7]).unwrap();
    assert_eq!(reader.read_byte(), Ok(7));
    assert_eq!(reader.read_byte(), Err(MIDILoadError::CorruptChunks));
    assert_eq!(reader.read_byte(), Err(MIDILoadError::CorruptChunks));
    assert_eq!(reader.pos(), 3);
}

#[test]
fn a_fresh_writer_gives_out_ids_in_turn() {
    let mut writer = MIDIWriter::new_in_memory(96);
    let mut first = writer.open_next_track();
    let second = writer.open_next_track();
    assert_eq!((first.track_id(), second.track_id()), (0, 1));
    assert_eq!(first.write_event(Event::new_delta_note_on_event(0u64, 0, 60, 64)), Ok(4));
    assert_eq!(first.write_event(Event::new_delta_note_off_event(16u64, 0, 60)), Ok(4));
    assert_eq!(
        first.buffer(),
        Some(&vec![0x00, 0x90, 0x3C, 0x40, 0x10, 0x80, 0x3C, 0x00])
    );
    assert_eq!(writer.output().len(), 14);
}
