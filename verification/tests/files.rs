use midi_toolkit::events::Event;
use midi_toolkit::io::MIDIFile;
use midi_toolkit::io::MIDILoadError;
use midi_toolkit::io::MIDIWriter;
use midi_toolkit::io::RAMReader;
use midi_toolkit::sequence::event::Delta;

fn example_file() -> Vec<u8> {
    let mut file = vec![0x4D, 0x54, 0x68, 0x64, 0, 0, 0, 6, 0, 1, 0, 9, 0x01, 0xE0];
    file.extend_from_slice(&[0x4D, 0x54, 0x72, 0x6B, 0, 0, 0, 8]);
    file.extend_from_slice(&[0x00, 0x90, 0x3C, 0x40, 0x00, 0xFF, 0x2F, 0x00]);
    file.extend_from_slice(&[0x4D, 0x54, 0x72, 0x6B, 0, 0, 0, 4]);
    file.extend_from_slice(&[0x00, 0xFF, 0x2F, 0x00]);
    file
}

#[test]
fn file_chunks_are_found() {
    let file = MIDIFile::open_from_stream_in_ram(example_file()).unwrap();
    assert_eq!(file.format(), 1);
    assert_eq!(file.ppq(), 480);
    assert_eq!(file.track_count(), 2);
    let mut first = file.iter_track(0);
    assert_eq!(first.next(), Some(Ok(Event::new_delta_note_on_event(0u64, 0, 60, 64))));
    assert_eq!(first.next(), None);
    let mut all = file.iter_all_tracks();
    assert_eq!(all.len(), 2);
    assert_eq!(all[1].next(), None);
}

#[test]
fn broken_files_are_refused() {
    let mut bad_magic = example_file();
    bad_magic[0] = 0x4E;
    assert_eq!(MIDIFile::open_from_stream_in_ram(bad_magic).err(), Some(MIDILoadError::CorruptChunks));
    let mut bad_len = example_file();
    bad_len[7] = 7;
    assert_eq!(MIDIFile::open_from_stream_in_ram(bad_len).err(), Some(MIDILoadError::CorruptChunks));
    let mut short = example_file();
    short.pop();
    assert_eq!(MIDIFile::open_from_stream_in_ram(short).err(), Some(MIDILoadError::CorruptChunks));
    let mut bad_track = example_file();
    bad_track[14] = 0;
    assert_eq!(MIDIFile::open_from_stream_in_ram(bad_track).err(), Some(MIDILoadError::CorruptChunks));
    assert_eq!(MIDIFile::open_from_stream_in_ram(vec![]).err(), Some(MIDILoadError::CorruptChunks));
}

#[test]
fn ram_reader_reads_windows() {
    let mut reader = RAMReader::new(vec![1, 2, 3]).unwrap();
    assert_eq!(reader.read_bytes(1, 2), Ok(vec![2, 3]));
    assert_eq!(reader.read_bytes(2, 2), Err(MIDILoadError::CorruptChunks));
    assert_eq!(reader.read_byte(), Ok(1));
    assert_eq!(reader.read_byte(), Ok(2));
    assert_eq!(reader.read_byte(), Ok(3));
    assert_eq!(reader.read_byte(), Err(MIDILoadError::CorruptChunks));
    assert_eq!(reader.len(), 3);
}

fn write_two_tracks(first_ends_first: bool) -> Vec<u8> {
    let mut writer = MIDIWriter::new_in_memory(480);
    let mut a = writer.open_next_track();
    let mut b = writer.open_next_track();
    a.write_event(Event::new_delta_note_on_event(0u64, 0, 60, 64)).unwrap();
    b.write_event(Event::new_delta_note_on_event(200u64, 1, 61, 65)).unwrap();
    b.write_bytes(&vec![0x00, 0xF6]).unwrap();
    if first_ends_first {
        a.end(&mut writer).unwrap();
        b.end(&mut writer).unwrap();
    } else {
        b.end(&mut writer).unwrap();
        assert_eq!(writer.output().len(), 14);
        a.end(&mut writer).unwrap();
    }
    assert!(!a.is_ended());
    writer.end().unwrap();
    assert!(!writer.is_ended());
    writer.output().clone()
}

#[test]
fn writer_puts_tracks_in_the_order_of_their_ids() {
    let in_order = write_two_tracks(true);
    let out_of_order = write_two_tracks(false);
    assert_eq!(in_order, out_of_order);
    let mut expected = vec![0x4D, 0x54, 0x68, 0x64, 0, 0, 0, 6, 0, 1, 0, 2, 0x01, 0xE0];
    expected.extend_from_slice(&[0x4D, 0x54, 0x72, 0x6B, 0, 0, 0, 8]);
    expected.extend_from_slice(&[0x00, 0x90, 0x3C, 0x40, 0x00, 0xFF, 0x2F, 0x00]);
    expected.extend_from_slice(&[0x4D, 0x54, 0x72, 0x6B, 0, 0, 0, 11]);
    expected.extend_from_slice(&[0x81, 0x48, 0x91, 0x3D, 0x41, 0x00, 0xF6, 0x00, 0xFF, 0x2F, 0x00]);
    assert_eq!(in_order, expected);
}

#[test]
fn written_files_are_read_back() {
    let mut writer = MIDIWriter::new_in_memory(96);
    writer.write_format(0).unwrap();
    writer.write_ppq(120).unwrap();
    let mut track = writer.open_track(0);
    let events: Vec<Delta<u64, Event>> = vec![
        Event::new_delta_tempo_event(0, 500000),
        Event::new_delta_note_on_event(300, 0, 60, 64),
        Event::new_delta_note_off_event(70000, 0, 60),
    ];
    let written = track.write_events_iter(events.clone()).unwrap();
    assert_eq!(written, 7 + 5 + 6);
    track.end(&mut writer).unwrap();
    writer.end().unwrap();
    let file = MIDIFile::open_from_stream_in_ram(writer.output().clone()).unwrap();
    assert_eq!(file.format(), 0);
    assert_eq!(file.ppq(), 120);
    assert_eq!(file.track_count(), 1);
    let mut parser = file.iter_track(0);
    let mut read = Vec::new();
    while let Some(e) = parser.next() {
        read.push(e.unwrap());
    }
    assert_eq!(read, events);
}
