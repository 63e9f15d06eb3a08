use midi_toolkit::notes::MIDINote;
use midi_toolkit::notes::Note;
use midi_toolkit::sequence::note::merge_notes;
use midi_toolkit::sequence::note::merge_notes_array;

fn note(start: u64, key: u8) -> Result<Note<u64>, u8> {
    Ok(Note { start, len: 1, key, channel: 0, velocity: 9 })
}

#[test]
fn notes_merge_in_the_order_of_their_starts() {
    let a = vec![note(0, 1), note(10, 2), note(10, 3)];
    let b = vec![note(5, 11), note(10, 12), note(30, 13)];
    assert_eq!(
        merge_notes(a, b),
        vec![note(0, 1), note(5, 11), note(10, 12), note(10, 2), note(10, 3), note(30, 13)]
    );
}

#[test]
fn notes_merge_ends_with_the_failure_it_pulls() {
    let a = vec![note(0, 1), Err(3), note(10, 2)];
    let b = vec![note(5, 11)];
    assert_eq!(merge_notes(a, b), vec![note(0, 1), Err(3)]);
    assert_eq!(merge_notes(vec![note(0, 1)], vec![Err(4)]), vec![Err(4)]);
    assert_eq!(merge_notes(Vec::<Result<Note<u64>, u8>>::new(), vec![note(1, 1)]), vec![note(1, 1)]);
}

#[test]
fn many_streams_of_notes_merge() {
    let streams = vec![
        vec![note(4, 1), note(4, 2), note(9, 3)],
        vec![],
        vec![note(4, 11), note(5, 12)],
        vec![note(1, 21)],
    ];
    assert_eq!(
        merge_notes_array(streams),
        vec![note(1, 21), note(4, 1), note(4, 2), note(4, 11), note(5, 12), note(9, 3)]
    );
    assert_eq!(
        merge_notes_array(vec![vec![note(4, 1), Err(7)], vec![note(1, 2)]]),
        vec![note(1, 2), note(4, 1), Err(7)]
    );
    assert_eq!(merge_notes_array(vec![vec![note(4, 1)], vec![Err(8)]]), vec![Err(8)]);
}

#[test]
fn note_ends_and_moves() {
    let mut n = Note { start: 10u64, len: 5, key: 1, channel: 2, velocity: 3 };
    assert_eq!(n.end(), 15);
    assert_eq!(n.start(), 10);
    assert_eq!(MIDINote::len(&n), 5);
    n.move_start(12);
    assert_eq!((n.start, n.len), (12, 3));
    n.set_end(20);
    assert_eq!((n.start, n.len), (12, 8));
    n.set_start(1);
    n.set_len(2);
    n.set_key(60);
    n.set_channel(9);
    n.set_velocity(100);
    assert_eq!(n, Note { start: 1, len: 2, key: 60, channel: 9, velocity: 100 });
    assert_eq!((n.key(), n.channel(), n.velocity()), (60, 9, 100));
}
