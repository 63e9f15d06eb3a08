use midi_toolkit::events::CastEventDelta;
use midi_toolkit::events::Event;
use midi_toolkit::events::MIDIDelta;
use midi_toolkit::notes::Note;
use midi_toolkit::num::MIDINumFrom;
use midi_toolkit::num::MIDINumInto;
use midi_toolkit::sequence::conversion::events_to_notes;
use midi_toolkit::sequence::conversion::notes_to_events;
use midi_toolkit::sequence::event::cancel_tempo_events;
use midi_toolkit::sequence::event::change_ppq;
use midi_toolkit::sequence::event::scale_time;
use midi_toolkit::sequence::event::convert_events_into_batches;
use midi_toolkit::sequence::event::filter_events;
use midi_toolkit::sequence::event::filter_non_note_events;
use midi_toolkit::sequence::event::filter_note_events;
use midi_toolkit::sequence::event::flatten_batches_to_events;
use midi_toolkit::sequence::event::flatten_track_batches_to_events;
use midi_toolkit::sequence::event::into_track_events;
use midi_toolkit::sequence::event::merge_events;
use midi_toolkit::sequence::event::merge_events_array;
use midi_toolkit::sequence::event::scale_event_ppq;
use midi_toolkit::sequence::event::scale_event_time;
use midi_toolkit::sequence::event::Delta;
use midi_toolkit::sequence::event::Track;
use midi_toolkit::sequence::to_vec;
use midi_toolkit::sequence::to_vec_result;
use midi_toolkit::sequence::unwrap_items;
use midi_toolkit::sequence::wrap_ok;
use midi_toolkit::sequence::TimeCaster;

fn four_events() -> Vec<Delta<u64, Event>> {
    vec![
        Event::new_delta_note_on_event(100, 0, 64, 127),
        Event::new_delta_note_off_event(50, 0, 64),
        Event::new_delta_note_on_event(30, 0, 64, 127),
        Event::new_delta_note_off_event(80, 0, 64),
    ]
}

fn scaled_by_three_halves() -> Vec<Delta<u64, Event>> {
    vec![
        Event::new_delta_note_on_event(150, 0, 64, 127),
        Event::new_delta_note_off_event(75, 0, 64),
        Event::new_delta_note_on_event(45, 0, 64, 127),
        Event::new_delta_note_off_event(120, 0, 64),
    ]
}

fn scaled_by_two_thirds() -> Vec<Delta<u64, Event>> {
    vec![
        Event::new_delta_note_on_event(66, 0, 64, 127),
        Event::new_delta_note_off_event(33, 0, 64),
        Event::new_delta_note_on_event(20, 0, 64, 127),
        Event::new_delta_note_off_event(53, 0, 64),
    ]
}

fn tagged(items: &[(u64, u8)]) -> Vec<Result<Delta<u64, Event>, u8>> {
    items.iter().map(|(d, k)| Ok(Event::new_delta_note_on_event(*d, 0, *k, 1))).collect()
}

fn times_and_keys(items: &[Result<Delta<u64, Event>, u8>]) -> Vec<(u64, u8)> {
    let mut time = 0;
    let mut out = Vec::new();
    for item in items {
        let item = item.as_ref().unwrap();
        time += item.delta;
        match &item.event {
            Event::NoteOn(e) => out.push((time, e.key)),
            _ => panic!("only note-on events are tagged"),
        }
    }
    out
}

#[test]
fn casts_delta_into() {
    let dt_i32: i32 = 10;
    let dt_u64: u64 = 10;

    let dt_u32: u32 = dt_u64.midi_num_into();
    let dt_i64: i64 = dt_u64.midi_num_into();
    let dt_i64_b: i64 = dt_i32.midi_num_into();
    let dt_u64_b: u64 = dt_i32.midi_num_into();

    assert_eq!(dt_u32, 10u32);
    assert_eq!(dt_i64, 10i64);
    assert_eq!(dt_i64_b, 10i64);
    assert_eq!(dt_u64_b, 10u64);
}

#[test]
fn casts_delta_from() {
    let dt_i32: i32 = 10;
    let dt_u64: u64 = 10;

    let dt_u32 = u32::midi_num_from(dt_u64);
    let dt_i64 = i64::midi_num_from(dt_u64);
    let dt_i64_b = i64::midi_num_from(dt_i32);
    let dt_u64_b = u64::midi_num_from(dt_i32);

    assert_eq!(dt_u32, 10u32);
    assert_eq!(dt_i64, 10i64);
    assert_eq!(dt_i64_b, 10i64);
    assert_eq!(dt_u64_b, 10u64);
}

#[test]
fn casts_delta() {
    let dt_i32: i32 = 10;
    let dt_u64: u64 = 10;

    let dt_u32: u32 = dt_u64.midi_num_into();
    let dt_i64: i64 = dt_u64.midi_num_into();
    let dt_u32_b: u32 = dt_i32.midi_num_into();
    let wrapped: u32 = (-1i32).midi_num_into();

    assert_eq!(dt_u32, 10u32);
    assert_eq!(dt_i64, 10i64);
    assert_eq!(dt_u32_b, 10u32);
    assert_eq!(wrapped, u32::MAX);
}

#[test]
fn test_cast_delta() {
    let note_on_i32 = Event::new_delta_note_on_event(10i32, 0, 64, 127);
    let note_on_u64 = Event::new_delta_note_on_event(10u64, 0, 64, 127);

    let note_on_i64_b: Delta<i64, Event> = note_on_i32.clone().cast_delta();
    let note_on_u64_b: Delta<u64, Event> = note_on_i32.cast_delta();
    let note_on_u32: Delta<u32, Event> = note_on_u64.clone().cast_delta();
    let note_on_i64: Delta<i64, Event> = note_on_u64.cast_delta();

    assert_eq!(note_on_i64_b.delta(), 10i64);
    assert_eq!(note_on_u64_b.delta(), 10u64);
    assert_eq!(note_on_u32.delta(), 10u32);
    assert_eq!(note_on_i64.delta(), 10i64);
    assert_eq!(note_on_i64.event, Event::new_note_on_event(0, 64, 127));
}

#[test]
fn cast_event_delta_on_a_stream() {
    let stream: Vec<Result<Delta<u64, Event>, u8>> =
        vec![Ok(Event::new_delta_tune_request_event(7)), Err(3), Ok(Event::new_delta_tune_request_event(8))];
    let cast = TimeCaster::<i32>::cast_event_delta(stream);
    assert_eq!(cast, vec![Ok(Event::new_delta_tune_request_event(7i32)), Err(3)]);
}

#[test]
fn convert_events_to_notes() {
    let events = vec![
        Event::new_delta_note_on_event(100u64, 0, 64, 127),
        Event::new_delta_note_on_event(30u64, 0, 64, 127),
        Event::new_delta_tempo_event(25u64, 0),
        Event::new_delta_note_off_event(25u64, 0, 64),
        Event::new_delta_note_off_event(80u64, 0, 64),
        Event::new_delta_note_on_event(0u64, 1, 64, 127),
        Event::new_delta_note_off_event(80u64, 1, 64),
    ];

    let changed = to_vec_result(events_to_notes(wrap_ok(events))).unwrap();

    let expected = vec![
        Note { start: 100u64, channel: 0, key: 64, velocity: 127, len: 80 },
        Note { start: 130, channel: 0, key: 64, velocity: 127, len: 130 },
        Note { start: 260, channel: 1, key: 64, velocity: 127, len: 80 },
    ];

    assert_eq!(changed, expected);
}

#[test]
fn convert_notes_to_events() {
    let events = vec![
        Note { start: 100u64, channel: 0, key: 64, velocity: 127, len: 80 },
        Note { start: 130, channel: 0, key: 64, velocity: 127, len: 130 },
        Note { start: 260, channel: 1, key: 64, velocity: 127, len: 80 },
    ];

    let changed = to_vec_result(notes_to_events(wrap_ok(events))).unwrap();

    let expected = vec![
        Event::new_delta_note_on_event(100u64, 0, 64, 127),
        Event::new_delta_note_on_event(30u64, 0, 64, 127),
        Event::new_delta_note_off_event(50u64, 0, 64),
        Event::new_delta_note_off_event(80u64, 0, 64),
        Event::new_delta_note_on_event(0u64, 1, 64, 127),
        Event::new_delta_note_off_event(80u64, 1, 64),
    ];

    assert_eq!(changed, expected);
}

#[test]
fn notes_and_events_round_trip() {
    let events = vec![
        Event::new_delta_note_on_event(100u64, 0, 64, 127),
        Event::new_delta_note_on_event(30u64, 0, 64, 127),
        Event::new_delta_note_off_event(50u64, 0, 64),
        Event::new_delta_note_off_event(80u64, 0, 64),
        Event::new_delta_note_on_event(0u64, 1, 64, 127),
        Event::new_delta_note_off_event(80u64, 1, 64),
    ];
    let notes = events_to_notes(wrap_ok(events.clone()));
    let back = to_vec_result(notes_to_events(notes)).unwrap();
    assert_eq!(back, events);
}

#[test]
fn events_to_notes_stops_at_a_failure() {
    let events: Vec<Result<Delta<u64, Event>, u8>> = vec![
        Ok(Event::new_delta_note_on_event(1, 0, 10, 5)),
        Ok(Event::new_delta_note_on_event(1, 0, 11, 5)),
        Ok(Event::new_delta_note_off_event(1, 0, 11)),
        Ok(Event::new_delta_note_on_event(1, 0, 12, 5)),
        Ok(Event::new_delta_note_off_event(1, 0, 10)),
        Err(9),
    ];
    let notes = events_to_notes(events);
    assert_eq!(
        notes,
        vec![
            Ok(Note { start: 1, len: 4, key: 10, channel: 0, velocity: 5 }),
            Ok(Note { start: 2, len: 1, key: 11, channel: 0, velocity: 5 }),
            Err(9),
        ]
    );
}

#[test]
fn notes_left_open_reach_the_end() {
    let events = vec![
        Event::new_delta_note_on_event(5u64, 2, 10, 5),
        Event::new_delta_tune_request_event(20u64),
    ];
    let notes = to_vec_result(events_to_notes(wrap_ok(events))).unwrap();
    assert_eq!(notes, vec![Note { start: 5, len: 20, key: 10, channel: 2, velocity: 5 }]);
}

#[test]
fn scale_event_time_time_change_ints() {
    let changed = to_vec_result(scale_event_time(wrap_ok(four_events()), 2)).unwrap();
    assert_eq!(
        changed,
        vec![
            Event::new_delta_note_on_event(200, 0, 64, 127),
            Event::new_delta_note_off_event(100, 0, 64),
            Event::new_delta_note_on_event(60, 0, 64, 127),
            Event::new_delta_note_off_event(160, 0, 64),
        ]
    )
}

#[test]
fn scale_time_time_change_ints() {
    let changed = to_vec_result(scale_time(wrap_ok(four_events()), 2)).unwrap();
    assert_eq!(
        changed,
        vec![
            Event::new_delta_note_on_event(200, 0, 64, 127),
            Event::new_delta_note_off_event(100, 0, 64),
            Event::new_delta_note_on_event(60, 0, 64, 127),
            Event::new_delta_note_off_event(160, 0, 64),
        ]
    )
}

#[test]
fn lib_delta_change() {
    let changed = to_vec_result(change_ppq(wrap_ok(four_events()), 64, 96)).unwrap();
    assert_eq!(changed, scaled_by_three_halves())
}

#[test]
fn lib_delta_change_ints() {
    let first = change_ppq(wrap_ok(four_events()), 64, 96);
    let second = change_ppq(first, 96, 96 * 2);
    let third = change_ppq(second, 96 * 2, 96);
    let changed = to_vec_result(third).unwrap();
    assert_eq!(changed, scaled_by_three_halves())
}

#[test]
fn change_ppq_delta_change() {
    let changed = to_vec_result(change_ppq(wrap_ok(four_events()), 64, 96)).unwrap();
    assert_eq!(changed, scaled_by_three_halves())
}

#[test]
fn change_ppq_delta_change_ints() {
    let changed = to_vec_result(change_ppq(wrap_ok(four_events()), 64, 96)).unwrap();
    assert_eq!(changed, scaled_by_three_halves())
}

#[test]
fn change_ppq_delta_change_ints_divide() {
    let changed = to_vec_result(change_ppq(wrap_ok(four_events()), 3, 2)).unwrap();
    assert_eq!(changed, scaled_by_two_thirds())
}

#[test]
fn scale_event_ppq_delta_change() {
    let changed = to_vec_result(scale_event_ppq(wrap_ok(four_events()), 64, 96)).unwrap();
    assert_eq!(changed, scaled_by_three_halves())
}

#[test]
fn scale_event_ppq_delta_change_ints() {
    let changed = to_vec_result(scale_event_ppq(wrap_ok(four_events()), 64, 96)).unwrap();
    assert_eq!(changed, scaled_by_three_halves())
}

#[test]
fn scale_event_ppq_delta_change_ints_divide() {
    let changed = to_vec_result(scale_event_ppq(wrap_ok(four_events()), 3, 2)).unwrap();
    assert_eq!(changed, scaled_by_two_thirds())
}

#[test]
fn test() {
    let collected = to_vec(four_events());
    assert_eq!(collected, four_events())
}

#[test]
fn no_panic() {
    let events: Vec<Result<_, ()>> = vec![
        Ok(Event::new_delta_note_on_event(100u64, 0, 64, 127)),
        Ok(Event::new_delta_note_off_event(50u64, 0, 64)),
    ];
    let changed = to_vec(unwrap_items(events));
    assert_eq!(
        changed,
        vec![
            Event::new_delta_note_on_event(100u64, 0, 64, 127),
            Event::new_delta_note_off_event(50u64, 0, 64),
        ]
    )
}

#[test]
fn to_vec_result_gives_the_first_failure() {
    let stream: Vec<Result<u8, u8>> = vec![Ok(1), Err(7), Ok(2), Err(8)];
    assert_eq!(to_vec_result(stream), Err(7));
    let stream: Vec<Result<u8, u8>> = vec![Ok(1), Ok(2)];
    assert_eq!(to_vec_result(stream), Ok(vec![1, 2]));
}

#[test]
fn filter_with_carry() {
    let events: Vec<Result<Delta<u64, Event>, ()>> = vec![
        Ok(Event::new_delta_note_on_event(5, 0, 1, 1)),
        Ok(Event::new_delta_tempo_event(3, 1000)),
        Ok(Event::new_delta_note_off_event(2, 0, 1)),
    ];
    let kept = filter_events(events.clone(), |e: &Delta<u64, Event>| {
        !matches!(e.event, Event::Tempo(_))
    });
    let expected = vec![
        Ok(Event::new_delta_note_on_event(5, 0, 1, 1)),
        Ok(Event::new_delta_note_off_event(5, 0, 1)),
    ];
    assert_eq!(kept, expected);
    assert_eq!(filter_note_events(events.clone()), expected);
    assert_eq!(filter_non_note_events(events), vec![Ok(Event::new_delta_tempo_event(8, 1000))]);
}

#[test]
fn filter_passes_a_failure_through() {
    let events: Vec<Result<Delta<u64, Event>, u8>> = vec![
        Ok(Event::new_delta_tempo_event(3, 1000)),
        Ok(Event::new_delta_note_on_event(5, 0, 1, 1)),
        Ok(Event::new_delta_tempo_event(4, 1000)),
        Err(1),
        Ok(Event::new_delta_note_on_event(5, 0, 1, 1)),
    ];
    assert_eq!(
        filter_note_events(events),
        vec![Ok(Event::new_delta_note_on_event(8, 0, 1, 1)), Err(1)]
    );
}

#[test]
fn pairwise_merge_is_deterministic() {
    let a = tagged(&[(0, 1), (10, 2)]);
    let b = tagged(&[(5, 11), (0, 12)]);
    let merged = merge_events(a, b);
    assert_eq!(merged, tagged(&[(0, 1), (5, 11), (0, 12), (5, 2)]));
}

#[test]
fn pairwise_merge_takes_the_first_stream_on_equal_times() {
    let a = tagged(&[(5, 1), (0, 2)]);
    let b = tagged(&[(5, 11), (1, 12)]);
    let merged = merge_events(a, b);
    assert_eq!(merged, tagged(&[(5, 1), (0, 2), (0, 11), (1, 12)]));
}

#[test]
fn pairwise_merge_ends_with_the_failure_it_pulls() {
    let mut a = tagged(&[(0, 1), (10, 2)]);
    a.insert(1, Err(4));
    let b = tagged(&[(5, 11)]);
    assert_eq!(merge_events(a, b), vec![tagged(&[(0, 1)]).remove(0), Err(4)]);
    let c: Vec<Result<Delta<u64, Event>, u8>> = vec![Err(6)];
    assert_eq!(merge_events(tagged(&[(0, 1)]), c), vec![Err(6)]);
}

#[test]
fn pairwise_merge_holds_times_at_the_largest_value() {
    let a = tagged(&[(u64::MAX - 1, 1), (5, 2)]);
    let b = tagged(&[(3, 11)]);
    let merged = merge_events(a, b);
    assert_eq!(merged, tagged(&[(3, 11), (u64::MAX - 4, 1), (1, 2)]));
}

#[test]
fn array_merge_keeps_every_item_at_its_time() {
    let streams = vec![
        tagged(&[(0, 1), (10, 2), (10, 3)]),
        tagged(&[]),
        tagged(&[(5, 11), (0, 12), (100, 13)]),
        tagged(&[(7, 21)]),
        tagged(&[(1, 31), (1, 32), (1, 33), (30, 34)]),
    ];
    let mut expected: Vec<(u64, u8)> = Vec::new();
    for s in &streams {
        expected.extend(times_and_keys(s));
    }
    expected.sort();
    let merged = merge_events_array(streams);
    assert_eq!(times_and_keys(&merged), expected);
}

#[test]
fn array_merge_of_one_and_of_none() {
    assert_eq!(merge_events_array(vec![tagged(&[(4, 1), (0, 2)])]), tagged(&[(4, 1), (0, 2)]));
    assert_eq!(merge_events_array(Vec::<Vec<Result<Delta<u64, Event>, u8>>>::new()), vec![]);
    assert_eq!(merge_events_array(vec![tagged(&[]), tagged(&[])]), vec![]);
}

#[test]
fn array_merge_on_equal_times() {
    let streams = vec![tagged(&[(5, 1)]), tagged(&[(5, 2)]), tagged(&[(5, 3)])];
    let merged = merge_events_array(streams);
    assert_eq!(merged, tagged(&[(5, 1), (0, 2), (0, 3)]));
    let streams = vec![
        tagged(&[(5, 1), (0, 2)]),
        tagged(&[]),
        tagged(&[(5, 11)]),
        tagged(&[(4, 21), (1, 22)]),
        tagged(&[(5, 31)]),
        tagged(&[(6, 41)]),
    ];
    let merged = merge_events_array(streams);
    assert_eq!(
        merged,
        tagged(&[(4, 21), (1, 1), (0, 2), (0, 11), (0, 22), (0, 31), (1, 41)])
    );
}

#[test]
fn array_merge_gives_the_failure_in_place_of_the_item() {
    let mut a = tagged(&[(0, 1), (10, 2)]);
    a.insert(1, Err(4));
    let b = tagged(&[(5, 11)]);
    assert_eq!(merge_events_array(vec![a, b]), vec![Err(4)]);
    let c: Vec<Result<Delta<u64, Event>, u8>> = vec![Err(6)];
    assert_eq!(merge_events_array(vec![tagged(&[(0, 1)]), c]), vec![Err(6)]);
}

#[test]
fn tempo_cancel_at_the_default_tempo_keeps_deltas() {
    let events: Vec<Result<Delta<u64, Event>, ()>> = vec![
        Ok(Event::new_delta_tempo_event(0, 500000)),
        Ok(Event::new_delta_note_on_event(96, 0, 1, 1)),
        Ok(Event::new_delta_tempo_event(10, 500000)),
        Ok(Event::new_delta_tempo_event(20, 500000)),
        Ok(Event::new_delta_note_off_event(30, 0, 1)),
    ];
    assert_eq!(
        cancel_tempo_events(events, 500000),
        vec![
            Ok(Event::new_delta_note_on_event(96, 0, 1, 1)),
            Ok(Event::new_delta_note_off_event(60, 0, 1)),
        ]
    );
}

#[test]
fn tempo_cancel_rescales_by_the_running_tempo() {
    let events: Vec<Result<Delta<u64, Event>, ()>> = vec![
        Ok(Event::new_delta_tempo_event(0, 500000)),
        Ok(Event::new_delta_note_on_event(96, 0, 1, 1)),
        Ok(Event::new_delta_tempo_event(96, 1000000)),
        Ok(Event::new_delta_note_off_event(96, 0, 1)),
    ];
    // 500000 * 500000 / 250000 = 1000000; 96 * 500000 / 1000000 = 48;
    // 96 * 1000000 / 1000000 + 48 = 144.
    assert_eq!(
        cancel_tempo_events(events, 250000),
        vec![
            Ok(Event::new_delta_note_on_event(48, 0, 1, 1)),
            Ok(Event::new_delta_note_off_event(144, 0, 1)),
        ]
    );
}

#[test]
fn batches_and_back() {
    let events: Vec<Result<Delta<u64, Event>, u8>> = vec![
        Ok(Event::new_delta_note_on_event(0, 0, 1, 1)),
        Ok(Event::new_delta_note_on_event(0, 0, 2, 1)),
        Ok(Event::new_delta_note_on_event(4, 0, 3, 1)),
        Ok(Event::new_delta_note_on_event(0, 0, 4, 1)),
        Ok(Event::new_delta_note_on_event(9, 0, 5, 1)),
    ];
    let batches = convert_events_into_batches(events.clone());
    let shape: Vec<(u64, usize)> =
        batches.iter().map(|b| (b.as_ref().unwrap().delta, b.as_ref().unwrap().event.count())).collect();
    assert_eq!(shape, vec![(0, 2), (4, 2), (9, 1)]);
    assert_eq!(
        batches[1].as_ref().unwrap().clone().into_iter_events(),
        vec![
            Event::new_delta_note_on_event(4u64, 0, 3, 1),
            Event::new_delta_note_on_event(0u64, 0, 4, 1),
        ]
    );
    assert_eq!(flatten_batches_to_events(batches), events);
}

#[test]
fn track_batches_flatten_with_their_track() {
    let events: Vec<Result<Delta<u64, Event>, u8>> = vec![
        Ok(Event::new_delta_note_on_event(3, 0, 1, 1)),
        Ok(Event::new_delta_note_on_event(0, 0, 2, 1)),
        Err(5),
    ];
    let batches = into_track_events(convert_events_into_batches(events), 7);
    let flat = flatten_track_batches_to_events(batches);
    assert_eq!(
        flat,
        vec![
            Ok(Delta::new(3, Track::new(Event::new_note_on_event(0, 1, 1), 7))),
            Ok(Delta::new(0, Track::new(Event::new_note_on_event(0, 2, 1), 7))),
            Err(5),
        ]
    );
}
