use vstd::prelude::*;
use crate::events::MIDIEventEnum;
use crate::notes::Note;
use crate::sequence::common::spec_ok_prefix;
use crate::sequence::conversion::events_to_notes::lemma_notes_can_go_back;
use crate::sequence::conversion::events_to_notes::lemma_notes_start_at_note_ons;
use crate::sequence::conversion::events_to_notes::spec_events_to_notes;
use crate::sequence::conversion::events_to_notes::spec_note_on_events;
use crate::sequence::conversion::events_to_notes::spec_note_starts;
use crate::sequence::conversion::notes_to_events::lemma_note_ons_are_the_starts;
use crate::sequence::conversion::notes_to_events::spec_note_ons_from;
use crate::sequence::conversion::notes_to_events::spec_notes_in_order;
use crate::sequence::conversion::notes_to_events::spec_notes_to_events_from;
use crate::sequence::conversion::notes_to_events::NoteOffHolder;
use crate::sequence::event::delta::Delta;
use crate::sequence::event::filter_events::spec_total_ticks;

verus! {

/// From events to notes and back, the note-on events stay as they are.
/// The notes of a stream of events that ends without a failure can be
/// turned back into events, and the note-on events that then come out are
/// those that went in: the same events, in the same order, at the same
/// times.
pub proof fn lemma_round_trip_keeps_note_ons<E: MIDIEventEnum, X>(s: Seq<Delta<u64, E>>)
    requires
        spec_total_ticks(s) <= u64::MAX,
    ensures
        spec_notes_in_order(spec_ok_prefix(spec_events_to_notes::<E, X>(s, None))),
        spec_note_ons_from(
            spec_notes_to_events_from::<X>(
                spec_ok_prefix(spec_events_to_notes::<E, X>(s, None)),
                None,
                0,
                Seq::empty(),
                0,
            ),
            0,
        ) == spec_note_on_events(s, s.len() as int),
{
    let notes: Seq<Note<u64>> = spec_ok_prefix(spec_events_to_notes::<E, X>(s, None));
    lemma_notes_can_go_back::<E, X>(s, None);
    lemma_notes_start_at_note_ons::<E, X>(s);
    lemma_note_ons_are_the_starts::<X>(notes, None, 0, Seq::<NoteOffHolder>::empty(), 0);
    assert(spec_note_starts(notes).skip(0) =~= spec_note_starts(notes));
}

} // verus!
