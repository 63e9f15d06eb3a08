use vstd::prelude::*;
use crate::events::Event;
use crate::events::NoteOffEvent;
use crate::events::NoteOnEvent;
use crate::notes::Note;
use crate::sequence::common::split_stream;
use crate::sequence::conversion::events_to_notes::spec_note_starts;
use crate::sequence::common::spec_first_error;
use crate::sequence::common::spec_ok_prefix;
use crate::sequence::event::delta::Delta;

verus! {

/// A note-off that waits for its time; the delta holds the time.
#[derive(Debug, Clone, PartialEq, Eq)]
pub struct NoteOffHolder(pub Delta<u64, NoteOffEvent>);

impl NoteOffHolder {
    pub fn new(delta: u64, event: NoteOffEvent) -> (r: Self)
        ensures
            r.0.delta == delta,
            r.0.event == event,
    {
        Self(Delta { delta, event })
    }

    pub fn into_event(self) -> (r: Delta<u64, Event>)
        ensures
            r.delta == self.0.delta,
            r.event == Event::NoteOff(self.0.event),
    {
        Delta { delta: self.0.delta, event: Event::NoteOff(self.0.event) }
    }
}

/// Whether the waiting note-offs are in the order in which they leave, the
/// last one first to leave: times never rise along `pending`, and none is
/// before `prev`.
pub open spec fn spec_pending_ok(pending: Seq<NoteOffHolder>, prev: u64) -> bool {
    &&& forall|i: int, j: int|
        0 <= i <= j < pending.len() ==> pending[i].0.delta >= pending[j].0.delta
    &&& forall|i: int| 0 <= i < pending.len() ==> (#[trigger] pending[i]).0.delta >= prev
}

/// The place of a note-off at time `end` among `pending`, at or after
/// `from`: behind every note-off that is later, in front of those that are
/// not, so that of equal times the one that came first leaves first.
pub open spec fn spec_insert_pos(pending: Seq<NoteOffHolder>, end: u64, from: int) -> int
    decreases pending.len() - from,
{
    if from < 0 || from >= pending.len() || pending[from].0.delta <= end {
        from
    } else {
        spec_insert_pos(pending, end, from + 1)
    }
}

/// The note-offs of `pending` that are due at `limit`, as events, the
/// earliest first; the first delta counts from `prev`.
pub open spec fn spec_drained_events(pending: Seq<NoteOffHolder>, limit: u64, prev: u64) -> Seq<
    Delta<u64, Event>,
>
    decreases pending.len(),
{
    if pending.len() == 0 || pending.last().0.delta > limit {
        Seq::empty()
    } else {
        seq![
            Delta {
                delta: (pending.last().0.delta - prev) as u64,
                event: Event::NoteOff(pending.last().0.event),
            },
        ] + spec_drained_events(pending.drop_last(), limit, pending.last().0.delta)
    }
}

/// The note-offs of `pending` that are not due at `limit`.
pub open spec fn spec_drained_rest(pending: Seq<NoteOffHolder>, limit: u64) -> Seq<NoteOffHolder>
    decreases pending.len(),
{
    if pending.len() == 0 || pending.last().0.delta > limit {
        pending
    } else {
        spec_drained_rest(pending.drop_last(), limit)
    }
}

/// The time of the last note-off of `pending` that is due at `limit`, or
/// `prev` if none is.
pub open spec fn spec_drained_time(pending: Seq<NoteOffHolder>, limit: u64, prev: u64) -> u64
    decreases pending.len(),
{
    if pending.len() == 0 || pending.last().0.delta > limit {
        prev
    } else {
        spec_drained_time(pending.drop_last(), limit, pending.last().0.delta)
    }
}

/// The events of the notes of `notes` from note `i` on, while `pending`
/// note-offs wait and the last event stood at `prev`. Before the note-on of
/// a note come the note-offs that are due at its start. After the last
/// note come the note-offs that still wait, unless the stream ends with a
/// failure, which then comes in their place.
pub open spec fn spec_notes_to_events_from<X>(
    notes: Seq<Note<u64>>,
    error: Option<X>,
    i: int,
    pending: Seq<NoteOffHolder>,
    prev: u64,
) -> Seq<Result<Delta<u64, Event>, X>>
    decreases notes.len() - i,
{
    if i < 0 || i >= notes.len() {
        match error {
            Some(e) => seq![Err(e)],
            None => spec_drained_events(pending, u64::MAX, prev).map_values(
                |d: Delta<u64, Event>| Ok::<Delta<u64, Event>, X>(d),
            ),
        }
    } else {
        let note = notes[i];
        let time = spec_drained_time(pending, note.start, prev);
        let rest = spec_drained_rest(pending, note.start);
        let off = NoteOffHolder(
            Delta {
                delta: (note.start + note.len) as u64,
                event: NoteOffEvent { channel: note.channel, key: note.key },
            },
        );
        spec_drained_events(pending, note.start, prev).map_values(
            |d: Delta<u64, Event>| Ok::<Delta<u64, Event>, X>(d),
        ) + seq![
            Ok(
                Delta {
                    delta: (note.start - time) as u64,
                    event: Event::NoteOn(
                        NoteOnEvent {
                            channel: note.channel,
                            key: note.key,
                            velocity: note.velocity,
                        },
                    ),
                },
            ),
        ] + spec_notes_to_events_from(
            notes,
            error,
            i + 1,
            rest.insert(spec_insert_pos(rest, off.0.delta, 0), off),
            note.start,
        )
    }
}

/// Whether the notes are in the order of their starts and every note ends
/// at a time that is a `u64`.
pub open spec fn spec_notes_in_order(notes: Seq<Note<u64>>) -> bool {
    &&& forall|i: int, j: int| 0 <= i <= j < notes.len() ==> notes[i].start <= notes[j].start
    &&& forall|i: int| 0 <= i < notes.len() ==> (#[trigger] notes[i]).start + notes[i].len <= u64::MAX
}

/// Moves the note-offs that are due at `limit` from `pending` to `out`, as
/// events, and returns the time of the last event.
fn drain_due<X>(
    pending: &mut Vec<NoteOffHolder>,
    limit: u64,
    prev: u64,
    out: &mut Vec<Result<Delta<u64, Event>, X>>,
) -> (time: u64)
    requires
        spec_pending_ok(old(pending)@, prev),
    ensures
        final(out)@ == old(out)@ + spec_drained_events(old(pending)@, limit, prev).map_values(
            |d: Delta<u64, Event>| Ok::<Delta<u64, Event>, X>(d),
        ),
        final(pending)@ == spec_drained_rest(old(pending)@, limit),
        time == spec_drained_time(old(pending)@, limit, prev),
        spec_pending_ok(final(pending)@, time),
        prev <= time,
        forall|i: int| 0 <= i < final(pending)@.len() ==> (#[trigger] final(pending)@[i]).0.delta
            > limit,
        time <= limit || time == prev,
{
    let mut prev_time: u64 = prev;
    let ghost whole = spec_drained_events(old(pending)@, limit, prev);
    let ghost mut done: Seq<Delta<u64, Event>> = Seq::empty();
    assert(done + spec_drained_events(pending@, limit, prev_time) =~= whole);
    loop
        invariant
            spec_pending_ok(pending@, prev_time),
            prev <= prev_time,
            prev_time <= limit || prev_time == prev,
            whole == spec_drained_events(old(pending)@, limit, prev),
            done + spec_drained_events(pending@, limit, prev_time) == whole,
            out@ == old(out)@ + done.map_values(|d: Delta<u64, Event>| Ok::<Delta<u64, Event>, X>(d)),
            spec_drained_rest(pending@, limit) == spec_drained_rest(old(pending)@, limit),
            spec_drained_time(pending@, limit, prev_time) == spec_drained_time(
                old(pending)@,
                limit,
                prev,
            ),
        decreases pending@.len(),
    {
        let n: usize = pending.len();
        if n == 0 || pending[n - 1].0.delta > limit {
            proof {
                assert(done + Seq::<Delta<u64, Event>>::empty() =~= done);
                assert forall|i: int| 0 <= i < pending@.len() implies (
                #[trigger] pending@[i]).0.delta > limit by {
                    assert(pending@[i].0.delta >= pending@[n - 1].0.delta);
                }
            }
            return prev_time;
        }
        let ghost before = pending@;
        let holder = pending.pop().unwrap();
        assert(pending@ == before.drop_last());
        let mut e = holder.into_event();
        let time: u64 = e.delta;
        e.delta = time - prev_time;
        proof {
            let rest = spec_drained_events(pending@, limit, time);
            assert(done.push(e) + rest =~= done + (seq![e] + rest));
            assert(done.push(e).map_values(|d: Delta<u64, Event>| Ok::<Delta<u64, Event>, X>(d))
                =~= done.map_values(|d: Delta<u64, Event>| Ok::<Delta<u64, Event>, X>(d)).push(
                Ok(e),
            ));
            done = done.push(e);
            assert forall|i: int| 0 <= i < pending@.len() implies (
            #[trigger] pending@[i]).0.delta >= time by {
                assert(before[i].0.delta >= before[n - 1].0.delta);
            }
        }
        out.push(Ok(e));
        prev_time = time;
    }
}

/// Puts a note-off among the waiting ones, at its place.
fn insert_pending(pending: &mut Vec<NoteOffHolder>, holder: NoteOffHolder, prev: u64)
    requires
        spec_pending_ok(old(pending)@, prev),
        holder.0.delta >= prev,
    ensures
        final(pending)@ == old(pending)@.insert(
            spec_insert_pos(old(pending)@, holder.0.delta, 0),
            holder,
        ),
        spec_pending_ok(final(pending)@, prev),
{
    let mut pos: usize = 0;
    while pos < pending.len() && pending[pos].0.delta > holder.0.delta
        invariant
            pos <= pending@.len(),
            pending@ == old(pending)@,
            spec_insert_pos(pending@, holder.0.delta, 0) == spec_insert_pos(
                pending@,
                holder.0.delta,
                pos as int,
            ),
            forall|i: int| 0 <= i < pos ==> (#[trigger] pending@[i]).0.delta > holder.0.delta,
        decreases pending@.len() - pos,
    {
        pos += 1;
    }
    let ghost before = pending@;
    pending.insert(pos, holder);
    proof {
        assert forall|i: int, j: int| 0 <= i <= j < pending@.len() implies pending@[i].0.delta
            >= pending@[j].0.delta by {
            if j < pos {
                assert(before[i].0.delta >= before[j].0.delta);
            } else if j == pos {
                if i < pos {
                    assert(before[i].0.delta > holder.0.delta);
                }
            } else {
                assert(before[pos as int].0.delta >= before[j - 1].0.delta);
                if i < pos {
                    assert(before[i].0.delta >= before[j - 1].0.delta);
                } else if i > pos {
                    assert(before[i - 1].0.delta >= before[j - 1].0.delta);
                }
            }
        }
        assert forall|i: int| 0 <= i < pending@.len() implies (#[trigger] pending@[i]).0.delta
            >= prev by {
            if i < pos {
                assert(before[i].0.delta >= prev);
            } else if i > pos {
                assert(before[i - 1].0.delta >= prev);
            }
        }
    }
}

/// Turns notes into note-on and note-off events. The notes before the
/// first failure are read; they must come in the order of their starts.
pub fn notes_to_events<X>(iter: Vec<Result<Note<u64>, X>>) -> (r: Vec<
    Result<Delta<u64, Event>, X>,
>)
    requires
        spec_notes_in_order(spec_ok_prefix(iter@)),
    ensures
        r@ == spec_notes_to_events_from(
            spec_ok_prefix(iter@),
            spec_first_error(iter@),
            0,
            Seq::empty(),
            0,
        ),
{
    let (notes, error) = split_stream(iter);
    let ghost s = notes@;
    let ghost whole = spec_notes_to_events_from(s, error, 0, Seq::empty(), 0);
    let mut out: Vec<Result<Delta<u64, Event>, X>> = Vec::new();
    let mut note_offs: Vec<NoteOffHolder> = Vec::new();
    let mut prev_time: u64 = 0;
    let mut i: usize = 0;
    assert(out@ + whole =~= whole);
    while i < notes.len()
        invariant
            i <= notes.len(),
            s == notes@,
            spec_notes_in_order(s),
            spec_pending_ok(note_offs@, prev_time),
            i < s.len() ==> prev_time <= s[i as int].start,
            out@ + spec_notes_to_events_from(s, error, i as int, note_offs@, prev_time) == whole,
        decreases notes.len() - i,
    {
        let note = notes[i];
        let ghost before = out@;
        let ghost pending = note_offs@;
        let ghost tail = spec_notes_to_events_from(s, error, i as int, pending, prev_time);
        let time: u64 = drain_due(&mut note_offs, note.start, prev_time, &mut out);
        let on = Event::new_delta_note_on_event(
            note.start - time,
            note.channel,
            note.key,
            note.velocity,
        );
        out.push(Ok(on));
        prev_time = note.start;
        assert(s[i as int].start + s[i as int].len <= u64::MAX);
        let end: u64 = note.start + note.len;
        let holder = NoteOffHolder::new(end, NoteOffEvent::new(note.channel, note.key));
        proof {
            assert forall|k: int| 0 <= k < note_offs@.len() implies (
            #[trigger] note_offs@[k]).0.delta >= prev_time by {}
        }
        insert_pending(&mut note_offs, holder, prev_time);
        i += 1;
        proof {
            let next = spec_notes_to_events_from(s, error, i as int, note_offs@, prev_time);
            assert(out@ + next =~= before + tail);
            if i < s.len() {
                assert(s[i - 1].start <= s[i as int].start);
            }
        }
    }
    match error {
        Some(e) => {
            out.push(Err(e));
            assert(out@ =~= whole);
        },
        None => {
            drain_due(&mut note_offs, u64::MAX, prev_time, &mut out);
            assert(out@ =~= whole);
        },
    }
    out
}

/// The note-on events of a stream, each with the time at which it
/// stands, the first delta counting from `now`. What follows a failure is
/// not looked at.
pub open spec fn spec_note_ons_from<X>(o: Seq<Result<Delta<u64, Event>, X>>, now: int) -> Seq<
    (int, NoteOnEvent),
>
    decreases o.len(),
{
    if o.len() == 0 {
        Seq::empty()
    } else {
        match o[0] {
            Ok(d) => match d.event {
                Event::NoteOn(e) => seq![(now + d.delta, e)] + spec_note_ons_from(
                    o.skip(1),
                    now + d.delta,
                ),
                _ => spec_note_ons_from(o.skip(1), now + d.delta),
            },
            Err(e) => Seq::empty(),
        }
    }
}

proof fn lemma_drained_rest_ok(pending: Seq<NoteOffHolder>, limit: u64, prev: u64)
    requires
        spec_pending_ok(pending, prev),
    ensures
        spec_pending_ok(
            spec_drained_rest(pending, limit),
            spec_drained_time(pending, limit, prev),
        ),
        prev <= spec_drained_time(pending, limit, prev),
        spec_drained_time(pending, limit, prev) <= limit || spec_drained_time(pending, limit, prev)
            == prev,
        forall|i: int|
            0 <= i < spec_drained_rest(pending, limit).len() ==> (#[trigger] spec_drained_rest(
                pending,
                limit,
            )[i]).0.delta > limit,
    decreases pending.len(),
{
    if pending.len() == 0 || pending.last().0.delta > limit {
        assert forall|i: int| 0 <= i < pending.len() implies (#[trigger] pending[i]).0.delta
            > limit by {
            assert(pending[i].0.delta >= pending[pending.len() - 1].0.delta);
        }
    } else {
        let shorter = pending.drop_last();
        let end = pending.last().0.delta;
        assert(pending[pending.len() - 1].0.delta >= prev);
        assert forall|i: int| 0 <= i < shorter.len() implies (#[trigger] shorter[i]).0.delta
            >= end by {
            assert(pending[i].0.delta >= pending[pending.len() - 1].0.delta);
        }
        assert forall|i: int, j: int| 0 <= i <= j < shorter.len() implies shorter[i].0.delta
            >= shorter[j].0.delta by {
            assert(pending[i].0.delta >= pending[j].0.delta);
        }
        lemma_drained_rest_ok(shorter, limit, end);
    }
}

proof fn lemma_insert_pos(pending: Seq<NoteOffHolder>, end: u64, from: int)
    requires
        0 <= from <= pending.len(),
    ensures
        from <= spec_insert_pos(pending, end, from) <= pending.len(),
        forall|k: int|
            from <= k < spec_insert_pos(pending, end, from) ==> (#[trigger] pending[k]).0.delta
                > end,
        spec_insert_pos(pending, end, from) < pending.len() ==> pending[spec_insert_pos(
            pending,
            end,
            from,
        )].0.delta <= end,
    decreases pending.len() - from,
{
    if from < pending.len() && pending[from].0.delta > end {
        lemma_insert_pos(pending, end, from + 1);
    }
}

proof fn lemma_insert_keeps_ok(pending: Seq<NoteOffHolder>, holder: NoteOffHolder, prev: u64)
    requires
        spec_pending_ok(pending, prev),
        holder.0.delta >= prev,
    ensures
        spec_pending_ok(
            pending.insert(spec_insert_pos(pending, holder.0.delta, 0), holder),
            prev,
        ),
{
    lemma_insert_pos(pending, holder.0.delta, 0);
    let pos = spec_insert_pos(pending, holder.0.delta, 0);
    let after = pending.insert(pos, holder);
    assert forall|i: int, j: int| 0 <= i <= j < after.len() implies after[i].0.delta
        >= after[j].0.delta by {
        if j < pos {
            assert(pending[i].0.delta >= pending[j].0.delta);
        } else if j == pos {
            if i < pos {
                assert(pending[i].0.delta > holder.0.delta);
            }
        } else {
            assert(pending[pos].0.delta >= pending[j - 1].0.delta);
            if i < pos {
                assert(pending[i].0.delta >= pending[j - 1].0.delta);
            } else if i > pos {
                assert(pending[i - 1].0.delta >= pending[j - 1].0.delta);
            }
        }
    }
    assert forall|i: int| 0 <= i < after.len() implies (#[trigger] after[i]).0.delta >= prev by {
        if i < pos {
            assert(pending[i].0.delta >= prev);
        } else if i > pos {
            assert(pending[i - 1].0.delta >= prev);
        }
    }
}

proof fn lemma_note_ons_skip_drained<X>(
    pending: Seq<NoteOffHolder>,
    limit: u64,
    prev: u64,
    tail: Seq<Result<Delta<u64, Event>, X>>,
)
    requires
        spec_pending_ok(pending, prev),
    ensures
        spec_note_ons_from(
            spec_drained_events(pending, limit, prev).map_values(
                |d: Delta<u64, Event>| Ok::<Delta<u64, Event>, X>(d),
            ) + tail,
            prev as int,
        ) == spec_note_ons_from(tail, spec_drained_time(pending, limit, prev) as int),
    decreases pending.len(),
{
    let drained = spec_drained_events(pending, limit, prev);
    let wrapped = drained.map_values(|d: Delta<u64, Event>| Ok::<Delta<u64, Event>, X>(d));
    if pending.len() == 0 || pending.last().0.delta > limit {
        assert(wrapped + tail =~= tail);
    } else {
        let shorter = pending.drop_last();
        let end = pending.last().0.delta;
        assert(pending[pending.len() - 1].0.delta >= prev);
        assert forall|i: int| 0 <= i < shorter.len() implies (#[trigger] shorter[i]).0.delta
            >= end by {
            assert(pending[i].0.delta >= pending[pending.len() - 1].0.delta);
        }
        assert forall|i: int, j: int| 0 <= i <= j < shorter.len() implies shorter[i].0.delta
            >= shorter[j].0.delta by {
            assert(pending[i].0.delta >= pending[j].0.delta);
        }
        lemma_note_ons_skip_drained(shorter, limit, end, tail);
        let rest = spec_drained_events(shorter, limit, end).map_values(
            |d: Delta<u64, Event>| Ok::<Delta<u64, Event>, X>(d),
        );
        let o = wrapped + tail;
        assert(o.skip(1) =~= rest + tail);
        assert(o[0] == Ok::<Delta<u64, Event>, X>(drained[0]));
    }
}

/// Every note becomes a note-on event at its start, and no other note-on
/// event comes out: the note-on events of the stream that
/// [`notes_to_events`] gives for the notes from note `i` on are the starts
/// of those notes.
pub proof fn lemma_note_ons_are_the_starts<X>(
    notes: Seq<Note<u64>>,
    error: Option<X>,
    i: int,
    pending: Seq<NoteOffHolder>,
    prev: u64,
)
    requires
        0 <= i <= notes.len(),
        spec_notes_in_order(notes),
        spec_pending_ok(pending, prev),
        i < notes.len() ==> prev <= notes[i].start,
    ensures
        spec_note_ons_from(
            spec_notes_to_events_from(notes, error, i, pending, prev),
            prev as int,
        ) == spec_note_starts(notes).skip(i),
    decreases notes.len() - i,
{
    let o = spec_notes_to_events_from(notes, error, i, pending, prev);
    if i >= notes.len() {
        assert(spec_note_starts(notes).skip(i) =~= Seq::<(int, NoteOnEvent)>::empty());
        match error {
            Some(e) => {},
            None => {
                let tail = Seq::<Result<Delta<u64, Event>, X>>::empty();
                lemma_note_ons_skip_drained(pending, u64::MAX, prev, tail);
                assert(o + tail =~= o);
            },
        }
    } else {
        let note = notes[i];
        let time = spec_drained_time(pending, note.start, prev);
        let rest = spec_drained_rest(pending, note.start);
        let off = NoteOffHolder(
            Delta {
                delta: (note.start + note.len) as u64,
                event: NoteOffEvent { channel: note.channel, key: note.key },
            },
        );
        let on = Delta {
            delta: (note.start - time) as u64,
            event: Event::NoteOn(
                NoteOnEvent { channel: note.channel, key: note.key, velocity: note.velocity },
            ),
        };
        let after = rest.insert(spec_insert_pos(rest, off.0.delta, 0), off);
        let following = spec_notes_to_events_from(notes, error, i + 1, after, note.start);
        let tail = seq![Ok::<Delta<u64, Event>, X>(on)] + following;
        lemma_drained_rest_ok(pending, note.start, prev);
        assert(notes[i].start + notes[i].len <= u64::MAX);
        assert forall|k: int| 0 <= k < rest.len() implies (#[trigger] rest[k]).0.delta
            >= note.start by {}
        assert(spec_pending_ok(rest, note.start));
        lemma_insert_keeps_ok(rest, off, note.start);
        if i + 1 < notes.len() {
            assert(notes[i].start <= notes[i + 1].start);
        }
        lemma_note_ons_are_the_starts(notes, error, i + 1, after, note.start);
        lemma_note_ons_skip_drained(pending, note.start, prev, tail);
        assert(o =~= spec_drained_events(pending, note.start, prev).map_values(
            |d: Delta<u64, Event>| Ok::<Delta<u64, Event>, X>(d),
        ) + tail);
        assert(tail.skip(1) =~= following);
        assert(spec_note_starts(notes).skip(i) =~= seq![spec_note_starts(notes)[i]]
            + spec_note_starts(notes).skip(i + 1));
    }
}

} // verus!
