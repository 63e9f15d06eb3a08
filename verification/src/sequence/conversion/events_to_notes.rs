use vstd::prelude::*;
use crate::events::Event;
use crate::events::MIDIEventEnum;
use crate::events::NoteOnEvent;
use crate::notes::Note;
use crate::sequence::common::join_stream;
use crate::sequence::common::lemma_stream_parts;
use crate::sequence::common::spec_first_error;
use crate::sequence::common::spec_ok_prefix;
use crate::sequence::common::spec_stream;
use crate::sequence::common::split_stream;
use crate::sequence::conversion::notes_to_events::spec_notes_in_order;
use crate::sequence::event::delta::Delta;
use crate::sequence::event::filter_events::lemma_ticks_monotone;
use crate::sequence::event::filter_events::spec_ticks_before;
use crate::sequence::event::filter_events::spec_total_ticks;

verus! {

/// A note that has started, with the time at which it ended, once it has.
pub struct UnendedContainer {
    pub new_end: Option<u64>,
    pub note: Note<u64>,
}

impl UnendedContainer {
    pub fn new(note: Note<u64>) -> (r: Self)
        ensures
            r.note == note,
            r.new_end is None,
    {
        Self { new_end: None, note }
    }
}

/// The index of the first note of `open`, at or after `from`, that plays
/// `key` on `channel` and has not ended; the length of `open` if there is
/// none.
pub open spec fn spec_first_unended(
    open: Seq<UnendedContainer>,
    from: int,
    key: u8,
    channel: u8,
) -> int
    decreases open.len() - from,
{
    if from < 0 || from >= open.len() {
        open.len() as int
    } else if open[from].new_end is None && open[from].note.key == key && open[from].note.channel
        == channel {
        from
    } else {
        spec_first_unended(open, from + 1, key, channel)
    }
}

/// The number of notes at the front of `open`, from `from` on, that have
/// ended, added to `from`.
pub open spec fn spec_leading_ended(open: Seq<UnendedContainer>, from: int) -> int
    decreases open.len() - from,
{
    if from < 0 || from >= open.len() || open[from].new_end is None {
        from
    } else {
        spec_leading_ended(open, from + 1)
    }
}

/// `open` with the oldest note that plays `key` on `channel` and has not
/// ended marked as ended at `end`.
pub open spec fn spec_end_next(
    open: Seq<UnendedContainer>,
    key: u8,
    channel: u8,
    end: u64,
) -> Seq<UnendedContainer> {
    let at = spec_first_unended(open, 0, key, channel);
    if at < open.len() {
        open.update(at, UnendedContainer { new_end: Some(end), note: open[at].note })
    } else {
        open
    }
}

/// The notes that the first `n` events of `s` have started, in the order
/// in which they started: a note-on starts a note, a note-off ends the
/// oldest note of its key and channel that has not ended.
pub open spec fn spec_open_notes<E: MIDIEventEnum>(s: Seq<Delta<u64, E>>, n: int) -> Seq<
    UnendedContainer,
>
    decreases n,
{
    if n <= 0 {
        Seq::empty()
    } else {
        let before = spec_open_notes(s, n - 1);
        let time = spec_ticks_before(s, n) as u64;
        match s[n - 1].event.spec_event() {
            Event::NoteOn(e) => before.push(
                UnendedContainer {
                    new_end: None,
                    note: Note {
                        start: time,
                        len: 0,
                        key: e.key,
                        channel: e.channel,
                        velocity: e.velocity,
                    },
                },
            ),
            Event::NoteOff(e) => spec_end_next(before, e.key, e.channel, time),
            _ => before,
        }
    }
}

/// The first `count` notes of `open`, each with its length: up to its end,
/// or up to `last` if it has not ended.
pub open spec fn spec_closed_notes(open: Seq<UnendedContainer>, count: int, last: u64) -> Seq<
    Note<u64>,
> {
    Seq::new(
        count as nat,
        |i: int|
            Note {
                len: ((match open[i].new_end {
                    Some(end) => end,
                    None => last,
                }) - open[i].note.start) as u64,
                ..open[i].note
            },
    )
}

/// The notes of a stream of events. Where the stream ends without a
/// failure, these are all the notes it started, those that never ended
/// reaching to the end of the stream. Where it ends with a failure, only
/// the notes that had ended, and before which every note had ended, come
/// out before the failure.
pub open spec fn spec_events_to_notes<E: MIDIEventEnum, X>(
    s: Seq<Delta<u64, E>>,
    error: Option<X>,
) -> Seq<Result<Note<u64>, X>> {
    let open = spec_open_notes(s, s.len() as int);
    let count = if error is Some {
        spec_leading_ended(open, 0)
    } else {
        open.len() as int
    };
    spec_stream(spec_closed_notes(open, count, spec_total_ticks(s) as u64), error)
}

/// The notes that have started, in the order in which they started.
pub struct NoteQueue {
    queue: Vec<UnendedContainer>,
    head: usize,
}

impl View for NoteQueue {
    type V = Seq<UnendedContainer>;

    closed spec fn view(&self) -> Seq<UnendedContainer> {
        self.queue@
    }
}

impl NoteQueue {
    /// Every note before the search start has ended.
    pub closed spec fn wf(&self) -> bool {
        &&& self.head <= self.queue@.len()
        &&& forall|i: int| 0 <= i < self.head ==> (#[trigger] self.queue@[i]).new_end is Some
    }

    pub fn new() -> (r: Self)
        ensures
            r.wf(),
            r@ == Seq::<UnendedContainer>::empty(),
    {
        Self { queue: Vec::new(), head: 0 }
    }

    pub fn push(&mut self, note: Note<u64>)
        requires
            old(self).wf(),
        ensures
            final(self).wf(),
            final(self)@ == old(self)@.push(UnendedContainer { new_end: None, note }),
    {
        self.queue.push(UnendedContainer::new(note));
    }

    /// Ends the oldest note of `key` and `channel` that has not ended.
    pub fn end_next(&mut self, key: u8, channel: u8, end: u64)
        requires
            old(self).wf(),
        ensures
            final(self).wf(),
            final(self)@ == spec_end_next(old(self)@, key, channel, end),
    {
        let mut i: usize = self.head;
        proof {
            lemma_first_unended_skips(self.queue@, 0, self.head as int, key, channel);
        }
        while i < self.queue.len()
            invariant
                self.wf(),
                self.queue@ == old(self).queue@,
                self.head <= i <= self.queue@.len(),
                spec_first_unended(self.queue@, 0, key, channel) == spec_first_unended(
                    self.queue@,
                    i as int,
                    key,
                    channel,
                ),
            decreases self.queue@.len() - i,
        {
            if self.queue[i].new_end.is_none() && self.queue[i].note.key == key
                && self.queue[i].note.channel == channel {
                let note = self.queue[i].note;
                self.queue[i] = UnendedContainer { new_end: Some(end), note };
                return ;
            }
            i += 1;
        }
    }

    /// Moves the search start past the notes at the front that have ended,
    /// and returns it.
    pub fn ended_count(&mut self) -> (n: usize)
        requires
            old(self).wf(),
        ensures
            final(self).wf(),
            final(self)@ == old(self)@,
            n == spec_leading_ended(old(self)@, 0),
    {
        proof {
            lemma_leading_ended_skips(self.queue@, 0, self.head as int);
        }
        while self.head < self.queue.len() && self.queue[self.head].new_end.is_some()
            invariant
                self.wf(),
                self.queue@ == old(self).queue@,
                spec_leading_ended(self.queue@, 0) == spec_leading_ended(
                    self.queue@,
                    self.head as int,
                ),
            decreases self.queue@.len() - self.head,
        {
            self.head += 1;
        }
        self.head
    }
}

pub proof fn lemma_first_unended_skips(
    open: Seq<UnendedContainer>,
    from: int,
    to: int,
    key: u8,
    channel: u8,
)
    requires
        0 <= from <= to <= open.len(),
        forall|i: int| from <= i < to ==> (#[trigger] open[i]).new_end is Some,
    ensures
        spec_first_unended(open, from, key, channel) == spec_first_unended(open, to, key, channel),
    decreases to - from,
{
    if from < to {
        lemma_first_unended_skips(open, from + 1, to, key, channel);
    }
}

pub proof fn lemma_leading_ended_skips(open: Seq<UnendedContainer>, from: int, to: int)
    requires
        0 <= from <= to <= open.len(),
        forall|i: int| from <= i < to ==> (#[trigger] open[i]).new_end is Some,
    ensures
        spec_leading_ended(open, from) == spec_leading_ended(open, to),
    decreases to - from,
{
    if from < to {
        lemma_leading_ended_skips(open, from + 1, to);
    }
}

/// Every note that the first `n` events started starts, and ends if it has
/// ended, no later than the time of event `n - 1`.
pub proof fn lemma_open_notes_in_time<E: MIDIEventEnum>(s: Seq<Delta<u64, E>>, n: int)
    requires
        0 <= n <= s.len(),
        spec_total_ticks(s) <= u64::MAX,
    ensures
        forall|i: int|
            0 <= i < spec_open_notes(s, n).len() ==> {
                let o = #[trigger] spec_open_notes(s, n)[i];
                &&& o.note.start <= spec_ticks_before(s, n)
                &&& o.new_end matches Some(end) ==> o.note.start <= end <= spec_ticks_before(s, n)
            },
        0 <= spec_ticks_before(s, n) <= u64::MAX,
    decreases n,
{
    lemma_ticks_monotone(s, n, s.len() as int);
    if n > 0 {
        lemma_open_notes_in_time(s, n - 1);
        lemma_ticks_monotone(s, n - 1, n);
        let before = spec_open_notes(s, n - 1);
        let now = spec_open_notes(s, n);
        assert forall|i: int| 0 <= i < now.len() implies {
            let o = #[trigger] now[i];
            &&& o.note.start <= spec_ticks_before(s, n)
            &&& o.new_end matches Some(end) ==> o.note.start <= end <= spec_ticks_before(s, n)
        } by {
            let time = spec_ticks_before(s, n) as u64;
            match s[n - 1].event.spec_event() {
                Event::NoteOn(e) => {
                    if i < before.len() {
                        assert(now[i] == before[i]);
                    }
                },
                Event::NoteOff(e) => {
                    let at = spec_first_unended(before, 0, e.key, e.channel);
                    lemma_first_unended_bounds(before, 0, e.key, e.channel);
                    assert(now == spec_end_next(before, e.key, e.channel, time));
                    assert(now.len() == before.len());
                    if i != at || at >= before.len() {
                        assert(now[i] == before[i]);
                    } else {
                        assert(now[i].note == before[i].note);
                        assert(now[i].new_end == Some(time));
                    }
                },
                _ => {
                    assert(now[i] == before[i]);
                },
            }
        }
    }
}

/// Turns note-on and note-off events into notes, in the order in which the
/// notes start. The events before the first failure are read.
pub fn events_to_notes<E: MIDIEventEnum, X>(iter: Vec<Result<Delta<u64, E>, X>>) -> (r: Vec<
    Result<Note<u64>, X>,
>)
    requires
        spec_total_ticks(spec_ok_prefix(iter@)) <= u64::MAX,
    ensures
        r@ == spec_events_to_notes(spec_ok_prefix(iter@), spec_first_error(iter@)),
{
    let (items, error) = split_stream(iter);
    let ghost s = items@;
    let mut note_queue = NoteQueue::new();
    let mut time: u64 = 0;
    let mut i: usize = 0;
    while i < items.len()
        invariant
            i <= items.len(),
            s == items@,
            spec_total_ticks(s) <= u64::MAX,
            note_queue.wf(),
            note_queue@ == spec_open_notes(s, i as int),
            time == spec_ticks_before(s, i as int),
        decreases items.len() - i,
    {
        proof {
            lemma_ticks_monotone(s, i + 1, s.len() as int);
            lemma_ticks_monotone(s, i as int, i + 1);
        }
        time = time + items[i].delta;
        match items[i].event.as_event() {
            Event::NoteOn(e) => {
                let note = Note {
                    start: time,
                    channel: e.channel,
                    key: e.key,
                    velocity: e.velocity,
                    len: 0,
                };
                note_queue.push(note);
            },
            Event::NoteOff(e) => {
                note_queue.end_next(e.key, e.channel, time);
            },
            _ => {},
        }
        i += 1;
    }
    let count: usize = if error.is_some() {
        note_queue.ended_count()
    } else {
        note_queue.queue.len()
    };
    proof {
        lemma_open_notes_in_time(s, s.len() as int);
        if error is Some {
            lemma_leading_ended_bounds(note_queue@, 0);
        }
    }
    let mut out: Vec<Note<u64>> = Vec::new();
    let mut j: usize = 0;
    while j < count
        invariant
            j <= count <= note_queue.queue@.len(),
            note_queue@ == spec_open_notes(s, s.len() as int),
            time == spec_total_ticks(s),
            forall|i: int|
                0 <= i < note_queue@.len() ==> {
                    let o = #[trigger] note_queue@[i];
                    &&& o.note.start <= time
                    &&& o.new_end matches Some(end) ==> o.note.start <= end
                },
            out@ == spec_closed_notes(note_queue@, j as int, time),
        decreases count - j,
    {
        let open = &note_queue.queue[j];
        let end: u64 = match open.new_end {
            Some(end) => end,
            None => time,
        };
        let mut note = open.note;
        note.len = end - note.start;
        out.push(note);
        j += 1;
        assert(out@ =~= spec_closed_notes(note_queue@, j as int, time));
    }
    join_stream(out, error)
}

pub proof fn lemma_first_unended_bounds(
    open: Seq<UnendedContainer>,
    from: int,
    key: u8,
    channel: u8,
)
    requires
        0 <= from <= open.len(),
    ensures
        from <= spec_first_unended(open, from, key, channel) <= open.len(),
    decreases open.len() - from,
{
    if from < open.len() && !(open[from].new_end is None && open[from].note.key == key
        && open[from].note.channel == channel) {
        lemma_first_unended_bounds(open, from + 1, key, channel);
    }
}

pub proof fn lemma_leading_ended_bounds(open: Seq<UnendedContainer>, from: int)
    requires
        0 <= from <= open.len(),
    ensures
        from <= spec_leading_ended(open, from) <= open.len(),
    decreases open.len() - from,
{
    if from < open.len() && open[from].new_end is Some {
        lemma_leading_ended_bounds(open, from + 1);
    }
}

/// The notes that the first `n` events started are in the order of their
/// starts.
pub proof fn lemma_open_notes_in_order<E: MIDIEventEnum>(s: Seq<Delta<u64, E>>, n: int)
    requires
        0 <= n <= s.len(),
        spec_total_ticks(s) <= u64::MAX,
    ensures
        forall|i: int, j: int|
            0 <= i <= j < spec_open_notes(s, n).len() ==> spec_open_notes(s, n)[i].note.start
                <= spec_open_notes(s, n)[j].note.start,
    decreases n,
{
    if n > 0 {
        lemma_open_notes_in_order(s, n - 1);
        lemma_open_notes_in_time(s, n - 1);
        lemma_ticks_monotone(s, n - 1, n);
        lemma_ticks_monotone(s, n, s.len() as int);
        let before = spec_open_notes(s, n - 1);
        let now = spec_open_notes(s, n);
        let time = spec_ticks_before(s, n) as u64;
        assert forall|i: int, j: int| 0 <= i <= j < now.len() implies now[i].note.start
            <= now[j].note.start by {
            match s[n - 1].event.spec_event() {
                Event::NoteOn(e) => {
                    if j < before.len() {
                        assert(now[i] == before[i] && now[j] == before[j]);
                    } else if i < before.len() {
                        assert(now[i] == before[i]);
                        assert(before[i].note.start <= spec_ticks_before(s, n - 1));
                    }
                },
                Event::NoteOff(e) => {
                    lemma_first_unended_bounds(before, 0, e.key, e.channel);
                    assert(now == spec_end_next(before, e.key, e.channel, time));
                    assert(now[i].note == before[i].note);
                    assert(now[j].note == before[j].note);
                },
                _ => {},
            }
        }
    }
}

/// What comes out of [`events_to_notes`] can go into the conversion of
/// notes back to events: the notes are in the order of their starts, and
/// every note ends at a time that is a `u64`.
pub proof fn lemma_notes_can_go_back<E: MIDIEventEnum, X>(s: Seq<Delta<u64, E>>, error: Option<X>)
    requires
        spec_total_ticks(s) <= u64::MAX,
    ensures
        spec_notes_in_order(spec_ok_prefix(spec_events_to_notes(s, error))),
        spec_first_error(spec_events_to_notes(s, error)) == error,
{
    let open = spec_open_notes(s, s.len() as int);
    let count = if error is Some {
        spec_leading_ended(open, 0)
    } else {
        open.len() as int
    };
    let last = spec_total_ticks(s) as u64;
    let notes = spec_closed_notes(open, count, last);
    lemma_leading_ended_bounds(open, 0);
    lemma_stream_parts(notes, error);
    lemma_open_notes_in_order(s, s.len() as int);
    lemma_open_notes_in_time(s, s.len() as int);
    assert forall|i: int, j: int| 0 <= i <= j < notes.len() implies notes[i].start
        <= notes[j].start by {
        assert(open[i].note.start <= open[j].note.start);
    }
    assert forall|i: int| 0 <= i < notes.len() implies (#[trigger] notes[i]).start + notes[i].len
        <= u64::MAX by {
        let o = open[i];
        assert(o.note.start <= spec_ticks_before(s, s.len() as int));
    }
}

/// The note-on events among the first `n` items of `s`, each with the
/// time at which it stands.
pub open spec fn spec_note_on_events<E: MIDIEventEnum>(s: Seq<Delta<u64, E>>, n: int) -> Seq<
    (int, NoteOnEvent),
>
    decreases n,
{
    if n <= 0 {
        Seq::empty()
    } else {
        match s[n - 1].event.spec_event() {
            Event::NoteOn(e) => spec_note_on_events(s, n - 1).push((spec_ticks_before(s, n), e)),
            _ => spec_note_on_events(s, n - 1),
        }
    }
}

/// What starts each of `notes`: the time, and the note-on event.
pub open spec fn spec_note_starts(notes: Seq<Note<u64>>) -> Seq<(int, NoteOnEvent)> {
    Seq::new(
        notes.len(),
        |i: int|
            (
                notes[i].start as int,
                NoteOnEvent {
                    channel: notes[i].channel,
                    key: notes[i].key,
                    velocity: notes[i].velocity,
                },
            ),
    )
}

pub proof fn lemma_open_notes_are_note_ons<E: MIDIEventEnum>(s: Seq<Delta<u64, E>>, n: int)
    requires
        0 <= n <= s.len(),
        spec_total_ticks(s) <= u64::MAX,
    ensures
        spec_open_notes(s, n).len() == spec_note_on_events(s, n).len(),
        forall|i: int|
            0 <= i < spec_open_notes(s, n).len() ==> {
                let o = #[trigger] spec_open_notes(s, n)[i];
                spec_note_on_events(s, n)[i] == (
                    o.note.start as int,
                    NoteOnEvent {
                        channel: o.note.channel,
                        key: o.note.key,
                        velocity: o.note.velocity,
                    },
                )
            },
    decreases n,
{
    if n > 0 {
        lemma_open_notes_are_note_ons(s, n - 1);
        lemma_ticks_monotone(s, n, s.len() as int);
        lemma_ticks_monotone(s, 0, n);
        let before = spec_open_notes(s, n - 1);
        let now = spec_open_notes(s, n);
        let time = spec_ticks_before(s, n) as u64;
        match s[n - 1].event.spec_event() {
            Event::NoteOn(e) => {
                assert forall|i: int| 0 <= i < now.len() implies {
                    let o = #[trigger] now[i];
                    spec_note_on_events(s, n)[i] == (
                        o.note.start as int,
                        NoteOnEvent {
                            channel: o.note.channel,
                            key: o.note.key,
                            velocity: o.note.velocity,
                        },
                    )
                } by {
                    if i < before.len() {
                        assert(now[i] == before[i]);
                    }
                }
            },
            Event::NoteOff(e) => {
                lemma_first_unended_bounds(before, 0, e.key, e.channel);
                assert(now == spec_end_next(before, e.key, e.channel, time));
                assert forall|i: int| 0 <= i < now.len() implies {
                    let o = #[trigger] now[i];
                    spec_note_on_events(s, n)[i] == (
                        o.note.start as int,
                        NoteOnEvent {
                            channel: o.note.channel,
                            key: o.note.key,
                            velocity: o.note.velocity,
                        },
                    )
                } by {
                    assert(now[i].note == before[i].note);
                }
            },
            _ => {},
        }
    }
}

/// Every note-on event becomes a note, and nothing else does: the notes of
/// a stream that ends without a failure start where its note-on events
/// stand, in their order, with their keys, channels and velocities.
pub proof fn lemma_notes_start_at_note_ons<E: MIDIEventEnum, X>(s: Seq<Delta<u64, E>>)
    requires
        spec_total_ticks(s) <= u64::MAX,
    ensures
        spec_note_starts(spec_ok_prefix(spec_events_to_notes::<E, X>(s, None)))
            == spec_note_on_events(s, s.len() as int),
{
    let open = spec_open_notes(s, s.len() as int);
    let last = spec_total_ticks(s) as u64;
    let notes = spec_closed_notes(open, open.len() as int, last);
    lemma_stream_parts::<Note<u64>, X>(notes, None);
    lemma_open_notes_are_note_ons(s, s.len() as int);
    assert(spec_note_starts(notes) =~= spec_note_on_events(s, s.len() as int));
}

} // verus!
