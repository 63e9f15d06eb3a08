use vstd::prelude::*;
use crate::events::Event;
use crate::events::MIDIEventEnum;
use crate::events::TempoEvent;
use crate::sequence::common::lemma_error_index_bounds;
use crate::sequence::common::spec_first_error;
use crate::sequence::common::spec_ok_prefix;
use crate::sequence::common::split_stream;
use crate::sequence::event::delta::Delta;
use crate::sequence::event::filter_events::lemma_ticks_monotone;
use crate::sequence::event::filter_events::spec_ticks_before;
use crate::sequence::event::filter_events::spec_total_ticks;
use crate::sequence::event::merge_events::merge_events_array;
use crate::sequence::event::merge_events::spec_merge_array_abs;
use crate::sequence::event::merge_events::spec_streams;
use crate::sequence::event::merge_events::spec_to_deltas;
use crate::sequence::event::merge_events::spec_total_items;

verus! {

/// What one scan of a channel's events finds.
#[derive(Debug, Clone, PartialEq, Eq)]
pub struct ChannelStatistics {
    note_on_count: u64,
    note_off_count: u64,
    total_event_count: u64,
    total_length_ticks: u64,
    tempo_events: Vec<Delta<u64, TempoEvent>>,
}

/// The number of note-on events among the first `n` items of `s`.
pub open spec fn spec_note_ons<E: MIDIEventEnum>(s: Seq<Delta<u64, E>>, n: int) -> int
    decreases n,
{
    if n <= 0 {
        0
    } else {
        spec_note_ons(s, n - 1) + (if s[n - 1].event.spec_event() is NoteOn {
            1int
        } else {
            0int
        })
    }
}

/// The number of note-off events among the first `n` items of `s`.
pub open spec fn spec_note_offs<E: MIDIEventEnum>(s: Seq<Delta<u64, E>>, n: int) -> int
    decreases n,
{
    if n <= 0 {
        0
    } else {
        spec_note_offs(s, n - 1) + (if s[n - 1].event.spec_event() is NoteOff {
            1int
        } else {
            0int
        })
    }
}

/// The ticks that have passed since the last tempo event among the first
/// `n` items of `s`, or since the start.
pub open spec fn spec_ticks_since_tempo<E: MIDIEventEnum>(s: Seq<Delta<u64, E>>, n: int) -> int
    decreases n,
{
    if n <= 0 || s[n - 1].event.spec_event() is Tempo {
        0
    } else {
        spec_ticks_since_tempo(s, n - 1) + s[n - 1].delta
    }
}

/// The tempo events among the first `n` items of `s`, each with the ticks
/// since the tempo event before it.
pub open spec fn spec_tempo_events<E: MIDIEventEnum>(s: Seq<Delta<u64, E>>, n: int) -> Seq<
    Delta<u64, TempoEvent>,
>
    decreases n,
{
    if n <= 0 {
        Seq::empty()
    } else {
        match s[n - 1].event.spec_event() {
            Event::Tempo(t) => spec_tempo_events(s, n - 1).push(
                Delta { delta: (spec_ticks_since_tempo(s, n - 1) + s[n - 1].delta) as u64, event: t },
            ),
            _ => spec_tempo_events(s, n - 1),
        }
    }
}

/// The sum of the products of ticks and tempo over a walk through the
/// first `n` tempo events of `tempos`: the ticks up to each tempo event
/// count at the tempo set before it, the first at the default tempo. The
/// walk ends at the first tempo event that lies beyond `ticks`.
pub open spec fn spec_walked<>(tempos: Seq<Delta<u64, TempoEvent>>, ticks: u64, n: int) -> (
    int,
    int,
    int,
    bool,
)
    decreases n,
{
    if n <= 0 {
        (0, ticks as int, 500000, false)
    } else {
        let (sum, left, tempo, stopped) = spec_walked(tempos, ticks, n - 1);
        if stopped || tempos[n - 1].delta > left {
            (sum, left, tempo, true)
        } else {
            (
                sum + tempo * tempos[n - 1].delta,
                left - tempos[n - 1].delta,
                tempos[n - 1].event.tempo as int,
                false,
            )
        }
    }
}

/// The length of `ticks` ticks in microseconds, times the pulses per
/// quarter note: the sum over the stretches between tempo events of ticks
/// times tempo.
pub open spec fn spec_tempo_weighted_ticks(tempos: Seq<Delta<u64, TempoEvent>>, ticks: u64) -> int {
    let (sum, left, tempo, stopped) = spec_walked(tempos, ticks, tempos.len() as int);
    sum + tempo * left
}

pub proof fn lemma_walked_bounds(tempos: Seq<Delta<u64, TempoEvent>>, ticks: u64, n: int)
    requires
        0 <= n <= tempos.len(),
    ensures
        ({
            let (sum, left, tempo, stopped) = spec_walked(tempos, ticks, n);
            &&& 0 <= left <= ticks
            &&& 0 <= tempo <= u32::MAX
            &&& 0 <= sum <= (ticks - left) * 0xFFFF_FFFF
        }),
    decreases n,
{
    if n > 0 {
        lemma_walked_bounds(tempos, ticks, n - 1);
        let (sum, left, tempo, stopped) = spec_walked(tempos, ticks, n - 1);
        let d = tempos[n - 1].delta as int;
        if !(stopped || d > left) {
            assert(tempo * d <= 0xFFFF_FFFF * d) by (nonlinear_arith)
                requires
                    0 <= tempo <= 0xFFFF_FFFF,
                    0 <= d,
            ;
            assert(0 <= tempo * d) by (nonlinear_arith)
                requires
                    0 <= tempo,
                    0 <= d,
            ;
            assert((ticks - left) * 0xFFFF_FFFF + 0xFFFF_FFFF * d == (ticks - (left - d))
                * 0xFFFF_FFFF) by (nonlinear_arith);
        }
    }
}

/// Computes [`spec_tempo_weighted_ticks`]. Divided by the pulses per
/// quarter note it is the length of `ticks` ticks in microseconds.
pub fn tempo_weighted_ticks(tempos: &Vec<Delta<u64, TempoEvent>>, ticks: u64) -> (r: u128)
    ensures
        r == spec_tempo_weighted_ticks(tempos@, ticks),
{
    let mut left: u64 = ticks;
    let mut sum: u128 = 0;
    let mut tempo: u32 = 500000;
    let mut stopped: bool = false;
    let mut i: usize = 0;
    while i < tempos.len() && !stopped
        invariant
            i <= tempos.len(),
            spec_walked(tempos@, ticks, i as int) == (sum as int, left as int, tempo as int, stopped),
            stopped ==> spec_walked(tempos@, ticks, tempos@.len() as int) == (
                sum as int,
                left as int,
                tempo as int,
                true,
            ),
        decreases tempos.len() - i,
    {
        proof {
            lemma_walked_bounds(tempos@, ticks, i as int);
            lemma_walked_bounds(tempos@, ticks, i + 1);
        }
        let offset: u64 = tempos[i].delta;
        if offset > left {
            stopped = true;
            proof {
                lemma_walk_stays_stopped(tempos@, ticks, i + 1, tempos@.len() as int);
            }
            i += 1;
        } else {
            left = left - offset;
            assert((ticks - left) * 0xFFFF_FFFF <= 0xFFFF_FFFF_FFFF_FFFF * 0xFFFF_FFFF)
                by (nonlinear_arith)
                requires
                    0 <= ticks - left <= 0xFFFF_FFFF_FFFF_FFFF,
            ;
            sum = sum + (tempo as u128) * (offset as u128);
            tempo = tempos[i].event.tempo;
            i += 1;
        }
    }
    proof {
        lemma_walked_bounds(tempos@, ticks, tempos@.len() as int);
        let last = spec_walked(tempos@, ticks, tempos@.len() as int);
        assert(tempo * left <= 0xFFFF_FFFF * left) by (nonlinear_arith)
            requires
                0 <= tempo <= 0xFFFF_FFFF,
                0 <= left,
        ;
        assert((ticks - left) * 0xFFFF_FFFF + 0xFFFF_FFFF * left == ticks * 0xFFFF_FFFF)
            by (nonlinear_arith);
        assert(ticks * 0xFFFF_FFFF <= 0xFFFF_FFFF_FFFF_FFFF * 0xFFFF_FFFF) by (nonlinear_arith)
            requires
                0 <= ticks <= 0xFFFF_FFFF_FFFF_FFFF,
        ;
    }
    sum + (tempo as u128) * (left as u128)
}

pub proof fn lemma_walk_stays_stopped(
    tempos: Seq<Delta<u64, TempoEvent>>,
    ticks: u64,
    n: int,
    m: int,
)
    requires
        0 < n <= m,
        spec_walked(tempos, ticks, n).3,
    ensures
        spec_walked(tempos, ticks, m) == spec_walked(tempos, ticks, n),
    decreases m,
{
    if n < m {
        lemma_walk_stays_stopped(tempos, ticks, n, m - 1);
    }
}

impl ChannelStatistics {
    pub closed spec fn spec_note_on_count(&self) -> u64 {
        self.note_on_count
    }

    pub closed spec fn spec_note_off_count(&self) -> u64 {
        self.note_off_count
    }

    pub closed spec fn spec_total_event_count(&self) -> u64 {
        self.total_event_count
    }

    pub closed spec fn spec_total_length_ticks(&self) -> u64 {
        self.total_length_ticks
    }

    pub closed spec fn spec_tempo_events(&self) -> Seq<Delta<u64, TempoEvent>> {
        self.tempo_events@
    }

    /// The notes are among the events.
    pub closed spec fn wf(&self) -> bool {
        self.note_on_count + self.note_off_count <= self.total_event_count
    }

    /// The number of note-on events.
    pub fn note_on_count(&self) -> (r: u64)
        ensures
            r == self.spec_note_on_count(),
    {
        self.note_on_count
    }

    /// The number of notes: that of the note-on events.
    pub fn note_count(&self) -> (r: u64)
        ensures
            r == self.spec_note_on_count(),
    {
        self.note_on_count()
    }

    /// The number of note-off events.
    pub fn note_off_count(&self) -> (r: u64)
        ensures
            r == self.spec_note_off_count(),
    {
        self.note_off_count
    }

    /// The number of events that are neither note-on nor note-off.
    pub fn other_event_count(&self) -> (r: u64)
        requires
            self.wf(),
        ensures
            r == self.spec_total_event_count() - self.spec_note_on_count()
                - self.spec_note_off_count(),
    {
        self.total_event_count - self.note_on_count - self.note_off_count
    }

    /// The number of events.
    pub fn total_event_count(&self) -> (r: u64)
        ensures
            r == self.spec_total_event_count(),
    {
        self.total_event_count
    }

    /// The sum of all deltas.
    pub fn total_length_ticks(&self) -> (r: u64)
        ensures
            r == self.spec_total_length_ticks(),
    {
        self.total_length_ticks
    }

    /// The tempo events, each with the ticks since the one before it.
    pub fn tempo_events(&self) -> (r: &Vec<Delta<u64, TempoEvent>>)
        ensures
            r@ == self.spec_tempo_events(),
    {
        &self.tempo_events
    }

    /// The length of the channel in microseconds, times the pulses per
    /// quarter note.
    pub fn total_tempo_weighted_ticks(&self) -> (r: u128)
        ensures
            r == spec_tempo_weighted_ticks(self.spec_tempo_events(), self.spec_total_length_ticks()),
    {
        tempo_weighted_ticks(&self.tempo_events, self.total_length_ticks)
    }
}

pub proof fn lemma_counts_in_range<E: MIDIEventEnum>(s: Seq<Delta<u64, E>>, n: int)
    requires
        0 <= n <= s.len(),
    ensures
        0 <= spec_note_ons(s, n),
        0 <= spec_note_offs(s, n),
        spec_note_ons(s, n) + spec_note_offs(s, n) <= n,
        0 <= spec_ticks_since_tempo(s, n) <= spec_ticks_before(s, n),
    decreases n,
{
    if n > 0 {
        lemma_counts_in_range(s, n - 1);
    }
}

/// Scans the events of a channel: counts them, adds up their deltas and
/// gathers the tempo events. A failure in the stream is returned.
pub fn get_channel_statistics<E: MIDIEventEnum, X>(iter: Vec<Result<Delta<u64, E>, X>>) -> (r:
    Result<ChannelStatistics, X>)
    requires
        spec_total_ticks(spec_ok_prefix(iter@)) <= u64::MAX,
    ensures
        match spec_first_error(iter@) {
            Some(e) => r == Err::<ChannelStatistics, X>(e),
            None => {
                let s = spec_ok_prefix(iter@);
                &&& r is Ok
                &&& r->Ok_0.wf()
                &&& r->Ok_0.spec_note_on_count() == spec_note_ons(s, s.len() as int)
                &&& r->Ok_0.spec_note_off_count() == spec_note_offs(s, s.len() as int)
                &&& r->Ok_0.spec_total_event_count() == s.len()
                &&& r->Ok_0.spec_total_length_ticks() == spec_total_ticks(s)
                &&& r->Ok_0.spec_tempo_events() == spec_tempo_events(s, s.len() as int)
            },
        },
{
    let (items, error) = split_stream(iter);
    match error {
        Some(e) => {
            return Err(e);
        },
        None => {},
    }
    let ghost s = items@;
    let mut note_on_count: u64 = 0;
    let mut note_off_count: u64 = 0;
    let mut total_event_count: u64 = 0;
    let mut total_length_ticks: u64 = 0;
    let mut ticks_since_last_tempo: u64 = 0;
    let mut tempo_events: Vec<Delta<u64, TempoEvent>> = Vec::new();
    let mut i: usize = 0;
    while i < items.len()
        invariant
            i <= items.len(),
            s == items@,
            spec_total_ticks(s) <= u64::MAX,
            note_on_count == spec_note_ons(s, i as int),
            note_off_count == spec_note_offs(s, i as int),
            total_event_count == i,
            total_length_ticks == spec_ticks_before(s, i as int),
            ticks_since_last_tempo == spec_ticks_since_tempo(s, i as int),
            tempo_events@ == spec_tempo_events(s, i as int),
        decreases items.len() - i,
    {
        proof {
            lemma_counts_in_range(s, i as int);
            lemma_counts_in_range(s, i + 1);
            lemma_ticks_monotone(s, i + 1, s.len() as int);
            lemma_ticks_monotone(s, i as int, i + 1);
        }
        let delta: u64 = items[i].delta;
        total_event_count += 1;
        total_length_ticks += delta;
        ticks_since_last_tempo += delta;
        match items[i].event.as_event() {
            Event::NoteOn(_) => {
                note_on_count += 1;
            },
            Event::NoteOff(_) => {
                note_off_count += 1;
            },
            Event::Tempo(t) => {
                tempo_events.push(Delta { delta: ticks_since_last_tempo, event: *t });
                ticks_since_last_tempo = 0;
            },
            _ => {},
        }
        i += 1;
    }
    proof {
        lemma_counts_in_range(s, s.len() as int);
    }
    Ok(
        ChannelStatistics {
            note_on_count,
            note_off_count,
            total_event_count,
            total_length_ticks,
            tempo_events,
        },
    )
}

/// What the scans of the channels of a file find, and their sum.
#[derive(Debug, Clone, PartialEq, Eq)]
pub struct ChannelGroupStatistics {
    group: ChannelStatistics,
    channels: Vec<ChannelStatistics>,
}

/// The failure of the first of the first `n` streams that holds one.
pub open spec fn spec_channel_error<E, X>(streams: Seq<Seq<Result<Delta<u64, E>, X>>>, n: int) -> Option<
    X,
>
    decreases n,
{
    if n <= 0 {
        None
    } else {
        match spec_channel_error(streams, n - 1) {
            Some(e) => Some(e),
            None => spec_first_error(streams[n - 1]),
        }
    }
}

/// The sums of the counts of the first `n` channels: note-on events,
/// note-off events, and all events.
pub open spec fn spec_count_sums(channels: Seq<ChannelStatistics>, n: int) -> (int, int, int)
    decreases n,
{
    if n <= 0 {
        (0, 0, 0)
    } else {
        let (ons, offs, all) = spec_count_sums(channels, n - 1);
        (
            ons + channels[n - 1].spec_note_on_count(),
            offs + channels[n - 1].spec_note_off_count(),
            all + channels[n - 1].spec_total_event_count(),
        )
    }
}

/// The length of the longest of the first `n` channels.
pub open spec fn spec_longest(channels: Seq<ChannelStatistics>, n: int) -> int
    decreases n,
{
    if n <= 0 {
        0
    } else if channels[n - 1].spec_total_length_ticks() > spec_longest(channels, n - 1) {
        channels[n - 1].spec_total_length_ticks() as int
    } else {
        spec_longest(channels, n - 1)
    }
}

/// The tempo events of each of the streams, as streams without failure.
pub open spec fn spec_tempo_streams<E: MIDIEventEnum, X>(
    streams: Seq<Seq<Result<Delta<u64, E>, X>>>,
) -> Seq<Seq<Result<Delta<u64, TempoEvent>, X>>> {
    Seq::new(
        streams.len(),
        |i: int|
            spec_tempo_events(spec_ok_prefix(streams[i]), spec_ok_prefix(streams[i]).len() as int).map_values(
                |d: Delta<u64, TempoEvent>| Ok::<Delta<u64, TempoEvent>, X>(d),
            ),
    )
}

/// The tempo events of all streams, merged into one stream.
pub open spec fn spec_merged_tempos<E: MIDIEventEnum, X>(
    streams: Seq<Seq<Result<Delta<u64, E>, X>>>,
) -> Seq<Result<Delta<u64, TempoEvent>, X>> {
    spec_to_deltas(spec_merge_array_abs(spec_tempo_streams(streams)), 0)
}

pub proof fn lemma_sums_in_range(channels: Seq<ChannelStatistics>, n: int)
    requires
        0 <= n <= channels.len(),
        forall|i: int| 0 <= i < channels.len() ==> (#[trigger] channels[i]).wf(),
    ensures
        ({
            let (ons, offs, all) = spec_count_sums(channels, n);
            0 <= ons && 0 <= offs && ons + offs <= all
        }),
        0 <= spec_longest(channels, n) <= u64::MAX,
    decreases n,
{
    if n > 0 {
        lemma_sums_in_range(channels, n - 1);
        assert(channels[n - 1].wf());
    }
}

/// A copy of `events`.
fn copy_tempo_events(events: &Vec<Delta<u64, TempoEvent>>) -> (r: Vec<Delta<u64, TempoEvent>>)
    ensures
        r@ == events@,
{
    let mut out: Vec<Delta<u64, TempoEvent>> = Vec::new();
    let mut i: usize = 0;
    while i < events.len()
        invariant
            i <= events.len(),
            out@ == events@.take(i as int),
        decreases events.len() - i,
    {
        out.push(Delta { delta: events[i].delta, event: events[i].event });
        i += 1;
        assert(out@ =~= events@.take(i as int));
    }
    assert(events@.take(i as int) =~= events@);
    out
}

/// `events` as a stream without failure.
fn tempo_stream<X>(events: &Vec<Delta<u64, TempoEvent>>) -> (r: Vec<
    Result<Delta<u64, TempoEvent>, X>,
>)
    ensures
        r@ == events@.map_values(|d: Delta<u64, TempoEvent>| Ok::<Delta<u64, TempoEvent>, X>(d)),
{
    let mut out: Vec<Result<Delta<u64, TempoEvent>, X>> = Vec::new();
    let mut i: usize = 0;
    while i < events.len()
        invariant
            i <= events.len(),
            out@ == events@.take(i as int).map_values(
                |d: Delta<u64, TempoEvent>| Ok::<Delta<u64, TempoEvent>, X>(d),
            ),
        decreases events.len() - i,
    {
        out.push(Ok(Delta { delta: events[i].delta, event: events[i].event }));
        i += 1;
        assert(out@ =~= events@.take(i as int).map_values(
            |d: Delta<u64, TempoEvent>| Ok::<Delta<u64, TempoEvent>, X>(d),
        ));
    }
    assert(events@.take(i as int) =~= events@);
    out
}

impl ChannelGroupStatistics {
    /// The sums over the channels.
    pub closed spec fn spec_group(&self) -> ChannelStatistics {
        self.group
    }

    pub closed spec fn spec_channels(&self) -> Seq<ChannelStatistics> {
        self.channels@
    }

    /// What was found for each channel.
    pub fn channels(&self) -> (r: &Vec<ChannelStatistics>)
        ensures
            r@ == self.spec_channels(),
    {
        &self.channels
    }

    /// The sums over the channels.
    pub fn group(&self) -> (r: &ChannelStatistics)
        ensures
            *r == self.spec_group(),
    {
        &self.group
    }
}

/// Scans the events of every channel, merges the tempo events of all
/// channels, and sums up. Every channel is given the merged tempo events;
/// the group counts are the sums of the counts of the channels, and its
/// length is that of the longest channel. The failure of the first stream
/// that holds one is returned.
pub fn get_channels_array_statistics<E: MIDIEventEnum, X>(
    iters: Vec<Vec<Result<Delta<u64, E>, X>>>,
) -> (r: Result<ChannelGroupStatistics, X>)
    requires
        2 * iters@.len() + 2 <= usize::MAX,
        spec_total_items(spec_streams(iters@), iters@.len() as int) <= u64::MAX,
        forall|i: int|
            0 <= i < iters@.len() ==> spec_total_ticks(spec_ok_prefix(#[trigger] iters@[i]@))
                <= u64::MAX,
    ensures
        match spec_channel_error(spec_streams(iters@), iters@.len() as int) {
            Some(e) => r == Err::<ChannelGroupStatistics, X>(e),
            None => match spec_first_error(spec_merged_tempos(spec_streams(iters@))) {
                Some(e) => r == Err::<ChannelGroupStatistics, X>(e),
                None => {
                    let tempos = spec_ok_prefix(spec_merged_tempos(spec_streams(iters@)));
                    &&& r is Ok
                    &&& r->Ok_0.spec_channels().len() == iters@.len()
                    &&& forall|i: int|
                        0 <= i < iters@.len() ==> {
                            let c = #[trigger] r->Ok_0.spec_channels()[i];
                            let s = spec_ok_prefix(iters@[i]@);
                            &&& c.wf()
                            &&& c.spec_note_on_count() == spec_note_ons(s, s.len() as int)
                            &&& c.spec_note_off_count() == spec_note_offs(s, s.len() as int)
                            &&& c.spec_total_event_count() == s.len()
                            &&& c.spec_total_length_ticks() == spec_total_ticks(s)
                            &&& c.spec_tempo_events() == tempos
                        }
                    &&& r->Ok_0.spec_group().wf()
                    &&& r->Ok_0.spec_group().spec_tempo_events() == tempos
                    &&& r->Ok_0.spec_group().spec_total_length_ticks() == spec_longest(
                        r->Ok_0.spec_channels(),
                        iters@.len() as int,
                    )
                    &&& (
                        r->Ok_0.spec_group().spec_note_on_count() as int,
                        r->Ok_0.spec_group().spec_note_off_count() as int,
                        r->Ok_0.spec_group().spec_total_event_count() as int,
                    ) == spec_count_sums(r->Ok_0.spec_channels(), iters@.len() as int)
                },
            },
        },
{
    let ghost streams = spec_streams(iters@);
    let n: usize = iters.len();
    let mut channels: Vec<ChannelStatistics> = Vec::new();
    let mut tempo_streams: Vec<Vec<Result<Delta<u64, TempoEvent>, X>>> = Vec::new();
    let mut count: usize = 0;
    for iter in it: iters
        invariant
            it.seq() == iters@,
            streams == spec_streams(iters@),
            iters@.len() == n,
            count == it.index(),
            spec_total_items(streams, n as int) <= u64::MAX,
            forall|i: int|
                0 <= i < iters@.len() ==> spec_total_ticks(spec_ok_prefix(#[trigger] iters@[i]@))
                    <= u64::MAX,
            spec_channel_error(streams, count as int) is None,
            channels@.len() == count,
            tempo_streams@.len() == count,
            spec_streams(tempo_streams@) == spec_tempo_streams(streams).take(count as int),
            forall|i: int|
                0 <= i < count ==> {
                    let c = #[trigger] channels@[i];
                    let s = spec_ok_prefix(streams[i]);
                    &&& c.wf()
                    &&& c.spec_note_on_count() == spec_note_ons(s, s.len() as int)
                    &&& c.spec_note_off_count() == spec_note_offs(s, s.len() as int)
                    &&& c.spec_total_event_count() == s.len()
                    &&& c.spec_total_length_ticks() == spec_total_ticks(s)
                },
    {
        assert(streams[count as int] == iter@);
        assert(spec_total_ticks(spec_ok_prefix(iters@[count as int]@)) <= u64::MAX);
        let stats = match get_channel_statistics(iter) {
            Ok(stats) => stats,
            Err(e) => {
                proof {
                    lemma_channel_error_stays(streams, count + 1, n as int);
                }
                return Err(e);
            },
        };
        let tempos = tempo_stream::<X>(&stats.tempo_events);
        let ghost before = tempo_streams@;
        tempo_streams.push(tempos);
        channels.push(stats);
        assert(spec_streams(tempo_streams@) =~= spec_tempo_streams(streams).take(count + 1));
        count += 1;
    }
    assert(spec_streams(tempo_streams@) =~= spec_tempo_streams(streams));
    let merged = merge_events_array(tempo_streams);
    let (tempo_events, error) = split_stream(merged);
    match error {
        Some(e) => {
            return Err(e);
        },
        None => {},
    }
    let mut note_on_count: u64 = 0;
    let mut note_off_count: u64 = 0;
    let mut total_event_count: u64 = 0;
    let mut max_tick_length: u64 = 0;
    let mut i: usize = 0;
    while i < n
        invariant
            i <= n,
            channels@.len() == n,
            streams == spec_streams(iters@),
            iters@.len() == n,
            spec_total_items(streams, n as int) <= u64::MAX,
            forall|k: int|
                0 <= k < n ==> {
                    let c = #[trigger] channels@[k];
                    let s = spec_ok_prefix(streams[k]);
                    &&& c.wf()
                    &&& c.spec_note_on_count() == spec_note_ons(s, s.len() as int)
                    &&& c.spec_note_off_count() == spec_note_offs(s, s.len() as int)
                    &&& c.spec_total_event_count() == s.len()
                    &&& c.spec_total_length_ticks() == spec_total_ticks(s)
                    &&& k < i ==> c.spec_tempo_events() == tempo_events@
                },
            (note_on_count as int, note_off_count as int, total_event_count as int)
                == spec_count_sums(channels@, i as int),
            max_tick_length == spec_longest(channels@, i as int),
            total_event_count <= spec_total_items(streams, i as int),
        decreases n - i,
    {
        proof {
            lemma_sums_in_range(channels@, i as int);
            lemma_sums_in_range(channels@, i + 1);
            lemma_error_index_bounds(streams[i as int], 0);
            lemma_total_items_monotone(streams, i + 1, n as int);
        }
        let ghost before = channels@;
        let ghost sums = spec_count_sums(channels@, i as int);
        let ghost longest = spec_longest(channels@, i as int);
        let c = &channels[i];
        let ons: u64 = c.note_on_count;
        let offs: u64 = c.note_off_count;
        let all: u64 = c.total_event_count;
        let ticks: u64 = c.total_length_ticks;
        total_event_count = total_event_count + all;
        note_on_count = note_on_count + ons;
        note_off_count = note_off_count + offs;
        if ticks > max_tick_length {
            max_tick_length = ticks;
        }
        let copy = copy_tempo_events(&tempo_events);
        channels[i] = ChannelStatistics {
            note_on_count: ons,
            note_off_count: offs,
            total_event_count: all,
            total_length_ticks: ticks,
            tempo_events: copy,
        };
        proof {
            lemma_sums_same(before, channels@, i as int);
            assert(spec_count_sums(channels@, i as int) == sums);
            assert(spec_longest(channels@, i as int) == longest);
        }
        i += 1;
    }
    proof {
        lemma_sums_in_range(channels@, n as int);
    }
    let group = ChannelStatistics {
        note_on_count,
        note_off_count,
        total_event_count,
        total_length_ticks: max_tick_length,
        tempo_events,
    };
    Ok(ChannelGroupStatistics { group, channels })
}

pub proof fn lemma_channel_error_stays<E, X>(
    streams: Seq<Seq<Result<Delta<u64, E>, X>>>,
    n: int,
    m: int,
)
    requires
        0 <= n <= m,
        spec_channel_error(streams, n) is Some,
    ensures
        spec_channel_error(streams, m) == spec_channel_error(streams, n),
    decreases m,
{
    if n < m {
        lemma_channel_error_stays(streams, n, m - 1);
    }
}

pub proof fn lemma_total_items_monotone<E, X>(
    streams: Seq<Seq<Result<Delta<u64, E>, X>>>,
    n: int,
    m: int,
)
    requires
        0 <= n <= m,
    ensures
        spec_total_items(streams, n) <= spec_total_items(streams, m),
    decreases m,
{
    if n < m {
        lemma_total_items_monotone(streams, n, m - 1);
    }
}

/// Sums over the first `n` channels depend on those channels only, and on
/// their counts and lengths only.
pub proof fn lemma_sums_same(a: Seq<ChannelStatistics>, b: Seq<ChannelStatistics>, n: int)
    requires
        0 <= n <= a.len(),
        a.len() == b.len(),
        forall|i: int|
            0 <= i < n ==> {
                &&& (#[trigger] a[i]).spec_note_on_count() == b[i].spec_note_on_count()
                &&& a[i].spec_note_off_count() == b[i].spec_note_off_count()
                &&& a[i].spec_total_event_count() == b[i].spec_total_event_count()
                &&& a[i].spec_total_length_ticks() == b[i].spec_total_length_ticks()
            },
    ensures
        spec_count_sums(a, n) == spec_count_sums(b, n),
        spec_longest(a, n) == spec_longest(b, n),
    decreases n,
{
    if n > 0 {
        lemma_sums_same(a, b, n - 1);
        assert(a[n - 1].spec_note_on_count() == b[n - 1].spec_note_on_count());
    }
}

} // verus!
