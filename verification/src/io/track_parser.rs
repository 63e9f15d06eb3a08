use vstd::prelude::*;
use crate::events::Event;
use crate::events::EventView;
use crate::events::spec_encode_var_length_value;
use crate::events::vlq_prefix;
use crate::events::events::is_text_kind;
use crate::events::events::ChannelPrefixEvent;
use crate::events::events::ChannelPressureEvent;
use crate::events::events::ControlChangeEvent;
use crate::events::events::EndOfExclusiveEvent;
use crate::events::events::KeySignatureEvent;
use crate::events::events::MIDIPortEvent;
use crate::events::events::NoteOffEvent;
use crate::events::events::NoteOnEvent;
use crate::events::events::PitchWheelChangeEvent;
use crate::events::events::PolyphonicKeyPressureEvent;
use crate::events::events::ProgramChangeEvent;
use crate::events::events::SMPTEOffsetEvent;
use crate::events::events::SongPositionPointerEvent;
use crate::events::events::SongSelectEvent;
use crate::events::events::TempoEvent;
use crate::events::events::TextEventKind;
use crate::events::events::TimeSignatureEvent;
use crate::events::events::TrackStartEvent;
use crate::events::events::TuneRequestEvent;
use crate::events::events::UndefinedEvent;
use crate::io::errors::MIDIParseError;
use crate::io::readers::FullRamTrackReader;
use crate::sequence::event::delta::Delta;

verus! {

/// What the bytes of a track hold at one position.
pub ghost enum ParseStep {
    /// An event; the next one starts at `next`, under running status `status`.
    Item { delta: u64, event: EventView, next: int, status: u8 },
    /// The end-of-track meta event.
    EndOfTrack,
    /// A meta event whose length byte, which ends just before `position`,
    /// is not the one its kind demands.
    Corrupt { position: int },
    /// The bytes end in the middle of the event.
    Truncated,
}

/// Reads a variable-length quantity that starts at `s[i]`, on top of the
/// bits `acc` already read: the value, and the index after its last byte.
/// Bits that do not fit in 64 are dropped.
pub open spec fn spec_read_var_length(s: Seq<u8>, i: int, acc: u64) -> Option<(u64, int)>
    decreases s.len() - i,
{
    if i < 0 || i >= s.len() {
        None
    } else {
        let n = (acc << 7) | ((s[i] & 0x7F) as u64);
        if s[i] & 0x80 == 0 {
            Some((n, i + 1))
        } else {
            spec_read_var_length(s, i + 1, n)
        }
    }
}

/// Reading the continuation bytes of `m` leaves `m` as the bits read.
pub proof fn lemma_read_prefix(m: nat, tail: Seq<u8>)
    requires
        m <= u64::MAX,
    ensures
        spec_read_var_length(vlq_prefix(m) + tail, 0, 0) == spec_read_var_length(
            vlq_prefix(m) + tail,
            vlq_prefix(m).len() as int,
            m as u64,
        ),
    decreases m,
{
    if m > 0 {
        let high = m / 128;
        let b = (m % 128 + 128) as u8;
        let longer = seq![b] + tail;
        let s = vlq_prefix(m) + tail;
        lemma_read_prefix(high, longer);
        assert(s =~= vlq_prefix(high) + longer);
        let at = vlq_prefix(high).len() as int;
        assert(s[at] == b);
        let m64 = m as u64;
        let high64 = high as u64;
        assert(high64 == m64 / 128);
        assert(b == m64 % 128 + 128);
        assert(b == (m64 & 0x7F) as u8 | 0x80 && high64 == m64 >> 7) by (bit_vector)
            requires
                b == m64 % 128 + 128,
                high64 == m64 / 128,
        ;
        assert((high64 << 7) | ((b & 0x7F) as u64) == m64 && b & 0x80 != 0) by (bit_vector)
            requires
                b == (m64 & 0x7F) as u8 | 0x80,
                high64 == m64 >> 7,
        ;
    }
}

/// What is encoded as a variable-length quantity is read back as it was,
/// whatever follows it: every `u64` has an exact round trip.
pub proof fn lemma_var_length_round_trip(n: u64, rest: Seq<u8>)
    ensures
        spec_read_var_length(spec_encode_var_length_value(n as nat) + rest, 0, 0) == Some(
            (n, spec_encode_var_length_value(n as nat).len() as int),
        ),
{
    let high = (n / 128) as nat;
    let b = (n % 128) as u8;
    let tail = seq![b] + rest;
    let s = spec_encode_var_length_value(n as nat) + rest;
    lemma_read_prefix(high, tail);
    assert(s =~= vlq_prefix(high) + tail);
    let at = vlq_prefix(high).len() as int;
    assert(s[at] == b);
    let high64 = high as u64;
    assert(b == n % 128);
    assert(b == (n & 0x7F) as u8 && high64 == n >> 7) by (bit_vector)
        requires
            b == n % 128,
            high64 == n / 128,
    ;
    assert((high64 << 7) | ((b & 0x7F) as u64) == n && b & 0x80 == 0) by (bit_vector)
        requires
            b == (n & 0x7F) as u8,
            high64 == n >> 7,
    ;
}

/// The index of the first end-of-exclusive byte at or after `s[i]`.
pub open spec fn spec_find_terminator(s: Seq<u8>, i: int) -> Option<int>
    decreases s.len() - i,
{
    if i < 0 || i >= s.len() {
        None
    } else if s[i] == 0xF7 {
        Some(i)
    } else {
        spec_find_terminator(s, i + 1)
    }
}

/// The 14-bit value of two data bytes, low byte first.
pub open spec fn spec_pair(low: u8, high: u8) -> u16 {
    ((high as u16) << 7) | (low as u16)
}

/// The 24-bit value of three bytes, most significant first.
pub open spec fn spec_triple(b0: u8, b1: u8, b2: u8) -> u32 {
    ((b0 as u32) << 16) | ((b1 as u32) << 8) | (b2 as u32)
}

/// A meta event of fixed length: `s[k]` is its length byte, which must be
/// `len`, and `len` data bytes follow. `step` is what the event is when both
/// hold.
pub open spec fn spec_fixed_meta(s: Seq<u8>, k: int, len: u8, step: ParseStep) -> ParseStep {
    if k >= s.len() {
        ParseStep::Truncated
    } else if s[k] != len {
        ParseStep::Corrupt { position: k + 1 }
    } else if k + 1 + len > s.len() {
        ParseStep::Truncated
    } else {
        step
    }
}

/// A meta event with a body of variable length: `s[k]` starts the length.
pub open spec fn spec_sized_meta(s: Seq<u8>, k: int) -> Option<(int, int)> {
    match spec_read_var_length(s, k, 0) {
        None => None,
        Some((size, b)) => if b + size > s.len() {
            None
        } else {
            Some((b, b + size))
        },
    }
}

/// A meta event: `s[k]` is its kind.
pub open spec fn spec_parse_meta(s: Seq<u8>, k: int, delta: u64) -> ParseStep {
    if k >= s.len() {
        ParseStep::Truncated
    } else {
        let kind = s[k];
        let d = k + 2;
        if kind == 0x00 {
            // Only the length byte is taken: the bytes it announces are left
            // in the stream.
            if k + 1 >= s.len() {
                ParseStep::Truncated
            } else if s[k + 1] != 2 {
                ParseStep::Corrupt { position: d }
            } else {
                ParseStep::Item {
                    delta,
                    event: EventView::TrackStart(TrackStartEvent {  }),
                    next: d,
                    status: 0xFF,
                }
            }
        } else if is_text_kind(kind) {
            match spec_sized_meta(s, k + 1) {
                None => ParseStep::Truncated,
                Some((from, to)) => ParseStep::Item {
                    delta,
                    event: EventView::Text(TextEventKind::spec_from_val(kind), s.subrange(from, to)),
                    next: to,
                    status: 0xFF,
                },
            }
        } else if kind == 0x20 {
            spec_fixed_meta(
                s,
                k + 1,
                1,
                ParseStep::Item {
                    delta,
                    event: EventView::ChannelPrefix(ChannelPrefixEvent { channel: s[d] }),
                    next: d + 1,
                    status: 0xFF,
                },
            )
        } else if kind == 0x21 {
            spec_fixed_meta(
                s,
                k + 1,
                1,
                ParseStep::Item {
                    delta,
                    event: EventView::MIDIPort(MIDIPortEvent { channel: s[d] }),
                    next: d + 1,
                    status: 0xFF,
                },
            )
        } else if kind == 0x2F {
            spec_fixed_meta(s, k + 1, 0, ParseStep::EndOfTrack)
        } else if kind == 0x51 {
            spec_fixed_meta(
                s,
                k + 1,
                3,
                ParseStep::Item {
                    delta,
                    event: EventView::Tempo(
                        TempoEvent { tempo: spec_triple(s[d], s[d + 1], s[d + 2]) },
                    ),
                    next: d + 3,
                    status: 0xFF,
                },
            )
        } else if kind == 0x54 {
            spec_fixed_meta(
                s,
                k + 1,
                5,
                ParseStep::Item {
                    delta,
                    event: EventView::SMPTEOffset(
                        SMPTEOffsetEvent {
                            hours: s[d],
                            minutes: s[d + 1],
                            seconds: s[d + 2],
                            frames: s[d + 3],
                            fractional_frames: s[d + 4],
                        },
                    ),
                    next: d + 5,
                    status: 0xFF,
                },
            )
        } else if kind == 0x58 {
            spec_fixed_meta(
                s,
                k + 1,
                4,
                ParseStep::Item {
                    delta,
                    event: EventView::TimeSignature(
                        TimeSignatureEvent {
                            numerator: s[d],
                            denominator: s[d + 1],
                            ticks_per_click: s[d + 2],
                            bb: s[d + 3],
                        },
                    ),
                    next: d + 4,
                    status: 0xFF,
                },
            )
        } else if kind == 0x59 {
            spec_fixed_meta(
                s,
                k + 1,
                2,
                ParseStep::Item {
                    delta,
                    event: EventView::KeySignature(KeySignatureEvent { sf: s[d], mi: s[d + 1] }),
                    next: d + 2,
                    status: 0xFF,
                },
            )
        } else {
            match spec_sized_meta(s, k + 1) {
                None => ParseStep::Truncated,
                Some((from, to)) => ParseStep::Item {
                    delta,
                    event: EventView::UnknownMeta(kind, s.subrange(from, to)),
                    next: to,
                    status: 0xFF,
                },
            }
        }
    }
}

/// An event with status `cmd` whose data bytes, `n` of them, start at
/// `s[k]`: `step` if they are all there.
pub open spec fn spec_with_data(s: Seq<u8>, k: int, n: int, step: ParseStep) -> ParseStep {
    if k + n > s.len() {
        ParseStep::Truncated
    } else {
        step
    }
}

/// The event with status `cmd` whose data starts at `s[k]`.
pub open spec fn spec_parse_body(s: Seq<u8>, k: int, cmd: u8, delta: u64) -> ParseStep {
    let hi = cmd & 0xF0;
    let channel = cmd & 0x0F;
    if hi == 0x80 {
        spec_with_data(
            s,
            k,
            2,
            ParseStep::Item {
                delta,
                event: EventView::NoteOff(NoteOffEvent { channel, key: s[k] }),
                next: k + 2,
                status: cmd,
            },
        )
    } else if hi == 0x90 {
        spec_with_data(
            s,
            k,
            2,
            ParseStep::Item {
                delta,
                event: if s[k + 1] == 0 {
                    EventView::NoteOff(NoteOffEvent { channel, key: s[k] })
                } else {
                    EventView::NoteOn(NoteOnEvent { channel, key: s[k], velocity: s[k + 1] })
                },
                next: k + 2,
                status: cmd,
            },
        )
    } else if hi == 0xA0 {
        spec_with_data(
            s,
            k,
            2,
            ParseStep::Item {
                delta,
                event: EventView::PolyphonicKeyPressure(
                    PolyphonicKeyPressureEvent { channel, key: s[k], velocity: s[k + 1] },
                ),
                next: k + 2,
                status: cmd,
            },
        )
    } else if hi == 0xB0 {
        spec_with_data(
            s,
            k,
            2,
            ParseStep::Item {
                delta,
                event: EventView::ControlChange(
                    ControlChangeEvent { channel, controller: s[k], value: s[k + 1] },
                ),
                next: k + 2,
                status: cmd,
            },
        )
    } else if hi == 0xC0 {
        spec_with_data(
            s,
            k,
            1,
            ParseStep::Item {
                delta,
                event: EventView::ProgramChange(ProgramChangeEvent { channel, program: s[k] }),
                next: k + 1,
                status: cmd,
            },
        )
    } else if hi == 0xD0 {
        spec_with_data(
            s,
            k,
            1,
            ParseStep::Item {
                delta,
                event: EventView::ChannelPressure(ChannelPressureEvent { channel, pressure: s[k] }),
                next: k + 1,
                status: cmd,
            },
        )
    } else if hi == 0xE0 {
        spec_with_data(
            s,
            k,
            2,
            ParseStep::Item {
                delta,
                event: EventView::PitchWheelChange(
                    PitchWheelChangeEvent {
                        channel,
                        pitch: (spec_pair(s[k], s[k + 1]) - 8192) as i16,
                    },
                ),
                next: k + 2,
                status: cmd,
            },
        )
    } else if cmd == 0xF0 {
        match spec_find_terminator(s, k) {
            None => ParseStep::Truncated,
            Some(t) => ParseStep::Item {
                delta,
                event: EventView::SystemExclusiveMessage(s.subrange(k, t)),
                next: t + 1,
                status: cmd,
            },
        }
    } else if cmd == 0xF2 {
        spec_with_data(
            s,
            k,
            2,
            ParseStep::Item {
                delta,
                event: EventView::SongPositionPointer(
                    SongPositionPointerEvent { position: spec_pair(s[k], s[k + 1]) },
                ),
                next: k + 2,
                status: cmd,
            },
        )
    } else if cmd == 0xF3 {
        spec_with_data(
            s,
            k,
            1,
            ParseStep::Item {
                delta,
                event: EventView::SongSelect(SongSelectEvent { song: s[k] }),
                next: k + 1,
                status: cmd,
            },
        )
    } else if cmd == 0xF6 {
        ParseStep::Item {
            delta,
            event: EventView::TuneRequest(TuneRequestEvent {  }),
            next: k,
            status: cmd,
        }
    } else if cmd == 0xF7 {
        ParseStep::Item {
            delta,
            event: EventView::EndOfExclusive(EndOfExclusiveEvent {  }),
            next: k,
            status: cmd,
        }
    } else if cmd == 0xFF {
        spec_parse_meta(s, k, delta)
    } else {
        ParseStep::Item {
            delta,
            event: EventView::Undefined(UndefinedEvent { event: cmd }),
            next: k,
            status: cmd,
        }
    }
}

/// The event that starts at `s[i]` when the status before it was `status`:
/// a delta, then a status byte or, where a data byte stands in its place,
/// the running status, then the event's data.
pub open spec fn spec_parse_event(s: Seq<u8>, i: int, status: u8) -> ParseStep {
    match spec_read_var_length(s, i, 0) {
        None => ParseStep::Truncated,
        Some((delta, j)) => if j >= s.len() {
            ParseStep::Truncated
        } else if s[j] < 0x80 {
            spec_parse_body(s, j, status, delta)
        } else {
            spec_parse_body(s, j + 1, s[j], delta)
        },
    }
}

/// The place and the running status after `n` events have been decoded
/// from `start` on, if that many events are there.
pub open spec fn spec_state_after(s: Seq<u8>, start: int, status: u8, n: nat) -> Option<(int, u8)>
    decreases n,
{
    if n == 0 {
        Some((start, status))
    } else {
        match spec_state_after(s, start, status, (n - 1) as nat) {
            Some((at, running)) => match spec_parse_event(s, at, running) {
                ParseStep::Item { next, status: after, .. } => Some((next, after)),
                _ => None,
            },
            None => None,
        }
    }
}

/// What is decoded as event number `k` from `start` on.
pub open spec fn spec_step_at(s: Seq<u8>, start: int, status: u8, k: nat) -> Option<ParseStep> {
    match spec_state_after(s, start, status, k) {
        Some((at, running)) => Some(spec_parse_event(s, at, running)),
        None => None,
    }
}

pub proof fn lemma_read_advances(s: Seq<u8>, i: int, acc: u64)
    requires
        0 <= i,
    ensures
        spec_read_var_length(s, i, acc) matches Some((v, j)) ==> i < j <= s.len(),
    decreases s.len() - i,
{
    if i < s.len() && s[i] & 0x80 != 0 {
        lemma_read_advances(s, i + 1, (acc << 7) | ((s[i] & 0x7F) as u64));
    }
}

pub proof fn lemma_find_advances(s: Seq<u8>, i: int)
    requires
        0 <= i,
    ensures
        spec_find_terminator(s, i) matches Some(t) ==> i <= t < s.len(),
    decreases s.len() - i,
{
    if i < s.len() && s[i] != 0xF7 {
        lemma_find_advances(s, i + 1);
    }
}

/// Every event takes at least one byte: the event after it starts later.
pub proof fn lemma_step_advances(s: Seq<u8>, i: int, status: u8)
    requires
        0 <= i,
    ensures
        spec_parse_event(s, i, status) matches ParseStep::Item { next, .. } ==> i < next
            <= s.len(),
{
    lemma_read_advances(s, i, 0);
    match spec_read_var_length(s, i, 0) {
        Some((delta, j)) => {
            if j < s.len() {
                let k = if s[j] < 0x80 {
                    j
                } else {
                    j + 1
                };
                lemma_find_advances(s, k);
                lemma_read_advances(s, k + 1, 0);
            }
        },
        None => {},
    }
}

/// Whether `out` is what is decoded from the track bytes `s` from `start`
/// on, under running status `status`: the events up to the end-of-track
/// event, or up to the first event that is broken, and then the failure
/// that this event gives. `origin` is the file offset of `s[0]`.
pub open spec fn spec_collected_from(
    out: Seq<Result<Delta<u64, Event>, MIDIParseError>>,
    s: Seq<u8>,
    start: int,
    status: u8,
    track_number: Option<u32>,
    origin: int,
    end_error: MIDIParseError,
) -> bool {
    &&& forall|k: int|
        0 <= k < out.len() ==> match spec_step_at(s, start, status, k as nat) {
            Some(ParseStep::Item { delta, event, .. }) => (#[trigger] out[k]) matches Ok(d)
                && d.delta == delta && d.event@ == event,
            Some(ParseStep::Corrupt { position }) => k == out.len() - 1 && out[k] == Err::<
                Delta<u64, Event>,
                MIDIParseError,
            >(MIDIParseError::CorruptEvent { track_number, position: (origin + position) as u64 }),
            Some(ParseStep::Truncated) => k == out.len() - 1 && out[k] == Err::<
                Delta<u64, Event>,
                MIDIParseError,
            >(end_error),
            _ => false,
        }
    &&& (out.len() == 0 || out.last() is Ok) ==> spec_step_at(s, start, status, out.len())
        == Some(ParseStep::EndOfTrack)
}

/// Computes [`spec_pair`].
pub fn pair(low: u8, high: u8) -> (v: u16)
    ensures
        v == spec_pair(low, high),
        v <= 0x7FFF,
{
    let v: u16 = ((high as u16) << 7) | (low as u16);
    assert(((high as u16) << 7) | (low as u16) <= 0x7FFF) by (bit_vector);
    v
}

/// Computes [`spec_triple`].
pub fn triple(b0: u8, b1: u8, b2: u8) -> (v: u32)
    ensures
        v == spec_triple(b0, b1, b2),
{
    ((b0 as u32) << 16) | ((b1 as u32) << 8) | (b2 as u32)
}

/// A decoder of the events of one track, with running status.
pub struct TrackParser {
    reader: FullRamTrackReader,
    pushback: Option<u8>,
    prev_command: u8,
    ended: bool,
}

/// A parser's state without its reader.
pub struct ParserCheckpoint {
    pushback: Option<u8>,
    prev_command: u8,
    reader_pos: u64,
    ended: bool,
}

impl ParserCheckpoint {
    pub closed spec fn spec_reader_pos(&self) -> u64 {
        self.reader_pos
    }

    pub closed spec fn spec_pushback(&self) -> Option<u8> {
        self.pushback
    }

    pub closed spec fn spec_status(&self) -> u8 {
        self.prev_command
    }

    pub closed spec fn spec_ended(&self) -> bool {
        self.ended
    }

    /// Whether the checkpoint was taken on a reader that stood where
    /// `reader` stands, over the same bytes.
    pub open spec fn fits(&self, reader: &FullRamTrackReader) -> bool {
        &&& reader.wf()
        &&& self.spec_reader_pos() == reader.spec_origin() + reader.spec_pos()
        &&& self.spec_pushback() matches Some(b) ==> reader.spec_pos() >= 1 && reader.spec_data()[
            reader.spec_pos() - 1] == b
    }

    /// The file offset at which the reader stood.
    pub fn reader_pos(&self) -> (p: u64)
        ensures
            p == self.spec_reader_pos(),
    {
        self.reader_pos
    }
}

impl TrackParser {
    /// The bytes of the track.
    pub closed spec fn spec_data(&self) -> Seq<u8> {
        self.reader.spec_data()
    }

    /// The index in [`Self::spec_data`] at which the next event starts: the
    /// reader's position, or one before it while a byte is pushed back.
    pub closed spec fn spec_cursor(&self) -> int {
        if self.pushback is Some {
            self.reader.spec_pos() - 1
        } else {
            self.reader.spec_pos()
        }
    }

    /// The running status.
    pub closed spec fn spec_status(&self) -> u8 {
        self.prev_command
    }

    /// The byte that was read in place of a status byte and waits to be
    /// read again as data.
    pub closed spec fn spec_pushback(&self) -> Option<u8> {
        self.pushback
    }

    /// Whether the parser has reached its terminal state.
    pub closed spec fn spec_ended(&self) -> bool {
        self.ended
    }

    pub closed spec fn spec_track_number(&self) -> Option<u32> {
        self.reader.spec_track_number()
    }

    /// The file offset of the first byte of [`Self::spec_data`].
    pub closed spec fn spec_origin(&self) -> int {
        self.reader.spec_origin()
    }

    /// The failure reported when the track ends inside an event.
    pub closed spec fn spec_end_error(&self) -> MIDIParseError {
        self.reader.spec_end_error()
    }

    /// The reader is well formed and a pushed-back byte is the byte just
    /// before the reader's position.
    pub closed spec fn wf(&self) -> bool {
        &&& self.reader.wf()
        &&& self.pushback matches Some(b) ==> self.reader.spec_pos() >= 1
            && self.reader.spec_data()[self.reader.spec_pos() - 1] == b
    }

    /// Whether `other` parses the same track.
    pub open spec fn same_track(&self, other: &Self) -> bool {
        &&& self.spec_data() == other.spec_data()
        &&& self.spec_track_number() == other.spec_track_number()
        &&& self.spec_origin() == other.spec_origin()
        &&& self.spec_end_error() == other.spec_end_error()
    }

    pub proof fn lemma_cursor_in_range(&self)
        requires
            self.wf(),
        ensures
            0 <= self.spec_cursor() <= self.spec_data().len(),
            self.spec_origin() + self.spec_data().len() <= u64::MAX,
    {
        self.reader.lemma_wf();
    }

    /// What a poll of the parser is to return, and the state it is to leave.
    pub open spec fn spec_next(&self) -> ParseStep {
        spec_parse_event(self.spec_data(), self.spec_cursor(), self.spec_status())
    }

    /// A parser that resumes where `checkpoint` was taken.
    pub fn from_checkpoint(reader: FullRamTrackReader, checkpoint: ParserCheckpoint) -> (p: Self)
        requires
            checkpoint.fits(&reader),
        ensures
            p.wf(),
            p.spec_data() == reader.spec_data(),
            p.spec_track_number() == reader.spec_track_number(),
            p.spec_origin() == reader.spec_origin(),
            p.spec_pushback() == checkpoint.spec_pushback(),
            p.spec_status() == checkpoint.spec_status(),
            p.spec_ended() == checkpoint.spec_ended(),
            p.spec_cursor() == reader.spec_pos() - (if checkpoint.spec_pushback() is Some {
                1int
            } else {
                0int
            }),
    {
        Self {
            reader,
            pushback: checkpoint.pushback,
            prev_command: checkpoint.prev_command,
            ended: checkpoint.ended,
        }
    }

    /// The parser's state, to resume from with a reader at the same place.
    pub fn checkpoint(&self) -> (c: ParserCheckpoint)
        requires
            self.wf(),
        ensures
            c.spec_pushback() == self.spec_pushback(),
            c.spec_status() == self.spec_status(),
            c.spec_ended() == self.spec_ended(),
            c.spec_reader_pos() == self.spec_origin() + self.spec_cursor() + (if self.spec_pushback()
                is Some {
                1int
            } else {
                0int
            }),
    {
        ParserCheckpoint {
            pushback: self.pushback,
            prev_command: self.prev_command,
            reader_pos: self.reader.pos(),
            ended: self.ended,
        }
    }

    /// A parser at the start of the region of `reader`.
    pub fn new(reader: FullRamTrackReader) -> (p: Self)
        requires
            reader.wf(),
        ensures
            p.wf(),
            p.spec_data() == reader.spec_data(),
            p.spec_cursor() == reader.spec_pos(),
            p.spec_status() == 0,
            !p.spec_ended(),
            p.spec_track_number() == reader.spec_track_number(),
            p.spec_origin() == reader.spec_origin(),
            p.spec_end_error() == reader.spec_end_error(),
    {
        Self { reader, pushback: None, prev_command: 0, ended: false }
    }

    /// The next byte of the stream: the byte pushed back, if there is one,
    /// else the reader's next byte.
    fn read(&mut self) -> (r: Result<u8, MIDIParseError>)
        requires
            old(self).wf(),
        ensures
            final(self).wf(),
            final(self).same_track(old(self)),
            final(self).prev_command == old(self).prev_command,
            final(self).ended == old(self).ended,
            final(self).pushback is None,
            old(self).spec_cursor() < old(self).spec_data().len() ==> r == Ok::<
                u8,
                MIDIParseError,
            >(old(self).spec_data()[old(self).spec_cursor()]) && final(self).spec_cursor() == old(self).spec_cursor() + 1,
            old(self).spec_cursor() >= old(self).spec_data().len() ==> r == Err::<
                u8,
                MIDIParseError,
            >(old(self).spec_end_error()) && final(self).spec_cursor() == old(self).spec_cursor(),
    {
        proof {
            self.reader.lemma_wf();
        }
        match self.pushback {
            Some(p) => {
                self.pushback = None;
                Ok(p)
            },
            None => self.reader.read(),
        }
    }

    /// The reader's next byte, while no byte is pushed back.
    fn read_fast(&mut self) -> (r: Result<u8, MIDIParseError>)
        requires
            old(self).wf(),
            old(self).pushback is None,
        ensures
            final(self).wf(),
            final(self).same_track(old(self)),
            final(self).prev_command == old(self).prev_command,
            final(self).ended == old(self).ended,
            final(self).pushback is None,
            old(self).spec_cursor() < old(self).spec_data().len() ==> r == Ok::<
                u8,
                MIDIParseError,
            >(old(self).spec_data()[old(self).spec_cursor()]) && final(self).spec_cursor() == old(self).spec_cursor() + 1,
            old(self).spec_cursor() >= old(self).spec_data().len() ==> r == Err::<
                u8,
                MIDIParseError,
            >(old(self).spec_end_error()) && final(self).spec_cursor() == old(self).spec_cursor(),
    {
        self.reader.read()
    }

    /// Reads a variable-length quantity.
    fn read_var_length(&mut self) -> (r: Result<u64, MIDIParseError>)
        requires
            old(self).wf(),
        ensures
            final(self).wf(),
            final(self).same_track(old(self)),
            final(self).prev_command == old(self).prev_command,
            final(self).ended == old(self).ended,
            final(self).pushback is None,
            match spec_read_var_length(old(self).spec_data(), old(self).spec_cursor(), 0) {
                Some((n, next)) => r == Ok::<u64, MIDIParseError>(n) && final(self).spec_cursor()
                    == next,
                None => r == Err::<u64, MIDIParseError>(old(self).spec_end_error()),
            },
    {
        let mut n: u64 = 0;
        proof {
            self.lemma_cursor_in_range();
        }
        loop
            invariant
                self.wf(),
                self.same_track(old(self)),
                self.prev_command == old(self).prev_command,
                self.ended == old(self).ended,
                0 <= self.spec_cursor() <= self.spec_data().len(),
                spec_read_var_length(old(self).spec_data(), old(self).spec_cursor(), 0)
                    == spec_read_var_length(self.spec_data(), self.spec_cursor(), n),
            decreases self.spec_data().len() - self.spec_cursor(),
        {
            let ghost before = *self;
            let byte: u8 = match self.read() {
                Ok(b) => b,
                Err(e) => {
                    return Err(e);
                },
            };
            n = (n << 7) | ((byte & 0x7F) as u64);
            if (byte & 0x80) == 0 {
                return Ok(n);
            }
            proof {
                self.lemma_cursor_in_range();
            }
        }
    }

    /// Whether `r` and the parser `self` left behind are what `step` asks of
    /// a parser that was `before`.
    pub open spec fn follows(
        &self,
        before: &Self,
        step: ParseStep,
        r: Result<Option<Delta<u64, Event>>, MIDIParseError>,
    ) -> bool {
        match step {
            ParseStep::Item { delta, event, next, status } => {
                &&& r matches Ok(Some(d))
                &&& d.delta == delta
                &&& d.event@ == event
                &&& self.spec_cursor() == next
            },
            ParseStep::EndOfTrack => r == Ok::<Option<Delta<u64, Event>>, MIDIParseError>(None),
            ParseStep::Corrupt { position } => r == Err::<
                Option<Delta<u64, Event>>,
                MIDIParseError,
            >(
                MIDIParseError::CorruptEvent {
                    track_number: before.spec_track_number(),
                    position: (before.spec_origin() + position) as u64,
                },
            ),
            ParseStep::Truncated => r == Err::<Option<Delta<u64, Event>>, MIDIParseError>(
                before.spec_end_error(),
            ),
        }
    }

    /// Reads the length byte of a meta event and holds it to `len`.
    fn expect_len(&mut self, len: u8) -> (r: Result<(), MIDIParseError>)
        requires
            old(self).wf(),
            old(self).pushback is None,
        ensures
            final(self).wf(),
            final(self).same_track(old(self)),
            final(self).prev_command == old(self).prev_command,
            final(self).ended == old(self).ended,
            final(self).pushback is None,
            old(self).spec_cursor() >= old(self).spec_data().len() ==> r == Err::<
                (),
                MIDIParseError,
            >(old(self).spec_end_error()),
            old(self).spec_cursor() < old(self).spec_data().len() && old(self).spec_data()[old(self).spec_cursor()] != len ==> r == Err::<(), MIDIParseError>(
                MIDIParseError::CorruptEvent {
                    track_number: old(self).spec_track_number(),
                    position: (old(self).spec_origin() + old(self).spec_cursor() + 1) as u64,
                },
            ),
            old(self).spec_cursor() < old(self).spec_data().len() && old(self).spec_data()[old(self).spec_cursor()] == len ==> r is Ok && final(self).spec_cursor() == old(self).spec_cursor() + 1,
    {
        let found: u8 = self.read_fast()?;
        if found != len {
            proof {
                self.lemma_cursor_in_range();
            }
            return Err(
                MIDIParseError::CorruptEvent {
                    track_number: self.reader.track_number(),
                    position: self.reader.pos(),
                },
            );
        }
        Ok(())
    }

    /// Reads the `size` bytes of a body.
    fn read_body(&mut self, size: u64) -> (r: Result<Vec<u8>, MIDIParseError>)
        requires
            old(self).wf(),
            old(self).pushback is None,
        ensures
            final(self).wf(),
            final(self).same_track(old(self)),
            final(self).prev_command == old(self).prev_command,
            final(self).ended == old(self).ended,
            final(self).pushback is None,
            old(self).spec_cursor() + size <= old(self).spec_data().len() ==> r is Ok && r->Ok_0@
                == old(self).spec_data().subrange(
                old(self).spec_cursor(),
                old(self).spec_cursor() + size,
            ) && final(self).spec_cursor() == old(self).spec_cursor() + size,
            old(self).spec_cursor() + size > old(self).spec_data().len() ==> r == Err::<
                Vec<u8>,
                MIDIParseError,
            >(old(self).spec_end_error()),
    {
        let mut data: Vec<u8> = Vec::new();
        let mut i: u64 = 0;
        proof {
            self.lemma_cursor_in_range();
        }
        while i < size
            invariant
                self.wf(),
                self.same_track(old(self)),
                self.prev_command == old(self).prev_command,
                self.ended == old(self).ended,
                self.pushback is None,
                i <= size,
                0 <= old(self).spec_cursor(),
                self.spec_cursor() == old(self).spec_cursor() + i,
                self.spec_cursor() <= self.spec_data().len(),
                self.spec_data() == old(self).spec_data(),
                data@ == self.spec_data().subrange(
                    old(self).spec_cursor(),
                    old(self).spec_cursor() + i,
                ),
            decreases size - i,
        {
            let byte: u8 = self.read_fast()?;
            data.push(byte);
            i += 1;
            proof {
                self.lemma_cursor_in_range();
                assert(data@ =~= self.spec_data().subrange(
                    old(self).spec_cursor(),
                    old(self).spec_cursor() + i,
                ));
            }
        }
        Ok(data)
    }

    /// Reads a length and the body it announces.
    fn read_sized(&mut self) -> (r: Result<Vec<u8>, MIDIParseError>)
        requires
            old(self).wf(),
        ensures
            final(self).wf(),
            final(self).same_track(old(self)),
            final(self).prev_command == old(self).prev_command,
            final(self).ended == old(self).ended,
            final(self).pushback is None,
            match spec_sized_meta(old(self).spec_data(), old(self).spec_cursor()) {
                Some((from, to)) => r is Ok && r->Ok_0@ == old(self).spec_data().subrange(from, to)
                    && final(self).spec_cursor() == to,
                None => r == Err::<Vec<u8>, MIDIParseError>(old(self).spec_end_error()),
            },
    {
        let size: u64 = self.read_var_length()?;
        self.read_body(size)
    }

    /// Reads the bytes of a system exclusive message up to its terminator.
    fn read_exclusive(&mut self) -> (r: Result<Vec<u8>, MIDIParseError>)
        requires
            old(self).wf(),
        ensures
            final(self).wf(),
            final(self).same_track(old(self)),
            final(self).prev_command == old(self).prev_command,
            final(self).ended == old(self).ended,
            final(self).pushback is None,
            match spec_find_terminator(old(self).spec_data(), old(self).spec_cursor()) {
                Some(t) => r is Ok && r->Ok_0@ == old(self).spec_data().subrange(
                    old(self).spec_cursor(),
                    t,
                ) && final(self).spec_cursor() == t + 1,
                None => r == Err::<Vec<u8>, MIDIParseError>(old(self).spec_end_error()),
            },
    {
        let mut data: Vec<u8> = Vec::new();
        proof {
            self.lemma_cursor_in_range();
        }
        loop
            invariant
                self.wf(),
                self.same_track(old(self)),
                self.prev_command == old(self).prev_command,
                self.ended == old(self).ended,
                0 <= old(self).spec_cursor() <= self.spec_cursor() <= self.spec_data().len(),
                self.spec_data() == old(self).spec_data(),
                spec_find_terminator(old(self).spec_data(), old(self).spec_cursor())
                    == spec_find_terminator(self.spec_data(), self.spec_cursor()),
                data@ == self.spec_data().subrange(old(self).spec_cursor(), self.spec_cursor()),
            decreases self.spec_data().len() - self.spec_cursor(),
        {
            let byte: u8 = self.read()?;
            if byte == 0xF7 {
                return Ok(data);
            }
            data.push(byte);
            proof {
                self.lemma_cursor_in_range();
                assert(data@ =~= self.spec_data().subrange(
                    old(self).spec_cursor(),
                    self.spec_cursor(),
                ));
            }
        }
    }

    /// Decodes a meta event whose kind byte comes next.
    fn parse_meta(&mut self, delta: u64) -> (r: Result<Option<Delta<u64, Event>>, MIDIParseError>)
        requires
            old(self).wf(),
        ensures
            final(self).wf(),
            final(self).same_track(old(self)),
            final(self).prev_command == old(self).prev_command,
            final(self).ended == old(self).ended,
            final(self).follows(
                old(self),
                spec_parse_meta(old(self).spec_data(), old(self).spec_cursor(), delta),
                r,
            ),
    {
        proof {
            self.lemma_cursor_in_range();
        }
        let kind: u8 = self.read()?;
        if kind == 0x00 {
            self.expect_len(2)?;
            Ok(Some(Event::new_delta_track_start_event(delta)))
        } else if (1 <= kind && kind <= 10) || kind == 0x7F {
            let data = self.read_sized()?;
            Ok(Some(Event::new_delta_text_event(delta, TextEventKind::from_val(kind), data)))
        } else if kind == 0x20 {
            self.expect_len(1)?;
            let prefix: u8 = self.read_fast()?;
            Ok(Some(Event::new_delta_channel_prefix_event(delta, prefix)))
        } else if kind == 0x21 {
            self.expect_len(1)?;
            let port: u8 = self.read_fast()?;
            Ok(Some(Event::new_delta_midi_port_event(delta, port)))
        } else if kind == 0x2F {
            self.expect_len(0)?;
            Ok(None)
        } else if kind == 0x51 {
            self.expect_len(3)?;
            let b0: u8 = self.read_fast()?;
            let b1: u8 = self.read_fast()?;
            let b2: u8 = self.read_fast()?;
            Ok(Some(Event::new_delta_tempo_event(delta, triple(b0, b1, b2))))
        } else if kind == 0x54 {
            self.expect_len(5)?;
            let hr: u8 = self.read_fast()?;
            let mn: u8 = self.read_fast()?;
            let se: u8 = self.read_fast()?;
            let fr: u8 = self.read_fast()?;
            let ff: u8 = self.read_fast()?;
            Ok(Some(Event::new_delta_smpte_offset_event(delta, hr, mn, se, fr, ff)))
        } else if kind == 0x58 {
            self.expect_len(4)?;
            let nn: u8 = self.read_fast()?;
            let dd: u8 = self.read_fast()?;
            let cc: u8 = self.read_fast()?;
            let bb: u8 = self.read_fast()?;
            Ok(Some(Event::new_delta_time_signature_event(delta, nn, dd, cc, bb)))
        } else if kind == 0x59 {
            self.expect_len(2)?;
            let sf: u8 = self.read_fast()?;
            let mi: u8 = self.read_fast()?;
            Ok(Some(Event::new_delta_key_signature_event(delta, sf, mi)))
        } else {
            let data = self.read_sized()?;
            Ok(Some(Event::new_delta_unknown_meta_event(delta, kind, data)))
        }
    }

    /// Decodes the event with status `command` whose data comes next.
    fn parse_body(&mut self, command: u8, delta: u64) -> (r: Result<
        Option<Delta<u64, Event>>,
        MIDIParseError,
    >)
        requires
            old(self).wf(),
        ensures
            final(self).wf(),
            final(self).same_track(old(self)),
            final(self).prev_command == old(self).prev_command,
            final(self).ended == old(self).ended,
            final(self).follows(
                old(self),
                spec_parse_body(old(self).spec_data(), old(self).spec_cursor(), command, delta),
                r,
            ),
    {
        proof {
            self.lemma_cursor_in_range();
        }
        let hi: u8 = command & 0xF0;
        let channel: u8 = command & 0x0F;
        if hi == 0x80 {
            let key: u8 = self.read()?;
            let _vel: u8 = self.read_fast()?;
            Ok(Some(Event::new_delta_note_off_event(delta, channel, key)))
        } else if hi == 0x90 {
            let key: u8 = self.read()?;
            let vel: u8 = self.read_fast()?;
            if vel == 0 {
                Ok(Some(Event::new_delta_note_off_event(delta, channel, key)))
            } else {
                Ok(Some(Event::new_delta_note_on_event(delta, channel, key, vel)))
            }
        } else if hi == 0xA0 {
            let key: u8 = self.read()?;
            let vel: u8 = self.read_fast()?;
            Ok(Some(Event::new_delta_polyphonic_key_pressure_event(delta, channel, key, vel)))
        } else if hi == 0xB0 {
            let controller: u8 = self.read()?;
            let value: u8 = self.read_fast()?;
            Ok(Some(Event::new_delta_control_change_event(delta, channel, controller, value)))
        } else if hi == 0xC0 {
            let program: u8 = self.read()?;
            Ok(Some(Event::new_delta_program_change_event(delta, channel, program)))
        } else if hi == 0xD0 {
            let pressure: u8 = self.read()?;
            Ok(Some(Event::new_delta_channel_pressure_event(delta, channel, pressure)))
        } else if hi == 0xE0 {
            let var1: u8 = self.read()?;
            let var2: u8 = self.read_fast()?;
            let raw: u16 = pair(var1, var2);
            let pitch: i16 = (raw as i32 - 8192) as i16;
            Ok(Some(Event::new_delta_pitch_wheel_change_event(delta, channel, pitch)))
        } else if command == 0xF0 {
            let data = self.read_exclusive()?;
            Ok(Some(Event::new_delta_system_exclusive_message_event(delta, data)))
        } else if command == 0xF2 {
            let var1: u8 = self.read()?;
            let var2: u8 = self.read_fast()?;
            Ok(Some(Event::new_delta_song_position_pointer_event(delta, pair(var1, var2))))
        } else if command == 0xF3 {
            let pos: u8 = self.read()?;
            Ok(Some(Event::new_delta_song_select_event(delta, pos)))
        } else if command == 0xF6 {
            Ok(Some(Event::new_delta_tune_request_event(delta)))
        } else if command == 0xF7 {
            Ok(Some(Event::new_delta_end_of_exclusive_event(delta)))
        } else if command == 0xFF {
            self.parse_meta(delta)
        } else {
            Ok(Some(Event::new_delta_undefined_event(delta, command)))
        }
    }

    /// Decodes one event, without regard to the terminal flag.
    fn parse_event(&mut self) -> (r: Result<Option<Delta<u64, Event>>, MIDIParseError>)
        requires
            old(self).wf(),
        ensures
            final(self).wf(),
            final(self).same_track(old(self)),
            final(self).ended == old(self).ended,
            final(self).follows(old(self), old(self).spec_next(), r),
            old(self).spec_next() matches ParseStep::Item { status, .. } ==> final(self).prev_command == status,
    {
        let delta: u64 = self.read_var_length()?;
        proof {
            self.lemma_cursor_in_range();
        }
        let first: u8 = self.read()?;
        let mut command: u8 = first;
        if first < 0x80 {
            proof {
                self.reader.lemma_wf();
            }
            self.pushback = Some(first);
            command = self.prev_command;
        }
        self.prev_command = command;
        self.parse_body(command, delta)
    }

    /// Whether `out` is what the polls of a parser give that stood at
    /// `start` under running status `status`; see [`spec_collected_from`].
    pub open spec fn spec_collected(
        &self,
        out: Seq<Result<Delta<u64, Event>, MIDIParseError>>,
        start: int,
        status: u8,
    ) -> bool {
        spec_collected_from(
            out,
            self.spec_data(),
            start,
            status,
            self.spec_track_number(),
            self.spec_origin(),
            self.spec_end_error(),
        )
    }

    /// Polls the parser to its end and gathers what it gives.
    pub fn collect(&mut self) -> (out: Vec<Result<Delta<u64, Event>, MIDIParseError>>)
        requires
            old(self).wf(),
            !old(self).spec_ended(),
        ensures
            final(self).wf(),
            final(self).same_track(old(self)),
            final(self).spec_ended(),
            old(self).spec_collected(out@, old(self).spec_cursor(), old(self).spec_status()),
    {
        let mut out: Vec<Result<Delta<u64, Event>, MIDIParseError>> = Vec::new();
        let ghost s = self.spec_data();
        let ghost start = self.spec_cursor();
        let ghost status = self.spec_status();
        proof {
            self.lemma_cursor_in_range();
        }
        loop
            invariant
                self.wf(),
                self.same_track(old(self)),
                !self.spec_ended(),
                s == old(self).spec_data(),
                start == old(self).spec_cursor(),
                status == old(self).spec_status(),
                0 <= self.spec_cursor() <= s.len(),
                spec_state_after(s, start, status, out@.len()) == Some(
                    (self.spec_cursor(), self.spec_status()),
                ),
                forall|k: int|
                    0 <= k < out@.len() ==> match spec_step_at(s, start, status, k as nat) {
                        Some(ParseStep::Item { delta, event, .. }) => (#[trigger] out@[k]) matches Ok(
                            d,
                        ) && d.delta == delta && d.event@ == event,
                        _ => false,
                    },
            decreases s.len() - self.spec_cursor(),
        {
            let ghost before = out@;
            proof {
                lemma_step_advances(s, self.spec_cursor(), self.spec_status());
            }
            match self.next() {
                None => {
                    return out;
                },
                Some(Err(e)) => {
                    out.push(Err(e));
                    proof {
                        assert forall|k: int| 0 <= k < before.len() implies out@[k] == before[k] by {}
                    }
                    return out;
                },
                Some(Ok(d)) => {
                    out.push(Ok(d));
                    proof {
                        assert forall|k: int| 0 <= k < before.len() implies out@[k] == before[k] by {}
                    }
                },
            }
        }
    }

    /// The next event of the track. After the end-of-track event, and after
    /// the one failure that a broken track gives, there is nothing more.
    pub fn next(&mut self) -> (r: Option<Result<Delta<u64, Event>, MIDIParseError>>)
        requires
            old(self).wf(),
        ensures
            final(self).wf(),
            final(self).same_track(old(self)),
            old(self).spec_ended() ==> r is None && final(self).spec_ended() && final(self).spec_cursor() == old(self).spec_cursor() && final(self).spec_pushback() == old(self).spec_pushback() && final(self).spec_status() == old(self).spec_status(),
            !old(self).spec_ended() ==> match old(self).spec_next() {
                ParseStep::Item { delta, event, next, status } => {
                    &&& r matches Some(Ok(d))
                    &&& d.delta == delta
                    &&& d.event@ == event
                    &&& final(self).spec_cursor() == next
                    &&& final(self).spec_status() == status
                    &&& !final(self).spec_ended()
                },
                ParseStep::EndOfTrack => r is None && final(self).spec_ended(),
                ParseStep::Corrupt { position } => final(self).spec_ended() && r == Some(
                    Err::<Delta<u64, Event>, MIDIParseError>(
                        MIDIParseError::CorruptEvent {
                            track_number: old(self).spec_track_number(),
                            position: (old(self).spec_origin() + position) as u64,
                        },
                    ),
                ),
                ParseStep::Truncated => final(self).spec_ended() && r == Some(
                    Err::<Delta<u64, Event>, MIDIParseError>(old(self).spec_end_error()),
                ),
            },
    {
        if self.ended {
            return None;
        }
        match self.parse_event() {
            Ok(Some(e)) => Some(Ok(e)),
            Ok(None) => {
                self.ended = true;
                None
            },
            Err(e) => {
                self.ended = true;
                Some(Err(e))
            },
        }
    }
}

} // verus!
