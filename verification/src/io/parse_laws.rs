use vstd::prelude::*;
use crate::events::events::is_text_kind;
use crate::events::events::pitch_high;
use crate::events::events::pitch_low;
use crate::events::events::TextEventKind;
use crate::events::spec_encode_var_length_value;
use crate::events::Event;
use crate::events::SerializeEvent;
use crate::io::track_parser::lemma_find_advances;
use crate::io::track_parser::lemma_read_advances;
use crate::io::track_parser::lemma_step_advances;
use crate::io::track_parser::spec_state_after;
use crate::io::track_parser::spec_step_at;
use crate::io::track_parser::lemma_var_length_round_trip;
use crate::io::track_parser::spec_pair;
use crate::io::track_parser::spec_triple;
use crate::io::track_parser::spec_find_terminator;
use crate::io::track_parser::spec_fixed_meta;
use crate::io::track_parser::spec_parse_body;
use crate::io::track_parser::spec_parse_event;
use crate::io::track_parser::spec_parse_meta;
use crate::io::track_parser::spec_read_var_length;
use crate::io::track_parser::spec_sized_meta;
use crate::io::track_parser::ParseStep;

verus! {

/// `step` with every position in it moved on by `by` bytes.
pub open spec fn spec_shift(step: ParseStep, by: int) -> ParseStep {
    match step {
        ParseStep::Item { delta, event, next, status } => ParseStep::Item {
            delta,
            event,
            next: next + by,
            status,
        },
        ParseStep::EndOfTrack => ParseStep::EndOfTrack,
        ParseStep::Corrupt { position } => ParseStep::Corrupt { position: position + by },
        ParseStep::Truncated => ParseStep::Truncated,
    }
}

/// Whether `s1` from `k1` on holds the bytes that `s2` holds from `k2` on.
pub open spec fn spec_same_from(s1: Seq<u8>, k1: int, s2: Seq<u8>, k2: int) -> bool {
    &&& 0 <= k1 <= s1.len()
    &&& 0 <= k2 <= s2.len()
    &&& s1.skip(k1) == s2.skip(k2)
}

pub proof fn lemma_same_at(s1: Seq<u8>, k1: int, s2: Seq<u8>, k2: int, x: int)
    requires
        spec_same_from(s1, k1, s2, k2),
        0 <= x,
    ensures
        s1.len() - k1 == s2.len() - k2,
        x < s1.len() - k1 ==> s1[k1 + x] == s2[k2 + x],
        x <= s1.len() - k1 ==> spec_same_from(s1, k1 + x, s2, k2 + x),
{
    assert(s1.skip(k1).len() == s2.skip(k2).len());
    if x < s1.len() - k1 {
        assert(s1.skip(k1)[x] == s1[k1 + x]);
        assert(s2.skip(k2)[x] == s2[k2 + x]);
    }
    if x <= s1.len() - k1 {
        assert(s1.skip(k1 + x) =~= s1.skip(k1).skip(x));
        assert(s2.skip(k2 + x) =~= s2.skip(k2).skip(x));
    }
}

pub proof fn lemma_same_range(s1: Seq<u8>, k1: int, s2: Seq<u8>, k2: int, a: int, b: int)
    requires
        spec_same_from(s1, k1, s2, k2),
        0 <= a <= b <= s1.len() - k1,
    ensures
        s1.subrange(k1 + a, k1 + b) == s2.subrange(k2 + a, k2 + b),
{
    lemma_same_at(s1, k1, s2, k2, 0);
    let r1 = s1.subrange(k1 + a, k1 + b);
    let r2 = s2.subrange(k2 + a, k2 + b);
    assert forall|x: int| 0 <= x < b - a implies #[trigger] r1[x] == r2[x] by {
        lemma_same_at(s1, k1, s2, k2, a + x);
    }
    assert(r1 =~= r2);
}

/// A variable-length quantity is read the same wherever it stands.
pub proof fn lemma_read_same(s1: Seq<u8>, k1: int, s2: Seq<u8>, k2: int, acc: u64)
    requires
        spec_same_from(s1, k1, s2, k2),
    ensures
        match spec_read_var_length(s2, k2, acc) {
            Some((v, j)) => spec_read_var_length(s1, k1, acc) == Some((v, j + (k1 - k2))) && k2
                < j <= s2.len(),
            None => spec_read_var_length(s1, k1, acc) is None,
        },
    decreases s1.len() - k1,
{
    lemma_same_at(s1, k1, s2, k2, 0);
    if k1 < s1.len() {
        lemma_same_at(s1, k1, s2, k2, 1);
        let n = (acc << 7) | ((s1[k1] & 0x7F) as u64);
        if s1[k1] & 0x80 != 0 {
            lemma_read_same(s1, k1 + 1, s2, k2 + 1, n);
        }
    }
}

/// The end of a system exclusive message is found the same wherever the
/// message stands.
pub proof fn lemma_find_same(s1: Seq<u8>, k1: int, s2: Seq<u8>, k2: int)
    requires
        spec_same_from(s1, k1, s2, k2),
    ensures
        match spec_find_terminator(s2, k2) {
            Some(t) => spec_find_terminator(s1, k1) == Some(t + (k1 - k2)) && k2 <= t < s2.len(),
            None => spec_find_terminator(s1, k1) is None,
        },
    decreases s1.len() - k1,
{
    lemma_same_at(s1, k1, s2, k2, 0);
    if k1 < s1.len() {
        lemma_same_at(s1, k1, s2, k2, 1);
        if s1[k1] != 0xF7 {
            lemma_find_same(s1, k1 + 1, s2, k2 + 1);
        }
    }
}

proof fn lemma_sized_same(s1: Seq<u8>, k1: int, s2: Seq<u8>, k2: int)
    requires
        spec_same_from(s1, k1, s2, k2),
    ensures
        match spec_sized_meta(s2, k2) {
            Some((from, to)) => spec_sized_meta(s1, k1) == Some(
                (from + (k1 - k2), to + (k1 - k2)),
            ) && s1.subrange(from + (k1 - k2), to + (k1 - k2)) == s2.subrange(from, to),
            None => spec_sized_meta(s1, k1) is None,
        },
{
    lemma_read_same(s1, k1, s2, k2, 0);
    lemma_same_at(s1, k1, s2, k2, 0);
    match spec_read_var_length(s2, k2, 0) {
        Some((size, b)) => {
            if b + size <= s2.len() {
                lemma_same_range(s1, k1, s2, k2, b - k2, b - k2 + size);
            }
        },
        None => {},
    }
}

/// A meta event is decoded the same wherever it stands.
pub proof fn lemma_meta_same(s1: Seq<u8>, k1: int, s2: Seq<u8>, k2: int, delta: u64)
    requires
        spec_same_from(s1, k1, s2, k2),
    ensures
        spec_parse_meta(s1, k1, delta) == spec_shift(spec_parse_meta(s2, k2, delta), k1 - k2),
{
    lemma_same_at(s1, k1, s2, k2, 0);
    lemma_same_at(s1, k1, s2, k2, 1);
    lemma_same_at(s1, k1, s2, k2, 2);
    lemma_same_at(s1, k1, s2, k2, 3);
    lemma_same_at(s1, k1, s2, k2, 4);
    lemma_same_at(s1, k1, s2, k2, 5);
    lemma_same_at(s1, k1, s2, k2, 6);
    if k1 < s1.len() {
        lemma_sized_same(s1, k1 + 1, s2, k2 + 1);
        let kind = s1[k1];
        assert(kind == s2[k2]);
        let step = spec_parse_meta(s2, k2, delta);
        if kind == 0x00 {
        } else if is_text_kind(kind) {
        } else if kind == 0x20 || kind == 0x21 {
            assert(spec_parse_meta(s1, k1, delta) == spec_shift(step, k1 - k2));
        } else if kind == 0x2F {
        } else if kind == 0x51 {
            assert(spec_parse_meta(s1, k1, delta) == spec_shift(step, k1 - k2));
        } else if kind == 0x54 {
            assert(spec_parse_meta(s1, k1, delta) == spec_shift(step, k1 - k2));
        } else if kind == 0x58 {
            assert(spec_parse_meta(s1, k1, delta) == spec_shift(step, k1 - k2));
        } else if kind == 0x59 {
            assert(spec_parse_meta(s1, k1, delta) == spec_shift(step, k1 - k2));
        } else {
        }
    }
}

/// An event is decoded the same wherever its data stands.
pub proof fn lemma_body_same(s1: Seq<u8>, k1: int, s2: Seq<u8>, k2: int, cmd: u8, delta: u64)
    requires
        spec_same_from(s1, k1, s2, k2),
    ensures
        spec_parse_body(s1, k1, cmd, delta) == spec_shift(
            spec_parse_body(s2, k2, cmd, delta),
            k1 - k2,
        ),
{
    lemma_same_at(s1, k1, s2, k2, 0);
    lemma_same_at(s1, k1, s2, k2, 1);
    lemma_same_at(s1, k1, s2, k2, 2);
    if cmd == 0xF0 {
        lemma_find_same(s1, k1, s2, k2);
        match spec_find_terminator(s2, k2) {
            Some(t) => {
                lemma_same_range(s1, k1, s2, k2, 0, t - k2);
            },
            None => {},
        }
    }
    if cmd == 0xFF {
        lemma_meta_same(s1, k1, s2, k2, delta);
    }
}

/// Running status stands for the status byte it leaves out. Where the
/// byte after a delta is a data byte, the event is decoded as it would be
/// with the running status written out in front of that byte; the decoded
/// event then ends one byte later.
pub proof fn lemma_running_status(s: Seq<u8>, i: int, status: u8, other: u8)
    requires
        0 <= i,
        status >= 0x80,
        spec_read_var_length(s, i, 0) matches Some((delta, j)) && j < s.len() && s[j] < 0x80,
    ensures
        ({
            let j = spec_read_var_length(s, i, 0)->Some_0.1;
            let written_out = s.subrange(0, j) + seq![status] + s.skip(j);
            spec_parse_event(written_out, i, other) == spec_shift(
                spec_parse_event(s, i, status),
                1,
            )
        }),
{
    let delta = spec_read_var_length(s, i, 0)->Some_0.0;
    let j = spec_read_var_length(s, i, 0)->Some_0.1;
    let written_out = s.subrange(0, j) + seq![status] + s.skip(j);
    lemma_read_advances(s, i, 0);
    lemma_read_prefix_only(s, written_out, i, 0, j);
    assert(written_out[j] == status);
    assert(written_out.skip(j + 1) =~= s.skip(j));
    lemma_body_same(written_out, j + 1, s, j, status, delta);
}

/// A variable-length quantity depends on its own bytes only.
pub proof fn lemma_read_prefix_only(s1: Seq<u8>, s2: Seq<u8>, i: int, acc: u64, j: int)
    requires
        0 <= i,
        spec_read_var_length(s1, i, acc) matches Some((v, end)) && end == j,
        j <= s2.len(),
        forall|x: int| i <= x < j ==> s1[x] == s2[x],
    ensures
        spec_read_var_length(s2, i, acc) == spec_read_var_length(s1, i, acc),
    decreases s1.len() - i,
{
    lemma_read_advances(s1, i, acc);
    if i < s1.len() && s1[i] & 0x80 != 0 {
        lemma_read_prefix_only(s1, s2, i + 1, (acc << 7) | ((s1[i] & 0x7F) as u64), j);
    }
}

/// Whether `kind` is a meta kind that this library reads as a meta event
/// of unknown kind.
pub open spec fn spec_unknown_kind(kind: u8) -> bool {
    !is_text_kind(kind) && kind != 0x00 && kind != 0x20 && kind != 0x21 && kind != 0x2F && kind
        != 0x51 && kind != 0x54 && kind != 0x58 && kind != 0x59
}

/// Whether `status` is a status byte that this library reads as an event
/// without a meaning.
pub open spec fn spec_undefined_status(status: u8) -> bool {
    status & 0xF0 == 0xF0 && status != 0xF0 && status != 0xF2 && status != 0xF3 && status != 0xF6
        && status != 0xF7 && status != 0xFF
}

/// Whether the wire form of `e` is read back as `e`: its fields are in the
/// range of the wire form, and it is written as the kind of event that it
/// is read as.
pub open spec fn spec_round_trips(e: Event) -> bool {
    match e {
        Event::NoteOn(x) => x.channel < 16 && x.velocity != 0,
        Event::NoteOff(x) => x.channel < 16,
        Event::PolyphonicKeyPressure(x) => x.channel < 16,
        Event::ControlChange(x) => x.channel < 16,
        Event::ProgramChange(x) => x.channel < 16,
        Event::ChannelPressure(x) => x.channel < 16,
        Event::PitchWheelChange(x) => x.channel < 16 && -8192 <= x.pitch <= 8191,
        Event::SystemExclusiveMessage(x) => forall|i: int|
            0 <= i < x.data@.len() ==> x.data@[i] != 0xF7,
        Event::Undefined(x) => spec_undefined_status(x.event),
        Event::SongPositionPointer(x) => x.position < 0x4000,
        Event::Text(x) => x.bytes@.len() <= u64::MAX,
        Event::UnknownMeta(x) => spec_unknown_kind(x.kind) && x.bytes@.len() <= u64::MAX,
        Event::Color(x) => false,
        Event::Tempo(x) => x.tempo < 0x1000000,
        _ => true,
    }
}

proof fn lemma_channel_status(base: u8, channel: u8)
    by (bit_vector)
    requires
        channel < 16,
        base == 0x80 || base == 0x90 || base == 0xA0 || base == 0xB0 || base == 0xC0 || base
            == 0xD0 || base == 0xE0,
    ensures
        (base | channel) & 0xF0 == base,
        (base | channel) & 0x0F == channel,
        (base | channel) >= 0x80,
{
}

proof fn lemma_system_status()
    by (bit_vector)
    ensures
        0xF0u8 & 0xF0 == 0xF0,
        0xF2u8 & 0xF0 == 0xF0,
        0xF3u8 & 0xF0 == 0xF0,
        0xF6u8 & 0xF0 == 0xF0,
        0xF7u8 & 0xF0 == 0xF0,
        0xFFu8 & 0xF0 == 0xF0,
        forall|b: u8| b & 0xF0 == 0xF0 ==> b >= 0x80,
{
}

proof fn lemma_pair_of_position(position: u16)
    by (bit_vector)
    requires
        position < 0x4000,
    ensures
        (((((position >> 7) & 0x7F) as u8) as u16) << 7) | (((position & 0x7F) as u8) as u16)
            == position,
{
}

proof fn lemma_triple_of_tempo(tempo: u32)
    by (bit_vector)
    requires
        tempo < 0x1000000,
    ensures
        (((((tempo >> 16) & 0xFF) as u8) as u32) << 16) | (((((tempo >> 8) & 0xFF) as u8) as u32)
            << 8) | (((tempo & 0xFF) as u8) as u32) == tempo,
{
}

proof fn lemma_pair_of_pitch(value: i32)
    by (bit_vector)
    requires
        0 <= value < 0x4000,
    ensures
        (((((value >> 7) & 0x7F) as u8) as u16) << 7) | (((value & 0x7F) as u8) as u16) == value,
{
}

proof fn lemma_find_in_data(t: Seq<u8>, i: int, end: int)
    requires
        0 <= i <= end < t.len(),
        t[end] == 0xF7,
        forall|x: int| i <= x < end ==> t[x] != 0xF7,
    ensures
        spec_find_terminator(t, i) == Some(end),
    decreases end - i,
{
    if i < end {
        lemma_find_in_data(t, i + 1, end);
    }
}

proof fn lemma_sized_of_wire(t: Seq<u8>, body: Seq<u8>, rest: Seq<u8>)
    requires
        body.len() <= u64::MAX,
        t.len() >= 2,
        t.skip(2) == spec_encode_var_length_value(body.len()) + body + rest,
    ensures
        spec_sized_meta(t, 2) == Some(
            (
                2 + spec_encode_var_length_value(body.len()).len() as int,
                (2 + spec_encode_var_length_value(body.len()).len() + body.len()) as int,
            ),
        ),
        t.subrange(
            2 + spec_encode_var_length_value(body.len()).len() as int,
            (2 + spec_encode_var_length_value(body.len()).len() + body.len()) as int,
        ) == body,
{
    let vlq = spec_encode_var_length_value(body.len());
    let u = vlq + (body + rest);
    assert(u =~= vlq + body + rest);
    lemma_var_length_round_trip(body.len() as u64, body + rest);
    assert(u.skip(0) =~= u);
    lemma_read_same(t, 2, u, 0, 0);
    assert(t.subrange(2 + vlq.len() as int, (2 + vlq.len() + body.len()) as int) =~= body) by {
        assert forall|x: int| 0 <= x < body.len() implies t[2 + vlq.len() + x] == body[x] by {
            assert(t.skip(2)[vlq.len() + x] == t[2 + vlq.len() + x]);
        }
    }
}

/// What is written for an event, after its status byte, is read back as
/// that event.
proof fn lemma_body_of_wire(e: Event, delta: u64, rest: Seq<u8>)
    requires
        spec_round_trips(e),
    ensures
        e.wire_bytes().len() >= 1,
        e.wire_bytes()[0] >= 0x80,
        spec_parse_body(e.wire_bytes() + rest, 1, e.wire_bytes()[0], delta) == (ParseStep::Item {
            delta,
            event: e@,
            next: e.wire_bytes().len() as int,
            status: e.wire_bytes()[0],
        }),
{
    let wire = e.wire_bytes();
    let t = wire + rest;
    lemma_system_status();
    match e {
        Event::NoteOn(x) => {
            lemma_channel_status(0x90, x.channel);
            assert(t[1] == wire[1] && t[2] == wire[2]);
        },
        Event::NoteOff(x) => {
            lemma_channel_status(0x80, x.channel);
            assert(t[1] == wire[1] && t[2] == wire[2]);
        },
        Event::PolyphonicKeyPressure(x) => {
            lemma_channel_status(0xA0, x.channel);
            assert(t[1] == wire[1] && t[2] == wire[2]);
        },
        Event::ControlChange(x) => {
            lemma_channel_status(0xB0, x.channel);
            assert(t[1] == wire[1] && t[2] == wire[2]);
        },
        Event::ProgramChange(x) => {
            lemma_channel_status(0xC0, x.channel);
            assert(t[1] == wire[1]);
        },
        Event::ChannelPressure(x) => {
            lemma_channel_status(0xD0, x.channel);
            assert(t[1] == wire[1]);
        },
        Event::PitchWheelChange(x) => {
            lemma_channel_status(0xE0, x.channel);
            assert(t[1] == wire[1] && t[2] == wire[2]);
            let value = (x.pitch as i32 + 8192) as i32;
            lemma_pair_of_pitch(value);
            assert(spec_pair(pitch_low(x.pitch), pitch_high(x.pitch)) == value);
        },
        Event::SystemExclusiveMessage(x) => {
            let n = x.data@.len() as int;
            assert(wire.len() == n + 2);
            assert(t[n + 1] == 0xF7);
            assert forall|i: int| 1 <= i < n + 1 implies t[i] != 0xF7 by {
                assert(t[i] == x.data@[i - 1]);
            }
            lemma_find_in_data(t, 1, n + 1);
            assert(t.subrange(1, n + 1) =~= x.data@);
        },
        Event::Undefined(x) => {},
        Event::SongPositionPointer(x) => {
            assert(t[1] == wire[1] && t[2] == wire[2]);
            lemma_pair_of_position(x.position);
        },
        Event::SongSelect(x) => {
            assert(t[1] == wire[1]);
        },
        Event::TuneRequest(x) => {},
        Event::EndOfExclusive(x) => {},
        Event::TrackStart(x) => {
            assert(t[1] == wire[1] && t[2] == wire[2]);
        },
        Event::Text(x) => {
            let kind = x.kind.spec_as_u8();
            assert(is_text_kind(kind) && TextEventKind::spec_from_val(kind) == x.kind);
            assert(t[1] == kind);
            assert(t.skip(2) =~= spec_encode_var_length_value(x.bytes@.len()) + x.bytes@ + rest);
            lemma_sized_of_wire(t, x.bytes@, rest);
        },
        Event::UnknownMeta(x) => {
            assert(t[1] == x.kind);
            assert(t.skip(2) =~= spec_encode_var_length_value(x.bytes@.len()) + x.bytes@ + rest);
            lemma_sized_of_wire(t, x.bytes@, rest);
        },
        Event::Color(x) => {},
        Event::ChannelPrefix(x) => {
            assert(t[1] == wire[1] && t[2] == wire[2] && t[3] == wire[3]);
        },
        Event::MIDIPort(x) => {
            assert(t[1] == wire[1] && t[2] == wire[2] && t[3] == wire[3]);
        },
        Event::Tempo(x) => {
            assert(t[1] == wire[1] && t[2] == wire[2] && t[3] == wire[3] && t[4] == wire[4]
                && t[5] == wire[5]);
            lemma_triple_of_tempo(x.tempo);
        },
        Event::SMPTEOffset(x) => {
            assert(t[1] == wire[1] && t[2] == wire[2] && t[3] == wire[3] && t[4] == wire[4]
                && t[5] == wire[5] && t[6] == wire[6] && t[7] == wire[7]);
        },
        Event::TimeSignature(x) => {
            assert(t[1] == wire[1] && t[2] == wire[2] && t[3] == wire[3] && t[4] == wire[4]
                && t[5] == wire[5] && t[6] == wire[6]);
        },
        Event::KeySignature(x) => {
            assert(t[1] == wire[1] && t[2] == wire[2] && t[3] == wire[3] && t[4] == wire[4]);
        },
    }
}

/// Writing and reading are inverse. The bytes written for a delta and an
/// event whose fields are in range are read back, under any running status
/// and whatever follows them, as that delta and that event, and the reading
/// ends where the written bytes end. So the bytes that are read as an event
/// are the bytes that are written for it.
pub proof fn lemma_parse_serialize_round_trip(e: Event, delta: u64, rest: Seq<u8>, status: u8)
    requires
        spec_round_trips(e),
    ensures
        e.serializable(),
        spec_parse_event(
            spec_encode_var_length_value(delta as nat) + e.wire_bytes() + rest,
            0,
            status,
        ) == (ParseStep::Item {
            delta,
            event: e@,
            next: (spec_encode_var_length_value(delta as nat).len() + e.wire_bytes().len()) as int,
            status: e.wire_bytes()[0],
        }),
{
    let vlq = spec_encode_var_length_value(delta as nat);
    let wire = e.wire_bytes();
    let t = wire + rest;
    let s = vlq + wire + rest;
    assert(s =~= vlq + t);
    lemma_var_length_round_trip(delta, t);
    lemma_body_of_wire(e, delta, rest);
    let at = vlq.len() as int;
    assert(s[at] == wire[0]);
    assert(s.skip(at + 1) =~= t.skip(1));
    lemma_body_same(s, at + 1, t, 1, wire[0], delta);
}

/// The wire form of an event depends on what the event is, not on the
/// vectors that hold its bytes.
pub proof fn lemma_wire_of_view(a: Event, b: Event)
    requires
        a@ == b@,
    ensures
        a.wire_bytes() == b.wire_bytes(),
        a.serializable() == b.serializable(),
{
}

/// What is read is written back as it stood. Where the bytes `b` of an
/// event with its status byte, behind the delta `delta`, are those of an
/// event whose fields are in range, they are read as an event `p` that is
/// written, with its delta, as the variable-length quantity of `delta` and
/// then `b`.
pub proof fn lemma_read_is_written_back(
    e: Event,
    p: Event,
    delta: u64,
    rest: Seq<u8>,
    status: u8,
)
    requires
        spec_round_trips(e),
        spec_parse_event(
            spec_encode_var_length_value(delta as nat) + e.wire_bytes() + rest,
            0,
            status,
        ) matches ParseStep::Item { delta: d, event, .. } && p@ == event,
    ensures
        p.serializable(),
        spec_parse_event(
            spec_encode_var_length_value(delta as nat) + e.wire_bytes() + rest,
            0,
            status,
        ) matches ParseStep::Item { delta: d, .. } && spec_encode_var_length_value(d as nat)
            + p.wire_bytes() == spec_encode_var_length_value(delta as nat) + e.wire_bytes(),
{
    lemma_parse_serialize_round_trip(e, delta, rest, status);
    lemma_wire_of_view(p, e);
}

/// An event is decoded the same wherever it stands.
pub proof fn lemma_event_same(s1: Seq<u8>, k1: int, s2: Seq<u8>, k2: int, status: u8)
    requires
        spec_same_from(s1, k1, s2, k2),
    ensures
        spec_parse_event(s1, k1, status) == spec_shift(
            spec_parse_event(s2, k2, status),
            k1 - k2,
        ),
{
    lemma_read_same(s1, k1, s2, k2, 0);
    lemma_same_at(s1, k1, s2, k2, 0);
    match spec_read_var_length(s2, k2, 0) {
        Some((delta, j)) => {
            if j < s2.len() {
                lemma_same_at(s1, k1, s2, k2, j - k2);
                lemma_same_at(s1, k1, s2, k2, j - k2 + 1);
                if s2[j] < 0x80 {
                    lemma_body_same(s1, j + (k1 - k2), s2, j, status, delta);
                } else {
                    lemma_body_same(s1, j + 1 + (k1 - k2), s2, j + 1, s2[j], delta);
                }
            }
        },
        None => {},
    }
}

proof fn lemma_next_state_same(s1: Seq<u8>, c1: int, s2: Seq<u8>, c2: int, running: u8)
    requires
        spec_same_from(s1, c1, s2, c2),
    ensures
        match spec_parse_event(s2, c2, running) {
            ParseStep::Item { next, status: after, .. } => spec_parse_event(s1, c1, running)
                matches ParseStep::Item { next: n1, status: a1, .. } && n1 == next + (c1 - c2)
                && a1 == after && spec_same_from(s1, n1, s2, next),
            _ => !(spec_parse_event(s1, c1, running) is Item),
        },
{
    lemma_event_same(s1, c1, s2, c2, running);
    lemma_step_advances(s2, c2, running);
    match spec_parse_event(s2, c2, running) {
        ParseStep::Item { next, .. } => {
            lemma_same_at(s1, c1, s2, c2, next - c2);
        },
        _ => {},
    }
}

proof fn lemma_states_same(s1: Seq<u8>, k1: int, s2: Seq<u8>, k2: int, status: u8, n: nat)
    requires
        spec_same_from(s1, k1, s2, k2),
    ensures
        match spec_state_after(s2, k2, status, n) {
            Some((at, running)) => spec_state_after(s1, k1, status, n) == Some(
                (at + (k1 - k2), running),
            ) && spec_same_from(s1, at + (k1 - k2), s2, at),
            None => spec_state_after(s1, k1, status, n) is None,
        },
    decreases n,
{
    if n > 0 {
        lemma_states_same(s1, k1, s2, k2, status, (n - 1) as nat);
        match spec_state_after(s2, k2, status, (n - 1) as nat) {
            Some((at, running)) => {
                lemma_next_state_same(s1, at + (k1 - k2), s2, at, running);
            },
            None => {},
        }
    }
}

/// From a place on from which two tracks hold the same bytes, they hold
/// the same events, item for item.
pub proof fn lemma_steps_same(s1: Seq<u8>, k1: int, s2: Seq<u8>, k2: int, status: u8, n: nat)
    requires
        spec_same_from(s1, k1, s2, k2),
    ensures
        match spec_step_at(s2, k2, status, n) {
            Some(step) => spec_step_at(s1, k1, status, n) == Some(spec_shift(step, k1 - k2)),
            None => spec_step_at(s1, k1, status, n) is None,
        },
{
    lemma_states_same(s1, k1, s2, k2, status, n);
    match spec_state_after(s2, k2, status, n) {
        Some((at, running)) => {
            lemma_event_same(s1, at + (k1 - k2), s2, at, running);
        },
        None => {},
    }
}

proof fn lemma_find_prefix_only(s1: Seq<u8>, s2: Seq<u8>, i: int, t: int)
    requires
        0 <= i,
        spec_find_terminator(s1, i) == Some(t),
        t < s2.len(),
        forall|x: int| i <= x <= t ==> #[trigger] s1[x] == s2[x],
    ensures
        spec_find_terminator(s2, i) == Some(t),
    decreases s1.len() - i,
{
    lemma_find_advances(s1, i);
    if i < s1.len() && s1[i] != 0xF7 {
        lemma_find_advances(s1, i + 1);
        lemma_find_prefix_only(s1, s2, i + 1, t);
    }
}

/// An event depends on its own bytes and on the byte after them only.
pub proof fn lemma_event_prefix_only(s1: Seq<u8>, s2: Seq<u8>, i: int, status: u8)
    requires
        0 <= i,
        spec_parse_event(s1, i, status) matches ParseStep::Item { next, .. } && next < s1.len()
            && next < s2.len() && (forall|x: int| i <= x <= next ==> #[trigger] s1[x] == s2[x]),
    ensures
        spec_parse_event(s2, i, status) == spec_parse_event(s1, i, status),
{
    let next = spec_parse_event(s1, i, status)->Item_next;
    lemma_read_advances(s1, i, 0);
    let delta = spec_read_var_length(s1, i, 0)->Some_0.0;
    let j = spec_read_var_length(s1, i, 0)->Some_0.1;
    let cmd = if s1[j] < 0x80 {
        status
    } else {
        s1[j]
    };
    let k = if s1[j] < 0x80 {
        j
    } else {
        j + 1
    };
    assert(spec_parse_event(s1, i, status) == spec_parse_body(s1, k, cmd, delta));
    lemma_find_advances(s1, k);
    lemma_read_advances(s1, k + 1, 0);
    assert(k <= next);
    lemma_read_prefix_only(s1, s2, i, 0, j);
    assert(s1[j] == s2[j]);
    lemma_system_status();
    if cmd == 0xF0 {
        let t = spec_find_terminator(s1, k)->Some_0;
        lemma_find_prefix_only(s1, s2, k, t);
        assert(s1.subrange(k, t) =~= s2.subrange(k, t));
    } else if cmd == 0xFF {
        assert(s1[k] == s2[k]);
        let kind = s1[k];
        if is_text_kind(kind) || spec_unknown_kind(kind) {
            let size = spec_read_var_length(s1, k + 1, 0)->Some_0.0;
            let b = spec_read_var_length(s1, k + 1, 0)->Some_0.1;
            lemma_read_prefix_only(s1, s2, k + 1, 0, b);
            assert(s1.subrange(b, b + size) =~= s2.subrange(b, b + size));
        } else {
            assert(s1[k + 1] == s2[k + 1]);
        }
    }
}

/// The places at which events start never fall.
pub proof fn lemma_states_rise(s: Seq<u8>, start: int, status: u8, n: nat, m: nat)
    requires
        0 <= start,
        n <= m,
        spec_state_after(s, start, status, m) is Some,
    ensures
        spec_state_after(s, start, status, n) is Some,
        start <= spec_state_after(s, start, status, n)->Some_0.0 <= spec_state_after(
            s,
            start,
            status,
            m,
        )->Some_0.0,
    decreases m,
{
    if m > 0 {
        let before = spec_state_after(s, start, status, (m - 1) as nat);
        if n < m {
            lemma_states_rise(s, start, status, n, (m - 1) as nat);
        } else {
            lemma_states_rise(s, start, status, (m - 1) as nat, (m - 1) as nat);
        }
        lemma_step_advances(s, before->Some_0.0, before->Some_0.1);
    }
}

/// The track `b1` with the byte `running` written in at place `j`.
pub open spec fn spec_written_out(b1: Seq<u8>, j: int, running: u8) -> Seq<u8> {
    b1.subrange(0, j) + seq![running] + b1.skip(j)
}

/// Whether event number `m` of the track `b1` leaves out its status byte,
/// which would stand at place `j`, under the running status `running`.
pub open spec fn spec_leaves_out(b1: Seq<u8>, status0: u8, m: nat, j: int, running: u8) -> bool {
    &&& spec_state_after(b1, 0, status0, m) matches Some((at, st))
    &&& st == running
    &&& running >= 0x80
    &&& spec_read_var_length(b1, at, 0) matches Some((delta, end))
    &&& end == j
    &&& j < b1.len()
    &&& b1[j] < 0x80
}

proof fn lemma_written_out_event(b1: Seq<u8>, status0: u8, m: nat, j: int, running: u8)
    requires
        spec_leaves_out(b1, status0, m, j, running),
    ensures
        spec_state_after(spec_written_out(b1, j, running), 0, status0, m) == spec_state_after(
            b1,
            0,
            status0,
            m,
        ),
        spec_step_at(spec_written_out(b1, j, running), 0, status0, m) == Some(
            spec_shift(spec_step_at(b1, 0, status0, m)->Some_0, 1),
        ),
        spec_state_after(spec_written_out(b1, j, running), 0, status0, m + 1) == (
        match spec_state_after(b1, 0, status0, m + 1) {
            Some((next, after)) => Some((next + 1, after)),
            None => None,
        }),
{
    let b2 = spec_written_out(b1, j, running);
    let at = spec_state_after(b1, 0, status0, m)->Some_0.0;
    lemma_states_rise(b1, 0, status0, 0, m);
    lemma_read_advances(b1, at, 0);
    lemma_track_before(b1, b2, status0, j, m, m);
    lemma_running_status(b1, at, running, running);
}

proof fn lemma_elided_event_ends_later(s: Seq<u8>, at: int, running: u8, j: int)
    requires
        0 <= at,
        spec_read_var_length(s, at, 0) matches Some((delta, end)) && end == j,
        j < s.len(),
        s[j] < 0x80,
    ensures
        spec_parse_event(s, at, running) matches ParseStep::Item { next, .. } ==> j <= next
            <= s.len(),
{
    lemma_read_advances(s, at, 0);
    lemma_find_advances(s, j);
    lemma_read_advances(s, j + 1, 0);
}

proof fn lemma_written_out_suffix(b1: Seq<u8>, j: int, running: u8, next: int)
    requires
        0 <= j <= next <= b1.len(),
    ensures
        spec_same_from(spec_written_out(b1, j, running), next + 1, b1, next),
{
    let b2 = spec_written_out(b1, j, running);
    assert(b2.len() == b1.len() + 1);
    let left = b2.skip(next + 1);
    let right = b1.skip(next);
    assert(left.len() == right.len());
    assert forall|x: int| 0 <= x < left.len() implies left[x] == right[x] by {
        assert(left[x] == b2[next + 1 + x]);
        assert(b2[next + 1 + x] == b1.skip(j)[next + 1 + x - j - 1]);
    }
    assert(left =~= right);
}

proof fn lemma_elided_state_ends_later(b1: Seq<u8>, status0: u8, m: nat, j: int, running: u8)
    requires
        spec_leaves_out(b1, status0, m, j, running),
    ensures
        0 <= j,
        spec_state_after(b1, 0, status0, m + 1) matches Some((next, after)) ==> j <= next
            <= b1.len(),
{
    lemma_read_advances(b1, spec_state_after(b1, 0, status0, m)->Some_0.0, 0);
    let at = spec_state_after(b1, 0, status0, m)->Some_0.0;
    lemma_states_rise(b1, 0, status0, 0, m);
    lemma_elided_event_ends_later(b1, at, running, j);
    assert(spec_state_after(b1, 0, status0, ((m + 1) - 1) as nat) == Some((at, running)));
}

proof fn lemma_written_out_after(
    b1: Seq<u8>,
    status0: u8,
    m: nat,
    j: int,
    running: u8,
    r: nat,
)
    requires
        spec_leaves_out(b1, status0, m, j, running),
    ensures
        match spec_step_at(b1, 0, status0, m + 1 + r) {
            Some(step) => spec_step_at(spec_written_out(b1, j, running), 0, status0, m + 1 + r)
                == Some(spec_shift(step, 1)),
            None => spec_step_at(spec_written_out(b1, j, running), 0, status0, m + 1 + r)
                is None,
        },
{
    let b2 = spec_written_out(b1, j, running);
    lemma_written_out_event(b1, status0, m, j, running);
    lemma_elided_state_ends_later(b1, status0, m, j, running);
    lemma_state_chain(b1, 0, status0, (m + 1) as nat, r);
    lemma_state_chain(b2, 0, status0, (m + 1) as nat, r);
    match spec_state_after(b1, 0, status0, m + 1) {
        Some((next, after)) => {
            lemma_written_out_suffix(b1, j, running, next);
            lemma_steps_same(b2, next + 1, b1, next, after, r);
        },
        None => {},
    }
}

proof fn lemma_written_out_before(b1: Seq<u8>, status0: u8, m: nat, j: int, running: u8, n: nat)
    requires
        spec_leaves_out(b1, status0, m, j, running),
        n < m,
    ensures
        spec_step_at(spec_written_out(b1, j, running), 0, status0, n) == spec_step_at(
            b1,
            0,
            status0,
            n,
        ),
        spec_step_at(b1, 0, status0, n) is Some,
{
    let b2 = spec_written_out(b1, j, running);
    let at = spec_state_after(b1, 0, status0, m)->Some_0.0;
    lemma_states_rise(b1, 0, status0, 0, m);
    lemma_read_advances(b1, at, 0);
    lemma_track_before(b1, b2, status0, j, m, n);
    lemma_states_rise(b1, 0, status0, n, m);
    lemma_states_rise(b1, 0, status0, n + 1, m);
    let here = spec_state_after(b1, 0, status0, n)->Some_0;
    lemma_event_prefix_only(b1, b2, here.0, here.1);
}

/// Running status over a whole track. Where event number `m` of a track
/// leaves out its status byte, the track with the running status written
/// out at that place holds the same events, item for item: the same
/// deltas, the same events, the same failures. The events before number
/// `m` stand where they stood; those from number `m` on end one byte
/// later.
pub proof fn lemma_running_status_in_track(
    b1: Seq<u8>,
    status0: u8,
    m: nat,
    j: int,
    running: u8,
    n: nat,
)
    requires
        spec_leaves_out(b1, status0, m, j, running),
    ensures
        match spec_step_at(b1, 0, status0, n) {
            Some(step) => spec_step_at(spec_written_out(b1, j, running), 0, status0, n) == Some(
                if n < m {
                    step
                } else {
                    spec_shift(step, 1)
                },
            ),
            None => spec_step_at(spec_written_out(b1, j, running), 0, status0, n) is None,
        },
{
    if n < m {
        lemma_written_out_before(b1, status0, m, j, running, n);
    } else if n == m {
        lemma_written_out_event(b1, status0, m, j, running);
    } else {
        lemma_written_out_after(b1, status0, m, j, running, (n - m - 1) as nat);
    }
}

/// Up to the place of the status byte written out, both tracks are in the
/// same state after every event.
proof fn lemma_track_before(b1: Seq<u8>, b2: Seq<u8>, status0: u8, j: int, m: nat, n: nat)
    requires
        n <= m,
        spec_state_after(b1, 0, status0, m) matches Some((at, running)) && at < j,
        0 <= j < b1.len(),
        b2.len() == b1.len() + 1,
        forall|x: int| 0 <= x < j ==> #[trigger] b1[x] == b2[x],
    ensures
        spec_state_after(b2, 0, status0, n) == spec_state_after(b1, 0, status0, n),
    decreases n,
{
    if n > 0 {
        lemma_track_before(b1, b2, status0, j, m, (n - 1) as nat);
        lemma_states_rise(b1, 0, status0, (n - 1) as nat, m);
        lemma_states_rise(b1, 0, status0, n, m);
        let here = spec_state_after(b1, 0, status0, (n - 1) as nat)->Some_0;
        lemma_event_prefix_only(b1, b2, here.0, here.1);
    }
}

/// The state after `a + b` events is the state `b` events after the state
/// after `a` events.
proof fn lemma_state_chain(s: Seq<u8>, start: int, status: u8, a: nat, b: nat)
    ensures
        spec_state_after(s, start, status, a + b) == (match spec_state_after(s, start, status, a) {
            Some((at, running)) => spec_state_after(s, at, running, b),
            None => None,
        }),
    decreases b,
{
    if b > 0 {
        lemma_state_chain(s, start, status, a, (b - 1) as nat);
    }
}

} // verus!
