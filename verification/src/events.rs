use vstd::prelude::*;
use crate::io::errors::MIDIWriteError;
use crate::io::track_parser::lemma_var_length_round_trip;
use crate::io::track_parser::spec_read_var_length;

pub mod event;
pub mod events;

pub use event::Event;
pub use event::EventView;
pub use events::ChannelPrefixEvent;
pub use events::ChannelPressureEvent;
pub use events::ColorEvent;
pub use events::ControlChangeEvent;
pub use events::EndOfExclusiveEvent;
pub use events::KeySignatureEvent;
pub use events::MIDIColor;
pub use events::MIDIPortEvent;
pub use events::NoteOffEvent;
pub use events::NoteOnEvent;
pub use events::PitchWheelChangeEvent;
pub use events::PolyphonicKeyPressureEvent;
pub use events::ProgramChangeEvent;
pub use events::SMPTEOffsetEvent;
pub use events::SongPositionPointerEvent;
pub use events::SongSelectEvent;
pub use events::SystemExclusiveMessageEvent;
pub use events::TempoEvent;
pub use events::TextEvent;
pub use events::TextEventKind;
pub use events::TimeSignatureEvent;
pub use events::TrackStartEvent;
pub use events::TuneRequestEvent;
pub use events::UndefinedEvent;
pub use events::UnknownMetaEvent;

verus! {

/// The continuation bytes of a variable-length quantity: the 7-bit groups of
/// `val`, most significant first, each with its top bit set.
pub open spec fn vlq_prefix(val: nat) -> Seq<u8>
    decreases val,
{
    if val == 0 {
        Seq::empty()
    } else {
        vlq_prefix(val / 128).push((val % 128 + 128) as u8)
    }
}

/// The variable-length quantity of `val`: its 7-bit groups, most significant
/// first, with the top bit set on every byte but the last.
pub open spec fn spec_encode_var_length_value(val: nat) -> Seq<u8> {
    vlq_prefix(val / 128).push((val % 128) as u8)
}

/// Encodes `val` as a variable-length quantity. What is encoded is read
/// back as `val`, and the reading takes exactly the bytes encoded.
pub fn encode_var_length_value(val: u64) -> (vec: Vec<u8>)
    ensures
        vec@ == spec_encode_var_length_value(val as nat),
        spec_read_var_length(vec@, 0, 0) == Some((val, vec@.len() as int)),
{
    let mut vec: Vec<u8> = Vec::new();
    let low: u8 = (val & 0x7F) as u8;
    let mut rest: u64 = val >> 7;
    assert(low == val % 128 && rest == val / 128) by (bit_vector)
        requires
            low == (val & 0x7F) as u8,
            rest == val >> 7,
    ;
    vec.push(low);
    assert(vlq_prefix(rest as nat) + vec@ =~= spec_encode_var_length_value(val as nat));
    while rest != 0
        invariant
            vlq_prefix(rest as nat) + vec@ == spec_encode_var_length_value(val as nat),
        decreases rest,
    {
        let v: u8 = (rest & 0x7F) as u8 | 0x80;
        let next: u64 = rest >> 7;
        assert(v == rest % 128 + 128 && next == rest / 128) by (bit_vector)
            requires
                v == (rest & 0x7F) as u8 | 0x80,
                next == rest >> 7,
        ;
        let ghost before = vec@;
        vec.insert(0, v);
        assert(vlq_prefix(next as nat) + vec@ =~= vlq_prefix(rest as nat) + before);
        rest = next;
    }
    assert(vlq_prefix(0) + vec@ =~= vec@);
    proof {
        lemma_var_length_round_trip(val, Seq::empty());
        assert(vec@ + Seq::<u8>::empty() =~= vec@);
    }
    vec
}

/// An event that has a byte form in a track body.
pub trait SerializeEvent {
    /// Whether the event has a wire form at all.
    spec fn serializable(&self) -> bool;

    /// The bytes of the event in a track body, without a delta in front.
    spec fn wire_bytes(&self) -> Seq<u8>;

    /// Appends the event's wire form to `buf` and returns its length. An
    /// event without a wire form is refused and `buf` is left as it was.
    fn serialize_event(&self, buf: &mut Vec<u8>) -> (r: Result<usize, MIDIWriteError>)
        ensures
            self.serializable() ==> final(buf)@ == old(buf)@ + self.wire_bytes() && r is Ok
                && r->Ok_0 == self.wire_bytes().len(),
            !self.serializable() ==> final(buf)@ == old(buf)@ && r == Err::<
                usize,
                MIDIWriteError,
            >(MIDIWriteError::NotImplemented),
    ;
}

/// An event that carries its own delta time and can be written with it.
pub trait SerializeEventWithDelta: SerializeEvent {
    /// The variable-length quantity that stands in front of the event.
    spec fn delta_bytes(&self) -> Seq<u8>;

    /// Appends the delta to `buf` and returns its length.
    fn serialize_delta(&self, buf: &mut Vec<u8>) -> (r: Result<usize, MIDIWriteError>)
        ensures
            final(buf)@ == old(buf)@ + self.delta_bytes(),
            r is Ok,
            r->Ok_0 == self.delta_bytes().len(),
    ;

    /// Appends the delta and then the event to `buf` and returns the number
    /// of bytes written. An event without a wire form is refused and `buf`
    /// is left as it was.
    fn serialize_event_with_delta(&self, buf: &mut Vec<u8>) -> (r: Result<usize, MIDIWriteError>)
        ensures
            self.serializable() ==> final(buf)@ == old(buf)@ + self.delta_bytes()
                + self.wire_bytes() && r is Ok && r->Ok_0 == self.delta_bytes().len()
                + self.wire_bytes().len(),
            !self.serializable() ==> final(buf)@ == old(buf)@ && r == Err::<
                usize,
                MIDIWriteError,
            >(MIDIWriteError::NotImplemented),
    ;
}

/// The capability queries that every event answers.
pub trait MIDIEvent: SerializeEvent {
    spec fn spec_key(&self) -> Option<u8>;

    spec fn spec_channel(&self) -> Option<u8>;

    spec fn spec_as_u32(&self) -> Option<u32>;

    /// The key the event is about, if it is about one.
    fn key(&self) -> (r: Option<u8>)
        ensures
            r == self.spec_key(),
    ;

    /// The channel the event is bound to, if it is bound to one.
    fn channel(&self) -> (r: Option<u8>)
        ensures
            r == self.spec_channel(),
    ;

    /// The packed playback word of the event, if it is a playback event.
    fn as_u32(&self) -> (r: Option<u32>)
        ensures
            r == self.spec_as_u32(),
    ;
}

/// Events that may hold a tempo change.
pub trait BatchTempo: Sized {
    spec fn spec_inner_tempo(&self) -> Option<u32>;

    /// The tempo the event sets, if it sets one.
    fn inner_tempo(&self) -> (r: Option<u32>)
        ensures
            r == self.spec_inner_tempo(),
    ;

    /// The event itself, unless it is a tempo change.
    fn without_tempo(self) -> (r: Option<Self>)
        ensures
            self.spec_inner_tempo() is Some ==> r is None,
            self.spec_inner_tempo() is None ==> r == Some(self),
    ;
}

/// Wrappers around an [`Event`] that give access to it.
pub trait MIDIEventEnum: MIDIEvent {
    spec fn spec_event(&self) -> Event;

    fn as_event(&self) -> (r: &Event)
        ensures
            *r == self.spec_event(),
    ;
}

/// Items that carry a delta time.
pub trait MIDIDelta<D> {
    spec fn spec_delta(&self) -> D;

    fn delta(&self) -> (r: D)
        ensures
            r == self.spec_delta(),
    ;

    fn set_delta(&mut self, delta: D)
        ensures
            final(self).spec_delta() == delta,
    ;
}

/// Items whose delta can be moved to another numeric domain.
pub trait CastEventDelta<DT> {
    type Output;

    spec fn spec_cast_delta(self) -> Self::Output;

    fn cast_delta(self) -> (r: Self::Output)
        ensures
            r == self.spec_cast_delta(),
    ;
}

/// An event that is always bound to a channel.
pub trait ChannelEvent {
    spec fn spec_channel(&self) -> u8;

    fn channel(&self) -> (r: u8)
        ensures
            r == self.spec_channel(),
    ;
}

/// An event that is always about a key.
pub trait KeyEvent: ChannelEvent {
    spec fn spec_key(&self) -> u8;

    fn key(&self) -> (r: u8)
        ensures
            r == self.spec_key(),
    ;
}

/// An event that always has a packed playback word.
pub trait PlaybackEvent: ChannelEvent {
    spec fn spec_as_u32(&self) -> u32;

    fn as_u32(&self) -> (r: u32)
        ensures
            r == self.spec_as_u32(),
    ;
}

} // verus!
