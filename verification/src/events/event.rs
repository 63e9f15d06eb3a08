use vstd::prelude::*;
use crate::events::BatchTempo;
use crate::events::ChannelEvent;
use crate::events::KeyEvent;
use crate::events::MIDIEvent;
use crate::events::MIDIEventEnum;
use crate::events::PlaybackEvent;
use crate::events::SerializeEvent;
use crate::events::events::ChannelPrefixEvent;
use crate::events::events::ChannelPressureEvent;
use crate::events::events::ColorEvent;
use crate::events::events::ControlChangeEvent;
use crate::events::events::EndOfExclusiveEvent;
use crate::events::events::KeySignatureEvent;
use crate::events::events::MIDIPortEvent;
use crate::events::events::NoteOffEvent;
use crate::events::events::NoteOnEvent;
use crate::events::events::PitchWheelChangeEvent;
use crate::events::events::PolyphonicKeyPressureEvent;
use crate::events::events::ProgramChangeEvent;
use crate::events::events::SMPTEOffsetEvent;
use crate::events::events::SongPositionPointerEvent;
use crate::events::events::SongSelectEvent;
use crate::events::events::SystemExclusiveMessageEvent;
use crate::events::events::TempoEvent;
use crate::events::events::TextEvent;
use crate::events::events::TimeSignatureEvent;
use crate::events::events::TrackStartEvent;
use crate::events::events::TuneRequestEvent;
use crate::events::events::UndefinedEvent;
use crate::events::events::UnknownMetaEvent;
use crate::events::events::MIDIColor;
use crate::events::events::TextEventKind;
use crate::io::errors::MIDIWriteError;
use crate::sequence::event::delta::Delta;

verus! {

/// Every event that can stand in a track.
#[derive(Debug, Clone, PartialEq, Eq)]
pub enum Event {
    NoteOn(NoteOnEvent),
    NoteOff(NoteOffEvent),
    PolyphonicKeyPressure(PolyphonicKeyPressureEvent),
    ControlChange(ControlChangeEvent),
    ProgramChange(ProgramChangeEvent),
    ChannelPressure(ChannelPressureEvent),
    PitchWheelChange(PitchWheelChangeEvent),
    SystemExclusiveMessage(SystemExclusiveMessageEvent),
    Undefined(UndefinedEvent),
    SongPositionPointer(SongPositionPointerEvent),
    SongSelect(SongSelectEvent),
    TuneRequest(TuneRequestEvent),
    EndOfExclusive(EndOfExclusiveEvent),
    TrackStart(TrackStartEvent),
    Text(TextEvent),
    UnknownMeta(UnknownMetaEvent),
    Color(ColorEvent),
    ChannelPrefix(ChannelPrefixEvent),
    MIDIPort(MIDIPortEvent),
    Tempo(TempoEvent),
    SMPTEOffset(SMPTEOffsetEvent),
    TimeSignature(TimeSignatureEvent),
    KeySignature(KeySignatureEvent),
}

/// What an [`Event`] is, with byte payloads as sequences.
pub ghost enum EventView {
    NoteOn(NoteOnEvent),
    NoteOff(NoteOffEvent),
    PolyphonicKeyPressure(PolyphonicKeyPressureEvent),
    ControlChange(ControlChangeEvent),
    ProgramChange(ProgramChangeEvent),
    ChannelPressure(ChannelPressureEvent),
    PitchWheelChange(PitchWheelChangeEvent),
    SystemExclusiveMessage(Seq<u8>),
    Undefined(UndefinedEvent),
    SongPositionPointer(SongPositionPointerEvent),
    SongSelect(SongSelectEvent),
    TuneRequest(TuneRequestEvent),
    EndOfExclusive(EndOfExclusiveEvent),
    TrackStart(TrackStartEvent),
    Text(TextEventKind, Seq<u8>),
    UnknownMeta(u8, Seq<u8>),
    Color(ColorEvent),
    ChannelPrefix(ChannelPrefixEvent),
    MIDIPort(MIDIPortEvent),
    Tempo(TempoEvent),
    SMPTEOffset(SMPTEOffsetEvent),
    TimeSignature(TimeSignatureEvent),
    KeySignature(KeySignatureEvent),
}

impl View for Event {
    type V = EventView;

    open spec fn view(&self) -> EventView {
        match *self {
            Event::NoteOn(e) => EventView::NoteOn(e),
            Event::NoteOff(e) => EventView::NoteOff(e),
            Event::PolyphonicKeyPressure(e) => EventView::PolyphonicKeyPressure(e),
            Event::ControlChange(e) => EventView::ControlChange(e),
            Event::ProgramChange(e) => EventView::ProgramChange(e),
            Event::ChannelPressure(e) => EventView::ChannelPressure(e),
            Event::PitchWheelChange(e) => EventView::PitchWheelChange(e),
            Event::SystemExclusiveMessage(e) => EventView::SystemExclusiveMessage(e.data@),
            Event::Undefined(e) => EventView::Undefined(e),
            Event::SongPositionPointer(e) => EventView::SongPositionPointer(e),
            Event::SongSelect(e) => EventView::SongSelect(e),
            Event::TuneRequest(e) => EventView::TuneRequest(e),
            Event::EndOfExclusive(e) => EventView::EndOfExclusive(e),
            Event::TrackStart(e) => EventView::TrackStart(e),
            Event::Text(e) => EventView::Text(e.kind, e.bytes@),
            Event::UnknownMeta(e) => EventView::UnknownMeta(e.kind, e.bytes@),
            Event::Color(e) => EventView::Color(e),
            Event::ChannelPrefix(e) => EventView::ChannelPrefix(e),
            Event::MIDIPort(e) => EventView::MIDIPort(e),
            Event::Tempo(e) => EventView::Tempo(e),
            Event::SMPTEOffset(e) => EventView::SMPTEOffset(e),
            Event::TimeSignature(e) => EventView::TimeSignature(e),
            Event::KeySignature(e) => EventView::KeySignature(e),
        }
    }
}

impl Event {
    pub fn new_note_on_event(channel: u8, key: u8, velocity: u8) -> (e: Event)
        ensures
            e == Event::NoteOn(NoteOnEvent { channel, key, velocity }),
    {
        Event::NoteOn(NoteOnEvent { channel, key, velocity })
    }

    pub fn new_delta_note_on_event<D>(delta: D, channel: u8, key: u8, velocity: u8) -> (e: Delta<D, Event>)
        ensures
            e.delta == delta,
            e.event == Event::NoteOn(NoteOnEvent { channel, key, velocity }),
    {
        Delta { delta, event: Event::NoteOn(NoteOnEvent { channel, key, velocity }) }
    }

    pub fn new_note_off_event(channel: u8, key: u8) -> (e: Event)
        ensures
            e == Event::NoteOff(NoteOffEvent { channel, key }),
    {
        Event::NoteOff(NoteOffEvent { channel, key })
    }

    pub fn new_delta_note_off_event<D>(delta: D, channel: u8, key: u8) -> (e: Delta<D, Event>)
        ensures
            e.delta == delta,
            e.event == Event::NoteOff(NoteOffEvent { channel, key }),
    {
        Delta { delta, event: Event::NoteOff(NoteOffEvent { channel, key }) }
    }

    pub fn new_polyphonic_key_pressure_event(channel: u8, key: u8, velocity: u8) -> (e: Event)
        ensures
            e == Event::PolyphonicKeyPressure(PolyphonicKeyPressureEvent { channel, key, velocity }),
    {
        Event::PolyphonicKeyPressure(PolyphonicKeyPressureEvent { channel, key, velocity })
    }

    pub fn new_delta_polyphonic_key_pressure_event<D>(delta: D, channel: u8, key: u8, velocity: u8) -> (e: Delta<D, Event>)
        ensures
            e.delta == delta,
            e.event == Event::PolyphonicKeyPressure(PolyphonicKeyPressureEvent { channel, key, velocity }),
    {
        Delta { delta, event: Event::PolyphonicKeyPressure(PolyphonicKeyPressureEvent { channel, key, velocity }) }
    }

    pub fn new_control_change_event(channel: u8, controller: u8, value: u8) -> (e: Event)
        ensures
            e == Event::ControlChange(ControlChangeEvent { channel, controller, value }),
    {
        Event::ControlChange(ControlChangeEvent { channel, controller, value })
    }

    pub fn new_delta_control_change_event<D>(delta: D, channel: u8, controller: u8, value: u8) -> (e: Delta<D, Event>)
        ensures
            e.delta == delta,
            e.event == Event::ControlChange(ControlChangeEvent { channel, controller, value }),
    {
        Delta { delta, event: Event::ControlChange(ControlChangeEvent { channel, controller, value }) }
    }

    pub fn new_program_change_event(channel: u8, program: u8) -> (e: Event)
        ensures
            e == Event::ProgramChange(ProgramChangeEvent { channel, program }),
    {
        Event::ProgramChange(ProgramChangeEvent { channel, program })
    }

    pub fn new_delta_program_change_event<D>(delta: D, channel: u8, program: u8) -> (e: Delta<D, Event>)
        ensures
            e.delta == delta,
            e.event == Event::ProgramChange(ProgramChangeEvent { channel, program }),
    {
        Delta { delta, event: Event::ProgramChange(ProgramChangeEvent { channel, program }) }
    }

    pub fn new_channel_pressure_event(channel: u8, pressure: u8) -> (e: Event)
        ensures
            e == Event::ChannelPressure(ChannelPressureEvent { channel, pressure }),
    {
        Event::ChannelPressure(ChannelPressureEvent { channel, pressure })
    }

    pub fn new_delta_channel_pressure_event<D>(delta: D, channel: u8, pressure: u8) -> (e: Delta<D, Event>)
        ensures
            e.delta == delta,
            e.event == Event::ChannelPressure(ChannelPressureEvent { channel, pressure }),
    {
        Delta { delta, event: Event::ChannelPressure(ChannelPressureEvent { channel, pressure }) }
    }

    pub fn new_pitch_wheel_change_event(channel: u8, pitch: i16) -> (e: Event)
        ensures
            e == Event::PitchWheelChange(PitchWheelChangeEvent { channel, pitch }),
    {
        Event::PitchWheelChange(PitchWheelChangeEvent { channel, pitch })
    }

    pub fn new_delta_pitch_wheel_change_event<D>(delta: D, channel: u8, pitch: i16) -> (e: Delta<D, Event>)
        ensures
            e.delta == delta,
            e.event == Event::PitchWheelChange(PitchWheelChangeEvent { channel, pitch }),
    {
        Delta { delta, event: Event::PitchWheelChange(PitchWheelChangeEvent { channel, pitch }) }
    }

    pub fn new_system_exclusive_message_event(data: Vec<u8>) -> (e: Event)
        ensures
            e == Event::SystemExclusiveMessage(SystemExclusiveMessageEvent { data }),
    {
        Event::SystemExclusiveMessage(SystemExclusiveMessageEvent { data })
    }

    pub fn new_delta_system_exclusive_message_event<D>(delta: D, data: Vec<u8>) -> (e: Delta<D, Event>)
        ensures
            e.delta == delta,
            e.event == Event::SystemExclusiveMessage(SystemExclusiveMessageEvent { data }),
    {
        Delta { delta, event: Event::SystemExclusiveMessage(SystemExclusiveMessageEvent { data }) }
    }

    pub fn new_undefined_event(event: u8) -> (e: Event)
        ensures
            e == Event::Undefined(UndefinedEvent { event }),
    {
        Event::Undefined(UndefinedEvent { event })
    }

    pub fn new_delta_undefined_event<D>(delta: D, event: u8) -> (e: Delta<D, Event>)
        ensures
            e.delta == delta,
            e.event == Event::Undefined(UndefinedEvent { event }),
    {
        Delta { delta, event: Event::Undefined(UndefinedEvent { event }) }
    }

    pub fn new_song_position_pointer_event(position: u16) -> (e: Event)
        ensures
            e == Event::SongPositionPointer(SongPositionPointerEvent { position }),
    {
        Event::SongPositionPointer(SongPositionPointerEvent { position })
    }

    pub fn new_delta_song_position_pointer_event<D>(delta: D, position: u16) -> (e: Delta<D, Event>)
        ensures
            e.delta == delta,
            e.event == Event::SongPositionPointer(SongPositionPointerEvent { position }),
    {
        Delta { delta, event: Event::SongPositionPointer(SongPositionPointerEvent { position }) }
    }

    pub fn new_song_select_event(song: u8) -> (e: Event)
        ensures
            e == Event::SongSelect(SongSelectEvent { song }),
    {
        Event::SongSelect(SongSelectEvent { song })
    }

    pub fn new_delta_song_select_event<D>(delta: D, song: u8) -> (e: Delta<D, Event>)
        ensures
            e.delta == delta,
            e.event == Event::SongSelect(SongSelectEvent { song }),
    {
        Delta { delta, event: Event::SongSelect(SongSelectEvent { song }) }
    }

    pub fn new_tune_request_event() -> (e: Event)
        ensures
            e == Event::TuneRequest(TuneRequestEvent {  }),
    {
        Event::TuneRequest(TuneRequestEvent {  })
    }

    pub fn new_delta_tune_request_event<D>(delta: D) -> (e: Delta<D, Event>)
        ensures
            e.delta == delta,
            e.event == Event::TuneRequest(TuneRequestEvent {  }),
    {
        Delta { delta, event: Event::TuneRequest(TuneRequestEvent {  }) }
    }

    pub fn new_end_of_exclusive_event() -> (e: Event)
        ensures
            e == Event::EndOfExclusive(EndOfExclusiveEvent {  }),
    {
        Event::EndOfExclusive(EndOfExclusiveEvent {  })
    }

    pub fn new_delta_end_of_exclusive_event<D>(delta: D) -> (e: Delta<D, Event>)
        ensures
            e.delta == delta,
            e.event == Event::EndOfExclusive(EndOfExclusiveEvent {  }),
    {
        Delta { delta, event: Event::EndOfExclusive(EndOfExclusiveEvent {  }) }
    }

    pub fn new_track_start_event() -> (e: Event)
        ensures
            e == Event::TrackStart(TrackStartEvent {  }),
    {
        Event::TrackStart(TrackStartEvent {  })
    }

    pub fn new_delta_track_start_event<D>(delta: D) -> (e: Delta<D, Event>)
        ensures
            e.delta == delta,
            e.event == Event::TrackStart(TrackStartEvent {  }),
    {
        Delta { delta, event: Event::TrackStart(TrackStartEvent {  }) }
    }

    pub fn new_text_event(kind: TextEventKind, bytes: Vec<u8>) -> (e: Event)
        ensures
            e == Event::Text(TextEvent { kind, bytes }),
    {
        Event::Text(TextEvent { kind, bytes })
    }

    pub fn new_delta_text_event<D>(delta: D, kind: TextEventKind, bytes: Vec<u8>) -> (e: Delta<D, Event>)
        ensures
            e.delta == delta,
            e.event == Event::Text(TextEvent { kind, bytes }),
    {
        Delta { delta, event: Event::Text(TextEvent { kind, bytes }) }
    }

    pub fn new_unknown_meta_event(kind: u8, bytes: Vec<u8>) -> (e: Event)
        ensures
            e == Event::UnknownMeta(UnknownMetaEvent { kind, bytes }),
    {
        Event::UnknownMeta(UnknownMetaEvent { kind, bytes })
    }

    pub fn new_delta_unknown_meta_event<D>(delta: D, kind: u8, bytes: Vec<u8>) -> (e: Delta<D, Event>)
        ensures
            e.delta == delta,
            e.event == Event::UnknownMeta(UnknownMetaEvent { kind, bytes }),
    {
        Delta { delta, event: Event::UnknownMeta(UnknownMetaEvent { kind, bytes }) }
    }

    pub fn new_color_event(channel: u8, col: MIDIColor, col2: Option<MIDIColor>) -> (e: Event)
        ensures
            e == Event::Color(ColorEvent { channel, col, col2 }),
    {
        Event::Color(ColorEvent { channel, col, col2 })
    }

    pub fn new_delta_color_event<D>(delta: D, channel: u8, col: MIDIColor, col2: Option<MIDIColor>) -> (e: Delta<D, Event>)
        ensures
            e.delta == delta,
            e.event == Event::Color(ColorEvent { channel, col, col2 }),
    {
        Delta { delta, event: Event::Color(ColorEvent { channel, col, col2 }) }
    }

    pub fn new_channel_prefix_event(channel: u8) -> (e: Event)
        ensures
            e == Event::ChannelPrefix(ChannelPrefixEvent { channel }),
    {
        Event::ChannelPrefix(ChannelPrefixEvent { channel })
    }

    pub fn new_delta_channel_prefix_event<D>(delta: D, channel: u8) -> (e: Delta<D, Event>)
        ensures
            e.delta == delta,
            e.event == Event::ChannelPrefix(ChannelPrefixEvent { channel }),
    {
        Delta { delta, event: Event::ChannelPrefix(ChannelPrefixEvent { channel }) }
    }

    pub fn new_midi_port_event(channel: u8) -> (e: Event)
        ensures
            e == Event::MIDIPort(MIDIPortEvent { channel }),
    {
        Event::MIDIPort(MIDIPortEvent { channel })
    }

    pub fn new_delta_midi_port_event<D>(delta: D, channel: u8) -> (e: Delta<D, Event>)
        ensures
            e.delta == delta,
            e.event == Event::MIDIPort(MIDIPortEvent { channel }),
    {
        Delta { delta, event: Event::MIDIPort(MIDIPortEvent { channel }) }
    }

    pub fn new_tempo_event(tempo: u32) -> (e: Event)
        ensures
            e == Event::Tempo(TempoEvent { tempo }),
    {
        Event::Tempo(TempoEvent { tempo })
    }

    pub fn new_delta_tempo_event<D>(delta: D, tempo: u32) -> (e: Delta<D, Event>)
        ensures
            e.delta == delta,
            e.event == Event::Tempo(TempoEvent { tempo }),
    {
        Delta { delta, event: Event::Tempo(TempoEvent { tempo }) }
    }

    pub fn new_smpte_offset_event(hours: u8, minutes: u8, seconds: u8, frames: u8, fractional_frames: u8) -> (e: Event)
        ensures
            e == Event::SMPTEOffset(SMPTEOffsetEvent { hours, minutes, seconds, frames, fractional_frames }),
    {
        Event::SMPTEOffset(SMPTEOffsetEvent { hours, minutes, seconds, frames, fractional_frames })
    }

    pub fn new_delta_smpte_offset_event<D>(delta: D, hours: u8, minutes: u8, seconds: u8, frames: u8, fractional_frames: u8) -> (e: Delta<D, Event>)
        ensures
            e.delta == delta,
            e.event == Event::SMPTEOffset(SMPTEOffsetEvent { hours, minutes, seconds, frames, fractional_frames }),
    {
        Delta { delta, event: Event::SMPTEOffset(SMPTEOffsetEvent { hours, minutes, seconds, frames, fractional_frames }) }
    }

    pub fn new_time_signature_event(numerator: u8, denominator: u8, ticks_per_click: u8, bb: u8) -> (e: Event)
        ensures
            e == Event::TimeSignature(TimeSignatureEvent { numerator, denominator, ticks_per_click, bb }),
    {
        Event::TimeSignature(TimeSignatureEvent { numerator, denominator, ticks_per_click, bb })
    }

    pub fn new_delta_time_signature_event<D>(delta: D, numerator: u8, denominator: u8, ticks_per_click: u8, bb: u8) -> (e: Delta<D, Event>)
        ensures
            e.delta == delta,
            e.event == Event::TimeSignature(TimeSignatureEvent { numerator, denominator, ticks_per_click, bb }),
    {
        Delta { delta, event: Event::TimeSignature(TimeSignatureEvent { numerator, denominator, ticks_per_click, bb }) }
    }

    pub fn new_key_signature_event(sf: u8, mi: u8) -> (e: Event)
        ensures
            e == Event::KeySignature(KeySignatureEvent { sf, mi }),
    {
        Event::KeySignature(KeySignatureEvent { sf, mi })
    }

    pub fn new_delta_key_signature_event<D>(delta: D, sf: u8, mi: u8) -> (e: Delta<D, Event>)
        ensures
            e.delta == delta,
            e.event == Event::KeySignature(KeySignatureEvent { sf, mi }),
    {
        Delta { delta, event: Event::KeySignature(KeySignatureEvent { sf, mi }) }
    }

    /// Whether the event is a note-on or a note-off.
    pub open spec fn spec_is_note(&self) -> bool {
        *self is NoteOn || *self is NoteOff
    }

    /// Whether the event is a note-on or a note-off.
    pub fn is_note(&self) -> (b: bool)
        ensures
            b == self.spec_is_note(),
    {
        match self {
            Event::NoteOn(_) => true,
            Event::NoteOff(_) => true,
            _ => false,
        }
    }
}

impl SerializeEvent for Event {
    open spec fn serializable(&self) -> bool {
        !(*self is Color)
    }

    open spec fn wire_bytes(&self) -> Seq<u8> {
        match *self {
            Event::NoteOn(e) => e.wire_bytes(),
            Event::NoteOff(e) => e.wire_bytes(),
            Event::PolyphonicKeyPressure(e) => e.wire_bytes(),
            Event::ControlChange(e) => e.wire_bytes(),
            Event::ProgramChange(e) => e.wire_bytes(),
            Event::ChannelPressure(e) => e.wire_bytes(),
            Event::PitchWheelChange(e) => e.wire_bytes(),
            Event::SystemExclusiveMessage(e) => e.wire_bytes(),
            Event::Undefined(e) => e.wire_bytes(),
            Event::SongPositionPointer(e) => e.wire_bytes(),
            Event::SongSelect(e) => e.wire_bytes(),
            Event::TuneRequest(e) => e.wire_bytes(),
            Event::EndOfExclusive(e) => e.wire_bytes(),
            Event::TrackStart(e) => e.wire_bytes(),
            Event::Text(e) => e.wire_bytes(),
            Event::UnknownMeta(e) => e.wire_bytes(),
            Event::Color(e) => e.wire_bytes(),
            Event::ChannelPrefix(e) => e.wire_bytes(),
            Event::MIDIPort(e) => e.wire_bytes(),
            Event::Tempo(e) => e.wire_bytes(),
            Event::SMPTEOffset(e) => e.wire_bytes(),
            Event::TimeSignature(e) => e.wire_bytes(),
            Event::KeySignature(e) => e.wire_bytes(),
        }
    }

    fn serialize_event(&self, buf: &mut Vec<u8>) -> (r: Result<usize, MIDIWriteError>) {
        match self {
            Event::NoteOn(e) => e.serialize_event(buf),
            Event::NoteOff(e) => e.serialize_event(buf),
            Event::PolyphonicKeyPressure(e) => e.serialize_event(buf),
            Event::ControlChange(e) => e.serialize_event(buf),
            Event::ProgramChange(e) => e.serialize_event(buf),
            Event::ChannelPressure(e) => e.serialize_event(buf),
            Event::PitchWheelChange(e) => e.serialize_event(buf),
            Event::SystemExclusiveMessage(e) => e.serialize_event(buf),
            Event::Undefined(e) => e.serialize_event(buf),
            Event::SongPositionPointer(e) => e.serialize_event(buf),
            Event::SongSelect(e) => e.serialize_event(buf),
            Event::TuneRequest(e) => e.serialize_event(buf),
            Event::EndOfExclusive(e) => e.serialize_event(buf),
            Event::TrackStart(e) => e.serialize_event(buf),
            Event::Text(e) => e.serialize_event(buf),
            Event::UnknownMeta(e) => e.serialize_event(buf),
            Event::Color(e) => e.serialize_event(buf),
            Event::ChannelPrefix(e) => e.serialize_event(buf),
            Event::MIDIPort(e) => e.serialize_event(buf),
            Event::Tempo(e) => e.serialize_event(buf),
            Event::SMPTEOffset(e) => e.serialize_event(buf),
            Event::TimeSignature(e) => e.serialize_event(buf),
            Event::KeySignature(e) => e.serialize_event(buf),
        }
    }
}

impl MIDIEvent for Event {
    open spec fn spec_key(&self) -> Option<u8> {
        match *self {
            Event::NoteOn(e) => Some(e.key),
            Event::NoteOff(e) => Some(e.key),
            Event::PolyphonicKeyPressure(e) => Some(e.key),
            _ => None,
        }
    }

    open spec fn spec_channel(&self) -> Option<u8> {
        match *self {
            Event::NoteOn(e) => Some(e.channel),
            Event::NoteOff(e) => Some(e.channel),
            Event::PolyphonicKeyPressure(e) => Some(e.channel),
            Event::ControlChange(e) => Some(e.channel),
            Event::ProgramChange(e) => Some(e.channel),
            Event::ChannelPressure(e) => Some(e.channel),
            Event::PitchWheelChange(e) => Some(e.channel),
            Event::ChannelPrefix(e) => Some(e.channel),
            Event::MIDIPort(e) => Some(e.channel),
            _ => None,
        }
    }

    open spec fn spec_as_u32(&self) -> Option<u32> {
        match *self {
            Event::NoteOn(e) => Some(PlaybackEvent::spec_as_u32(&e)),
            Event::NoteOff(e) => Some(PlaybackEvent::spec_as_u32(&e)),
            Event::PolyphonicKeyPressure(e) => Some(PlaybackEvent::spec_as_u32(&e)),
            Event::ControlChange(e) => Some(PlaybackEvent::spec_as_u32(&e)),
            Event::ProgramChange(e) => Some(PlaybackEvent::spec_as_u32(&e)),
            Event::ChannelPressure(e) => Some(PlaybackEvent::spec_as_u32(&e)),
            Event::PitchWheelChange(e) => Some(PlaybackEvent::spec_as_u32(&e)),
            _ => None,
        }
    }

    fn key(&self) -> (r: Option<u8>) {
        match self {
            Event::NoteOn(e) => Some(e.key),
            Event::NoteOff(e) => Some(e.key),
            Event::PolyphonicKeyPressure(e) => Some(e.key),
            _ => None,
        }
    }

    fn channel(&self) -> (r: Option<u8>) {
        match self {
            Event::NoteOn(e) => Some(e.channel),
            Event::NoteOff(e) => Some(e.channel),
            Event::PolyphonicKeyPressure(e) => Some(e.channel),
            Event::ControlChange(e) => Some(e.channel),
            Event::ProgramChange(e) => Some(e.channel),
            Event::ChannelPressure(e) => Some(e.channel),
            Event::PitchWheelChange(e) => Some(e.channel),
            Event::ChannelPrefix(e) => Some(e.channel),
            Event::MIDIPort(e) => Some(e.channel),
            _ => None,
        }
    }

    fn as_u32(&self) -> (r: Option<u32>) {
        match self {
            Event::NoteOn(e) => Some(PlaybackEvent::as_u32(e)),
            Event::NoteOff(e) => Some(PlaybackEvent::as_u32(e)),
            Event::PolyphonicKeyPressure(e) => Some(PlaybackEvent::as_u32(e)),
            Event::ControlChange(e) => Some(PlaybackEvent::as_u32(e)),
            Event::ProgramChange(e) => Some(PlaybackEvent::as_u32(e)),
            Event::ChannelPressure(e) => Some(PlaybackEvent::as_u32(e)),
            Event::PitchWheelChange(e) => Some(PlaybackEvent::as_u32(e)),
            _ => None,
        }
    }
}

impl BatchTempo for Event {
    open spec fn spec_inner_tempo(&self) -> Option<u32> {
        match *self {
            Event::Tempo(e) => Some(e.tempo),
            _ => None,
        }
    }

    fn inner_tempo(&self) -> (r: Option<u32>) {
        match self {
            Event::Tempo(e) => Some(e.tempo),
            _ => None,
        }
    }

    fn without_tempo(self) -> (r: Option<Self>) {
        match self {
            Event::Tempo(_) => None,
            _ => Some(self),
        }
    }
}

impl MIDIEventEnum for Event {
    open spec fn spec_event(&self) -> Event {
        *self
    }

    fn as_event(&self) -> (r: &Event) {
        self
    }
}

} // verus!
