use vstd::prelude::*;
use crate::events::encode_var_length_value;
use crate::events::spec_encode_var_length_value;
use crate::events::ChannelEvent;
use crate::events::KeyEvent;
use crate::events::PlaybackEvent;
use crate::events::SerializeEvent;
use crate::io::errors::MIDIWriteError;

verus! {

/// A colour with an alpha channel.
#[derive(Debug, Clone, Copy, PartialEq, Eq)]
pub struct MIDIColor {
    pub r: u8,
    pub g: u8,
    pub b: u8,
    pub a: u8,
}

/// The kinds of text meta event.
#[derive(Debug, Clone, Copy, PartialEq, Eq)]
pub enum TextEventKind {
    TextEvent,
    CopyrightNotice,
    TrackName,
    InstrumentName,
    Lyric,
    Marker,
    CuePoint,
    ProgramName,
    DeviceName,
    Undefined,
    MetaEvent,
}

/// Whether `val` is the meta kind byte of a text event.
pub open spec fn is_text_kind(val: u8) -> bool {
    1 <= val <= 10 || val == 0x7F
}

impl TextEventKind {
    /// The meta kind byte that stands for this kind on the wire.
    pub open spec fn spec_as_u8(self) -> u8 {
        match self {
            TextEventKind::TextEvent => 1,
            TextEventKind::CopyrightNotice => 2,
            TextEventKind::TrackName => 3,
            TextEventKind::InstrumentName => 4,
            TextEventKind::Lyric => 5,
            TextEventKind::Marker => 6,
            TextEventKind::CuePoint => 7,
            TextEventKind::ProgramName => 8,
            TextEventKind::DeviceName => 9,
            TextEventKind::Undefined => 10,
            TextEventKind::MetaEvent => 0x7F,
        }
    }

    /// The kind that `val` stands for.
    pub open spec fn spec_from_val(val: u8) -> TextEventKind {
        if val == 1 {
            TextEventKind::TextEvent
        } else if val == 2 {
            TextEventKind::CopyrightNotice
        } else if val == 3 {
            TextEventKind::TrackName
        } else if val == 4 {
            TextEventKind::InstrumentName
        } else if val == 5 {
            TextEventKind::Lyric
        } else if val == 6 {
            TextEventKind::Marker
        } else if val == 7 {
            TextEventKind::CuePoint
        } else if val == 8 {
            TextEventKind::ProgramName
        } else if val == 9 {
            TextEventKind::DeviceName
        } else if val == 10 {
            TextEventKind::Undefined
        } else {
            TextEventKind::MetaEvent
        }
    }

    /// The kind for a meta kind byte.
    pub fn from_val(val: u8) -> (kind: TextEventKind)
        requires
            is_text_kind(val),
        ensures
            kind == Self::spec_from_val(val),
            kind.spec_as_u8() == val,
    {
        match val {
            1 => TextEventKind::TextEvent,
            2 => TextEventKind::CopyrightNotice,
            3 => TextEventKind::TrackName,
            4 => TextEventKind::InstrumentName,
            5 => TextEventKind::Lyric,
            6 => TextEventKind::Marker,
            7 => TextEventKind::CuePoint,
            8 => TextEventKind::ProgramName,
            9 => TextEventKind::DeviceName,
            10 => TextEventKind::Undefined,
            _ => TextEventKind::MetaEvent,
        }
    }

    /// The meta kind byte of this kind.
    pub fn as_u8(self) -> (val: u8)
        ensures
            val == self.spec_as_u8(),
            is_text_kind(val),
            Self::spec_from_val(val) == self,
    {
        match self {
            TextEventKind::TextEvent => 1,
            TextEventKind::CopyrightNotice => 2,
            TextEventKind::TrackName => 3,
            TextEventKind::InstrumentName => 4,
            TextEventKind::Lyric => 5,
            TextEventKind::Marker => 6,
            TextEventKind::CuePoint => 7,
            TextEventKind::ProgramName => 8,
            TextEventKind::DeviceName => 9,
            TextEventKind::Undefined => 10,
            TextEventKind::MetaEvent => 0x7F,
        }
    }
}

/// The low seven bits of a pitch wheel position, counted from the bottom of
/// its range.
pub open spec fn pitch_low(pitch: i16) -> u8 {
    (((pitch as i32 + 8192) as i32) & 0x7F) as u8
}

/// The high seven bits of a pitch wheel position, counted from the bottom of
/// its range.
pub open spec fn pitch_high(pitch: i16) -> u8 {
    ((((pitch as i32 + 8192) as i32) >> 7) & 0x7F) as u8
}

/// Computes [`pitch_low`].
pub fn pitch_low_byte(pitch: i16) -> (b: u8)
    ensures
        b == pitch_low(pitch),
{
    let value: i32 = pitch as i32 + 8192;
    (value & 0x7F) as u8
}

/// Computes [`pitch_high`].
pub fn pitch_high_byte(pitch: i16) -> (b: u8)
    ensures
        b == pitch_high(pitch),
{
    let value: i32 = pitch as i32 + 8192;
    ((value >> 7) & 0x7F) as u8
}

/// The wire form of a meta event with a body: the meta status, the kind,
/// the body's length as a variable-length quantity, and the body.
pub open spec fn meta_bytes(kind: u8, body: Seq<u8>) -> Seq<u8> {
    seq![0xFFu8, kind] + spec_encode_var_length_value(body.len()) + body
}

/// The wire form of a system exclusive message around `data`.
pub open spec fn sysex_bytes(data: Seq<u8>) -> Seq<u8> {
    seq![0xF0u8] + data + seq![0xF7u8]
}

/// Appends `bytes` to `buf`.
pub fn append_bytes(buf: &mut Vec<u8>, bytes: &Vec<u8>)
    ensures
        final(buf)@ == old(buf)@ + bytes@,
{
    let mut i: usize = 0;
    while i < bytes.len()
        invariant
            i <= bytes.len(),
            buf@ == old(buf)@ + bytes@.subrange(0, i as int),
        decreases bytes.len() - i,
    {
        buf.push(bytes[i]);
        i += 1;
        assert(buf@ =~= old(buf)@ + bytes@.subrange(0, i as int));
    }
    assert(bytes@.subrange(0, i as int) =~= bytes@);
}

/// Appends a meta event with a body to `buf` and returns the bytes written.
pub fn write_meta(buf: &mut Vec<u8>, kind: u8, body: &Vec<u8>) -> (n: usize)
    ensures
        final(buf)@ == old(buf)@ + meta_bytes(kind, body@),
        n == meta_bytes(kind, body@).len(),
{
    let start: usize = buf.len();
    buf.push(0xFF);
    buf.push(kind);
    let len = encode_var_length_value(body.len() as u64);
    append_bytes(buf, &len);
    append_bytes(buf, body);
    assert(buf@ =~= old(buf)@ + meta_bytes(kind, body@));
    buf.len() - start
}

/// A key is pressed.
#[derive(Debug, Clone, Copy, PartialEq, Eq)]
pub struct NoteOnEvent {
    pub channel: u8,
    pub key: u8,
    pub velocity: u8,
}

impl NoteOnEvent {
    pub fn new(channel: u8, key: u8, velocity: u8) -> (e: Self)
        ensures
            e == (NoteOnEvent { channel, key, velocity }),
    {
        NoteOnEvent { channel, key, velocity }
    }
}

impl SerializeEvent for NoteOnEvent {
    open spec fn serializable(&self) -> bool {
        true
    }

    open spec fn wire_bytes(&self) -> Seq<u8> {
        seq![0x90u8 | self.channel, self.key, self.velocity]
    }

    fn serialize_event(&self, buf: &mut Vec<u8>) -> (r: Result<usize, MIDIWriteError>) {
        buf.push(0x90u8 | self.channel);
        buf.push(self.key);
        buf.push(self.velocity);
        assert(buf@ =~= old(buf)@ + self.wire_bytes());
        Ok(3)
    }
}

impl ChannelEvent for NoteOnEvent {
    open spec fn spec_channel(&self) -> u8 {
        self.channel
    }

    fn channel(&self) -> (r: u8) {
        self.channel
    }
}

impl KeyEvent for NoteOnEvent {
    open spec fn spec_key(&self) -> u8 {
        self.key
    }

    fn key(&self) -> (r: u8) {
        self.key
    }
}

impl PlaybackEvent for NoteOnEvent {
    open spec fn spec_as_u32(&self) -> u32 {
        (0x90u32 | self.channel as u32) | (self.key as u32) << 8 | (self.velocity as u32) << 16
    }

    fn as_u32(&self) -> (r: u32) {
        (0x90u32 | self.channel as u32) | (self.key as u32) << 8 | (self.velocity as u32) << 16
    }
}

/// A key is released.
#[derive(Debug, Clone, Copy, PartialEq, Eq)]
pub struct NoteOffEvent {
    pub channel: u8,
    pub key: u8,
}

impl NoteOffEvent {
    pub fn new(channel: u8, key: u8) -> (e: Self)
        ensures
            e == (NoteOffEvent { channel, key }),
    {
        NoteOffEvent { channel, key }
    }
}

impl SerializeEvent for NoteOffEvent {
    open spec fn serializable(&self) -> bool {
        true
    }

    open spec fn wire_bytes(&self) -> Seq<u8> {
        seq![0x80u8 | self.channel, self.key, 0u8]
    }

    fn serialize_event(&self, buf: &mut Vec<u8>) -> (r: Result<usize, MIDIWriteError>) {
        buf.push(0x80u8 | self.channel);
        buf.push(self.key);
        buf.push(0u8);
        assert(buf@ =~= old(buf)@ + self.wire_bytes());
        Ok(3)
    }
}

impl ChannelEvent for NoteOffEvent {
    open spec fn spec_channel(&self) -> u8 {
        self.channel
    }

    fn channel(&self) -> (r: u8) {
        self.channel
    }
}

impl KeyEvent for NoteOffEvent {
    open spec fn spec_key(&self) -> u8 {
        self.key
    }

    fn key(&self) -> (r: u8) {
        self.key
    }
}

impl PlaybackEvent for NoteOffEvent {
    open spec fn spec_as_u32(&self) -> u32 {
        (0x80u32 | self.channel as u32) | (self.key as u32) << 8
    }

    fn as_u32(&self) -> (r: u32) {
        (0x80u32 | self.channel as u32) | (self.key as u32) << 8
    }
}

/// Aftertouch on one key.
#[derive(Debug, Clone, Copy, PartialEq, Eq)]
pub struct PolyphonicKeyPressureEvent {
    pub channel: u8,
    pub key: u8,
    pub velocity: u8,
}

impl PolyphonicKeyPressureEvent {
    pub fn new(channel: u8, key: u8, velocity: u8) -> (e: Self)
        ensures
            e == (PolyphonicKeyPressureEvent { channel, key, velocity }),
    {
        PolyphonicKeyPressureEvent { channel, key, velocity }
    }
}

impl SerializeEvent for PolyphonicKeyPressureEvent {
    open spec fn serializable(&self) -> bool {
        true
    }

    open spec fn wire_bytes(&self) -> Seq<u8> {
        seq![0xA0u8 | self.channel, self.key, self.velocity]
    }

    fn serialize_event(&self, buf: &mut Vec<u8>) -> (r: Result<usize, MIDIWriteError>) {
        buf.push(0xA0u8 | self.channel);
        buf.push(self.key);
        buf.push(self.velocity);
        assert(buf@ =~= old(buf)@ + self.wire_bytes());
        Ok(3)
    }
}

impl ChannelEvent for PolyphonicKeyPressureEvent {
    open spec fn spec_channel(&self) -> u8 {
        self.channel
    }

    fn channel(&self) -> (r: u8) {
        self.channel
    }
}

impl KeyEvent for PolyphonicKeyPressureEvent {
    open spec fn spec_key(&self) -> u8 {
        self.key
    }

    fn key(&self) -> (r: u8) {
        self.key
    }
}

impl PlaybackEvent for PolyphonicKeyPressureEvent {
    open spec fn spec_as_u32(&self) -> u32 {
        (0xA0u32 | self.channel as u32) | (self.key as u32) << 8 | (self.velocity as u32) << 16
    }

    fn as_u32(&self) -> (r: u32) {
        (0xA0u32 | self.channel as u32) | (self.key as u32) << 8 | (self.velocity as u32) << 16
    }
}

/// A controller takes a new value.
#[derive(Debug, Clone, Copy, PartialEq, Eq)]
pub struct ControlChangeEvent {
    pub channel: u8,
    pub controller: u8,
    pub value: u8,
}

impl ControlChangeEvent {
    pub fn new(channel: u8, controller: u8, value: u8) -> (e: Self)
        ensures
            e == (ControlChangeEvent { channel, controller, value }),
    {
        ControlChangeEvent { channel, controller, value }
    }
}

impl SerializeEvent for ControlChangeEvent {
    open spec fn serializable(&self) -> bool {
        true
    }

    open spec fn wire_bytes(&self) -> Seq<u8> {
        seq![0xB0u8 | self.channel, self.controller, self.value]
    }

    fn serialize_event(&self, buf: &mut Vec<u8>) -> (r: Result<usize, MIDIWriteError>) {
        buf.push(0xB0u8 | self.channel);
        buf.push(self.controller);
        buf.push(self.value);
        assert(buf@ =~= old(buf)@ + self.wire_bytes());
        Ok(3)
    }
}

impl ChannelEvent for ControlChangeEvent {
    open spec fn spec_channel(&self) -> u8 {
        self.channel
    }

    fn channel(&self) -> (r: u8) {
        self.channel
    }
}

impl PlaybackEvent for ControlChangeEvent {
    open spec fn spec_as_u32(&self) -> u32 {
        (0xB0u32 | self.channel as u32) | (self.controller as u32) << 8 | (self.value as u32) << 16
    }

    fn as_u32(&self) -> (r: u32) {
        (0xB0u32 | self.channel as u32) | (self.controller as u32) << 8 | (self.value as u32) << 16
    }
}

/// A channel switches program.
#[derive(Debug, Clone, Copy, PartialEq, Eq)]
pub struct ProgramChangeEvent {
    pub channel: u8,
    pub program: u8,
}

impl ProgramChangeEvent {
    pub fn new(channel: u8, program: u8) -> (e: Self)
        ensures
            e == (ProgramChangeEvent { channel, program }),
    {
        ProgramChangeEvent { channel, program }
    }
}

impl SerializeEvent for ProgramChangeEvent {
    open spec fn serializable(&self) -> bool {
        true
    }

    open spec fn wire_bytes(&self) -> Seq<u8> {
        seq![0xC0u8 | self.channel, self.program]
    }

    fn serialize_event(&self, buf: &mut Vec<u8>) -> (r: Result<usize, MIDIWriteError>) {
        buf.push(0xC0u8 | self.channel);
        buf.push(self.program);
        assert(buf@ =~= old(buf)@ + self.wire_bytes());
        Ok(2)
    }
}

impl ChannelEvent for ProgramChangeEvent {
    open spec fn spec_channel(&self) -> u8 {
        self.channel
    }

    fn channel(&self) -> (r: u8) {
        self.channel
    }
}

impl PlaybackEvent for ProgramChangeEvent {
    open spec fn spec_as_u32(&self) -> u32 {
        (0xC0u32 | self.channel as u32) | (self.program as u32) << 8
    }

    fn as_u32(&self) -> (r: u32) {
        (0xC0u32 | self.channel as u32) | (self.program as u32) << 8
    }
}

/// Aftertouch on a whole channel.
#[derive(Debug, Clone, Copy, PartialEq, Eq)]
pub struct ChannelPressureEvent {
    pub channel: u8,
    pub pressure: u8,
}

impl ChannelPressureEvent {
    pub fn new(channel: u8, pressure: u8) -> (e: Self)
        ensures
            e == (ChannelPressureEvent { channel, pressure }),
    {
        ChannelPressureEvent { channel, pressure }
    }
}

impl SerializeEvent for ChannelPressureEvent {
    open spec fn serializable(&self) -> bool {
        true
    }

    open spec fn wire_bytes(&self) -> Seq<u8> {
        seq![0xD0u8 | self.channel, self.pressure]
    }

    fn serialize_event(&self, buf: &mut Vec<u8>) -> (r: Result<usize, MIDIWriteError>) {
        buf.push(0xD0u8 | self.channel);
        buf.push(self.pressure);
        assert(buf@ =~= old(buf)@ + self.wire_bytes());
        Ok(2)
    }
}

impl ChannelEvent for ChannelPressureEvent {
    open spec fn spec_channel(&self) -> u8 {
        self.channel
    }

    fn channel(&self) -> (r: u8) {
        self.channel
    }
}

impl PlaybackEvent for ChannelPressureEvent {
    open spec fn spec_as_u32(&self) -> u32 {
        (0xD0u32 | self.channel as u32) | (self.pressure as u32) << 8
    }

    fn as_u32(&self) -> (r: u32) {
        (0xD0u32 | self.channel as u32) | (self.pressure as u32) << 8
    }
}

/// The pitch wheel moves; `pitch` is centred on zero.
#[derive(Debug, Clone, Copy, PartialEq, Eq)]
pub struct PitchWheelChangeEvent {
    pub channel: u8,
    pub pitch: i16,
}

impl PitchWheelChangeEvent {
    pub fn new(channel: u8, pitch: i16) -> (e: Self)
        ensures
            e == (PitchWheelChangeEvent { channel, pitch }),
    {
        PitchWheelChangeEvent { channel, pitch }
    }
}

impl SerializeEvent for PitchWheelChangeEvent {
    open spec fn serializable(&self) -> bool {
        true
    }

    open spec fn wire_bytes(&self) -> Seq<u8> {
        seq![0xE0u8 | self.channel, pitch_low(self.pitch), pitch_high(self.pitch)]
    }

    fn serialize_event(&self, buf: &mut Vec<u8>) -> (r: Result<usize, MIDIWriteError>) {
        buf.push(0xE0u8 | self.channel);
        buf.push(pitch_low_byte(self.pitch));
        buf.push(pitch_high_byte(self.pitch));
        assert(buf@ =~= old(buf)@ + self.wire_bytes());
        Ok(3)
    }
}

impl ChannelEvent for PitchWheelChangeEvent {
    open spec fn spec_channel(&self) -> u8 {
        self.channel
    }

    fn channel(&self) -> (r: u8) {
        self.channel
    }
}

impl PlaybackEvent for PitchWheelChangeEvent {
    open spec fn spec_as_u32(&self) -> u32 {
        (0xE0u32 | self.channel as u32) | (pitch_low(self.pitch) as u32) << 8 | (pitch_high(self.pitch) as u32) << 16
    }

    fn as_u32(&self) -> (r: u32) {
        (0xE0u32 | self.channel as u32) | (pitch_low_byte(self.pitch) as u32) << 8 | (pitch_high_byte(self.pitch) as u32) << 16
    }
}

/// A system exclusive message, without its terminator.
#[derive(Debug, Clone, PartialEq, Eq)]
pub struct SystemExclusiveMessageEvent {
    pub data: Vec<u8>,
}

impl SystemExclusiveMessageEvent {
    pub fn new(data: Vec<u8>) -> (e: Self)
        ensures
            e == (SystemExclusiveMessageEvent { data }),
    {
        SystemExclusiveMessageEvent { data }
    }
}

impl SerializeEvent for SystemExclusiveMessageEvent {
    open spec fn serializable(&self) -> bool {
        true
    }

    open spec fn wire_bytes(&self) -> Seq<u8> {
        sysex_bytes(self.data@)
    }

    fn serialize_event(&self, buf: &mut Vec<u8>) -> (r: Result<usize, MIDIWriteError>) {
        let start: usize = buf.len();
        buf.push(0xF0);
        append_bytes(buf, &self.data);
        buf.push(0xF7);
        assert(buf@ =~= old(buf)@ + self.wire_bytes());
        Ok(buf.len() - start)
    }
}

/// A status byte with no assigned meaning.
#[derive(Debug, Clone, Copy, PartialEq, Eq)]
pub struct UndefinedEvent {
    pub event: u8,
}

impl UndefinedEvent {
    pub fn new(event: u8) -> (e: Self)
        ensures
            e == (UndefinedEvent { event }),
    {
        UndefinedEvent { event }
    }
}

impl SerializeEvent for UndefinedEvent {
    open spec fn serializable(&self) -> bool {
        true
    }

    open spec fn wire_bytes(&self) -> Seq<u8> {
        seq![self.event]
    }

    fn serialize_event(&self, buf: &mut Vec<u8>) -> (r: Result<usize, MIDIWriteError>) {
        buf.push(self.event);
        assert(buf@ =~= old(buf)@ + self.wire_bytes());
        Ok(1)
    }
}

/// Song position in MIDI beats.
#[derive(Debug, Clone, Copy, PartialEq, Eq)]
pub struct SongPositionPointerEvent {
    pub position: u16,
}

impl SongPositionPointerEvent {
    pub fn new(position: u16) -> (e: Self)
        ensures
            e == (SongPositionPointerEvent { position }),
    {
        SongPositionPointerEvent { position }
    }
}

impl SerializeEvent for SongPositionPointerEvent {
    open spec fn serializable(&self) -> bool {
        true
    }

    open spec fn wire_bytes(&self) -> Seq<u8> {
        seq![0xF2u8, (self.position & 0x7F) as u8, ((self.position >> 7) & 0x7F) as u8]
    }

    fn serialize_event(&self, buf: &mut Vec<u8>) -> (r: Result<usize, MIDIWriteError>) {
        buf.push(0xF2u8);
        buf.push((self.position & 0x7F) as u8);
        buf.push(((self.position >> 7) & 0x7F) as u8);
        assert(buf@ =~= old(buf)@ + self.wire_bytes());
        Ok(3)
    }
}

/// Selects a song.
#[derive(Debug, Clone, Copy, PartialEq, Eq)]
pub struct SongSelectEvent {
    pub song: u8,
}

impl SongSelectEvent {
    pub fn new(song: u8) -> (e: Self)
        ensures
            e == (SongSelectEvent { song }),
    {
        SongSelectEvent { song }
    }
}

impl SerializeEvent for SongSelectEvent {
    open spec fn serializable(&self) -> bool {
        true
    }

    open spec fn wire_bytes(&self) -> Seq<u8> {
        seq![0xF3u8, self.song]
    }

    fn serialize_event(&self, buf: &mut Vec<u8>) -> (r: Result<usize, MIDIWriteError>) {
        buf.push(0xF3u8);
        buf.push(self.song);
        assert(buf@ =~= old(buf)@ + self.wire_bytes());
        Ok(2)
    }
}

/// Asks analogue synthesisers to tune.
#[derive(Debug, Clone, Copy, PartialEq, Eq)]
pub struct TuneRequestEvent {}

impl TuneRequestEvent {
    pub fn new() -> (e: Self)
        ensures
            e == (TuneRequestEvent {  }),
    {
        TuneRequestEvent {  }
    }
}

impl SerializeEvent for TuneRequestEvent {
    open spec fn serializable(&self) -> bool {
        true
    }

    open spec fn wire_bytes(&self) -> Seq<u8> {
        seq![0xF6u8]
    }

    fn serialize_event(&self, buf: &mut Vec<u8>) -> (r: Result<usize, MIDIWriteError>) {
        buf.push(0xF6u8);
        assert(buf@ =~= old(buf)@ + self.wire_bytes());
        Ok(1)
    }
}

/// A stray end-of-exclusive status.
#[derive(Debug, Clone, Copy, PartialEq, Eq)]
pub struct EndOfExclusiveEvent {}

impl EndOfExclusiveEvent {
    pub fn new() -> (e: Self)
        ensures
            e == (EndOfExclusiveEvent {  }),
    {
        EndOfExclusiveEvent {  }
    }
}

impl SerializeEvent for EndOfExclusiveEvent {
    open spec fn serializable(&self) -> bool {
        true
    }

    open spec fn wire_bytes(&self) -> Seq<u8> {
        seq![0xF7u8]
    }

    fn serialize_event(&self, buf: &mut Vec<u8>) -> (r: Result<usize, MIDIWriteError>) {
        buf.push(0xF7u8);
        assert(buf@ =~= old(buf)@ + self.wire_bytes());
        Ok(1)
    }
}

/// The sequence-number meta event that opens a track.
#[derive(Debug, Clone, Copy, PartialEq, Eq)]
pub struct TrackStartEvent {}

impl TrackStartEvent {
    pub fn new() -> (e: Self)
        ensures
            e == (TrackStartEvent {  }),
    {
        TrackStartEvent {  }
    }
}

impl SerializeEvent for TrackStartEvent {
    open spec fn serializable(&self) -> bool {
        true
    }

    open spec fn wire_bytes(&self) -> Seq<u8> {
        seq![0xFFu8, 0x00u8, 0x02u8]
    }

    fn serialize_event(&self, buf: &mut Vec<u8>) -> (r: Result<usize, MIDIWriteError>) {
        buf.push(0xFFu8);
        buf.push(0x00u8);
        buf.push(0x02u8);
        assert(buf@ =~= old(buf)@ + self.wire_bytes());
        Ok(3)
    }
}

/// A text meta event of one of the known kinds.
#[derive(Debug, Clone, PartialEq, Eq)]
pub struct TextEvent {
    pub kind: TextEventKind,
    pub bytes: Vec<u8>,
}

impl TextEvent {
    pub fn new(kind: TextEventKind, bytes: Vec<u8>) -> (e: Self)
        ensures
            e == (TextEvent { kind, bytes }),
    {
        TextEvent { kind, bytes }
    }
}

impl SerializeEvent for TextEvent {
    open spec fn serializable(&self) -> bool {
        true
    }

    open spec fn wire_bytes(&self) -> Seq<u8> {
        meta_bytes(self.kind.spec_as_u8(), self.bytes@)
    }

    fn serialize_event(&self, buf: &mut Vec<u8>) -> (r: Result<usize, MIDIWriteError>) {
        let n: usize = write_meta(buf, self.kind.as_u8(), &self.bytes);
        Ok(n)
    }
}

/// A meta event of a kind this library does not interpret.
#[derive(Debug, Clone, PartialEq, Eq)]
pub struct UnknownMetaEvent {
    pub kind: u8,
    pub bytes: Vec<u8>,
}

impl UnknownMetaEvent {
    pub fn new(kind: u8, bytes: Vec<u8>) -> (e: Self)
        ensures
            e == (UnknownMetaEvent { kind, bytes }),
    {
        UnknownMetaEvent { kind, bytes }
    }
}

impl SerializeEvent for UnknownMetaEvent {
    open spec fn serializable(&self) -> bool {
        true
    }

    open spec fn wire_bytes(&self) -> Seq<u8> {
        meta_bytes(self.kind, self.bytes@)
    }

    fn serialize_event(&self, buf: &mut Vec<u8>) -> (r: Result<usize, MIDIWriteError>) {
        let n: usize = write_meta(buf, self.kind, &self.bytes);
        Ok(n)
    }
}

/// A colour annotation; it has no wire form.
#[derive(Debug, Clone, Copy, PartialEq, Eq)]
pub struct ColorEvent {
    pub channel: u8,
    pub col: MIDIColor,
    pub col2: Option<MIDIColor>,
}

impl ColorEvent {
    pub fn new(channel: u8, col: MIDIColor, col2: Option<MIDIColor>) -> (e: Self)
        ensures
            e == (ColorEvent { channel, col, col2 }),
    {
        ColorEvent { channel, col, col2 }
    }
}

impl SerializeEvent for ColorEvent {
    open spec fn serializable(&self) -> bool {
        false
    }

    open spec fn wire_bytes(&self) -> Seq<u8> {
        Seq::empty()
    }

    fn serialize_event(&self, buf: &mut Vec<u8>) -> (r: Result<usize, MIDIWriteError>) {
        Err(MIDIWriteError::NotImplemented)
    }
}

/// Binds the following meta events to a channel.
#[derive(Debug, Clone, Copy, PartialEq, Eq)]
pub struct ChannelPrefixEvent {
    pub channel: u8,
}

impl ChannelPrefixEvent {
    pub fn new(channel: u8) -> (e: Self)
        ensures
            e == (ChannelPrefixEvent { channel }),
    {
        ChannelPrefixEvent { channel }
    }
}

impl SerializeEvent for ChannelPrefixEvent {
    open spec fn serializable(&self) -> bool {
        true
    }

    open spec fn wire_bytes(&self) -> Seq<u8> {
        seq![0xFFu8, 0x20u8, 0x01u8, self.channel]
    }

    fn serialize_event(&self, buf: &mut Vec<u8>) -> (r: Result<usize, MIDIWriteError>) {
        buf.push(0xFFu8);
        buf.push(0x20u8);
        buf.push(0x01u8);
        buf.push(self.channel);
        assert(buf@ =~= old(buf)@ + self.wire_bytes());
        Ok(4)
    }
}

impl ChannelEvent for ChannelPrefixEvent {
    open spec fn spec_channel(&self) -> u8 {
        self.channel
    }

    fn channel(&self) -> (r: u8) {
        self.channel
    }
}

/// Names the port of a track.
#[derive(Debug, Clone, Copy, PartialEq, Eq)]
pub struct MIDIPortEvent {
    pub channel: u8,
}

impl MIDIPortEvent {
    pub fn new(channel: u8) -> (e: Self)
        ensures
            e == (MIDIPortEvent { channel }),
    {
        MIDIPortEvent { channel }
    }
}

impl SerializeEvent for MIDIPortEvent {
    open spec fn serializable(&self) -> bool {
        true
    }

    open spec fn wire_bytes(&self) -> Seq<u8> {
        seq![0xFFu8, 0x21u8, 0x01u8, self.channel]
    }

    fn serialize_event(&self, buf: &mut Vec<u8>) -> (r: Result<usize, MIDIWriteError>) {
        buf.push(0xFFu8);
        buf.push(0x21u8);
        buf.push(0x01u8);
        buf.push(self.channel);
        assert(buf@ =~= old(buf)@ + self.wire_bytes());
        Ok(4)
    }
}

impl ChannelEvent for MIDIPortEvent {
    open spec fn spec_channel(&self) -> u8 {
        self.channel
    }

    fn channel(&self) -> (r: u8) {
        self.channel
    }
}

/// Sets the tempo, in microseconds per quarter note.
#[derive(Debug, Clone, Copy, PartialEq, Eq)]
pub struct TempoEvent {
    pub tempo: u32,
}

impl TempoEvent {
    pub fn new(tempo: u32) -> (e: Self)
        ensures
            e == (TempoEvent { tempo }),
    {
        TempoEvent { tempo }
    }
}

impl SerializeEvent for TempoEvent {
    open spec fn serializable(&self) -> bool {
        true
    }

    open spec fn wire_bytes(&self) -> Seq<u8> {
        seq![0xFFu8, 0x51u8, 0x03u8, ((self.tempo >> 16) & 0xFF) as u8, ((self.tempo >> 8) & 0xFF) as u8, (self.tempo & 0xFF) as u8]
    }

    fn serialize_event(&self, buf: &mut Vec<u8>) -> (r: Result<usize, MIDIWriteError>) {
        buf.push(0xFFu8);
        buf.push(0x51u8);
        buf.push(0x03u8);
        buf.push(((self.tempo >> 16) & 0xFF) as u8);
        buf.push(((self.tempo >> 8) & 0xFF) as u8);
        buf.push((self.tempo & 0xFF) as u8);
        assert(buf@ =~= old(buf)@ + self.wire_bytes());
        Ok(6)
    }
}

/// The SMPTE time at which the track starts.
#[derive(Debug, Clone, Copy, PartialEq, Eq)]
pub struct SMPTEOffsetEvent {
    pub hours: u8,
    pub minutes: u8,
    pub seconds: u8,
    pub frames: u8,
    pub fractional_frames: u8,
}

impl SMPTEOffsetEvent {
    pub fn new(hours: u8, minutes: u8, seconds: u8, frames: u8, fractional_frames: u8) -> (e: Self)
        ensures
            e == (SMPTEOffsetEvent { hours, minutes, seconds, frames, fractional_frames }),
    {
        SMPTEOffsetEvent { hours, minutes, seconds, frames, fractional_frames }
    }
}

impl SerializeEvent for SMPTEOffsetEvent {
    open spec fn serializable(&self) -> bool {
        true
    }

    open spec fn wire_bytes(&self) -> Seq<u8> {
        seq![0xFFu8, 0x54u8, 0x05u8, self.hours, self.minutes, self.seconds, self.frames, self.fractional_frames]
    }

    fn serialize_event(&self, buf: &mut Vec<u8>) -> (r: Result<usize, MIDIWriteError>) {
        buf.push(0xFFu8);
        buf.push(0x54u8);
        buf.push(0x05u8);
        buf.push(self.hours);
        buf.push(self.minutes);
        buf.push(self.seconds);
        buf.push(self.frames);
        buf.push(self.fractional_frames);
        assert(buf@ =~= old(buf)@ + self.wire_bytes());
        Ok(8)
    }
}

/// The time signature.
#[derive(Debug, Clone, Copy, PartialEq, Eq)]
pub struct TimeSignatureEvent {
    pub numerator: u8,
    pub denominator: u8,
    pub ticks_per_click: u8,
    pub bb: u8,
}

impl TimeSignatureEvent {
    pub fn new(numerator: u8, denominator: u8, ticks_per_click: u8, bb: u8) -> (e: Self)
        ensures
            e == (TimeSignatureEvent { numerator, denominator, ticks_per_click, bb }),
    {
        TimeSignatureEvent { numerator, denominator, ticks_per_click, bb }
    }
}

impl SerializeEvent for TimeSignatureEvent {
    open spec fn serializable(&self) -> bool {
        true
    }

    open spec fn wire_bytes(&self) -> Seq<u8> {
        seq![0xFFu8, 0x58u8, 0x04u8, self.numerator, self.denominator, self.ticks_per_click, self.bb]
    }

    fn serialize_event(&self, buf: &mut Vec<u8>) -> (r: Result<usize, MIDIWriteError>) {
        buf.push(0xFFu8);
        buf.push(0x58u8);
        buf.push(0x04u8);
        buf.push(self.numerator);
        buf.push(self.denominator);
        buf.push(self.ticks_per_click);
        buf.push(self.bb);
        assert(buf@ =~= old(buf)@ + self.wire_bytes());
        Ok(7)
    }
}

/// The key signature.
#[derive(Debug, Clone, Copy, PartialEq, Eq)]
pub struct KeySignatureEvent {
    pub sf: u8,
    pub mi: u8,
}

impl KeySignatureEvent {
    pub fn new(sf: u8, mi: u8) -> (e: Self)
        ensures
            e == (KeySignatureEvent { sf, mi }),
    {
        KeySignatureEvent { sf, mi }
    }
}

impl SerializeEvent for KeySignatureEvent {
    open spec fn serializable(&self) -> bool {
        true
    }

    open spec fn wire_bytes(&self) -> Seq<u8> {
        seq![0xFFu8, 0x59u8, 0x02u8, self.sf, self.mi]
    }

    fn serialize_event(&self, buf: &mut Vec<u8>) -> (r: Result<usize, MIDIWriteError>) {
        buf.push(0xFFu8);
        buf.push(0x59u8);
        buf.push(0x02u8);
        buf.push(self.sf);
        buf.push(self.mi);
        assert(buf@ =~= old(buf)@ + self.wire_bytes());
        Ok(5)
    }
}

} // verus!
