use vstd::prelude::*;

verus! {

/// Failures while locating the chunks of a file.
#[derive(Debug, Clone, PartialEq, Eq)]
pub enum MIDILoadError {
    /// A chunk header is missing, has the wrong magic or length, or a
    /// requested window lies outside the file.
    CorruptChunks,
    /// The byte source failed; the text is the source's own message.
    FilesystemError(String),
    /// The file is too large to be held in memory.
    FileTooBig,
}

/// Failures while decoding the events of one track.
#[derive(Debug, Clone, PartialEq, Eq)]
pub enum MIDIParseError {
    /// A meta event announced a length that its kind does not allow.
    CorruptEvent { track_number: Option<u32>, position: u64 },
    /// The track region ended in the middle of an event.
    UnexpectedTrackEnd {
        track_number: Option<u32>,
        track_start: u64,
        expected_track_end: u64,
        found_track_end: u64,
    },
    /// The byte source failed; the text is the source's own message.
    FilesystemError(String),
}

/// Failures while serialising.
#[derive(Debug, Clone, PartialEq, Eq)]
pub enum MIDIWriteError {
    /// The byte sink failed; the text is the sink's own message.
    FilesystemError(String),
    /// The event has no wire form.
    NotImplemented,
}

} // verus!
