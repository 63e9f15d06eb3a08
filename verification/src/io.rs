pub mod disk_track;
pub mod errors;
pub mod midi_file;
pub mod midi_writer;
pub mod parse_laws;
pub mod readers;
pub mod track_parser;

pub use disk_track::DiskTrackState;
pub use errors::MIDILoadError;
pub use errors::MIDIParseError;
pub use errors::MIDIWriteError;
pub use midi_file::MIDIFile;
pub use midi_writer::MIDIWriter;
pub use midi_writer::QueuedOutput;
pub use midi_writer::TrackWriter;
pub use readers::FullRamTrackReader;
pub use readers::MIDIReader;
pub use readers::TrackReader;
pub use readers::RAMReader;
pub use track_parser::ParserCheckpoint;
pub use track_parser::TrackParser;
