pub mod events_to_notes;
pub mod notes_to_events;
pub mod round_trip;

pub use events_to_notes::events_to_notes;
pub use notes_to_events::notes_to_events;
