pub mod merge_notes;

pub use merge_notes::merge_notes;
pub use merge_notes::merge_notes_array;
pub use merge_notes::merge_notes_iterator;
