pub mod events;
pub mod io;
pub mod notes;
pub mod num;
pub mod sequence;
