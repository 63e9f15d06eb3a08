pub mod common;
pub mod conversion;
pub mod event;
pub mod note;

pub use common::group_streams;
pub use common::merge_in_pairs;
pub use common::merge_notes_in_pairs;
pub use common::to_vec;
pub use common::to_vec_result;
pub use common::unwrap_items;
pub use common::wrap_ok;
pub use common::BufferFill;
pub use common::TimeCaster;
