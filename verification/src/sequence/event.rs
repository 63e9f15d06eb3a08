pub mod batched;
pub mod cancel_tempo_events;
pub mod delta;
pub mod filter_events;
pub mod merge_events;
pub mod scale_event_time;
pub mod stats;
pub mod track;

pub use batched::convert_events_into_batches;
pub use batched::flatten_batches_to_events;
pub use batched::flatten_track_batches_to_events;
pub use batched::EventBatch;
pub use cancel_tempo_events::cancel_tempo_events;
pub use delta::Delta;
pub use filter_events::filter_events;
pub use filter_events::filter_non_note_events;
pub use filter_events::filter_note_events;
pub use merge_events::merge_events;
pub use merge_events::merge_events_array;
pub use scale_event_time::change_ppq;
pub use scale_event_time::scale_event_ppq;
pub use scale_event_time::scale_event_time;
pub use scale_event_time::scale_time;
pub use stats::get_channel_statistics;
pub use stats::get_channels_array_statistics;
pub use stats::ChannelGroupStatistics;
pub use stats::ChannelStatistics;
pub use track::into_track_events;
pub use track::Track;
