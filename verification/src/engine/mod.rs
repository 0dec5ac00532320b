//! The playback engine's decisions: which events a block of the song produces,
//! how recorded input becomes lane items, and how the engine answers edits.
pub mod event;
pub mod midi_input;
pub mod mix;
pub mod lane_edit;
pub mod message;
pub mod process_track_context;
pub mod track_events;
pub mod undo_history;
pub mod singer;
pub mod request;
pub mod block;
