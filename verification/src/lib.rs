//! The song model, editing logic and playback decisions of a tracker-style
//! music sequencer, verified with Verus.
pub mod text;
pub mod note;
pub mod model;
pub mod cursor;
pub mod engine;
pub mod song_state;
pub mod protocol;
pub mod settings;
pub mod editor;
