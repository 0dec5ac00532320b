//! Events that reach a track's modules while the song plays.
use vstd::prelude::*;

verus! {

/// An event for the modules of a track; the last field of each is the delay in
/// 1/256 of a line from the start of the processed block. `NoteOn` carries key and
/// MIDI velocity; `ParamValue` carries the module index, the parameter id and the
/// automation point's raw value (0 to 255, which the plugin host scales to 0..1).
#[derive(Clone, Copy, Debug, PartialEq, Eq, Structural)]
pub enum Event {
    NoteOn(i16, u8, usize),
    NoteOff(i16, usize),
    NoteAllOff,
    ParamValue(usize, u32, u8, usize),
}

/// The kind of an event that a plugin instance reports in its output.
#[derive(Clone, Copy, Debug, PartialEq, Eq, Structural)]
pub enum EventKind {
    NoteOn,
    NoteOff,
    ParamValue,
}

} // verus!
