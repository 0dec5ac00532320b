//! Notes played on the MIDI input device: the raw messages it sends become events
//! for the recording track.
use crate::engine::event::Event;
use vstd::prelude::*;

verus! {

/// A note message: a key pressed with a velocity, or a key released.
#[derive(Clone, Copy, Debug, PartialEq, Eq, Structural)]
pub enum MidiNote {
    On(u8, u8),
    Off(u8),
}

/// The note message that the bytes `b` hold: a status byte whose high half is 9
/// (note-on) or 8 (note-off), then key and velocity below 128; a note-on with
/// velocity 0 is a note-off. Bytes after the third are not read. Anything else is
/// no note message.
pub open spec fn spec_midi_note(b: Seq<u8>) -> Option<MidiNote> {
    if b.len() >= 3 && b[1] < 0x80 && b[2] < 0x80 {
        if b[0] / 16 == 8 {
            Some(MidiNote::Off(b[1]))
        } else if b[0] / 16 == 9 {
            if b[2] == 0 {
                Some(MidiNote::Off(b[1]))
            } else {
                Some(MidiNote::On(b[1], b[2]))
            }
        } else {
            None
        }
    } else {
        None
    }
}

/// Calls `wmidi::MidiMessage::try_from` on the bytes and keeps the note-on and
/// note-off messages, with their key and velocity as numbers. The contract restates
/// what that function's source does for these two messages: it checks the status
/// byte, takes the channel from its low half, needs two data bytes below 128, and
/// reads a note-on with velocity 0 as a note-off.
#[verifier::external_body]
fn midi_note_message(data: &[u8]) -> (r: Option<MidiNote>)
    ensures
        r == spec_midi_note(data@),
{
    match wmidi::MidiMessage::try_from(data) {
        Ok(wmidi::MidiMessage::NoteOn(_, key, velocity)) => Some(MidiNote::On(u8::from(key), u8::from(velocity))),
        Ok(wmidi::MidiMessage::NoteOff(_, key, _)) => Some(MidiNote::Off(u8::from(key))),
        _ => None,
    }
}

/// The event for the recording track that a MIDI message makes, as
/// [`spec_midi_note`] reads it: a note-on with its key and velocity, or a
/// note-off, both at the start of the block; nothing for any other message.
pub fn midi_event(data: &[u8]) -> (r: Option<Event>)
    ensures
        r == match spec_midi_note(data@) {
            Some(MidiNote::On(key, velocity)) => Some(Event::NoteOn(key as i16, velocity, 0)),
            Some(MidiNote::Off(key)) => Some(Event::NoteOff(key as i16, 0)),
            None => None,
        },
{
    match midi_note_message(data) {
        Some(MidiNote::On(key, velocity)) => Some(Event::NoteOn(key as i16, velocity, 0)),
        Some(MidiNote::Off(key)) => Some(Event::NoteOff(key as i16, 0)),
        None => None,
    }
}

} // verus!
