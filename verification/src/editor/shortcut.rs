//! The editor's key bindings: which request of the user a key with its modifier
//! keys stands for, by the part of the editor that has the focus.
use crate::editor::ui_command::{
    FocusedPart, LaneCommand, MixerCommand, Modifier, ModuleCommand, TrackCommand, UiCommand,
};
use vstd::prelude::*;

verus! {

/// The keys that the key bindings name.
#[derive(Clone, Copy, Debug, PartialEq, Eq, Structural, Hash)]
pub enum Key {
    ArrowDown,
    ArrowLeft,
    ArrowRight,
    ArrowUp,
    C,
    Comma,
    D,
    Delete,
    E,
    Enter,
    Escape,
    F,
    G,
    H,
    J,
    K,
    L,
    M,
    N,
    Num0,
    Num1,
    Num2,
    Num3,
    Num4,
    Num5,
    Num6,
    Num7,
    Num8,
    Num9,
    O,
    P,
    Period,
    R,
    S,
    Space,
    T,
    U,
    V,
    X,
    Z,
}

/// The bindings that hold on every screen: play, the command palette and the focus.
pub open spec fn spec_root_binding(m: Modifier, k: Key) -> Option<UiCommand> {
    match (m, k) {
        (Modifier::Plain, Key::Space) => Some(UiCommand::PlayToggle),
        (Modifier::C, Key::Space) => Some(UiCommand::Command),
        (Modifier::Plain, Key::V) => Some(UiCommand::FocusedPartNext),
        (Modifier::S, Key::V) => Some(UiCommand::FocusedPartPrev),
        _ => None,
    }
}

/// The bindings that hold on every screen: play, the command palette and the focus.
pub fn root_binding(m: Modifier, k: Key) -> (r: Option<UiCommand>)
    ensures
        r == spec_root_binding(m, k),
{
    match (m, k) {
        (Modifier::Plain, Key::Space) => Some(UiCommand::PlayToggle),
        (Modifier::C, Key::Space) => Some(UiCommand::Command),
        (Modifier::Plain, Key::V) => Some(UiCommand::FocusedPartNext),
        (Modifier::S, Key::V) => Some(UiCommand::FocusedPartPrev),
        _ => None,
    }
}

/// The bindings that hold in every part of the track screen.
pub open spec fn spec_common_binding(m: Modifier, k: Key) -> Option<UiCommand> {
    match (m, k) {
        (Modifier::Plain, Key::M) => Some(UiCommand::TrackMute(None, None)),
        (Modifier::Plain, Key::F) => Some(UiCommand::Follow),
        (Modifier::Plain, Key::P) => Some(UiCommand::Loop),
        (Modifier::Plain, Key::S) => Some(UiCommand::TrackSolo(None, None)),
        (Modifier::C, Key::S) => Some(UiCommand::SongSave),
        (Modifier::C, Key::T) => Some(UiCommand::TrackAdd),
        (Modifier::CS, Key::T) => Some(UiCommand::LaneAdd),
        _ => None,
    }
}

/// The bindings that hold in every part of the track screen.
pub fn common_binding(m: Modifier, k: Key) -> (r: Option<UiCommand>)
    ensures
        r == spec_common_binding(m, k),
{
    match (m, k) {
        (Modifier::Plain, Key::M) => Some(UiCommand::TrackMute(None, None)),
        (Modifier::Plain, Key::F) => Some(UiCommand::Follow),
        (Modifier::Plain, Key::P) => Some(UiCommand::Loop),
        (Modifier::Plain, Key::S) => Some(UiCommand::TrackSolo(None, None)),
        (Modifier::C, Key::S) => Some(UiCommand::SongSave),
        (Modifier::C, Key::T) => Some(UiCommand::TrackAdd),
        (Modifier::CS, Key::T) => Some(UiCommand::LaneAdd),
        _ => None,
    }
}

/// The bindings of the track headers.
pub open spec fn spec_track_binding(m: Modifier, k: Key) -> Option<UiCommand> {
    match (m, k) {
        (Modifier::Plain, Key::H) => Some(UiCommand::Track(TrackCommand::CursorLeft)),
        (Modifier::Plain, Key::L) => Some(UiCommand::Track(TrackCommand::CursorRight)),
        (Modifier::C, Key::H) => Some(UiCommand::Track(TrackCommand::MoveLeft)),
        (Modifier::C, Key::L) => Some(UiCommand::Track(TrackCommand::MoveRight)),
        (Modifier::C, Key::C) => Some(UiCommand::Track(TrackCommand::Copy)),
        (Modifier::C, Key::X) => Some(UiCommand::Track(TrackCommand::Cut)),
        (Modifier::C, Key::V) => Some(UiCommand::Track(TrackCommand::Paste)),
        (Modifier::Plain, Key::D) => Some(UiCommand::Track(TrackCommand::Dup)),
        (Modifier::Plain, Key::Delete) => Some(UiCommand::Track(TrackCommand::Delete)),
        _ => None,
    }
}

/// The bindings of the track headers.
pub fn track_binding(m: Modifier, k: Key) -> (r: Option<UiCommand>)
    ensures
        r == spec_track_binding(m, k),
{
    match (m, k) {
        (Modifier::Plain, Key::H) => Some(UiCommand::Track(TrackCommand::CursorLeft)),
        (Modifier::Plain, Key::L) => Some(UiCommand::Track(TrackCommand::CursorRight)),
        (Modifier::C, Key::H) => Some(UiCommand::Track(TrackCommand::MoveLeft)),
        (Modifier::C, Key::L) => Some(UiCommand::Track(TrackCommand::MoveRight)),
        (Modifier::C, Key::C) => Some(UiCommand::Track(TrackCommand::Copy)),
        (Modifier::C, Key::X) => Some(UiCommand::Track(TrackCommand::Cut)),
        (Modifier::C, Key::V) => Some(UiCommand::Track(TrackCommand::Paste)),
        (Modifier::Plain, Key::D) => Some(UiCommand::Track(TrackCommand::Dup)),
        (Modifier::Plain, Key::Delete) => Some(UiCommand::Track(TrackCommand::Delete)),
        _ => None,
    }
}

/// The bindings of the lanes: cursor, edits of items, selection and clipboard.
pub open spec fn spec_lane_binding(m: Modifier, k: Key) -> Option<UiCommand> {
    match (m, k) {
        (Modifier::C, Key::J) => Some(UiCommand::Lane(LaneCommand::LaneItemUpdate(-1i16, 0i16, 0i16, false, -1i16))),
        (Modifier::C, Key::ArrowDown) => Some(UiCommand::Lane(LaneCommand::LaneItemUpdate(-1i16, 0i16, 0i16, false, -1i16))),
        (Modifier::C, Key::K) => Some(UiCommand::Lane(LaneCommand::LaneItemUpdate(1i16, 0i16, 0i16, false, 1i16))),
        (Modifier::C, Key::ArrowUp) => Some(UiCommand::Lane(LaneCommand::LaneItemUpdate(1i16, 0i16, 0i16, false, 1i16))),
        (Modifier::C, Key::H) => Some(UiCommand::Lane(LaneCommand::LaneItemUpdate(-12i16, 0i16, 0i16, false, -0x10i16))),
        (Modifier::C, Key::ArrowLeft) => Some(UiCommand::Lane(LaneCommand::LaneItemUpdate(-12i16, 0i16, 0i16, false, -0x10i16))),
        (Modifier::C, Key::L) => Some(UiCommand::Lane(LaneCommand::LaneItemUpdate(12i16, 0i16, 0i16, false, 0x10i16))),
        (Modifier::C, Key::ArrowRight) => Some(UiCommand::Lane(LaneCommand::LaneItemUpdate(12i16, 0i16, 0i16, false, 0x10i16))),
        (Modifier::A, Key::J) => Some(UiCommand::Lane(LaneCommand::LaneItemUpdate(0i16, -1i16, 0i16, false, 0i16))),
        (Modifier::A, Key::ArrowDown) => Some(UiCommand::Lane(LaneCommand::LaneItemUpdate(0i16, -1i16, 0i16, false, 0i16))),
        (Modifier::A, Key::K) => Some(UiCommand::Lane(LaneCommand::LaneItemUpdate(0i16, 1i16, 0i16, false, 0i16))),
        (Modifier::A, Key::ArrowUp) => Some(UiCommand::Lane(LaneCommand::LaneItemUpdate(0i16, 1i16, 0i16, false, 0i16))),
        (Modifier::A, Key::H) => Some(UiCommand::Lane(LaneCommand::LaneItemUpdate(0i16, -0x10i16, 0i16, false, 0i16))),
        (Modifier::A, Key::ArrowLeft) => Some(UiCommand::Lane(LaneCommand::LaneItemUpdate(0i16, -0x10i16, 0i16, false, 0i16))),
        (Modifier::A, Key::L) => Some(UiCommand::Lane(LaneCommand::LaneItemUpdate(0i16, 0x10i16, 0i16, false, 0i16))),
        (Modifier::A, Key::ArrowRight) => Some(UiCommand::Lane(LaneCommand::LaneItemUpdate(0i16, 0x10i16, 0i16, false, 0i16))),
        (Modifier::CA, Key::J) => Some(UiCommand::Lane(LaneCommand::LaneItemUpdate(0i16, 0i16, -1i16, false, 0i16))),
        (Modifier::CA, Key::ArrowDown) => Some(UiCommand::Lane(LaneCommand::LaneItemUpdate(0i16, 0i16, -1i16, false, 0i16))),
        (Modifier::CA, Key::K) => Some(UiCommand::Lane(LaneCommand::LaneItemUpdate(0i16, 0i16, 1i16, false, 0i16))),
        (Modifier::CA, Key::ArrowUp) => Some(UiCommand::Lane(LaneCommand::LaneItemUpdate(0i16, 0i16, 1i16, false, 0i16))),
        (Modifier::CA, Key::H) => Some(UiCommand::Lane(LaneCommand::LaneItemUpdate(0i16, 0i16, -0x10i16, false, 0i16))),
        (Modifier::CA, Key::ArrowLeft) => Some(UiCommand::Lane(LaneCommand::LaneItemUpdate(0i16, 0i16, -0x10i16, false, 0i16))),
        (Modifier::CA, Key::L) => Some(UiCommand::Lane(LaneCommand::LaneItemUpdate(0i16, 0i16, 0x10i16, false, 0i16))),
        (Modifier::CA, Key::ArrowRight) => Some(UiCommand::Lane(LaneCommand::LaneItemUpdate(0i16, 0i16, 0x10i16, false, 0i16))),
        (Modifier::CAS, Key::J) => Some(UiCommand::Lane(LaneCommand::LaneItemMove(0i64, -1i64))),
        (Modifier::CAS, Key::ArrowDown) => Some(UiCommand::Lane(LaneCommand::LaneItemMove(0i64, -1i64))),
        (Modifier::CAS, Key::K) => Some(UiCommand::Lane(LaneCommand::LaneItemMove(0i64, 1i64))),
        (Modifier::CAS, Key::ArrowUp) => Some(UiCommand::Lane(LaneCommand::LaneItemMove(0i64, 1i64))),
        (Modifier::CAS, Key::H) => Some(UiCommand::Lane(LaneCommand::LaneItemMove(-1i64, 0i64))),
        (Modifier::CAS, Key::ArrowLeft) => Some(UiCommand::Lane(LaneCommand::LaneItemMove(-1i64, 0i64))),
        (Modifier::CAS, Key::L) => Some(UiCommand::Lane(LaneCommand::LaneItemMove(1i64, 0i64))),
        (Modifier::CAS, Key::ArrowRight) => Some(UiCommand::Lane(LaneCommand::LaneItemMove(1i64, 0i64))),
        (Modifier::Plain, Key::J) => Some(UiCommand::Lane(LaneCommand::CursorDown)),
        (Modifier::Plain, Key::ArrowDown) => Some(UiCommand::Lane(LaneCommand::CursorDown)),
        (Modifier::Plain, Key::K) => Some(UiCommand::Lane(LaneCommand::CursorUp)),
        (Modifier::Plain, Key::ArrowUp) => Some(UiCommand::Lane(LaneCommand::CursorUp)),
        (Modifier::Plain, Key::H) => Some(UiCommand::Lane(LaneCommand::CursorLeft)),
        (Modifier::Plain, Key::ArrowLeft) => Some(UiCommand::Lane(LaneCommand::CursorLeft)),
        (Modifier::Plain, Key::L) => Some(UiCommand::Lane(LaneCommand::CursorRight)),
        (Modifier::Plain, Key::ArrowRight) => Some(UiCommand::Lane(LaneCommand::CursorRight)),
        (Modifier::C, Key::C) => Some(UiCommand::Lane(LaneCommand::Copy)),
        (Modifier::C, Key::X) => Some(UiCommand::Lane(LaneCommand::Cut)),
        (Modifier::C, Key::V) => Some(UiCommand::Lane(LaneCommand::Paste)),
        (Modifier::Plain, Key::D) => Some(UiCommand::Lane(LaneCommand::Dup)),
        (Modifier::Plain, Key::E) => Some(UiCommand::Lane(LaneCommand::SelectMode)),
        (Modifier::Plain, Key::N) => Some(UiCommand::Lane(LaneCommand::LaneItemUpdate(0i16, 0i16, 0i16, true, 0i16))),
        (Modifier::Plain, Key::Delete) => Some(UiCommand::Lane(LaneCommand::LaneItemDelete)),
        (Modifier::Plain, Key::Escape) => Some(UiCommand::Lane(LaneCommand::SelectClear)),
        (Modifier::Plain, Key::O) => Some(UiCommand::Lane(LaneCommand::AutomationParamSelect)),
        _ => None,
    }
}

/// The bindings of the lanes: cursor, edits of items, selection and clipboard.
pub fn lane_binding(m: Modifier, k: Key) -> (r: Option<UiCommand>)
    ensures
        r == spec_lane_binding(m, k),
{
    match (m, k) {
        (Modifier::C, Key::J) => Some(UiCommand::Lane(LaneCommand::LaneItemUpdate(-1i16, 0i16, 0i16, false, -1i16))),
        (Modifier::C, Key::ArrowDown) => Some(UiCommand::Lane(LaneCommand::LaneItemUpdate(-1i16, 0i16, 0i16, false, -1i16))),
        (Modifier::C, Key::K) => Some(UiCommand::Lane(LaneCommand::LaneItemUpdate(1i16, 0i16, 0i16, false, 1i16))),
        (Modifier::C, Key::ArrowUp) => Some(UiCommand::Lane(LaneCommand::LaneItemUpdate(1i16, 0i16, 0i16, false, 1i16))),
        (Modifier::C, Key::H) => Some(UiCommand::Lane(LaneCommand::LaneItemUpdate(-12i16, 0i16, 0i16, false, -0x10i16))),
        (Modifier::C, Key::ArrowLeft) => Some(UiCommand::Lane(LaneCommand::LaneItemUpdate(-12i16, 0i16, 0i16, false, -0x10i16))),
        (Modifier::C, Key::L) => Some(UiCommand::Lane(LaneCommand::LaneItemUpdate(12i16, 0i16, 0i16, false, 0x10i16))),
        (Modifier::C, Key::ArrowRight) => Some(UiCommand::Lane(LaneCommand::LaneItemUpdate(12i16, 0i16, 0i16, false, 0x10i16))),
        (Modifier::A, Key::J) => Some(UiCommand::Lane(LaneCommand::LaneItemUpdate(0i16, -1i16, 0i16, false, 0i16))),
        (Modifier::A, Key::ArrowDown) => Some(UiCommand::Lane(LaneCommand::LaneItemUpdate(0i16, -1i16, 0i16, false, 0i16))),
        (Modifier::A, Key::K) => Some(UiCommand::Lane(LaneCommand::LaneItemUpdate(0i16, 1i16, 0i16, false, 0i16))),
        (Modifier::A, Key::ArrowUp) => Some(UiCommand::Lane(LaneCommand::LaneItemUpdate(0i16, 1i16, 0i16, false, 0i16))),
        (Modifier::A, Key::H) => Some(UiCommand::Lane(LaneCommand::LaneItemUpdate(0i16, -0x10i16, 0i16, false, 0i16))),
        (Modifier::A, Key::ArrowLeft) => Some(UiCommand::Lane(LaneCommand::LaneItemUpdate(0i16, -0x10i16, 0i16, false, 0i16))),
        (Modifier::A, Key::L) => Some(UiCommand::Lane(LaneCommand::LaneItemUpdate(0i16, 0x10i16, 0i16, false, 0i16))),
        (Modifier::A, Key::ArrowRight) => Some(UiCommand::Lane(LaneCommand::LaneItemUpdate(0i16, 0x10i16, 0i16, false, 0i16))),
        (Modifier::CA, Key::J) => Some(UiCommand::Lane(LaneCommand::LaneItemUpdate(0i16, 0i16, -1i16, false, 0i16))),
        (Modifier::CA, Key::ArrowDown) => Some(UiCommand::Lane(LaneCommand::LaneItemUpdate(0i16, 0i16, -1i16, false, 0i16))),
        (Modifier::CA, Key::K) => Some(UiCommand::Lane(LaneCommand::LaneItemUpdate(0i16, 0i16, 1i16, false, 0i16))),
        (Modifier::CA, Key::ArrowUp) => Some(UiCommand::Lane(LaneCommand::LaneItemUpdate(0i16, 0i16, 1i16, false, 0i16))),
        (Modifier::CA, Key::H) => Some(UiCommand::Lane(LaneCommand::LaneItemUpdate(0i16, 0i16, -0x10i16, false, 0i16))),
        (Modifier::CA, Key::ArrowLeft) => Some(UiCommand::Lane(LaneCommand::LaneItemUpdate(0i16, 0i16, -0x10i16, false, 0i16))),
        (Modifier::CA, Key::L) => Some(UiCommand::Lane(LaneCommand::LaneItemUpdate(0i16, 0i16, 0x10i16, false, 0i16))),
        (Modifier::CA, Key::ArrowRight) => Some(UiCommand::Lane(LaneCommand::LaneItemUpdate(0i16, 0i16, 0x10i16, false, 0i16))),
        (Modifier::CAS, Key::J) => Some(UiCommand::Lane(LaneCommand::LaneItemMove(0i64, -1i64))),
        (Modifier::CAS, Key::ArrowDown) => Some(UiCommand::Lane(LaneCommand::LaneItemMove(0i64, -1i64))),
        (Modifier::CAS, Key::K) => Some(UiCommand::Lane(LaneCommand::LaneItemMove(0i64, 1i64))),
        (Modifier::CAS, Key::ArrowUp) => Some(UiCommand::Lane(LaneCommand::LaneItemMove(0i64, 1i64))),
        (Modifier::CAS, Key::H) => Some(UiCommand::Lane(LaneCommand::LaneItemMove(-1i64, 0i64))),
        (Modifier::CAS, Key::ArrowLeft) => Some(UiCommand::Lane(LaneCommand::LaneItemMove(-1i64, 0i64))),
        (Modifier::CAS, Key::L) => Some(UiCommand::Lane(LaneCommand::LaneItemMove(1i64, 0i64))),
        (Modifier::CAS, Key::ArrowRight) => Some(UiCommand::Lane(LaneCommand::LaneItemMove(1i64, 0i64))),
        (Modifier::Plain, Key::J) => Some(UiCommand::Lane(LaneCommand::CursorDown)),
        (Modifier::Plain, Key::ArrowDown) => Some(UiCommand::Lane(LaneCommand::CursorDown)),
        (Modifier::Plain, Key::K) => Some(UiCommand::Lane(LaneCommand::CursorUp)),
        (Modifier::Plain, Key::ArrowUp) => Some(UiCommand::Lane(LaneCommand::CursorUp)),
        (Modifier::Plain, Key::H) => Some(UiCommand::Lane(LaneCommand::CursorLeft)),
        (Modifier::Plain, Key::ArrowLeft) => Some(UiCommand::Lane(LaneCommand::CursorLeft)),
        (Modifier::Plain, Key::L) => Some(UiCommand::Lane(LaneCommand::CursorRight)),
        (Modifier::Plain, Key::ArrowRight) => Some(UiCommand::Lane(LaneCommand::CursorRight)),
        (Modifier::C, Key::C) => Some(UiCommand::Lane(LaneCommand::Copy)),
        (Modifier::C, Key::X) => Some(UiCommand::Lane(LaneCommand::Cut)),
        (Modifier::C, Key::V) => Some(UiCommand::Lane(LaneCommand::Paste)),
        (Modifier::Plain, Key::D) => Some(UiCommand::Lane(LaneCommand::Dup)),
        (Modifier::Plain, Key::E) => Some(UiCommand::Lane(LaneCommand::SelectMode)),
        (Modifier::Plain, Key::N) => Some(UiCommand::Lane(LaneCommand::LaneItemUpdate(0i16, 0i16, 0i16, true, 0i16))),
        (Modifier::Plain, Key::Delete) => Some(UiCommand::Lane(LaneCommand::LaneItemDelete)),
        (Modifier::Plain, Key::Escape) => Some(UiCommand::Lane(LaneCommand::SelectClear)),
        (Modifier::Plain, Key::O) => Some(UiCommand::Lane(LaneCommand::AutomationParamSelect)),
        _ => None,
    }
}

/// The bindings of the modules of a track.
pub open spec fn spec_module_binding(m: Modifier, k: Key) -> Option<UiCommand> {
    match (m, k) {
        (Modifier::Plain, Key::K) => Some(UiCommand::Module(ModuleCommand::CursorUp)),
        (Modifier::Plain, Key::J) => Some(UiCommand::Module(ModuleCommand::CursorDown)),
        (Modifier::Plain, Key::H) => Some(UiCommand::Module(ModuleCommand::CursorLeft)),
        (Modifier::Plain, Key::L) => Some(UiCommand::Module(ModuleCommand::CursorRight)),
        _ => None,
    }
}

/// The bindings of the modules of a track.
pub fn module_binding(m: Modifier, k: Key) -> (r: Option<UiCommand>)
    ensures
        r == spec_module_binding(m, k),
{
    match (m, k) {
        (Modifier::Plain, Key::K) => Some(UiCommand::Module(ModuleCommand::CursorUp)),
        (Modifier::Plain, Key::J) => Some(UiCommand::Module(ModuleCommand::CursorDown)),
        (Modifier::Plain, Key::H) => Some(UiCommand::Module(ModuleCommand::CursorLeft)),
        (Modifier::Plain, Key::L) => Some(UiCommand::Module(ModuleCommand::CursorRight)),
        _ => None,
    }
}

/// The bindings of the mixer; volume steps are in dB and pan steps in twentieths, as `f32` bit patterns.
pub open spec fn spec_mixer_binding(m: Modifier, k: Key) -> Option<UiCommand> {
    match (m, k) {
        (Modifier::Plain, Key::K) => Some(UiCommand::Mixer(MixerCommand::Volume(0x3f80_0000u32))),
        (Modifier::Plain, Key::J) => Some(UiCommand::Mixer(MixerCommand::Volume(0xbf80_0000u32))),
        (Modifier::S, Key::K) => Some(UiCommand::Mixer(MixerCommand::Volume(0x3dcc_cccdu32))),
        (Modifier::S, Key::J) => Some(UiCommand::Mixer(MixerCommand::Volume(0xbdcc_cccdu32))),
        (Modifier::Plain, Key::H) => Some(UiCommand::Mixer(MixerCommand::CursorLeft)),
        (Modifier::Plain, Key::L) => Some(UiCommand::Mixer(MixerCommand::CursorRight)),
        (Modifier::C, Key::H) => Some(UiCommand::Mixer(MixerCommand::Pan(0xbf80_0000u32))),
        (Modifier::C, Key::L) => Some(UiCommand::Mixer(MixerCommand::Pan(0x3f80_0000u32))),
        (Modifier::S, Key::H) => Some(UiCommand::Mixer(MixerCommand::Pan(0xbdcc_cccdu32))),
        (Modifier::S, Key::L) => Some(UiCommand::Mixer(MixerCommand::Pan(0x3dcc_cccdu32))),
        _ => None,
    }
}

/// The bindings of the mixer; volume steps are in dB and pan steps in twentieths, as `f32` bit patterns.
pub fn mixer_binding(m: Modifier, k: Key) -> (r: Option<UiCommand>)
    ensures
        r == spec_mixer_binding(m, k),
{
    match (m, k) {
        (Modifier::Plain, Key::K) => Some(UiCommand::Mixer(MixerCommand::Volume(0x3f80_0000u32))),
        (Modifier::Plain, Key::J) => Some(UiCommand::Mixer(MixerCommand::Volume(0xbf80_0000u32))),
        (Modifier::S, Key::K) => Some(UiCommand::Mixer(MixerCommand::Volume(0x3dcc_cccdu32))),
        (Modifier::S, Key::J) => Some(UiCommand::Mixer(MixerCommand::Volume(0xbdcc_cccdu32))),
        (Modifier::Plain, Key::H) => Some(UiCommand::Mixer(MixerCommand::CursorLeft)),
        (Modifier::Plain, Key::L) => Some(UiCommand::Mixer(MixerCommand::CursorRight)),
        (Modifier::C, Key::H) => Some(UiCommand::Mixer(MixerCommand::Pan(0xbf80_0000u32))),
        (Modifier::C, Key::L) => Some(UiCommand::Mixer(MixerCommand::Pan(0x3f80_0000u32))),
        (Modifier::S, Key::H) => Some(UiCommand::Mixer(MixerCommand::Pan(0xbdcc_cccdu32))),
        (Modifier::S, Key::L) => Some(UiCommand::Mixer(MixerCommand::Pan(0x3dcc_cccdu32))),
        _ => None,
    }
}

/// The request that key `k` with modifier keys `m` stands for while `part` has the
/// focus: a binding that holds on every screen first, then one of the focused part,
/// then one of the whole track screen; none when the key is bound to nothing.
pub open spec fn spec_shortcut(part: FocusedPart, m: Modifier, k: Key) -> Option<UiCommand> {
    let of_part = match part {
        FocusedPart::Track => spec_track_binding(m, k),
        FocusedPart::Lane => spec_lane_binding(m, k),
        FocusedPart::Module => spec_module_binding(m, k),
        FocusedPart::Mixer => spec_mixer_binding(m, k),
    };
    if spec_root_binding(m, k) is Some {
        spec_root_binding(m, k)
    } else if of_part is Some {
        of_part
    } else {
        spec_common_binding(m, k)
    }
}

/// The request that key `k` with modifier keys `m` stands for while `part` has the
/// focus, as [`spec_shortcut`] says.
pub fn shortcut_command(part: FocusedPart, m: Modifier, k: Key) -> (r: Option<UiCommand>)
    ensures
        r == spec_shortcut(part, m, k),
{
    let root = root_binding(m, k);
    if root.is_some() {
        return root;
    }
    let of_part = match part {
        FocusedPart::Track => track_binding(m, k),
        FocusedPart::Lane => lane_binding(m, k),
        FocusedPart::Module => module_binding(m, k),
        FocusedPart::Mixer => mixer_binding(m, k),
    };
    if of_part.is_some() {
        return of_part;
    }
    common_binding(m, k)
}

} // verus!
