//! What the editor's user can ask for, and which part of the editor has the focus.
use vstd::prelude::*;

verus! {

/// The screens of the editor.
#[derive(Clone, Copy, Debug, PartialEq, Eq, Structural)]
pub enum Route {
    Track,
    Command,
    PluginSelect,
    ParamSelect,
    SidechainSelect,
    MidiDeviceInputSelect,
}

/// The modifier keys held with a shortcut key: none (`Plain`), or a combination of
/// Ctrl (`C`), Alt (`A`) and Shift (`S`).
#[derive(Clone, Copy, Debug, PartialEq, Eq, Structural, PartialOrd, Ord, Hash)]
pub enum Modifier {
    Plain,
    C,
    A,
    S,
    CA,
    CS,
    AS,
    CAS,
}

/// The modifier for the keys held: Ctrl, Alt and Shift.
pub open spec fn spec_modifier(ctrl: bool, alt: bool, shift: bool) -> Modifier {
    if ctrl && !alt && !shift {
        Modifier::C
    } else if !ctrl && alt && !shift {
        Modifier::A
    } else if !ctrl && !alt && shift {
        Modifier::S
    } else if ctrl && alt && !shift {
        Modifier::CA
    } else if ctrl && !alt && shift {
        Modifier::CS
    } else if !ctrl && alt && shift {
        Modifier::AS
    } else if ctrl && alt && shift {
        Modifier::CAS
    } else {
        Modifier::Plain
    }
}

/// The modifier for the keys held, as [`spec_modifier`] says.
pub fn modifier_of(ctrl: bool, alt: bool, shift: bool) -> (r: Modifier)
    ensures
        r == spec_modifier(ctrl, alt, shift),
{
    if ctrl && !alt && !shift {
        Modifier::C
    } else if !ctrl && alt && !shift {
        Modifier::A
    } else if !ctrl && !alt && shift {
        Modifier::S
    } else if ctrl && alt && !shift {
        Modifier::CA
    } else if ctrl && !alt && shift {
        Modifier::CS
    } else if !ctrl && alt && shift {
        Modifier::AS
    } else if ctrl && alt && shift {
        Modifier::CAS
    } else {
        Modifier::Plain
    }
}

/// The part of the main screen that has the focus.
#[derive(Clone, Copy, Debug, PartialEq, Eq, Structural)]
pub enum FocusedPart {
    Track,
    Lane,
    Module,
    Mixer,
}

impl FocusedPart {
    /// The next part in the cycle track, lane, mixer, module.
    pub fn next(self) -> (r: Self)
        ensures
            r == match self {
                FocusedPart::Track => FocusedPart::Lane,
                FocusedPart::Lane => FocusedPart::Mixer,
                FocusedPart::Mixer => FocusedPart::Module,
                FocusedPart::Module => FocusedPart::Track,
            },
    {
        match self {
            FocusedPart::Track => FocusedPart::Lane,
            FocusedPart::Lane => FocusedPart::Mixer,
            FocusedPart::Mixer => FocusedPart::Module,
            FocusedPart::Module => FocusedPart::Track,
        }
    }

    /// The previous part in the cycle track, lane, mixer, module.
    pub fn prev(self) -> (r: Self)
        ensures
            r == match self {
                FocusedPart::Track => FocusedPart::Module,
                FocusedPart::Lane => FocusedPart::Track,
                FocusedPart::Mixer => FocusedPart::Lane,
                FocusedPart::Module => FocusedPart::Mixer,
            },
    {
        match self {
            FocusedPart::Track => FocusedPart::Module,
            FocusedPart::Lane => FocusedPart::Track,
            FocusedPart::Mixer => FocusedPart::Lane,
            FocusedPart::Module => FocusedPart::Mixer,
        }
    }
}

/// Moving the focus on and back, or back and on, returns to the same part.
pub proof fn lemma_focus_next_prev(p: FocusedPart)
    ensures
        match p {
            FocusedPart::Track => FocusedPart::Lane,
            FocusedPart::Lane => FocusedPart::Mixer,
            FocusedPart::Mixer => FocusedPart::Module,
            FocusedPart::Module => FocusedPart::Track,
        } matches q && match q {
            FocusedPart::Track => FocusedPart::Module,
            FocusedPart::Lane => FocusedPart::Track,
            FocusedPart::Mixer => FocusedPart::Lane,
            FocusedPart::Module => FocusedPart::Mixer,
        } == p,
{
}

/// The module under the module cursor of the current track (or the place after
/// the last module).
#[derive(Clone, Copy, Debug, PartialEq, Eq, Structural)]
pub struct CursorModule {
    pub index: usize,
}

/// A request about the current track.
#[derive(Clone, Copy, Debug, PartialEq, Eq, Structural)]
pub enum TrackCommand {
    Copy,
    CursorLeft,
    CursorRight,
    Cut,
    Delete,
    Dup,
    MoveLeft,
    MoveRight,
    Paste,
}

/// A request about the lanes: cursor moves, selection, clipboard, and edits of the
/// items under the cursor or in the selection. `LaneItemMove` carries lane and line
/// deltas; `LaneItemUpdate` carries the deltas of the key (or parameter id), the
/// velocity (or value), the delay, whether the note is a note-off, and the delta of
/// the module.
#[derive(Clone, Copy, Debug, PartialEq, Eq, Structural)]
pub enum LaneCommand {
    AutomationParamSelect,
    Copy,
    Cut,
    CursorDown,
    CursorLeft,
    CursorRight,
    CursorUp,
    Dup,
    LaneItemDelete,
    LaneItemMove(i64, i64),
    LaneItemUpdate(i16, i16, i16, bool, i16),
    Paste,
    SelectMode,
    SelectClear,
}

/// A move of the module cursor.
#[derive(Clone, Copy, Debug, PartialEq, Eq, Structural)]
pub enum ModuleCommand {
    CursorUp,
    CursorDown,
    CursorLeft,
    CursorRight,
}

/// A request about the mixer; `Pan` and `Volume` carry the bit patterns of `f32`
/// deltas.
#[derive(Clone, Copy, Debug, PartialEq, Eq, Structural)]
pub enum MixerCommand {
    CursorLeft,
    CursorRight,
    Pan(u32),
    Volume(u32),
}

/// A request of the editor's user. `TrackMute` and `TrackSolo` name a track (the
/// current one when `None`) and a state (the opposite of the current one when
/// `None`); `TrackPan` and `TrackVolume` carry the bit patterns of `f32` values.
#[derive(Clone, Copy, Debug, PartialEq, Eq, Structural)]
pub enum UiCommand {
    Command,
    FocusedPartNext,
    FocusedPartPrev,
    Follow,
    Lane(LaneCommand),
    LaneAdd,
    Loop,
    Mixer(MixerCommand),
    Module(ModuleCommand),
    PlayToggle,
    SongSave,
    Track(TrackCommand),
    TrackAdd,
    TrackMute(Option<usize>, Option<bool>),
    TrackPan(usize, u32),
    TrackSolo(Option<usize>, Option<bool>),
    TrackVolume(usize, u32),
}

} // verus!
