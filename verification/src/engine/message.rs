//! The messages between the editor and the audio engine.
use crate::cursor::CursorTrack;
use crate::model::lane_item::LaneItem;
use crate::model::module::{AudioInput, ModuleIndex};
use crate::model::song::Song;
use crate::model::track::Track;
use std::ops::Range;
use vstd::prelude::*;

verus! {

/// A request from the editor to the audio engine. Floating-point values travel as
/// their bit patterns: `Bpm` an `f64`, `TrackPan` and `TrackVolume` an `f32`.
/// `LaneItem` writes items (or clears cells, for `None`) under cursors, in order;
/// `NoteOn` and `NoteOff` carry track, key, channel, velocity and delay.
#[derive(Debug)]
pub enum MainToAudio {
    Bpm(u64),
    Play,
    PlayLine(usize),
    Stop,
    Loop,
    LoopRange(Range<usize>),
    LaneAdd(usize),
    LaneItem(Vec<(CursorTrack, Option<LaneItem>)>),
    NoteOn(usize, i16, i16, u8, usize),
    NoteOff(usize, i16, i16, u8, usize),
    PluginLatency(usize, u32),
    PluginLoad(usize, String, String),
    PluginDelete(ModuleIndex),
    PluginSidechain(ModuleIndex, AudioInput),
    PointNew(CursorTrack, usize, u32),
    Quit,
    RecToggle,
    Redo,
    TrackAdd,
    TrackDelete(usize),
    TrackInsert(usize, Track),
    TrackMove(usize, isize),
    TrackMute(usize, bool),
    TrackSolo(usize, bool),
    TrackPan(usize, u32),
    TrackRecOn(usize),
    TrackRecOff(usize),
    TrackRename(usize, String),
    TrackVolume(usize, u32),
    Undo,
    Song,
    SongFile(String),
    SongOpen(String),
}

/// The engine's answer to a request: the edited song, or a plain acknowledgement.
#[derive(Debug)]
pub enum AudioToMain {
    Song(Song),
    Ack,
}

/// Two requests say the same: equal, with the lists and tracks they carry compared
/// by value.
pub open spec fn msg_eq(a: MainToAudio, b: MainToAudio) -> bool {
    match (a, b) {
        (MainToAudio::LaneItem(x), MainToAudio::LaneItem(y)) => x@ == y@,
        (MainToAudio::TrackInsert(i, t), MainToAudio::TrackInsert(j, u)) => i == j && t@ == u@
            && t.lanes@.len() == u.lanes@.len(),
        _ => a == b,
    }
}

/// Copies a list of cell writes.
pub fn copy_items(v: &Vec<(CursorTrack, Option<LaneItem>)>) -> (r: Vec<(CursorTrack, Option<LaneItem>)>)
    ensures
        r@ == v@,
{
    let mut r: Vec<(CursorTrack, Option<LaneItem>)> = Vec::new();
    for i in 0..v.len()
        invariant
            r@ == v@.take(i as int),
    {
        let item = match &v[i].1 {
            Some(x) => Some(x.clone()),
            None => None,
        };
        r.push((v[i].0, item));
        assert(r@ =~= v@.take(i + 1));
    }
    assert(r@ =~= v@);
    r
}

impl Clone for MainToAudio {
    fn clone(&self) -> (r: Self)
        ensures
            msg_eq(r, *self),
    {
        match self {
            MainToAudio::Bpm(x) => MainToAudio::Bpm(*x),
            MainToAudio::Play => MainToAudio::Play,
            MainToAudio::PlayLine(x) => MainToAudio::PlayLine(*x),
            MainToAudio::Stop => MainToAudio::Stop,
            MainToAudio::Loop => MainToAudio::Loop,
            MainToAudio::LoopRange(r) => MainToAudio::LoopRange(Range { start: r.start, end: r.end }),
            MainToAudio::LaneAdd(x) => MainToAudio::LaneAdd(*x),
            MainToAudio::LaneItem(v) => MainToAudio::LaneItem(copy_items(v)),
            MainToAudio::NoteOn(a, b, c, d, e) => MainToAudio::NoteOn(*a, *b, *c, *d, *e),
            MainToAudio::NoteOff(a, b, c, d, e) => MainToAudio::NoteOff(*a, *b, *c, *d, *e),
            MainToAudio::PluginLatency(a, b) => MainToAudio::PluginLatency(*a, *b),
            MainToAudio::PluginLoad(a, b, c) => MainToAudio::PluginLoad(*a, b.clone(), c.clone()),
            MainToAudio::PluginDelete(a) => MainToAudio::PluginDelete(*a),
            MainToAudio::PluginSidechain(a, b) => MainToAudio::PluginSidechain(*a, *b),
            MainToAudio::PointNew(a, b, c) => MainToAudio::PointNew(*a, *b, *c),
            MainToAudio::Quit => MainToAudio::Quit,
            MainToAudio::RecToggle => MainToAudio::RecToggle,
            MainToAudio::Redo => MainToAudio::Redo,
            MainToAudio::TrackAdd => MainToAudio::TrackAdd,
            MainToAudio::TrackDelete(a) => MainToAudio::TrackDelete(*a),
            MainToAudio::TrackInsert(a, t) => {
                let u = t.clone();
                assert(u.lanes@.len() == u@.lanes.len());
                MainToAudio::TrackInsert(*a, u)
            },
            MainToAudio::TrackMove(a, b) => MainToAudio::TrackMove(*a, *b),
            MainToAudio::TrackMute(a, b) => MainToAudio::TrackMute(*a, *b),
            MainToAudio::TrackSolo(a, b) => MainToAudio::TrackSolo(*a, *b),
            MainToAudio::TrackPan(a, b) => MainToAudio::TrackPan(*a, *b),
            MainToAudio::TrackRecOn(a) => MainToAudio::TrackRecOn(*a),
            MainToAudio::TrackRecOff(a) => MainToAudio::TrackRecOff(*a),
            MainToAudio::TrackRename(a, b) => MainToAudio::TrackRename(*a, b.clone()),
            MainToAudio::TrackVolume(a, b) => MainToAudio::TrackVolume(*a, *b),
            MainToAudio::Undo => MainToAudio::Undo,
            MainToAudio::Song => MainToAudio::Song,
            MainToAudio::SongFile(a) => MainToAudio::SongFile(a.clone()),
            MainToAudio::SongOpen(a) => MainToAudio::SongOpen(a.clone()),
        }
    }
}

} // verus!
