//! What the audio engine keeps per track between two processed blocks.
use crate::engine::event::Event;
use std::ops::Range;
use vstd::prelude::*;

verus! {

/// The per-track state of one processed block: the play range in 1/256 of a line,
/// the loop range, the key held by each lane (so that the next note can stop it),
/// the events collected for the track's modules, and the ids of the track's plugin
/// instances in module order.
#[derive(Debug)]
pub struct ProcessTrackContext {
    pub nchannels: usize,
    pub nframes: usize,
    pub play_p: bool,
    pub bpm_bits: u64,
    pub steady_time: i64,
    pub play_position: Range<usize>,
    pub loop_range: Range<usize>,
    pub on_keys: Vec<Option<i16>>,
    pub event_list_input: Vec<Event>,
    pub line_offset: isize,
    pub line_offset_stack: Vec<isize>,
    pub plugins: Vec<PluginSlot>,
}

/// A plugin instance of a track as the engine sees it: its id and its latency in
/// frames.
#[derive(Clone, Copy, Debug, PartialEq, Eq, Structural)]
pub struct PluginSlot {
    pub id: usize,
    pub latency: u32,
}

impl ProcessTrackContext {
    /// An idle context with no events, keys or plugins.
    pub fn new() -> (r: Self)
        ensures
            !r.play_p,
            r.on_keys@.len() == 0,
            r.event_list_input@.len() == 0,
            r.plugins@.len() == 0,
            r.play_position.start == 0 && r.play_position.end == 0,
            r.loop_range.start == 0 && r.loop_range.end == 0,
    {
        ProcessTrackContext {
            nchannels: 0,
            nframes: 0,
            play_p: false,
            bpm_bits: 0,
            steady_time: 0,
            play_position: Range { start: 0, end: 0 },
            loop_range: Range { start: 0, end: 0 },
            on_keys: Vec::new(),
            event_list_input: Vec::new(),
            line_offset: 0,
            line_offset_stack: Vec::new(),
            plugins: Vec::new(),
        }
    }

    /// Starts a block: the events of the last block are dropped.
    pub fn prepare(&mut self)
        ensures
            final(self).event_list_input@.len() == 0,
            *final(self) == (ProcessTrackContext { event_list_input: final(self).event_list_input, ..*old(self) }),
    {
        self.event_list_input.clear();
    }
}

} // verus!
