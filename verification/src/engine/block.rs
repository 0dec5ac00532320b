//! The engine's decisions for one block of audio: where the song plays, which
//! events each track's modules get, what is recorded, and what is published after.
use crate::engine::event::{Event, EventKind};
use crate::engine::process_track_context::ProcessTrackContext;
use crate::engine::singer::{block_start, next_play_position, singer_wf, Singer};
use crate::engine::track_events::{
    context_state, key_lanes_valid, lanes_points_below, lemma_record_all_points, points_valid, positions_fit, record_all,
    record_state, same_setup, spec_compute_midi, PlayState, RecordState,
};
use crate::model::module::ModuleIndex;
use crate::model::topology::{are_levels, has_unplaceable, levels_view, topological_levels, TopologyError};
use crate::model::track::TrackV;
use crate::song_state::{SongState, TrackState, DB_MIN_BITS, MAX_TRACKS};
use std::ops::Range;
use vstd::prelude::*;

verus! {

/// The published state has its fixed sizes.
pub open spec fn song_state_ok(s: SongState) -> bool {
    crate::song_state::song_state_wf(s)
}

/// Whether track `t` records the engine's MIDI input in this block: there is input,
/// the track is armed and recording is on.
pub open spec fn block_records(s: Singer, t: int) -> bool {
    s.midi_buffer@.len() > 0 && s.song_state.tracks@[t].rec_p && s.song_state.rec_p
}

/// The events a track's context starts the block with: the MIDI input if the track
/// is armed, then a release of all notes if the engine was just stopped.
pub open spec fn block_events(s: Singer, t: int) -> Seq<Event> {
    let e = if s.midi_buffer@.len() > 0 && s.song_state.tracks@[t].rec_p {
        s.midi_buffer@
    } else {
        seq![]
    };
    if s.all_notef_off_p {
        e.push(Event::NoteAllOff)
    } else {
        e
    }
}

/// The engine can process a block that advances by `delta`: the published state
/// covers every context, the positions stay clear of the end of `usize`, every
/// track's automation points and remembered key lanes are valid and its lanes can
/// take the input, and no spare context would record.
pub open spec fn block_ready(s: Singer, delta: usize) -> bool {
    &&& s.process_track_contexts@.len() <= MAX_TRACKS
    &&& s.play_position.end + delta < usize::MAX - 512
    &&& s.song_state.loop_start + delta < usize::MAX - 512
    &&& s.song_state.loop_end < usize::MAX - 512
    &&& forall|t: int|
        0 <= t < s.song.tracks@.len() ==> points_valid((#[trigger] s.song.tracks@[t])@) && key_lanes_valid(
            record_state(&s.song.tracks@[t]),
        ) && s.song.tracks@[t]@.lanes.len() + s.midi_buffer@.len() < usize::MAX
    &&& forall|t: int| s.song.tracks@.len() <= t < s.process_track_contexts@.len() ==> !block_records(s, t)
}

impl ProcessTrackContext {
    /// Sets the context up for a block and drops the events of the last one.
    pub fn block_setup(
        &mut self,
        nchannels: usize,
        nframes: usize,
        play_p: bool,
        bpm_bits: u64,
        steady_time: i64,
        play_position: Range<usize>,
        loop_range: Range<usize>,
    )
        ensures
            final(self).nchannels == nchannels,
            final(self).nframes == nframes,
            final(self).play_p == play_p,
            final(self).bpm_bits == bpm_bits,
            final(self).steady_time == steady_time,
            final(self).play_position == play_position,
            final(self).loop_range == loop_range,
            final(self).event_list_input@.len() == 0,
            final(self).on_keys@ == old(self).on_keys@,
            final(self).plugins@ == old(self).plugins@,
    {
        self.nchannels = nchannels;
        self.nframes = nframes;
        self.play_p = play_p;
        self.bpm_bits = bpm_bits;
        self.steady_time = steady_time;
        self.play_position = play_position;
        self.loop_range = loop_range;
        self.prepare();
    }

    /// Adds `events` to the events collected for the modules.
    pub fn events_extend(&mut self, events: &Vec<Event>)
        ensures
            final(self).event_list_input@ == old(self).event_list_input@ + events@,
            final(self).on_keys@ == old(self).on_keys@,
            final(self).plugins@ == old(self).plugins@,
            final(self).play_p == old(self).play_p,
            final(self).play_position == old(self).play_position,
            final(self).loop_range == old(self).loop_range,
            final(self).nchannels == old(self).nchannels,
            final(self).nframes == old(self).nframes,
            final(self).bpm_bits == old(self).bpm_bits,
            final(self).steady_time == old(self).steady_time,
    {
        for i in 0..events.len()
            invariant
                self.event_list_input@ == old(self).event_list_input@ + events@.take(i as int),
                self.on_keys@ == old(self).on_keys@,
                self.plugins@ == old(self).plugins@,
                self.play_p == old(self).play_p,
                self.play_position == old(self).play_position,
                self.loop_range == old(self).loop_range,
                self.nchannels == old(self).nchannels,
                self.nframes == old(self).nframes,
                self.bpm_bits == old(self).bpm_bits,
                self.steady_time == old(self).steady_time,
        {
            self.event_list_input.push(events[i]);
            assert(events@.take(i + 1) =~= events@.take(i as int).push(events@[i as int]));
        }
        assert(events@.take(events@.len() as int) =~= events@);
    }
}

/// What the first part of a block does, from the engine state `a` to `b`: the play
/// position moves on as [`next_play_position`] says; the MIDI input is taken; every
/// context is set up for the block and starts with the events that
/// [`block_events`] says; armed tracks record the input at the block start when
/// recording is on; each track's lanes then add their events as
/// [`spec_compute_midi`] says; the song is marked dirty when there was input.
pub open spec fn block_begun(a: Singer, b: Singer, nchannels: usize, nframes: usize, delta: usize) -> bool {
    let (start, end) = next_play_position(
        a.play_position.end,
        a.song_state.play_p,
        a.song_state.loop_p,
        a.song_state.loop_start,
        a.song_state.loop_end,
        delta,
    );
    let lr = Range { start: a.song_state.loop_start, end: a.song_state.loop_end };
    &&& b.play_position.start == start
    &&& b.play_position.end == end
    &&& b.play_position_start_last == a.play_position_start_last
    &&& b.steady_time == a.steady_time
    &&& b.midi_buffer@.len() == 0
    &&& !b.all_notef_off_p
    &&& b.plugin_id_counter == a.plugin_id_counter
    &&& b.song_state == (SongState {
        line_play: (block_start(a.play_position.end, a.song_state.loop_p, a.song_state.loop_start) / 0x100) as usize,
        song_dirty_p: if a.midi_buffer@.len() > 0 && a.process_track_contexts@.len() > 0 {
            true
        } else {
            a.song_state.song_dirty_p
        },
        ..a.song_state
    })
    &&& b.song.name == a.song.name
    &&& b.song.bpm_bits == a.song.bpm_bits
    &&& b.song.sample_rate_bits == a.song.sample_rate_bits
    &&& b.song.lpb == a.song.lpb
    &&& b.song.tracks@.len() == a.song.tracks@.len()
    &&& b.process_track_contexts@.len() == a.process_track_contexts@.len()
    &&& forall|t: int|
        0 <= t < a.process_track_contexts@.len() ==> {
            let c = #[trigger] b.process_track_contexts@[t];
            &&& c.nchannels == nchannels
            &&& c.nframes == nframes
            &&& c.play_p == a.song_state.play_p
            &&& c.bpm_bits == a.song.bpm_bits
            &&& c.steady_time == a.steady_time
            &&& c.play_position == b.play_position
            &&& c.loop_range == lr
            &&& c.plugins@ == a.process_track_contexts@[t].plugins@
        }
    &&& forall|t: int|
        0 <= t < a.song.tracks@.len() ==> {
            &&& record_state(&(#[trigger] b.song.tracks@[t])) == (if block_records(a, t) {
                record_all(record_state(&a.song.tracks@[t]), a.midi_buffer@, (start / 256) as usize, (start % 256) as u8)
            } else {
                record_state(&a.song.tracks@[t])
            })
            &&& b.song.tracks@[t]@ == (TrackV { lanes: record_state(&b.song.tracks@[t]).lanes, ..a.song.tracks@[t]@ })
            &&& context_state(b.process_track_contexts@[t]) == spec_compute_midi(
                b.song.tracks@[t]@,
                PlayState { events: block_events(a, t), on_keys: a.process_track_contexts@[t].on_keys@ },
                a.song_state.play_p,
                b.play_position,
                lr,
            )
        }
    &&& forall|t: int|
        a.song.tracks@.len() <= t < a.process_track_contexts@.len() ==> context_state(
            #[trigger] b.process_track_contexts@[t],
        ) == (PlayState { events: block_events(a, t), on_keys: a.process_track_contexts@[t].on_keys@ })
}

impl Singer {
    /// The engine's part of the start of a block of `nframes` frames on `nchannels`
    /// channels, `delta` being the block's length in 1/256 of a line, as
    /// [`block_begun`] says; returns the order in which the modules are to be
    /// processed, as [`topological_levels`] says.
    pub fn process_begin(&mut self, nchannels: usize, nframes: usize, delta: usize) -> (r: Result<
        Vec<Vec<ModuleIndex>>,
        TopologyError,
    >)
        requires
            singer_wf(*old(self)),
            block_ready(*old(self), delta),
        ensures
            singer_wf(*final(self)),
            block_begun(*old(self), *final(self), nchannels, nframes, delta),
            match r {
                Ok(levels) => are_levels(final(self).song@, levels_view(levels@)),
                Err(_) => has_unplaceable(final(self).song@),
            },
    {
        let ghost a = *self;
        self.compute_play_position(delta);
        let ghost a1 = *self;
        let mut midi: Vec<Event> = Vec::new();
        std::mem::swap(&mut midi, &mut self.midi_buffer);
        let n = self.process_track_contexts.len();
        let play_p = self.song_state.play_p;
        let bpm_bits = self.song.bpm_bits;
        let steady_time = self.steady_time;
        let pp_start = self.play_position.start;
        let pp_end = self.play_position.end;
        let loop_start = self.song_state.loop_start;
        let loop_end = self.song_state.loop_end;
        let rec_p = self.song_state.rec_p;
        let all_off = self.all_notef_off_p;
        proof {
            a.song.lemma_view_len();
        }
        for t in 0..n
            invariant
                n == self.process_track_contexts@.len(),
                n == a.process_track_contexts@.len(),
                n <= MAX_TRACKS,
                singer_wf(a),
                block_ready(a, delta),
                midi@ == a.midi_buffer@,
                self.midi_buffer@.len() == 0,
                self.song_state.tracks@ == a.song_state.tracks@,
                self.song_state == (SongState {
                    line_play: a1.song_state.line_play,
                    song_dirty_p: if a.midi_buffer@.len() > 0 && t > 0 {
                        true
                    } else {
                        a.song_state.song_dirty_p
                    },
                    ..a.song_state
                }),
                song_state_ok(self.song_state),
                play_p == a.song_state.play_p,
                bpm_bits == a.song.bpm_bits,
                steady_time == a.steady_time,
                rec_p == a.song_state.rec_p,
                all_off == a.all_notef_off_p,
                self.all_notef_off_p == a.all_notef_off_p,
                loop_start == a.song_state.loop_start,
                loop_end == a.song_state.loop_end,
                pp_start == self.play_position.start,
                pp_end == self.play_position.end,
                self.play_position == a1.play_position,
                self.play_position_start_last == a.play_position_start_last,
                self.steady_time == a.steady_time,
                self.plugin_id_counter == a.plugin_id_counter,
                self.song.name == a.song.name,
                self.song.bpm_bits == a.song.bpm_bits,
                self.song.sample_rate_bits == a.song.sample_rate_bits,
                self.song.lpb == a.song.lpb,
                self.song.tracks@.len() == a.song.tracks@.len(),
                forall|k: int|
                    0 <= k < n ==> {
                        let c = #[trigger] self.process_track_contexts@[k];
                        c.plugins@ == a.process_track_contexts@[k].plugins@ && (k < t ==> {
                            &&& c.nchannels == nchannels
                            &&& c.nframes == nframes
                            &&& c.play_p == play_p
                            &&& c.bpm_bits == bpm_bits
                            &&& c.steady_time == steady_time
                            &&& c.play_position == a1.play_position
                            &&& c.loop_range == (Range { start: loop_start, end: loop_end })
                            &&& context_state(c) == (PlayState { events: block_events(a, k), on_keys: a.process_track_contexts@[k].on_keys@ })
                        }) && (k >= t ==> c == a.process_track_contexts@[k])
                    },
                forall|k: int|
                    0 <= k < a.song.tracks@.len() ==> {
                        let tr = #[trigger] self.song.tracks@[k];
                        &&& record_state(&tr) == (if k < t && block_records(a, k) {
                            record_all(record_state(&a.song.tracks@[k]), a.midi_buffer@, (pp_start / 256) as usize, (pp_start % 256) as u8)
                        } else {
                            record_state(&a.song.tracks@[k])
                        })
                        &&& tr@ == (TrackV { lanes: record_state(&tr).lanes, ..a.song.tracks@[k]@ })
                        &&& key_lanes_valid(record_state(&tr))
                        &&& lanes_points_below(tr@.lanes, tr@.automation_params.len())
                        &&& tr@.lanes.len() > 0
                        &&& tr@.lanes.len() < usize::MAX
                        &&& tr.modules@.len() == a.song.tracks@[k].modules@.len()
                    },
        {
            self.process_track_contexts[t].block_setup(
                nchannels,
                nframes,
                play_p,
                bpm_bits,
                steady_time,
                Range { start: pp_start, end: pp_end },
                Range { start: loop_start, end: loop_end },
            );
            if midi.len() > 0 {
                if self.song_state.tracks[t].rec_p {
                    self.process_track_contexts[t].events_extend(&midi);
                    if rec_p {
                        assert(block_records(a, t as int));
                        assert(t < self.song.tracks@.len());
                        let pp = Range { start: pp_start, end: pp_end };
                        proof {
                            let tr = self.song.tracks@[t as int];
                            a.song.lemma_track_view(t as int);
                            lemma_record_all_points(
                                record_state(&tr),
                                midi@,
                                (pp_start / 256) as usize,
                                (pp_start % 256) as u8,
                                tr@.automation_params.len(),
                            );
                        }
                        self.song.tracks[t].events_append(&midi, &pp);
                    }
                }
                self.song_state.song_dirty_p = true;
            }
            if all_off {
                self.process_track_contexts[t].event_list_input.push(Event::NoteAllOff);
            }
            proof {
                let c = self.process_track_contexts@[t as int];
                assert(c.event_list_input@ =~= block_events(a, t as int));
            }
        }
        self.all_notef_off_p = false;
        let ghost b1 = *self;
        assert(self.play_position.end < usize::MAX - 512);
        let m = self.song.tracks.len();
        for t in 0..m
            invariant
                m == self.song.tracks@.len(),
                n == self.process_track_contexts@.len(),
                m <= n,
                m == b1.song.tracks@.len(),
                n == b1.process_track_contexts@.len(),
                self.song == b1.song,
                *self == (Singer { process_track_contexts: self.process_track_contexts, ..b1 }),
                positions_fit(self.play_position, Range { start: loop_start, end: loop_end }),
                forall|k: int|
                    0 <= k < n ==> (#[trigger] b1.process_track_contexts@[k]).play_position == b1.play_position
                        && b1.process_track_contexts@[k].loop_range == (Range { start: loop_start, end: loop_end }),
                forall|k: int|
                    0 <= k < n ==> {
                        let c = #[trigger] self.process_track_contexts@[k];
                        let c1 = b1.process_track_contexts@[k];
                        &&& k < t ==> same_setup(c, c1) && context_state(c) == spec_compute_midi(
                            b1.song.tracks@[k]@,
                            context_state(c1),
                            c1.play_p,
                            c1.play_position,
                            c1.loop_range,
                        )
                        &&& k >= t ==> c == c1
                    },
                forall|k: int|
                    0 <= k < m ==> {
                        let tr = #[trigger] self.song.tracks@[k];
                        &&& lanes_points_below(tr@.lanes, tr@.automation_params.len())
                        &&& tr@.lanes.len() < usize::MAX
                    },
        {
            assert(points_valid(self.song.tracks@[t as int]@));
            let ghost cs = self.process_track_contexts@;
            assert(cs[t as int] == b1.process_track_contexts@[t as int]);
            self.song.tracks[t].compute_midi(&mut self.process_track_contexts[t]);
            assert forall|k: int| 0 <= k < n && k != t implies #[trigger] self.process_track_contexts@[k] == cs[k] by {}
        }
        topological_levels(&self.song)
    }
}

/// `(t, m, e)` is the first output event, in track, module and event order, that
/// reports a parameter change; `outputs[t][m]` lists the kinds and parameter ids of
/// the events that plugin instance `m` of track `t` reported.
pub open spec fn is_first_param_change(outputs: Seq<Seq<Seq<(EventKind, u32)>>>, t: int, m: int, e: int) -> bool {
    &&& 0 <= t < outputs.len()
    &&& 0 <= m < outputs[t].len()
    &&& 0 <= e < outputs[t][m].len()
    &&& outputs[t][m][e].0 == EventKind::ParamValue
    &&& forall|t2: int, m2: int, e2: int|
        0 <= t2 < t && 0 <= m2 < outputs[t2].len() && 0 <= e2 < outputs[t2][m2].len() ==> outputs[t2][m2][e2].0
            != EventKind::ParamValue
    &&& forall|m2: int, e2: int|
        0 <= m2 < m && 0 <= e2 < outputs[t][m2].len() ==> outputs[t][m2][e2].0 != EventKind::ParamValue
    &&& forall|e2: int| 0 <= e2 < e ==> outputs[t][m][e2].0 != EventKind::ParamValue
}

/// Some output event reports a parameter change.
pub open spec fn has_param_change(outputs: Seq<Seq<Seq<(EventKind, u32)>>>) -> bool {
    exists|t: int, m: int, e: int|
        0 <= t < outputs.len() && 0 <= m < outputs[t].len() && 0 <= e < outputs[t][m].len() && (
        #[trigger] outputs[t][m][e]).0 == EventKind::ParamValue
}

/// The plain value of the outputs reported by the plugin instances.
pub open spec fn outputs_view(outputs: Seq<Vec<Vec<(EventKind, u32)>>>) -> Seq<Seq<Seq<(EventKind, u32)>>> {
    outputs.map_values(|v: Vec<Vec<(EventKind, u32)>>| v@.map_values(|w: Vec<(EventKind, u32)>| w@))
}

/// A parameter change reported by a plugin instance: its track, its module and
/// the parameter's id.
#[derive(Clone, Copy, Debug, PartialEq, Eq, Structural)]
pub struct ParamChange {
    pub track_index: usize,
    pub module_index: usize,
    pub param_id: u32,
}

/// `pc` is the first parameter change that the outputs report.
pub open spec fn param_change_at(outputs: Seq<Seq<Seq<(EventKind, u32)>>>, pc: ParamChange) -> bool {
    exists|e: int|
        is_first_param_change(outputs, pc.track_index as int, pc.module_index as int, e)
            && outputs[pc.track_index as int][pc.module_index as int][e].1 == pc.param_id
}

/// Finds the first output event, in track, module and event order, that reports a
/// parameter change: its track, module and parameter id.
pub fn param_change_find(outputs: &Vec<Vec<Vec<(EventKind, u32)>>>) -> (r: Option<ParamChange>)
    ensures
        match r {
            Some(pc) => param_change_at(outputs_view(outputs@), pc),
            None => !has_param_change(outputs_view(outputs@)),
        },
{
    let ghost o = outputs_view(outputs@);
    let nt = outputs.len();
    for t in 0..nt
        invariant
            nt == outputs@.len(),
            o == outputs_view(outputs@),
            forall|t2: int, m2: int, e2: int|
                0 <= t2 < t && 0 <= m2 < o[t2].len() && 0 <= e2 < o[t2][m2].len() ==> (#[trigger] o[t2][m2][e2]).0
                    != EventKind::ParamValue,
    {
        let nm = outputs[t].len();
        for m in 0..nm
            invariant
                nt == outputs@.len(),
                o == outputs_view(outputs@),
                0 <= t < nt,
                nm == o[t as int].len(),
                forall|t2: int, m2: int, e2: int|
                    0 <= t2 < t && 0 <= m2 < o[t2].len() && 0 <= e2 < o[t2][m2].len() ==> (#[trigger] o[t2][m2][e2]).0
                        != EventKind::ParamValue,
                forall|m2: int, e2: int|
                    0 <= m2 < m && 0 <= e2 < o[t as int][m2].len() ==> (#[trigger] o[t as int][m2][e2]).0
                        != EventKind::ParamValue,
        {
            let ne = outputs[t][m].len();
            for e in 0..ne
                invariant
                    nt == outputs@.len(),
                    o == outputs_view(outputs@),
                    0 <= t < nt,
                    0 <= m < o[t as int].len(),
                    ne == o[t as int][m as int].len(),
                    forall|t2: int, m2: int, e2: int|
                        0 <= t2 < t && 0 <= m2 < o[t2].len() && 0 <= e2 < o[t2][m2].len() ==> (#[trigger] o[t2][m2][e2]).0
                            != EventKind::ParamValue,
                    forall|m2: int, e2: int|
                        0 <= m2 < m && 0 <= e2 < o[t as int][m2].len() ==> (#[trigger] o[t as int][m2][e2]).0
                            != EventKind::ParamValue,
                    forall|e2: int| 0 <= e2 < e ==> (#[trigger] o[t as int][m as int][e2]).0 != EventKind::ParamValue,
            {
                let (kind, id) = outputs[t][m][e];
                assert(o[t as int][m as int][e as int] == (kind, id));
                if kind == EventKind::ParamValue {
                    let pc = ParamChange { track_index: t, module_index: m, param_id: id };
                    assert(is_first_param_change(outputs_view(outputs@), pc.track_index as int, pc.module_index as int, e as int));
                    assert(outputs_view(outputs@)[pc.track_index as int][pc.module_index as int][e as int].1 == pc.param_id);
                    assert(param_change_at(outputs_view(outputs@), pc));
                    return Some(pc);
                }
            }
        }
    }
    None
}

/// The meters after a block: a track whose context has plugins shows the peaks
/// measured at the output of its last plugin, the main track without plugins those
/// of the main output (`peaks[t]`, left and right, as `f32` bit patterns); every
/// other track with a context falls to the bottom of the scale. Tracks past the
/// contexts keep their state, and every track keeps its record flag.
pub open spec fn meters_after(
    tracks: Seq<TrackState>,
    contexts: Seq<ProcessTrackContext>,
    peaks: Seq<(u32, u32)>,
) -> Seq<TrackState> {
    Seq::new(
        tracks.len(),
        |t: int|
            if t < contexts.len() {
                if t == 0 || contexts[t].plugins@.len() > 0 {
                    TrackState { peak_left_bits: peaks[t].0, peak_right_bits: peaks[t].1, rec_p: tracks[t].rec_p }
                } else {
                    TrackState { peak_left_bits: DB_MIN_BITS, peak_right_bits: DB_MIN_BITS, rec_p: tracks[t].rec_p }
                }
            } else {
                tracks[t]
            },
    )
}

impl Singer {
    /// The engine's part of the end of a block of `nframes` frames: the meters are
    /// set from the peaks measured in the block as [`meters_after`] says; the
    /// parameter changes that the plugin instances reported (`outputs[t][m]` for
    /// instance `m` of track `t`) publish the first one, in track, module and event
    /// order, as the parameter to automate, or none; the engine's time moves on by
    /// the block.
    pub fn process_end(
        &mut self,
        nframes: usize,
        outputs: &Vec<Vec<Vec<(EventKind, u32)>>>,
        peaks: &Vec<(u32, u32)>,
    )
        requires
            singer_wf(*old(self)),
            old(self).process_track_contexts@.len() <= MAX_TRACKS,
            peaks@.len() == old(self).process_track_contexts@.len(),
            nframes <= i64::MAX,
            old(self).steady_time + nframes <= i64::MAX,
        ensures
            singer_wf(*final(self)),
            final(self).steady_time == old(self).steady_time + nframes,
            final(self).song_state.tracks@ == meters_after(
                old(self).song_state.tracks@,
                old(self).process_track_contexts@,
                peaks@,
            ),
            has_param_change(outputs_view(outputs@)) ==> exists|t: int, m: int, e: int|
                is_first_param_change(outputs_view(outputs@), t, m, e) && final(self).song_state == (SongState {
                    param_track_index: t as usize,
                    param_module_index: m as usize,
                    param_id: outputs_view(outputs@)[t][m][e].1,
                    tracks: final(self).song_state.tracks,
                    ..old(self).song_state
                }),
            !has_param_change(outputs_view(outputs@)) ==> final(self).song_state == (SongState {
                param_track_index: usize::MAX,
                tracks: final(self).song_state.tracks,
                ..old(self).song_state
            }),
            final(self).song == old(self).song,
            final(self).process_track_contexts == old(self).process_track_contexts,
            final(self).play_position == old(self).play_position,
            final(self).play_position_start_last == old(self).play_position_start_last,
            final(self).all_notef_off_p == old(self).all_notef_off_p,
            final(self).midi_buffer == old(self).midi_buffer,
            final(self).plugin_id_counter == old(self).plugin_id_counter,
    {
        let ghost old_tracks = self.song_state.tracks@;
        let mut tracks: Vec<TrackState> = Vec::new();
        std::mem::swap(&mut tracks, &mut self.song_state.tracks);
        let n = self.process_track_contexts.len();
        for t in 0..n
            invariant
                n == self.process_track_contexts@.len(),
                n <= MAX_TRACKS,
                peaks@.len() == n,
                old_tracks.len() == MAX_TRACKS,
                tracks@.len() == old_tracks.len(),
                forall|j: int|
                    0 <= j < old_tracks.len() ==> #[trigger] tracks@[j] == (if j < t {
                        meters_after(old_tracks, self.process_track_contexts@, peaks@)[j]
                    } else {
                        old_tracks[j]
                    }),
        {
            let rec_p = tracks[t].rec_p;
            let state = if t == 0 || self.process_track_contexts[t].plugins.len() > 0 {
                TrackState { peak_left_bits: peaks[t].0, peak_right_bits: peaks[t].1, rec_p }
            } else {
                TrackState { peak_left_bits: DB_MIN_BITS, peak_right_bits: DB_MIN_BITS, rec_p }
            };
            tracks.set(t, state);
        }
        assert(tracks@ =~= meters_after(old_tracks, self.process_track_contexts@, peaks@));
        self.song_state.tracks = tracks;
        self.song_state.param_track_index = usize::MAX;
        match param_change_find(outputs) {
            Some(pc) => {
                self.song_state.param_module_index = pc.module_index;
                self.song_state.param_id = pc.param_id;
                self.song_state.param_track_index = pc.track_index;
            },
            None => {},
        }
        self.steady_time = self.steady_time + nframes as i64;
    }
}

} // verus!
