//! The audio engine's state between blocks, and the requests it carries out.
use crate::cursor::CursorTrack;
use crate::engine::event::Event;
use crate::engine::lane_edit::{song_put, song_put_all, track_put, undo_items};
use crate::engine::message::MainToAudio;
use crate::engine::process_track_context::{PluginSlot, ProcessTrackContext};
use crate::model::lane_item::LaneItem;
use crate::model::module::{AudioInput, Module, ModuleIndex, ModuleV};
use crate::model::point::Point;
use crate::model::song::{
    add_signed_saturating, new_track_name, remap_tracks, saturating_add_signed, song_remap_fits, spec_lane_item, Song,
    SongV, DEFAULT_BPM_BITS, DEFAULT_SAMPLE_RATE_BITS,
};
use crate::model::track::{new_track_view, remap_track, Remap, Track, TrackV};
use crate::song_state::{song_state_wf, spec_initial, SongState, MAX_PATH_LEN};
use std::ops::Range;
use vstd::prelude::*;

verus! {

/// The audio engine. `play_position` is the range of the song, in 1/256 of a line,
/// that the current block plays; `process_track_contexts` holds one context per
/// track, in track order (a song opened from a file leaves one spare context at
/// the end); `plugin_id_counter` is the next plugin instance id to hand out.
#[derive(Debug)]
pub struct Singer {
    pub steady_time: i64,
    pub play_position: Range<usize>,
    pub play_position_start_last: usize,
    pub all_notef_off_p: bool,
    pub midi_buffer: Vec<Event>,
    pub song: Song,
    pub song_state: SongState,
    pub process_track_contexts: Vec<ProcessTrackContext>,
    pub plugin_id_counter: usize,
}

/// The engine's invariant: the published state has its fixed sizes, every track
/// has a context with one plugin instance per module, and every track has a lane.
pub open spec fn singer_wf(s: Singer) -> bool {
    &&& song_state_wf(s.song_state)
    &&& s.process_track_contexts@.len() >= s.song.tracks@.len()
    &&& forall|i: int|
        0 <= i < s.song.tracks@.len() ==> #[trigger] s.process_track_contexts@[i].plugins@.len()
            == s.song.tracks@[i].modules@.len()
    &&& forall|i: int| 0 <= i < s.song.tracks@.len() ==> #[trigger] s.song.tracks@[i].lanes@.len() > 0
    &&& forall|i: int|
        s.song.tracks@.len() <= i < s.process_track_contexts@.len() ==> #[trigger] s.process_track_contexts@[i].plugins@.len()
            == 0
}

/// `new` is `old` with a new track appended, named as [`new_track_name`] says.
pub open spec fn track_appended(old: SongV, new: SongV) -> bool {
    &&& new.tracks.len() == old.tracks.len() + 1
    &&& new.tracks.drop_last() == old.tracks
    &&& new.tracks.last() == new_track_view(new.tracks.last().name)
    &&& new.tracks.last().name@ == new_track_name(old.tracks.len())
    &&& new.name == old.name
    &&& new.bpm_bits == old.bpm_bits
    &&& new.sample_rate_bits == old.sample_rate_bits
    &&& new.lpb == old.lpb
}

/// All but the song, the track contexts and the published state are as they were.
pub open spec fn same_engine(a: Singer, b: Singer) -> bool {
    &&& a.steady_time == b.steady_time
    &&& a.play_position == b.play_position
    &&& a.play_position_start_last == b.play_position_start_last
    &&& a.all_notef_off_p == b.all_notef_off_p
    &&& a.midi_buffer == b.midi_buffer
    &&& a.plugin_id_counter == b.plugin_id_counter
}

/// The counter value after one id is handed out: it wraps around past the largest
/// `usize`.
pub open spec fn id_step(c: usize) -> usize {
    if c == usize::MAX {
        0
    } else {
        (c + 1) as usize
    }
}

/// The counter value after `k` ids are handed out.
pub open spec fn id_steps(c: usize, k: nat) -> usize
    decreases k,
{
    if k == 0 {
        c
    } else {
        id_step(id_steps(c, (k - 1) as nat))
    }
}

/// Hands out the id in `counter` and advances the counter, wrapping around past the
/// largest `usize`.
pub fn next_id(counter: &mut usize) -> (r: usize)
    ensures
        r == *old(counter),
        *final(counter) == id_step(*old(counter)),
{
    let r = *counter;
    *counter = if r == usize::MAX {
        0
    } else {
        r + 1
    };
    r
}

/// The song with track `t` replaced by `f(t)`'s value `v`, when there is a track `t`.
pub open spec fn with_track(s: SongV, t: usize, v: TrackV) -> SongV {
    if t < s.tracks.len() {
        SongV { tracks: s.tracks.update(t as int, v), ..s }
    } else {
        s
    }
}

/// The track under `c` after `item` is put there.
pub open spec fn track_put_of(s: SongV, c: CursorTrack, item: Option<LaneItem>) -> TrackV {
    track_put(s.tracks[c.track as int], c.lane, c.line, item)
}

/// The module that a plugin load appends to track `t`: fed by the track's last
/// module, if there is one.
pub open spec fn loaded_module(s: SongV, t: usize, id: String, name: String) -> ModuleV {
    let n = s.tracks[t as int].modules.len();
    ModuleV {
        id,
        name,
        audio_inputs: if n == 0 {
            seq![]
        } else {
            seq![AudioInput { src_module_index: (t, (n - 1) as usize), src_port_index: 0, dst_port_index: 0 }]
        },
        state: None,
    }
}

/// `i` is the index of the first `p` in `ap`, or its length when there is none.
pub open spec fn first_match(ap: Seq<(usize, u32)>, p: (usize, u32), i: int) -> bool {
    &&& 0 <= i <= ap.len()
    &&& i < ap.len() ==> ap[i] == p
    &&& forall|j: int| 0 <= j < i ==> ap[j] != p
}

/// The index of the first `p` in `ap`, or its length when there is none.
pub open spec fn param_slot(ap: Seq<(usize, u32)>, p: (usize, u32)) -> int {
    choose|i: int| first_match(ap, p, i)
}

proof fn lemma_first_match_unique(ap: Seq<(usize, u32)>, p: (usize, u32), i: int)
    requires
        first_match(ap, p, i),
    ensures
        param_slot(ap, p) == i,
{
    let k = param_slot(ap, p);
    assert(first_match(ap, p, k));
    if k < i {
        assert(ap[k] == p);
    } else if i < k {
        assert(ap[i] == p);
    }
}

/// The automation parameter list of a track after the parameter `p` is looked up
/// and added when missing.
pub open spec fn params_with(ap: Seq<(usize, u32)>, p: (usize, u32)) -> Seq<(usize, u32)> {
    if param_slot(ap, p) < ap.len() {
        ap
    } else {
        ap.push(p)
    }
}

/// The song after an automation point for parameter `param_id` of module
/// `module_index` is put under `c`: the parameter is added to the track's list
/// when missing, and the point refers to it by its index there.
pub open spec fn song_point_new(s: SongV, c: CursorTrack, module_index: usize, param_id: u32) -> SongV {
    let t = s.tracks[c.track as int];
    let p = (module_index, param_id);
    let s2 = with_track(s, c.track, TrackV { automation_params: params_with(t.automation_params, p), ..t });
    song_put(
        s2,
        c,
        Some(LaneItem::Point(Point { automation_params_index: param_slot(t.automation_params, p) as usize, value: 0, delay: 0 })),
    )
}

/// `(t, m)` is the first plugin instance, in track and module order, with id `id`.
pub open spec fn is_first_plugin(cs: Seq<ProcessTrackContext>, id: usize, t: int, m: int) -> bool {
    &&& 0 <= t < cs.len()
    &&& 0 <= m < cs[t].plugins@.len()
    &&& cs[t].plugins@[m].id == id
    &&& forall|t2: int, m2: int| 0 <= t2 < t && 0 <= m2 < cs[t2].plugins@.len() ==> cs[t2].plugins@[m2].id != id
    &&& forall|m2: int| 0 <= m2 < m ==> cs[t].plugins@[m2].id != id
}

/// `b` is `a` with the latency of the first plugin instance with id `id` set to
/// `latency`, if there is one.
pub open spec fn latency_set(a: Seq<ProcessTrackContext>, b: Seq<ProcessTrackContext>, id: usize, latency: u32) -> bool {
    &&& b.len() == a.len()
    &&& forall|t: int|
        0 <= t < a.len() ==> same_but_plugins(#[trigger] b[t], a[t]) && b[t].plugins@.len() == a[t].plugins@.len()
    &&& forall|t: int, m: int|
        0 <= t < a.len() && 0 <= m < a[t].plugins@.len() ==> #[trigger] b[t].plugins@[m] == (if is_first_plugin(
            a,
            id,
            t,
            m,
        ) {
            PluginSlot { id, latency }
        } else {
            a[t].plugins@[m]
        })
}

/// Two contexts agree on everything but their plugin instances.
pub open spec fn same_but_plugins(a: ProcessTrackContext, b: ProcessTrackContext) -> bool {
    &&& a.nchannels == b.nchannels
    &&& a.nframes == b.nframes
    &&& a.play_p == b.play_p
    &&& a.bpm_bits == b.bpm_bits
    &&& a.steady_time == b.steady_time
    &&& a.play_position == b.play_position
    &&& a.loop_range == b.loop_range
    &&& a.on_keys == b.on_keys
    &&& a.event_list_input == b.event_list_input
    &&& a.line_offset == b.line_offset
    &&& a.line_offset_stack == b.line_offset_stack
}

/// Where the next block starts before the loop is looked at: where the last one
/// ended, moved to the loop start if looping and before it.
pub open spec fn block_start(end: usize, loop_p: bool, loop_start: usize) -> int {
    if loop_p && end < loop_start {
        loop_start as int
    } else {
        end as int
    }
}

/// Where the engine's play position goes for the next block, from the end `end` of
/// the last one: a stopped engine stays at `end` (moved to the loop start if
/// looping and before it); a playing one advances by `delta` and, when looping,
/// jumps to the loop start if it stood outside the loop, or wraps the end of the
/// block around past the loop end. The first value is the start, the second the
/// end.
pub open spec fn next_play_position(
    end: usize,
    play_p: bool,
    loop_p: bool,
    loop_start: usize,
    loop_end: usize,
    delta: usize,
) -> (int, int) {
    let start = block_start(end, loop_p, loop_start);
    if !play_p {
        (start, start)
    } else if loop_p && (start < loop_start || loop_end <= start) {
        (loop_start as int, loop_start + delta)
    } else if loop_p && start + delta > loop_end {
        (start, loop_start + (start + delta - loop_end))
    } else {
        (start, start + delta)
    }
}

impl ProcessTrackContext {
    fn plugin_push(&mut self, slot: PluginSlot)
        ensures
            same_but_plugins(*final(self), *old(self)),
            final(self).plugins@ == old(self).plugins@.push(slot),
    {
        self.plugins.push(slot);
    }

    fn plugin_remove(&mut self, m: usize)
        requires
            m < old(self).plugins@.len(),
        ensures
            same_but_plugins(*final(self), *old(self)),
            final(self).plugins@ == old(self).plugins@.remove(m as int),
    {
        self.plugins.remove(m);
    }

    fn plugin_latency_put(&mut self, m: usize, latency: u32)
        requires
            m < old(self).plugins@.len(),
        ensures
            same_but_plugins(*final(self), *old(self)),
            final(self).plugins@ == old(self).plugins@.update(
                m as int,
                PluginSlot { id: old(self).plugins@[m as int].id, latency },
            ),
    {
        let id = self.plugins[m].id;
        self.plugins.set(m, PluginSlot { id, latency });
    }
}

impl Track {
    fn module_remove(&mut self, m: usize)
        requires
            m < old(self).modules@.len(),
        ensures
            final(self)@ == (TrackV { modules: old(self)@.modules.remove(m as int), ..old(self)@ }),
            final(self).lanes@.len() == old(self).lanes@.len(),
    {
        let ghost before = self@.modules;
        self.modules.remove(m);
        assert(self@.modules =~= before.remove(m as int));
    }

    fn module_input_push(&mut self, m: usize, input: AudioInput)
        requires
            m < old(self).modules@.len(),
        ensures
            final(self)@ == (TrackV {
                modules: old(self)@.modules.update(
                    m as int,
                    ModuleV {
                        audio_inputs: old(self)@.modules[m as int].audio_inputs.push(input),
                        ..old(self)@.modules[m as int]
                    },
                ),
                ..old(self)@
            }),
            final(self).lanes@.len() == old(self).lanes@.len(),
            final(self).modules@.len() == old(self).modules@.len(),
    {
        let ghost before = self@.modules;
        self.modules[m].audio_inputs.push(input);
        assert(self@.modules =~= before.update(
            m as int,
            ModuleV { audio_inputs: before[m as int].audio_inputs.push(input), ..before[m as int] },
        ));
    }

    fn automation_param_slot(&mut self, p: (usize, u32)) -> (r: usize)
        ensures
            r == param_slot(old(self)@.automation_params, p),
            final(self)@ == (TrackV {
                automation_params: params_with(old(self)@.automation_params, p),
                ..old(self)@
            }),
            final(self).lanes@.len() == old(self).lanes@.len(),
            final(self).modules@.len() == old(self).modules@.len(),
    {
        let n = self.automation_params.len();
        let mut i: usize = 0;
        while i < n
            invariant
                n == self.automation_params@.len(),
                0 <= i <= n,
                forall|j: int| 0 <= j < i ==> self.automation_params@[j] != p,
                *self == *old(self),
            decreases n - i,
        {
            let q = self.automation_params[i];
            if q.0 == p.0 && q.1 == p.1 {
                proof {
                    lemma_first_match_unique(self@.automation_params, p, i as int);
                }
                return i;
            }
            i = i + 1;
        }
        proof {
            lemma_first_match_unique(self@.automation_params, p, n as int);
        }
        let ghost before = self@;
        self.automation_params.push(p);
        assert(self@.automation_params =~= before.automation_params.push(p));
        n
    }
}

/// An edit that keeps the contexts and the published state, the number of tracks,
/// and each track's number of modules, and adds no lane less, keeps the invariant.
pub(crate) proof fn lemma_wf_keep(a: Singer, b: Singer)
    requires
        singer_wf(a),
        song_state_wf(b.song_state),
        b.process_track_contexts == a.process_track_contexts,
        b.song@.tracks.len() == a.song@.tracks.len(),
        forall|i: int|
            0 <= i < a.song@.tracks.len() ==> (#[trigger] b.song@.tracks[i]).modules.len()
                == a.song@.tracks[i].modules.len() && b.song@.tracks[i].lanes.len() >= a.song@.tracks[i].lanes.len(),
    ensures
        singer_wf(b),
{
    a.song.lemma_view_len();
    b.song.lemma_view_len();
    assert forall|i: int| 0 <= i < b.song.tracks@.len() implies #[trigger] b.process_track_contexts@[i].plugins@.len()
        == b.song.tracks@[i].modules@.len() by {
        a.song.lemma_track_view(i);
        b.song.lemma_track_view(i);
        assert(b.song@.tracks[i].modules.len() == a.song@.tracks[i].modules.len());
    }
    assert forall|i: int| 0 <= i < b.song.tracks@.len() implies #[trigger] b.song.tracks@[i].lanes@.len() > 0 by {
        a.song.lemma_track_view(i);
        b.song.lemma_track_view(i);
        assert(b.song@.tracks[i].lanes.len() >= a.song@.tracks[i].lanes.len());
    }
}

/// Changing only the contexts, each keeping its number of plugin instances, keeps
/// the invariant.
pub(crate) proof fn lemma_wf_contexts(a: Singer, b: Singer)
    requires
        singer_wf(a),
        b.song == a.song,
        b.song_state == a.song_state,
        b.process_track_contexts@.len() == a.process_track_contexts@.len(),
        forall|i: int|
            0 <= i < a.process_track_contexts@.len() ==> (#[trigger] b.process_track_contexts@[i]).plugins@.len()
                == a.process_track_contexts@[i].plugins@.len(),
    ensures
        singer_wf(b),
{
    assert forall|i: int| 0 <= i < b.song.tracks@.len() implies #[trigger] b.process_track_contexts@[i].plugins@.len()
        == b.song.tracks@[i].modules@.len() by {
        assert(a.process_track_contexts@[i].plugins@.len() == a.song.tracks@[i].modules@.len());
    }
    assert forall|i: int|
        b.song.tracks@.len() <= i < b.process_track_contexts@.len() implies #[trigger] b.process_track_contexts@[i].plugins@.len()
        == 0 by {
        assert(a.process_track_contexts@[i].plugins@.len() == 0);
    }
}

/// The invariant, read through the song's value.
pub(crate) proof fn lemma_wf_from_view(b: Singer)
    requires
        song_state_wf(b.song_state),
        b.process_track_contexts@.len() >= b.song@.tracks.len(),
        forall|i: int|
            0 <= i < b.song@.tracks.len() ==> (#[trigger] b.process_track_contexts@[i]).plugins@.len()
                == b.song@.tracks[i].modules.len() && b.song@.tracks[i].lanes.len() > 0,
        forall|i: int|
            b.song@.tracks.len() <= i < b.process_track_contexts@.len() ==> (#[trigger] b.process_track_contexts@[i]).plugins@.len()
                == 0,
    ensures
        singer_wf(b),
{
    b.song.lemma_view_len();
    assert forall|i: int| 0 <= i < b.song.tracks@.len() implies #[trigger] b.process_track_contexts@[i].plugins@.len()
        == b.song.tracks@[i].modules@.len() by {
        b.song.lemma_track_view(i);
    }
    assert forall|i: int| 0 <= i < b.song.tracks@.len() implies #[trigger] b.song.tracks@[i].lanes@.len() > 0 by {
        b.song.lemma_track_view(i);
        assert(b.process_track_contexts@[i].plugins@.len() == b.song@.tracks[i].modules.len());
    }
}

/// The invariant, read through the song's value, the other way.
pub(crate) proof fn lemma_wf_to_view(a: Singer)
    requires
        singer_wf(a),
    ensures
        a.process_track_contexts@.len() >= a.song@.tracks.len(),
        forall|i: int|
            0 <= i < a.song@.tracks.len() ==> (#[trigger] a.process_track_contexts@[i]).plugins@.len()
                == a.song@.tracks[i].modules.len() && a.song@.tracks[i].lanes.len() > 0,
        forall|i: int|
            a.song@.tracks.len() <= i < a.process_track_contexts@.len() ==> (#[trigger] a.process_track_contexts@[i]).plugins@.len()
                == 0,
{
    a.song.lemma_view_len();
    assert forall|i: int| 0 <= i < a.song@.tracks.len() implies (#[trigger] a.process_track_contexts@[i]).plugins@.len()
        == a.song@.tracks[i].modules.len() && a.song@.tracks[i].lanes.len() > 0 by {
        a.song.lemma_track_view(i);
        assert(a.song.tracks@[i].lanes@.len() > 0);
    }
}

/// A track after the routing of its modules is remapped.
pub open spec fn remap_track_of(t: TrackV, r: Remap) -> TrackV {
    remap_track(t, r)
}

/// The modules of the tracks before track `t`, counted.
pub open spec fn modules_before(ts: Seq<TrackV>, t: int) -> nat
    decreases t,
{
    if t <= 0 {
        0
    } else {
        modules_before(ts, t - 1) + ts[t - 1].modules.len()
    }
}

impl Singer {
    /// A stopped engine with a new song of two tracks (`Main` and `T01`), each with
    /// an idle context, and the published state initialised.
    pub fn new() -> (r: Self)
        ensures
            singer_wf(r),
            r.song@.tracks.len() == 2,
            r.song@.tracks[0] == new_track_view(r.song@.tracks[0].name),
            r.song@.tracks[0].name@ == new_track_name(0),
            r.song@.tracks[1] == new_track_view(r.song@.tracks[1].name),
            r.song@.tracks[1].name@ == new_track_name(1),
            r.song.bpm_bits == DEFAULT_BPM_BITS,
            r.song.sample_rate_bits == DEFAULT_SAMPLE_RATE_BITS,
            r.song.lpb == 4,
            crate::model::song::is_date_file_name(r.song.name@),
            r.process_track_contexts@.len() == 2,
            spec_initial(r.song_state),
            r.play_position.start == 0 && r.play_position.end == 0,
            r.play_position_start_last == 0,
            !r.all_notef_off_p,
            r.midi_buffer@.len() == 0,
            r.steady_time == 0,
            r.plugin_id_counter == 0,
    {
        let mut this = Singer {
            steady_time: 0,
            play_position: Range { start: 0, end: 0 },
            play_position_start_last: 0,
            all_notef_off_p: false,
            midi_buffer: Vec::new(),
            song: Song::new(),
            song_state: SongState::new(),
            process_track_contexts: Vec::new(),
            plugin_id_counter: 0,
        };
        this.track_add();
        this.track_add();
        this
    }

    /// Appends a new track, as [`Song::track_add`] says, with an idle context of its
    /// own.
    pub fn track_add(&mut self)
        requires
            singer_wf(*old(self)),
        ensures
            singer_wf(*final(self)),
            track_appended(old(self).song@, final(self).song@),
            final(self).process_track_contexts@.len() == old(self).process_track_contexts@.len() + 1,
            final(self).process_track_contexts@.drop_last() == old(self).process_track_contexts@,
            final(self).process_track_contexts@.last().plugins@.len() == 0,
            same_engine(*final(self), *old(self)),
            final(self).song_state == old(self).song_state,
    {
        self.song.track_add();
        let ghost n = old(self).song.tracks@.len();
        proof {
            assert(self.song@.tracks[n as int] == self.song.tracks@[n as int]@);
        }
        let ghost spare = old(self).process_track_contexts@.len() > n;
        proof {
            self.song.lemma_view_len();
            old(self).song.lemma_view_len();
        }
        assert(self.song.tracks@.len() == n + 1);
        self.process_track_contexts.push(ProcessTrackContext::new());
        assert(self.process_track_contexts@.drop_last() =~= old(self).process_track_contexts@);
        assert forall|i: int| 0 <= i < self.song.tracks@.len() implies #[trigger] self.process_track_contexts@[i].plugins@.len()
            == self.song.tracks@[i].modules@.len() && self.song.tracks@[i].lanes@.len() > 0 by {
            self.song.lemma_track_view(i);
            if i < n {
                old(self).song.lemma_track_view(i);
                assert(self.song@.tracks[i] == self.song@.tracks.drop_last()[i]);
                assert(self.song@.tracks[i] == old(self).song@.tracks[i]);
                assert(self.process_track_contexts@[i] == old(self).process_track_contexts@[i]);
            } else {
                assert(self.song@.tracks[n as int].modules.len() == 0);
                if spare {
                    assert(self.process_track_contexts@[i] == old(self).process_track_contexts@[i]);
                }
            }
        }
        assert forall|i: int| 0 <= i < self.song.tracks@.len() implies #[trigger] self.song.tracks@[i].lanes@.len() > 0 by {
            assert(self.process_track_contexts@[i].plugins@.len() == self.song.tracks@[i].modules@.len());
        }
        assert forall|i: int|
            self.song.tracks@.len() <= i < self.process_track_contexts@.len() implies #[trigger] self.process_track_contexts@[i].plugins@.len()
            == 0 by {
            if i < old(self).process_track_contexts@.len() {
                assert(self.process_track_contexts@[i] == old(self).process_track_contexts@[i]);
            }
        }
        assert(self.song@.tracks.drop_last() == old(self).song@.tracks);
    }

    /// Puts `lane_item` under `cursor` (or clears the cell for `None`), as
    /// [`song_put`] says, and returns the cursor with what the cell held: the write
    /// that undoes this one.
    pub fn lane_item_set(&mut self, cursor: CursorTrack, lane_item: Option<LaneItem>) -> (r: (
        CursorTrack,
        Option<LaneItem>,
    ))
        requires
            singer_wf(*old(self)),
            cursor.lane < usize::MAX,
        ensures
            singer_wf(*final(self)),
            final(self).song@ == song_put(old(self).song@, cursor, lane_item),
            r == (cursor, spec_lane_item(old(self).song@, cursor)),
            same_engine(*final(self), *old(self)),
            final(self).song_state == old(self).song_state,
            final(self).process_track_contexts == old(self).process_track_contexts,
    {
        let mut result: Option<LaneItem> = None;
        if cursor.track < self.song.tracks.len() {
            proof {
                old(self).song.lemma_track_view(cursor.track as int);
                assert(old(self).song.tracks@[cursor.track as int].lanes@.len() > 0);
            }
            result = self.song.tracks[cursor.track].item_put(cursor.lane, cursor.line, lane_item);
            assert(self.song@.tracks =~= old(self).song@.tracks.update(
                cursor.track as int,
                track_put_of(old(self).song@, cursor, lane_item),
            ));
        }
        proof {
            lemma_wf_keep(*old(self), *self);
        }
        (cursor, result)
    }

    /// Carries out the writes of `items` in order, as [`song_put_all`] says, and
    /// returns the request that undoes them: for each write, its cursor and what
    /// the cell held just before it.
    pub fn lane_items_set(&mut self, items: Vec<(CursorTrack, Option<LaneItem>)>) -> (r: MainToAudio)
        requires
            singer_wf(*old(self)),
            forall|i: int| 0 <= i < items@.len() ==> (#[trigger] items@[i]).0.lane < usize::MAX,
        ensures
            singer_wf(*final(self)),
            final(self).song@ == song_put_all(old(self).song@, items@),
            r matches MainToAudio::LaneItem(u) && u@ == undo_items(old(self).song@, items@),
            same_engine(*final(self), *old(self)),
            final(self).song_state == old(self).song_state,
            final(self).process_track_contexts == old(self).process_track_contexts,
    {
        let mut undos: Vec<(CursorTrack, Option<LaneItem>)> = Vec::new();
        let n = items.len();
        for i in 0..n
            invariant
                n == items@.len(),
                forall|k: int| 0 <= k < items@.len() ==> (#[trigger] items@[k]).0.lane < usize::MAX,
                singer_wf(*self),
                self.song@ == song_put_all(old(self).song@, items@.take(i as int)),
                undos@ == undo_items(old(self).song@, items@.take(i as int)),
                same_engine(*self, *old(self)),
                self.song_state == old(self).song_state,
                self.process_track_contexts == old(self).process_track_contexts,
        {
            let item = match &items[i].1 {
                Some(x) => Some(x.clone()),
                None => None,
            };
            assert(items@[i as int].0.lane < usize::MAX);
            let u = self.lane_item_set(items[i].0, item);
            undos.push(u);
            assert(items@.take(i + 1).drop_last() =~= items@.take(i as int));
        }
        assert(items@.take(n as int) =~= items@);
        MainToAudio::LaneItem(undos)
    }

    /// Starts playing from where the last play started; does nothing while playing.
    pub fn play(&mut self)
        requires
            singer_wf(*old(self)),
        ensures
            singer_wf(*final(self)),
            old(self).song_state.play_p ==> final(self).song_state == old(self).song_state
                && final(self).play_position == old(self).play_position,
            !old(self).song_state.play_p ==> final(self).song_state == (SongState {
                play_p: true,
                ..old(self).song_state
            }) && final(self).play_position == (Range {
                start: old(self).play_position.start,
                end: old(self).play_position_start_last,
            }),
            final(self).song == old(self).song,
            final(self).process_track_contexts == old(self).process_track_contexts,
            final(self).play_position_start_last == old(self).play_position_start_last,
            final(self).all_notef_off_p == old(self).all_notef_off_p,
            final(self).midi_buffer == old(self).midi_buffer,
            final(self).steady_time == old(self).steady_time,
            final(self).plugin_id_counter == old(self).plugin_id_counter,
    {
        if self.song_state.play_p {
            return;
        }
        self.song_state.play_p = true;
        self.play_position.end = self.play_position_start_last;
    }

    /// Starts playing from line `line`, which becomes where the next play starts;
    /// does nothing while playing.
    pub fn play_line(&mut self, line: usize)
        requires
            singer_wf(*old(self)),
            line * 0x100 <= usize::MAX,
        ensures
            singer_wf(*final(self)),
            old(self).song_state.play_p ==> final(self).song_state == old(self).song_state
                && final(self).play_position == old(self).play_position
                && final(self).play_position_start_last == old(self).play_position_start_last,
            !old(self).song_state.play_p ==> final(self).song_state == (SongState {
                play_p: true,
                ..old(self).song_state
            }) && final(self).play_position == (Range {
                start: old(self).play_position.start,
                end: (line * 0x100) as usize,
            }) && final(self).play_position_start_last == line * 0x100,
            final(self).song == old(self).song,
            final(self).process_track_contexts == old(self).process_track_contexts,
            final(self).all_notef_off_p == old(self).all_notef_off_p,
            final(self).midi_buffer == old(self).midi_buffer,
            final(self).steady_time == old(self).steady_time,
            final(self).plugin_id_counter == old(self).plugin_id_counter,
    {
        if self.song_state.play_p {
            return;
        }
        self.song_state.play_p = true;
        let position = line * 0x100;
        self.play_position.end = position;
        self.play_position_start_last = position;
    }

    /// Stops playing and asks every track to release its notes; does nothing while
    /// stopped.
    pub fn stop(&mut self)
        requires
            singer_wf(*old(self)),
        ensures
            singer_wf(*final(self)),
            !old(self).song_state.play_p ==> final(self).song_state == old(self).song_state
                && final(self).all_notef_off_p == old(self).all_notef_off_p,
            old(self).song_state.play_p ==> final(self).song_state == (SongState {
                play_p: false,
                ..old(self).song_state
            }) && final(self).all_notef_off_p,
            final(self).song == old(self).song,
            final(self).process_track_contexts == old(self).process_track_contexts,
            final(self).play_position == old(self).play_position,
            final(self).play_position_start_last == old(self).play_position_start_last,
            final(self).midi_buffer == old(self).midi_buffer,
            final(self).steady_time == old(self).steady_time,
            final(self).plugin_id_counter == old(self).plugin_id_counter,
    {
        if !self.song_state.play_p {
            return;
        }
        self.song_state.play_p = false;
        self.all_notef_off_p = true;
    }

    /// Switches recording on or off.
    pub fn rec_toggle(&mut self)
        requires
            singer_wf(*old(self)),
        ensures
            singer_wf(*final(self)),
            final(self).song_state == (SongState { rec_p: !old(self).song_state.rec_p, ..old(self).song_state }),
            final(self).song == old(self).song,
            final(self).process_track_contexts == old(self).process_track_contexts,
            same_engine(*final(self), *old(self)),
    {
        self.song_state.rec_p = !self.song_state.rec_p;
    }

    /// Moves the play position on to the next block, as [`next_play_position`] says,
    /// `delta` being the block's length in 1/256 of a line; publishes the line
    /// where the block starts, as it stood before the loop was looked at. While looping and playing a block no longer than
    /// the loop, the block starts inside the loop and ends inside it or at its end.
    pub fn compute_play_position(&mut self, delta: usize)
        requires
            singer_wf(*old(self)),
            old(self).play_position.end + delta <= usize::MAX,
            old(self).song_state.loop_start + delta <= usize::MAX,
        ensures
            singer_wf(*final(self)),
            ({
                let (start, end) = next_play_position(
                    old(self).play_position.end,
                    old(self).song_state.play_p,
                    old(self).song_state.loop_p,
                    old(self).song_state.loop_start,
                    old(self).song_state.loop_end,
                    delta,
                );
                &&& final(self).play_position.start == start
                &&& final(self).play_position.end == end
                &&& final(self).song_state == (SongState {
                    line_play: (block_start(
                        old(self).play_position.end,
                        old(self).song_state.loop_p,
                        old(self).song_state.loop_start,
                    ) / 0x100) as usize,
                    ..old(self).song_state
                })
            }),
            old(self).song_state.play_p && old(self).song_state.loop_p && old(self).song_state.loop_start
                < old(self).song_state.loop_end && delta <= old(self).song_state.loop_end
                - old(self).song_state.loop_start ==> {
                &&& old(self).song_state.loop_start <= final(self).play_position.start < old(self).song_state.loop_end
                &&& old(self).song_state.loop_start <= final(self).play_position.end <= old(self).song_state.loop_end
            },
            final(self).song == old(self).song,
            final(self).process_track_contexts == old(self).process_track_contexts,
            final(self).play_position_start_last == old(self).play_position_start_last,
            final(self).all_notef_off_p == old(self).all_notef_off_p,
            final(self).midi_buffer == old(self).midi_buffer,
            final(self).steady_time == old(self).steady_time,
            final(self).plugin_id_counter == old(self).plugin_id_counter,
    {
        let loop_p = self.song_state.loop_p;
        let loop_start = self.song_state.loop_start;
        if loop_p && self.play_position.end < loop_start {
            self.play_position.end = loop_start;
        }
        self.play_position.start = self.play_position.end;
        self.song_state.line_play = self.play_position.start / 0x100;
        if !self.song_state.play_p {
            return;
        }
        self.play_position.end = self.play_position.start + delta;
        if loop_p {
            if self.play_position.start < self.song_state.loop_start || self.song_state.loop_end
                <= self.play_position.start {
                self.play_position.start = self.song_state.loop_start;
                self.play_position.end = self.play_position.start + delta;
            } else if self.play_position.end > self.song_state.loop_end {
                let overflow = self.play_position.end - self.song_state.loop_end;
                self.play_position.end = self.song_state.loop_start + overflow;
            }
        }
    }

    /// Sets the latency of the first plugin instance, in track and module order,
    /// with id `id`; does nothing when there is none.
    pub fn plugin_latency_set(&mut self, id: usize, latency: u32)
        requires
            singer_wf(*old(self)),
        ensures
            singer_wf(*final(self)),
            latency_set(old(self).process_track_contexts@, final(self).process_track_contexts@, id, latency),
            final(self).song == old(self).song,
            final(self).song_state == old(self).song_state,
            same_engine(*final(self), *old(self)),
    {
        let n = self.process_track_contexts.len();
        for t in 0..n
            invariant
                n == self.process_track_contexts@.len(),
                *self == *old(self),
                singer_wf(*old(self)),
                forall|t2: int, m2: int|
                    0 <= t2 < t && 0 <= m2 < self.process_track_contexts@[t2].plugins@.len()
                        ==> #[trigger] self.process_track_contexts@[t2].plugins@[m2].id != id,
        {
            let k = self.process_track_contexts[t].plugins.len();
            for m in 0..k
                invariant
                    n == self.process_track_contexts@.len(),
                    0 <= t < n,
                    k == self.process_track_contexts@[t as int].plugins@.len(),
                    *self == *old(self),
                    singer_wf(*old(self)),
                    forall|t2: int, m2: int|
                        0 <= t2 < t && 0 <= m2 < self.process_track_contexts@[t2].plugins@.len()
                            ==> #[trigger] self.process_track_contexts@[t2].plugins@[m2].id != id,
                    forall|m2: int| 0 <= m2 < m ==> #[trigger] self.process_track_contexts@[t as int].plugins@[m2].id != id,
            {
                if self.process_track_contexts[t].plugins[m].id == id {
                    let ghost cs = old(self).process_track_contexts@;
                    assert(is_first_plugin(cs, id, t as int, m as int));
                    self.process_track_contexts[t].plugin_latency_put(m, latency);
                    assert forall|t2: int, m2: int|
                        0 <= t2 < cs.len() && 0 <= m2 < cs[t2].plugins@.len() && (t2 != t || m2 != m) implies !is_first_plugin(
                        cs,
                        id,
                        t2,
                        m2,
                    ) by {
                        if t2 > t {
                            assert(cs[t as int].plugins@[m as int].id == id);
                        } else if t2 == t && m2 > m {
                            assert(cs[t as int].plugins@[m as int].id == id);
                        }
                    }
                    assert forall|t2: int|
                        0 <= t2 < cs.len() implies same_but_plugins(
                        #[trigger] self.process_track_contexts@[t2],
                        cs[t2],
                    ) && self.process_track_contexts@[t2].plugins@.len() == cs[t2].plugins@.len() by {
                        if t2 != t {
                            assert(self.process_track_contexts@[t2] == cs[t2]);
                        }
                    }
                    assert forall|t2: int, m2: int|
                        0 <= t2 < cs.len() && 0 <= m2 < cs[t2].plugins@.len() implies #[trigger] self.process_track_contexts@[t2].plugins@[m2]
                        == (if is_first_plugin(cs, id, t2, m2) {
                        PluginSlot { id, latency }
                    } else {
                        cs[t2].plugins@[m2]
                    }) by {
                        if t2 != t {
                            assert(self.process_track_contexts@[t2] == cs[t2]);
                        }
                    }
                    proof {
                        lemma_wf_contexts(*old(self), *self);
                    }
                    return;
                }
            }
        }
        assert forall|t2: int, m2: int|
            0 <= t2 < n && 0 <= m2 < self.process_track_contexts@[t2].plugins@.len() implies !is_first_plugin(
            self.process_track_contexts@,
            id,
            t2,
            m2,
        ) by {
            assert(self.process_track_contexts@[t2].plugins@[m2].id != id);
        }
    }

    /// Starts a plugin instance for track `track_index`: it gets the next id and a
    /// latency of 0.
    fn plugin_load(&mut self, track_index: usize) -> (r: usize)
        requires
            track_index < old(self).process_track_contexts@.len(),
        ensures
            r == old(self).plugin_id_counter,
            final(self).plugin_id_counter == id_step(old(self).plugin_id_counter),
            final(self).process_track_contexts@ == old(self).process_track_contexts@.update(
                track_index as int,
                final(self).process_track_contexts@[track_index as int],
            ),
            same_but_plugins(
                final(self).process_track_contexts@[track_index as int],
                old(self).process_track_contexts@[track_index as int],
            ),
            final(self).process_track_contexts@[track_index as int].plugins@ == old(
                self,
            ).process_track_contexts@[track_index as int].plugins@.push(PluginSlot { id: r, latency: 0 }),
            final(self).song == old(self).song,
            final(self).song_state == old(self).song_state,
            final(self).steady_time == old(self).steady_time,
            final(self).play_position == old(self).play_position,
            final(self).play_position_start_last == old(self).play_position_start_last,
            final(self).all_notef_off_p == old(self).all_notef_off_p,
            final(self).midi_buffer == old(self).midi_buffer,
    {
        let id = next_id(&mut self.plugin_id_counter);
        self.process_track_contexts[track_index].plugin_push(PluginSlot { id, latency: 0 });
        id
    }

    /// Loads the plugin `plugin_id` as a new last module of track `track_index`,
    /// named `name` and fed by the track's last module, if any; its instance gets
    /// the next id, which is returned.
    pub fn module_load(&mut self, track_index: usize, plugin_id: String, name: String) -> (r: usize)
        requires
            singer_wf(*old(self)),
            track_index < old(self).song.tracks@.len(),
        ensures
            singer_wf(*final(self)),
            final(self).song@ == with_track(
                old(self).song@,
                track_index,
                TrackV {
                    modules: old(self).song@.tracks[track_index as int].modules.push(
                        loaded_module(old(self).song@, track_index, plugin_id, name),
                    ),
                    ..old(self).song@.tracks[track_index as int]
                },
            ),
            r == old(self).plugin_id_counter,
            final(self).plugin_id_counter == id_step(old(self).plugin_id_counter),
            final(self).process_track_contexts@ == old(self).process_track_contexts@.update(
                track_index as int,
                final(self).process_track_contexts@[track_index as int],
            ),
            same_but_plugins(
                final(self).process_track_contexts@[track_index as int],
                old(self).process_track_contexts@[track_index as int],
            ),
            final(self).process_track_contexts@[track_index as int].plugins@ == old(
                self,
            ).process_track_contexts@[track_index as int].plugins@.push(PluginSlot { id: r, latency: 0 }),
            final(self).song_state == old(self).song_state,
            final(self).steady_time == old(self).steady_time,
            final(self).play_position == old(self).play_position,
            final(self).play_position_start_last == old(self).play_position_start_last,
            final(self).all_notef_off_p == old(self).all_notef_off_p,
            final(self).midi_buffer == old(self).midi_buffer,
    {
        proof {
            old(self).song.lemma_track_view(track_index as int);
            old(self).song.lemma_view_len();
        }
        let id = self.plugin_load(track_index);
        let n = self.song.tracks[track_index].modules.len();
        let mut audio_inputs: Vec<AudioInput> = Vec::new();
        if n > 0 {
            audio_inputs.push(
                AudioInput { src_module_index: (track_index, n - 1), src_port_index: 0, dst_port_index: 0 },
            );
        }
        let ghost inputs = audio_inputs@;
        let module = Module::new(plugin_id, name, audio_inputs);
        let ghost before = self.song@.tracks[track_index as int];
        self.song.tracks[track_index].modules.push(module);
        proof {
            let lm = loaded_module(old(self).song@, track_index, plugin_id, name);
            assert(inputs =~= lm.audio_inputs);
            assert(module@ == lm);
            assert(self.song.tracks@[track_index as int]@.modules =~= before.modules.push(lm));
            assert(self.song@.tracks =~= old(self).song@.tracks.update(
                track_index as int,
                TrackV { modules: before.modules.push(lm), ..before },
            ));
            self.song.lemma_view_len();
            assert forall|i: int| 0 <= i < self.song.tracks@.len() implies #[trigger] self.process_track_contexts@[i].plugins@.len()
                == self.song.tracks@[i].modules@.len() by {
                self.song.lemma_track_view(i);
                old(self).song.lemma_track_view(i);
                if i != track_index {
                    assert(self.song.tracks@[i] == old(self).song.tracks@[i]);
                }
            }
            assert forall|i: int| 0 <= i < self.song.tracks@.len() implies #[trigger] self.song.tracks@[i].lanes@.len() > 0 by {
                self.song.lemma_track_view(i);
                old(self).song.lemma_track_view(i);
                assert(self.song@.tracks[i].lanes.len() == old(self).song@.tracks[i].lanes.len());
            }
            assert forall|i: int|
                self.song.tracks@.len() <= i < self.process_track_contexts@.len() implies #[trigger] self.process_track_contexts@[i].plugins@.len()
                == 0 by {
                assert(self.process_track_contexts@[i] == old(self).process_track_contexts@[i]);
            }
        }
        id
    }

    /// Removes module `module_index.1` of track `module_index.0` together with its
    /// plugin instance. The audio inputs of the other modules are left as they are.
    pub fn plugin_delete(&mut self, module_index: ModuleIndex)
        requires
            singer_wf(*old(self)),
            module_index.0 < old(self).song.tracks@.len(),
            module_index.1 < old(self).song.tracks@[module_index.0 as int].modules@.len(),
        ensures
            singer_wf(*final(self)),
            final(self).song@ == with_track(
                old(self).song@,
                module_index.0,
                TrackV {
                    modules: old(self).song@.tracks[module_index.0 as int].modules.remove(module_index.1 as int),
                    ..old(self).song@.tracks[module_index.0 as int]
                },
            ),
            final(self).process_track_contexts@ == old(self).process_track_contexts@.update(
                module_index.0 as int,
                final(self).process_track_contexts@[module_index.0 as int],
            ),
            same_but_plugins(
                final(self).process_track_contexts@[module_index.0 as int],
                old(self).process_track_contexts@[module_index.0 as int],
            ),
            final(self).process_track_contexts@[module_index.0 as int].plugins@ == old(
                self,
            ).process_track_contexts@[module_index.0 as int].plugins@.remove(module_index.1 as int),
            final(self).song_state == old(self).song_state,
            same_engine(*final(self), *old(self)),
    {
        let t = module_index.0;
        let m = module_index.1;
        proof {
            old(self).song.lemma_track_view(t as int);
            old(self).song.lemma_view_len();
        }
        self.song.tracks[t].module_remove(m);
        self.process_track_contexts[t].plugin_remove(m);
        proof {
            assert(self.song@.tracks =~= old(self).song@.tracks.update(
                t as int,
                TrackV {
                    modules: old(self).song@.tracks[t as int].modules.remove(m as int),
                    ..old(self).song@.tracks[t as int]
                },
            ));
            self.song.lemma_view_len();
            assert forall|i: int| 0 <= i < self.song.tracks@.len() implies #[trigger] self.process_track_contexts@[i].plugins@.len()
                == self.song.tracks@[i].modules@.len() by {
                self.song.lemma_track_view(i);
                old(self).song.lemma_track_view(i);
                if i != t {
                    assert(self.song.tracks@[i] == old(self).song.tracks@[i]);
                }
            }
            assert forall|i: int| 0 <= i < self.song.tracks@.len() implies #[trigger] self.song.tracks@[i].lanes@.len() > 0 by {
                self.song.lemma_track_view(i);
                old(self).song.lemma_track_view(i);
                assert(self.song@.tracks[i].lanes.len() == old(self).song@.tracks[i].lanes.len());
            }
            assert forall|i: int|
                self.song.tracks@.len() <= i < self.process_track_contexts@.len() implies #[trigger] self.process_track_contexts@[i].plugins@.len()
                == 0 by {
                assert(self.process_track_contexts@[i] == old(self).process_track_contexts@[i]);
            }
        }
    }

    /// Adds `audio_input` to the inputs of the module at `module_index`, if there is
    /// one.
    pub fn plugin_sidechain(&mut self, module_index: ModuleIndex, audio_input: AudioInput)
        requires
            singer_wf(*old(self)),
        ensures
            singer_wf(*final(self)),
            final(self).song@ == (if module_index.0 < old(self).song@.tracks.len() && module_index.1 < old(
                self,
            ).song@.tracks[module_index.0 as int].modules.len() {
                with_track(
                    old(self).song@,
                    module_index.0,
                    TrackV {
                        modules: old(self).song@.tracks[module_index.0 as int].modules.update(
                            module_index.1 as int,
                            ModuleV {
                                audio_inputs: old(self).song@.tracks[module_index.0 as int].modules[module_index.1 as int].audio_inputs.push(
                                    audio_input,
                                ),
                                ..old(self).song@.tracks[module_index.0 as int].modules[module_index.1 as int]
                            },
                        ),
                        ..old(self).song@.tracks[module_index.0 as int]
                    },
                )
            } else {
                old(self).song@
            }),
            final(self).process_track_contexts == old(self).process_track_contexts,
            final(self).song_state == old(self).song_state,
            same_engine(*final(self), *old(self)),
    {
        let t = module_index.0;
        let m = module_index.1;
        if t < self.song.tracks.len() && m < self.song.tracks[t].modules.len() {
            proof {
                old(self).song.lemma_track_view(t as int);
            }
            self.song.tracks[t].module_input_push(m, audio_input);
            assert(self.song@.tracks =~= old(self).song@.tracks.update(t as int, self.song.tracks@[t as int]@));
            proof {
                lemma_wf_keep(*old(self), *self);
            }
        } else {
            proof {
                old(self).song.lemma_view_len();
                if t < self.song.tracks@.len() {
                    old(self).song.lemma_track_view(t as int);
                }
            }
        }
    }

    /// Puts a new automation point under `cursor` for parameter `param_id` of module
    /// `module_index`, as [`song_point_new`] says.
    pub fn point_new(&mut self, cursor: CursorTrack, module_index: usize, param_id: u32)
        requires
            singer_wf(*old(self)),
            cursor.track < old(self).song.tracks@.len(),
            cursor.lane < usize::MAX,
        ensures
            singer_wf(*final(self)),
            final(self).song@ == song_point_new(old(self).song@, cursor, module_index, param_id),
            final(self).process_track_contexts == old(self).process_track_contexts,
            final(self).song_state == old(self).song_state,
            same_engine(*final(self), *old(self)),
    {
        proof {
            old(self).song.lemma_track_view(cursor.track as int);
            old(self).song.lemma_view_len();
        }
        let idx = self.song.tracks[cursor.track].automation_param_slot((module_index, param_id));
        assert(self.song@.tracks =~= old(self).song@.tracks.update(
            cursor.track as int,
            self.song.tracks@[cursor.track as int]@,
        ));
        proof {
            lemma_wf_keep(*old(self), *self);
        }
        let point = Point { automation_params_index: idx, value: 0, delay: 0 };
        self.lane_item_set(cursor, Some(LaneItem::Point(point)));
    }

    /// Drops the song and its plugin instances for a new song with one track
    /// (`Main`) and its idle context.
    pub fn song_close(&mut self)
        requires
            singer_wf(*old(self)),
        ensures
            singer_wf(*final(self)),
            final(self).song@.tracks.len() == 1,
            final(self).song@.tracks[0] == new_track_view(final(self).song@.tracks[0].name),
            final(self).song@.tracks[0].name@ == new_track_name(0),
            final(self).song.bpm_bits == DEFAULT_BPM_BITS,
            final(self).song.sample_rate_bits == DEFAULT_SAMPLE_RATE_BITS,
            final(self).song.lpb == 4,
            final(self).process_track_contexts@.len() == 1,
            final(self).process_track_contexts@[0].plugins@.len() == 0,
            final(self).song_state == old(self).song_state,
            same_engine(*final(self), *old(self)),
    {
        self.song = Song::new();
        self.process_track_contexts.clear();
        proof {
            self.song.lemma_view_len();
        }
        self.track_add();
    }

    /// Takes `song`, read from the file `song_file`: one new context is appended to
    /// the list for each track, and the modules of track `t` get new plugin
    /// instances in context `t`, with ids handed out in track and module order; the
    /// contexts there were before keep no plugins, so after a close the one left at
    /// the end stays spare. `song_file` becomes the published song file.
    pub fn song_open(&mut self, song_file: String, song: Song)
        requires
            singer_wf(*old(self)),
            forall|i: int| 0 <= i < old(self).process_track_contexts@.len() ==> (#[trigger] old(self).process_track_contexts@[i]).plugins@.len() == 0,
            forall|i: int| 0 <= i < song@.tracks.len() ==> (#[trigger] song@.tracks[i]).lanes.len() > 0,
            old(self).process_track_contexts@.len() + song@.tracks.len() <= usize::MAX,
        ensures
            singer_wf(*final(self)),
            final(self).song@ == song@,
            final(self).process_track_contexts@.len() == old(self).process_track_contexts@.len() + song@.tracks.len(),
            forall|t: int, k: int|
                0 <= t < song@.tracks.len() && 0 <= k < song@.tracks[t].modules.len() ==> #[trigger] final(self).process_track_contexts@[t].plugins@[k]
                    == (PluginSlot { id: id_steps(old(self).plugin_id_counter, modules_before(song@.tracks, t) + k as nat), latency: 0 }),
            final(self).plugin_id_counter == id_steps(
                old(self).plugin_id_counter,
                modules_before(song@.tracks, song@.tracks.len() as int),
            ),
            final(self).song_state == (SongState { song_file: final(self).song_state.song_file, ..old(self).song_state }),
            ({
                let b = vstd::utf8::encode_utf8(song_file@);
                let len = if b.len() < MAX_PATH_LEN - 1 { b.len() as int } else { MAX_PATH_LEN - 1 };
                final(self).song_state.song_file@ == b.take(len) + seq![0u8] + old(self).song_state.song_file@.subrange(len + 1, MAX_PATH_LEN as int)
            }),
            final(self).steady_time == old(self).steady_time,
            final(self).play_position == old(self).play_position,
            final(self).play_position_start_last == old(self).play_position_start_last,
            final(self).all_notef_off_p == old(self).all_notef_off_p,
            final(self).midi_buffer == old(self).midi_buffer,
    {
        let ghost c0 = old(self).process_track_contexts@.len();
        let ghost counter0 = old(self).plugin_id_counter;
        let ghost ts = song@.tracks;
        self.song = song;
        proof {
            self.song.lemma_view_len();
        }
        let n = self.song.tracks.len();
        for t in 0..n
            invariant
                n == self.song.tracks@.len(),
                self.song@ == song@,
                ts == song@.tracks,
                c0 == old(self).process_track_contexts@.len(),
                c0 + n <= usize::MAX,
                self.process_track_contexts@.len() == c0 + t,
                self.plugin_id_counter == id_steps(counter0, modules_before(ts, t as int)),
                forall|i: int| 0 <= i < t ==> (#[trigger] self.process_track_contexts@[i]).plugins@.len() == ts[i].modules.len(),
                forall|i: int, k: int|
                    0 <= i < t && 0 <= k < ts[i].modules.len() ==> #[trigger] self.process_track_contexts@[i].plugins@[k]
                        == (PluginSlot { id: id_steps(counter0, modules_before(ts, i) + k as nat), latency: 0 }),
                forall|i: int| t <= i < c0 + t ==> (#[trigger] self.process_track_contexts@[i]).plugins@.len() == 0,
                self.song_state == old(self).song_state,
                self.steady_time == old(self).steady_time,
                self.play_position == old(self).play_position,
                self.play_position_start_last == old(self).play_position_start_last,
                self.all_notef_off_p == old(self).all_notef_off_p,
                self.midi_buffer == old(self).midi_buffer,
        {
            self.process_track_contexts.push(ProcessTrackContext::new());
            proof {
                self.song.lemma_track_view(t as int);
            }
            let k = self.song.tracks[t].modules.len();
            let ghost before_t = self.process_track_contexts@;
            for m in 0..k
                invariant
                    n == self.song.tracks@.len(),
                    self.song@ == song@,
                    ts == song@.tracks,
                    0 <= t < n,
                    k == ts[t as int].modules.len(),
                    self.process_track_contexts@.len() == c0 + t + 1,
                    self.plugin_id_counter == id_steps(counter0, modules_before(ts, t as int) + m as nat),
                    forall|i: int| 0 <= i < c0 + t + 1 && i != t ==> #[trigger] self.process_track_contexts@[i] == before_t[i],
                    self.process_track_contexts@[t as int].plugins@.len() == m,
                    forall|j: int|
                        0 <= j < m ==> #[trigger] self.process_track_contexts@[t as int].plugins@[j] == (PluginSlot {
                            id: id_steps(counter0, modules_before(ts, t as int) + j as nat),
                            latency: 0,
                        }),
                    self.song_state == old(self).song_state,
                    self.steady_time == old(self).steady_time,
                    self.play_position == old(self).play_position,
                    self.play_position_start_last == old(self).play_position_start_last,
                    self.all_notef_off_p == old(self).all_notef_off_p,
                    self.midi_buffer == old(self).midi_buffer,
            {
                let ghost cs = self.process_track_contexts@;
                self.plugin_load(t);
                assert forall|i: int| 0 <= i < c0 + t + 1 && i != t implies #[trigger] self.process_track_contexts@[i] == before_t[i] by {
                    assert(self.process_track_contexts@[i] == cs[i]);
                }
            }
            assert(before_t[t as int].plugins@.len() == 0) by {
                if t < c0 {
                    assert(before_t[t as int].plugins@.len() == 0);
                }
            }
        }
        self.song_state.song_file_set(&song_file);
        proof {
            lemma_wf_from_view(*self);
        }
    }

    /// Deletes track `track_index` and its context, as [`Song::track_delete`] says.
    pub fn track_delete(&mut self, track_index: usize)
        requires
            singer_wf(*old(self)),
            track_index < old(self).song.tracks@.len(),
        ensures
            singer_wf(*final(self)),
            final(self).song@ == (SongV {
                tracks: remap_tracks(old(self).song@.tracks.remove(track_index as int), Remap::Delete(track_index)),
                ..old(self).song@
            }),
            final(self).process_track_contexts@ == old(self).process_track_contexts@.remove(track_index as int),
            final(self).song_state == old(self).song_state,
            same_engine(*final(self), *old(self)),
    {
        proof {
            lemma_wf_to_view(*old(self));
            old(self).song.lemma_view_len();
        }
        self.song.track_delete(track_index);
        self.process_track_contexts.remove(track_index);
        proof {
            let ts = old(self).song@.tracks;
            assert forall|i: int| 0 <= i < self.song@.tracks.len() implies (#[trigger] self.process_track_contexts@[i]).plugins@.len()
                == self.song@.tracks[i].modules.len() && self.song@.tracks[i].lanes.len() > 0 by {
                let j = if i < track_index { i } else { i + 1 };
                assert(self.process_track_contexts@[i] == old(self).process_track_contexts@[j]);
                assert(self.song@.tracks[i] == remap_track_of(ts.remove(track_index as int)[i], Remap::Delete(track_index)));
                assert(ts.remove(track_index as int)[i] == ts[j]);
            }
            assert forall|i: int|
                self.song@.tracks.len() <= i < self.process_track_contexts@.len() implies (#[trigger] self.process_track_contexts@[i]).plugins@.len()
                == 0 by {
                assert(self.process_track_contexts@[i] == old(self).process_track_contexts@[i + 1]);
            }
            lemma_wf_from_view(*self);
        }
    }

    /// Inserts `track` at `track_index`, as [`Song::track_insert`] says, with an idle
    /// context of its own and new plugin instances for its modules, with ids handed
    /// out in module order.
    pub fn track_insert(&mut self, track_index: usize, track: Track)
        requires
            singer_wf(*old(self)),
            track_index <= old(self).song.tracks@.len(),
            song_remap_fits(old(self).song@.tracks.insert(track_index as int, track@), Remap::Insert(track_index)),
            track.lanes@.len() > 0,
        ensures
            singer_wf(*final(self)),
            final(self).song@ == (SongV {
                tracks: remap_tracks(old(self).song@.tracks.insert(track_index as int, track@), Remap::Insert(track_index)),
                ..old(self).song@
            }),
            final(self).process_track_contexts@.len() == old(self).process_track_contexts@.len() + 1,
            forall|i: int| 0 <= i < track_index ==> #[trigger] final(self).process_track_contexts@[i] == old(self).process_track_contexts@[i],
            forall|i: int|
                track_index < i <= old(self).process_track_contexts@.len() ==> #[trigger] final(self).process_track_contexts@[i]
                    == old(self).process_track_contexts@[i - 1],
            final(self).process_track_contexts@[track_index as int].plugins@.len() == track@.modules.len(),
            forall|k: int|
                0 <= k < track@.modules.len() ==> #[trigger] final(self).process_track_contexts@[track_index as int].plugins@[k]
                    == (PluginSlot { id: id_steps(old(self).plugin_id_counter, k as nat), latency: 0 }),
            final(self).plugin_id_counter == id_steps(old(self).plugin_id_counter, track@.modules.len()),
            final(self).song_state == old(self).song_state,
            final(self).steady_time == old(self).steady_time,
            final(self).play_position == old(self).play_position,
            final(self).play_position_start_last == old(self).play_position_start_last,
            final(self).all_notef_off_p == old(self).all_notef_off_p,
            final(self).midi_buffer == old(self).midi_buffer,
    {
        proof {
            lemma_wf_to_view(*old(self));
            old(self).song.lemma_view_len();
        }
        let ghost tv = track@;
        let n = track.modules.len();
        assert(n == tv.modules.len());
        self.song.track_insert(track_index, track);
        self.process_track_contexts.insert(track_index, ProcessTrackContext::new());
        let ghost inserted = self.process_track_contexts@;
        let ghost counter0 = self.plugin_id_counter;
        let ghost song1 = self.song;
        for m in 0..n
            invariant
                n == tv.modules.len(),
                track_index < self.process_track_contexts@.len(),
                self.process_track_contexts@.len() == inserted.len(),
                forall|i: int| 0 <= i < inserted.len() && i != track_index ==> #[trigger] self.process_track_contexts@[i] == inserted[i],
                self.process_track_contexts@[track_index as int].plugins@.len() == m,
                forall|k: int|
                    0 <= k < m ==> #[trigger] self.process_track_contexts@[track_index as int].plugins@[k] == (PluginSlot {
                        id: id_steps(counter0, k as nat),
                        latency: 0,
                    }),
                self.plugin_id_counter == id_steps(counter0, m as nat),
                self.song == song1,
                self.song_state == old(self).song_state,
                self.steady_time == old(self).steady_time,
                self.play_position == old(self).play_position,
                self.play_position_start_last == old(self).play_position_start_last,
                self.all_notef_off_p == old(self).all_notef_off_p,
                self.midi_buffer == old(self).midi_buffer,
        {
            let ghost cs = self.process_track_contexts@;
            self.plugin_load(track_index);
            assert forall|i: int| 0 <= i < inserted.len() && i != track_index implies #[trigger] self.process_track_contexts@[i] == inserted[i] by {
                assert(self.process_track_contexts@[i] == cs[i]);
            }
        }
        proof {
            let ts = old(self).song@.tracks.insert(track_index as int, tv);
            assert forall|i: int| 0 <= i < self.song@.tracks.len() implies (#[trigger] self.process_track_contexts@[i]).plugins@.len()
                == self.song@.tracks[i].modules.len() && self.song@.tracks[i].lanes.len() > 0 by {
                assert(self.song@.tracks[i] == remap_track_of(ts[i], Remap::Insert(track_index)));
                if i < track_index {
                    assert(ts[i] == old(self).song@.tracks[i]);
                    assert(self.process_track_contexts@[i] == old(self).process_track_contexts@[i]);
                } else if i > track_index {
                    assert(ts[i] == old(self).song@.tracks[i - 1]);
                    assert(self.process_track_contexts@[i] == old(self).process_track_contexts@[i - 1]);
                }
            }
            assert forall|i: int|
                self.song@.tracks.len() <= i < self.process_track_contexts@.len() implies (#[trigger] self.process_track_contexts@[i]).plugins@.len()
                == 0 by {
                assert(self.process_track_contexts@[i] == old(self).process_track_contexts@[i - 1]);
            }
            lemma_wf_from_view(*self);
        }
    }

    /// Moves track `track_index` by `delta` places, with its context, as
    /// [`Song::track_move`] says, unless the new place would be the first one or past
    /// the last track; returns whether it moved.
    pub fn track_move(&mut self, track_index: usize, delta: isize) -> (r: bool)
        requires
            singer_wf(*old(self)),
            ({
                let to = add_signed_saturating(track_index, delta);
                to == 0 || to >= old(self).song@.tracks.len() || (track_index < old(self).song.tracks@.len()
                    && song_remap_fits(old(self).song@.tracks, Remap::Move(track_index, to)))
            }),
        ensures
            singer_wf(*final(self)),
            ({
                let to = add_signed_saturating(track_index, delta);
                &&& r == !(to == 0 || to >= old(self).song@.tracks.len())
                &&& !r ==> final(self).song == old(self).song && final(self).process_track_contexts
                    == old(self).process_track_contexts
                &&& r ==> final(self).song@ == (SongV {
                    tracks: remap_tracks(
                        old(self).song@.tracks.remove(track_index as int).insert(
                            to as int,
                            old(self).song@.tracks[track_index as int],
                        ),
                        Remap::Move(track_index, to),
                    ),
                    ..old(self).song@
                }) && final(self).process_track_contexts@ == old(self).process_track_contexts@.remove(
                    track_index as int,
                ).insert(to as int, old(self).process_track_contexts@[track_index as int])
            }),
            final(self).song_state == old(self).song_state,
            same_engine(*final(self), *old(self)),
    {
        proof {
            lemma_wf_to_view(*old(self));
            old(self).song.lemma_view_len();
        }
        let to = saturating_add_signed(track_index, delta);
        if to == 0 || to >= self.song.tracks.len() {
            return false;
        }
        let context = self.process_track_contexts.remove(track_index);
        self.process_track_contexts.insert(to, context);
        self.song.track_move(track_index, delta);
        proof {
            let ts = old(self).song@.tracks;
            let moved = ts.remove(track_index as int).insert(to as int, ts[track_index as int]);
            let cs = old(self).process_track_contexts@;
            let cmoved = cs.remove(track_index as int).insert(to as int, cs[track_index as int]);
            assert forall|i: int| 0 <= i < self.song@.tracks.len() implies (#[trigger] self.process_track_contexts@[i]).plugins@.len()
                == self.song@.tracks[i].modules.len() && self.song@.tracks[i].lanes.len() > 0 by {
                assert(self.song@.tracks[i] == remap_track_of(moved[i], Remap::Move(track_index, to)));
                let j = if i < to {
                    if i < track_index { i } else { i + 1 }
                } else if i == to {
                    track_index as int
                } else {
                    if i <= track_index { i - 1 } else { i }
                };
                assert(moved[i] == ts[j]);
                assert(cmoved[i] == cs[j]);
            }
            assert forall|i: int|
                self.song@.tracks.len() <= i < self.process_track_contexts@.len() implies (#[trigger] self.process_track_contexts@[i]).plugins@.len()
                == 0 by {
                assert(cmoved[i] == cs[i]);
            }
            lemma_wf_from_view(*self);
        }
        true
    }
}

} // verus!
