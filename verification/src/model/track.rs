//! Tracks: lanes of items, the plugin modules that play them, and mixer settings.
use crate::model::lane::Lane;
use crate::model::lane_item::LaneItem;
use crate::model::module::{AudioInput, Module, ModuleV};
use std::collections::HashMap;
use vstd::prelude::*;

verus! {

broadcast use vstd::std_specs::hash::group_hash_axioms;

/// Bit pattern of the `f32` fader position of a new track: 0 dB on the meter scale
/// from -60 dB to +6 dB, that is `((0 + 60) / 66)^2`.
pub const DEFAULT_VOLUME_BITS: u32 = 0x3f5391fd;

/// Bit pattern of the `f32` pan of a new track: 0.5, the centre.
pub const CENTER_PAN_BITS: u32 = 0x3f000000;

/// A track. `volume_bits` and `pan_bits` hold the bit patterns of the `f32` fader
/// position and pan (0 left, 0.5 centre, 1 right); `automation_params` lists the
/// `(module_index, param_id)` pairs that automation points refer to by index;
/// `on_key_lane_map` remembers, while recording, in which lane each held key was
/// written.
#[derive(Debug)]
pub struct Track {
    pub name: String,
    pub volume_bits: u32,
    pub pan_bits: u32,
    pub mute: bool,
    pub solo: bool,
    pub modules: Vec<Module>,
    pub lanes: Vec<Lane>,
    pub automation_params: Vec<(usize, u32)>,
    pub on_key_lane_map: HashMap<i16, usize>,
}

/// The mathematical value of a track (the recording bookkeeping aside).
pub struct TrackV {
    pub name: String,
    pub volume_bits: u32,
    pub pan_bits: u32,
    pub mute: bool,
    pub solo: bool,
    pub modules: Seq<ModuleV>,
    pub lanes: Seq<Map<usize, LaneItem>>,
    pub automation_params: Seq<(usize, u32)>,
}

pub open spec fn modules_view(modules: Seq<Module>) -> Seq<ModuleV> {
    modules.map_values(|m: Module| m@)
}

pub open spec fn lanes_view(lanes: Seq<Lane>) -> Seq<Map<usize, LaneItem>> {
    lanes.map_values(|l: Lane| l@)
}

impl View for Track {
    type V = TrackV;

    open spec fn view(&self) -> TrackV {
        TrackV {
            name: self.name,
            volume_bits: self.volume_bits,
            pan_bits: self.pan_bits,
            mute: self.mute,
            solo: self.solo,
            modules: modules_view(self.modules@),
            lanes: lanes_view(self.lanes@),
            automation_params: self.automation_params@,
        }
    }
}

/// An audio input after the track at `k` was deleted.
pub open spec fn input_after_delete(a: AudioInput, k: int) -> AudioInput {
    if a.src_module_index.0 > k {
        AudioInput { src_module_index: ((a.src_module_index.0 - 1) as usize, a.src_module_index.1), ..a }
    } else {
        a
    }
}

/// The audio inputs after the track at `k` was deleted: inputs from that track go,
/// inputs from the tracks after it follow them one place up.
pub open spec fn inputs_after_delete(s: Seq<AudioInput>, k: int) -> Seq<AudioInput>
    decreases s.len(),
{
    if s.len() == 0 {
        seq![]
    } else {
        let r = inputs_after_delete(s.drop_last(), k);
        if s.last().src_module_index.0 == k {
            r
        } else {
            r.push(input_after_delete(s.last(), k))
        }
    }
}

/// An audio input after a track was inserted at `k`.
pub open spec fn input_after_insert(a: AudioInput, k: int) -> AudioInput {
    if a.src_module_index.0 >= k {
        AudioInput { src_module_index: ((a.src_module_index.0 + 1) as usize, a.src_module_index.1), ..a }
    } else {
        a
    }
}

/// The bookkeeping of a track move from `from` to `to` applied to one input, as the
/// editor does it: inputs from the moved track follow it, inputs from a track
/// between the two places are shifted one place in the direction of the move.
pub open spec fn input_after_move(a: AudioInput, from: int, to: int) -> AudioInput {
    let src: int = a.src_module_index.0 as int;
    let lo = if from < to { from } else { to };
    let hi = if from < to { to } else { from };
    let shifted: int = if src == from {
        to
    } else if lo <= src && src <= hi {
        if to > from {
            src + 1
        } else if to < from {
            if src == 0 { 0 } else { src - 1 }
        } else {
            src
        }
    } else {
        src
    };
    AudioInput { src_module_index: (shifted as usize, a.src_module_index.1), ..a }
}

/// How the routing of one module changes when tracks are deleted, inserted or moved.
pub enum Remap {
    Delete(usize),
    Insert(usize),
    Move(usize, usize),
}

pub open spec fn remap_inputs(s: Seq<AudioInput>, r: Remap) -> Seq<AudioInput> {
    match r {
        Remap::Delete(k) => inputs_after_delete(s, k as int),
        Remap::Insert(k) => s.map_values(|a: AudioInput| input_after_insert(a, k as int)),
        Remap::Move(from, to) => s.map_values(
            |a: AudioInput| input_after_move(a, from as int, to as int),
        ),
    }
}

pub open spec fn remap_module(m: ModuleV, r: Remap) -> ModuleV {
    ModuleV { audio_inputs: remap_inputs(m.audio_inputs, r), ..m }
}

pub open spec fn remap_track(t: TrackV, r: Remap) -> TrackV {
    TrackV { modules: t.modules.map_values(|m: ModuleV| remap_module(m, r)), ..t }
}

/// Whether remapping the inputs overflows no track index.
pub open spec fn inputs_fit(s: Seq<AudioInput>, r: Remap) -> bool {
    match r {
        Remap::Delete(_) => true,
        _ => forall|i: int| 0 <= i < s.len() ==> #[trigger] s[i].src_module_index.0 < usize::MAX,
    }
}

fn remapped_inputs(v: &Vec<AudioInput>, r: &Remap) -> (out: Vec<AudioInput>)
    requires
        inputs_fit(v@, *r),
    ensures
        out@ == remap_inputs(v@, *r),
{
    let mut out: Vec<AudioInput> = Vec::new();
    for i in 0..v.len()
        invariant
            inputs_fit(v@, *r),
            out@ == remap_inputs(v@.take(i as int), *r),
    {
        let a = v[i];
        let (t, m) = a.src_module_index;
        assert(v@.take(i + 1).drop_last() =~= v@.take(i as int));
        match r {
            Remap::Delete(k) => {
                if t != *k {
                    let t2 = if t > *k {
                        t - 1
                    } else {
                        t
                    };
                    out.push(AudioInput { src_module_index: (t2, m), ..a });
                }
            },
            Remap::Insert(k) => {
                let t2 = if t >= *k {
                    t + 1
                } else {
                    t
                };
                out.push(AudioInput { src_module_index: (t2, m), ..a });
                assert(v@.take(i + 1) =~= v@.take(i as int).push(a));
            },
            Remap::Move(from, to) => {
                let lo = if *from < *to {
                    *from
                } else {
                    *to
                };
                let hi = if *from < *to {
                    *to
                } else {
                    *from
                };
                let t2 = if t == *from {
                    *to
                } else if lo <= t && t <= hi {
                    if *to > *from {
                        t + 1
                    } else if *to < *from {
                        if t == 0 {
                            0
                        } else {
                            t - 1
                        }
                    } else {
                        t
                    }
                } else {
                    t
                };
                out.push(AudioInput { src_module_index: (t2, m), ..a });
                assert(v@.take(i + 1) =~= v@.take(i as int).push(a));
            },
        }
        assert(out@ =~= remap_inputs(v@.take(i + 1), *r));
    }
    assert(v@.take(v@.len() as int) =~= v@);
    out
}

/// Whether the remapping can be applied to every input of the track without
/// overflowing a track index.
pub open spec fn remap_fits(t: TrackV, r: Remap) -> bool {
    forall|j: int| 0 <= j < t.modules.len() ==> inputs_fit(#[trigger] t.modules[j].audio_inputs, r)
}

/// The value of a new track.
pub open spec fn new_track_view(name: String) -> TrackV {
    TrackV {
        name,
        volume_bits: DEFAULT_VOLUME_BITS,
        pan_bits: CENTER_PAN_BITS,
        mute: false,
        solo: false,
        modules: seq![],
        lanes: seq![Map::empty()],
        automation_params: seq![],
    }
}

impl Track {
    /// A new track named `T01` with one empty lane, no modules, fader at 0 dB and
    /// centred pan.
    pub fn new() -> (r: Self)
        ensures
            r.name@ == seq!['T', '0', '1'],
            r@ == new_track_view(r.name),
            r.volume_bits == DEFAULT_VOLUME_BITS,
            r.pan_bits == CENTER_PAN_BITS,
            !r.mute,
            !r.solo,
            r.modules@.len() == 0,
            r@.lanes == seq![Map::<usize, LaneItem>::empty()],
            r.automation_params@.len() == 0,
            r.on_key_lane_map@ == Map::<i16, usize>::empty(),
    {
        proof {
            reveal_strlit("T01");
        }
        let mut lanes: Vec<Lane> = Vec::new();
        lanes.push(Lane::new());
        let r = Track {
            name: String::from_str("T01"),
            volume_bits: DEFAULT_VOLUME_BITS,
            pan_bits: CENTER_PAN_BITS,
            mute: false,
            solo: false,
            modules: Vec::new(),
            lanes,
            automation_params: Vec::new(),
            on_key_lane_map: HashMap::new(),
        };
        assert(r.name@ =~= seq!['T', '0', '1']);
        assert(r@.lanes =~= seq![Map::<usize, LaneItem>::empty()]);
        assert(r@.modules =~= seq![]);
        assert(r@.automation_params =~= seq![]);
        r
    }

    /// Appends an empty lane.
    pub fn lane_add(&mut self)
        ensures
            final(self)@ == (TrackV { lanes: old(self)@.lanes.push(Map::empty()), ..old(self)@ }),
            final(self).on_key_lane_map@ == old(self).on_key_lane_map@,
    {
        self.lanes.push(Lane::new());
        assert(final(self)@.lanes =~= old(self)@.lanes.push(Map::empty()));
    }

    /// Rewrites the audio inputs of every module of the track.
    pub fn remap_inputs(&mut self, r: &Remap)
        requires
            remap_fits(old(self)@, *r),
        ensures
            final(self)@ == remap_track(old(self)@, *r),
            final(self).on_key_lane_map@ == old(self).on_key_lane_map@,
    {
        let n = self.modules.len();
        for j in 0..n
            invariant
                n == self.modules@.len(),
                remap_fits(old(self)@, *r),
                self.name == old(self).name,
                self.volume_bits == old(self).volume_bits,
                self.pan_bits == old(self).pan_bits,
                self.mute == old(self).mute,
                self.solo == old(self).solo,
                self@.lanes == old(self)@.lanes,
                self.automation_params@ == old(self).automation_params@,
                self.on_key_lane_map@ == old(self).on_key_lane_map@,
                self.modules@.len() == old(self).modules@.len(),
                forall|k: int|
                    0 <= k < j ==> #[trigger] self.modules@[k]@ == remap_module(
                        old(self).modules@[k]@,
                        *r,
                    ),
                forall|k: int| j <= k < n ==> #[trigger] self.modules@[k]@ == old(self).modules@[k]@,
        {
            assert(old(self)@.modules[j as int] == old(self).modules@[j as int]@);
            assert(self.modules@[j as int]@ == old(self).modules@[j as int]@);
            assert(inputs_fit(old(self)@.modules[j as int].audio_inputs, *r));
            let inputs = remapped_inputs(&self.modules[j].audio_inputs, r);
            let ghost prev = self.modules@;
            let ghost new_inputs = inputs@;
            self.modules[j].audio_inputs = inputs;
            assert(self.modules@[j as int].audio_inputs@ == new_inputs);
            assert(self.modules@[j as int].id == prev[j as int].id);
            assert(self.modules@[j as int].state == prev[j as int].state);
            assert(self.modules@[j as int]@ == remap_module(old(self).modules@[j as int]@, *r));
            assert(forall|k: int| 0 <= k < n && k != j ==> self.modules@[k] == prev[k]);
        }
        assert(final(self)@.modules =~= old(self)@.modules.map_values(
            |m: ModuleV| remap_module(m, *r),
        ));
    }
}

impl Clone for Track {
    fn clone(&self) -> (r: Self)
        ensures
            r@ == self@,
            r.on_key_lane_map@ == self.on_key_lane_map@,
    {
        let mut modules: Vec<Module> = Vec::new();
        for i in 0..self.modules.len()
            invariant
                modules_view(modules@) == modules_view(self.modules@.take(i as int)),
        {
            let ghost prev = modules@;
            modules.push(self.modules[i].clone());
            assert(modules_view(modules@) =~= modules_view(self.modules@.take(i + 1))) by {
                assert(modules_view(prev).len() == i);
                assert forall|k: int| 0 <= k < i implies modules_view(modules@)[k] == modules_view(
                    self.modules@.take(i + 1),
                )[k] by {
                    assert(modules_view(prev)[k] == modules_view(self.modules@.take(i as int))[k]);
                }
            }
        }
        let mut lanes: Vec<Lane> = Vec::new();
        for i in 0..self.lanes.len()
            invariant
                lanes_view(lanes@) == lanes_view(self.lanes@.take(i as int)),
        {
            let ghost prev = lanes@;
            lanes.push(self.lanes[i].clone());
            assert(lanes_view(lanes@) =~= lanes_view(self.lanes@.take(i + 1))) by {
                assert(lanes_view(prev).len() == i);
                assert forall|k: int| 0 <= k < i implies lanes_view(lanes@)[k] == lanes_view(
                    self.lanes@.take(i + 1),
                )[k] by {
                    assert(lanes_view(prev)[k] == lanes_view(self.lanes@.take(i as int))[k]);
                }
            }
        }
        let mut automation_params: Vec<(usize, u32)> = Vec::new();
        for i in 0..self.automation_params.len()
            invariant
                automation_params@ == self.automation_params@.take(i as int),
        {
            automation_params.push(self.automation_params[i]);
            assert(automation_params@ =~= self.automation_params@.take(i + 1));
        }
        assert(self.modules@.take(self.modules@.len() as int) =~= self.modules@);
        assert(self.lanes@.take(self.lanes@.len() as int) =~= self.lanes@);
        assert(automation_params@ =~= self.automation_params@);
        Track {
            name: self.name.clone(),
            volume_bits: self.volume_bits,
            pan_bits: self.pan_bits,
            mute: self.mute,
            solo: self.solo,
            modules,
            lanes,
            automation_params,
            on_key_lane_map: self.on_key_lane_map.clone(),
        }
    }
}

} // verus!
