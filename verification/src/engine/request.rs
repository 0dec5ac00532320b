//! How the engine answers the editor's requests, one at a time, and records the
//! edits that can be undone.
use crate::cursor::CursorTrack;
use crate::model::lane_item::LaneItem;
use crate::engine::event::Event;
use crate::engine::lane_edit::{distinct_cells, lemma_lane_items_undo, lemma_lane_items_undo_adding_lanes, pad_all, song_put_all, undo_items};
use crate::engine::message::{msg_eq, AudioToMain, MainToAudio};
use crate::engine::process_track_context::{PluginSlot, ProcessTrackContext};
use crate::engine::singer::{
    block_start, id_step, id_steps, is_first_plugin, latency_set, loaded_module, same_but_plugins, singer_wf, song_point_new,
    track_appended, with_track, Singer,
};
use crate::engine::undo_history::{history_redo, history_undo, redo_message, undo_message, UndoHistory, UndoHistoryItem, UndoHistoryV};
use crate::model::module::ModuleV;
use crate::model::song::{add_signed_saturating, remap_tracks, saturating_add_signed, song_remap_fits, Song, SongV};
use crate::model::track::{Remap, Track, TrackV};
use crate::song_state::{SongState, TrackState, MAX_PATH_LEN, MAX_TRACKS};
use vstd::prelude::*;

verus! {

/// What the engine does with a request: answers it at once, or first needs the
/// song file at the given path read (opening a song).
#[derive(Debug)]
pub enum AudioStep {
    Reply(AudioToMain),
    SongRead(String),
}

/// A request to write cells, none of them in the last possible lane.
pub open spec fn lane_request(m: MainToAudio) -> bool {
    match m {
        MainToAudio::LaneItem(items) => forall|i: int| 0 <= i < items@.len() ==> (#[trigger] items@[i]).0.lane < usize::MAX,
        _ => false,
    }
}

/// The history holds only cell writes, as the engine records them.
pub open spec fn history_wf(h: UndoHistoryV) -> bool {
    &&& forall|i: int| 0 <= i < h.undos.len() ==> lane_request((#[trigger] h.undos[i]).undo) && lane_request(h.undos[i].redo)
    &&& forall|i: int| 0 <= i < h.redos.len() ==> lane_request((#[trigger] h.redos[i]).undo) && lane_request(h.redos[i].redo)
}

/// The engine can carry out the request without failing: the tracks, modules and
/// published track states it names exist, and no index overflows.
pub open spec fn request_ok(s: Singer, m: MainToAudio) -> bool {
    match m {
        MainToAudio::PlayLine(line) => line * 0x100 <= usize::MAX,
        MainToAudio::LaneItem(items) => lane_request(m),
        MainToAudio::NoteOn(t, _, _, _, _) => t < s.process_track_contexts@.len(),
        MainToAudio::NoteOff(t, _, _, _, _) => t < s.process_track_contexts@.len(),
        MainToAudio::PluginLoad(t, _, _) => t < s.song.tracks@.len(),
        MainToAudio::PluginDelete(mi) => mi.0 < s.song.tracks@.len() && mi.1 < s.song.tracks@[mi.0 as int].modules@.len(),
        MainToAudio::PointNew(c, _, _) => c.track < s.song.tracks@.len() && c.lane < usize::MAX,
        MainToAudio::TrackDelete(t) => t < s.song.tracks@.len(),
        MainToAudio::TrackInsert(t, track) => t <= s.song.tracks@.len() && song_remap_fits(
            s.song@.tracks.insert(t as int, track@),
            Remap::Insert(t),
        ) && track.lanes@.len() > 0,
        MainToAudio::TrackMove(t, d) => {
            let to = add_signed_saturating(t, d);
            to == 0 || to >= s.song@.tracks.len() || (t < s.song.tracks@.len() && song_remap_fits(
                s.song@.tracks,
                Remap::Move(t, to),
            ))
        },
        MainToAudio::TrackRecOn(t) => t < MAX_TRACKS,
        MainToAudio::TrackRecOff(t) => t < MAX_TRACKS,
        _ => true,
    }
}

/// The reply is the song `s`.
pub open spec fn replies_song(r: AudioStep, s: SongV) -> bool {
    r matches AudioStep::Reply(AudioToMain::Song(x)) && x@ == s
}

/// The reply is a plain acknowledgement.
pub open spec fn replies_ack(r: AudioStep) -> bool {
    r matches AudioStep::Reply(AudioToMain::Ack)
}

/// The song with track `t`'s value replaced by `f` applied to it, when there is a
/// track `t`.
pub open spec fn track_set(s: SongV, t: usize, v: spec_fn(TrackV) -> TrackV) -> SongV {
    if t < s.tracks.len() {
        with_track(s, t, v(s.tracks[t as int]))
    } else {
        s
    }
}

/// Two contexts agree on everything but the events collected for their modules.
pub open spec fn same_but_events(a: ProcessTrackContext, b: ProcessTrackContext) -> bool {
    &&& a.nchannels == b.nchannels
    &&& a.nframes == b.nframes
    &&& a.play_p == b.play_p
    &&& a.bpm_bits == b.bpm_bits
    &&& a.steady_time == b.steady_time
    &&& a.play_position == b.play_position
    &&& a.loop_range == b.loop_range
    &&& a.on_keys == b.on_keys
    &&& a.line_offset == b.line_offset
    &&& a.line_offset_stack == b.line_offset_stack
    &&& a.plugins == b.plugins
}

/// `b` is `a` with event `e` added to the events of context `t`.
pub open spec fn event_added(a: Seq<ProcessTrackContext>, b: Seq<ProcessTrackContext>, t: usize, e: Event) -> bool {
    &&& b == a.update(t as int, b[t as int])
    &&& same_but_events(b[t as int], a[t as int])
    &&& b[t as int].event_list_input@ == a[t as int].event_list_input@.push(e)
}

/// The song after the cell writes of a request, if it is one.
pub open spec fn song_after_writes(s: SongV, m: Option<MainToAudio>) -> SongV {
    match m {
        Some(MainToAudio::LaneItem(items)) => song_put_all(s, items@),
        _ => s,
    }
}

/// What the engine's state, the reply and the history are after request `m`
/// (neither an undo nor a redo), from the state `a` and the history `h`.
pub open spec fn plain_effect(a: Singer, h: UndoHistoryV, m: MainToAudio, b: Singer, g: UndoHistoryV, r: AudioStep) -> bool {
    &&& match m {
        MainToAudio::LaneItem(items) => !h.traveling_p ==> g.undos.len() == h.undos.len() + 1
            && g.undos.drop_last() == h.undos && g.redos.len() == 0 && !g.traveling_p && msg_eq(
            g.undos.last().redo,
            m,
        ) && (g.undos.last().undo matches MainToAudio::LaneItem(u) && u@ == undo_items(a.song@, items@)),
        _ => true,
    }
    &&& (h.traveling_p || !(m is LaneItem)) ==> g == h
    &&& match m {
        MainToAudio::Bpm(bits) => b.song@ == (SongV { bpm_bits: bits, ..a.song@ }) && replies_song(r, b.song@)
            && b.song_state == a.song_state && b.process_track_contexts == a.process_track_contexts,
        MainToAudio::Play => replies_ack(r) && b.song == a.song && b.process_track_contexts == a.process_track_contexts
            && (a.song_state.play_p ==> b.song_state == a.song_state && b.play_position == a.play_position)
            && (!a.song_state.play_p ==> b.song_state == (SongState { play_p: true, ..a.song_state })
            && b.play_position.start == a.play_position.start && b.play_position.end == a.play_position_start_last),
        MainToAudio::PlayLine(line) => replies_ack(r) && b.song == a.song && b.process_track_contexts
            == a.process_track_contexts && (a.song_state.play_p ==> b.song_state == a.song_state && b.play_position
            == a.play_position) && (!a.song_state.play_p ==> b.song_state == (SongState { play_p: true, ..a.song_state })
            && b.play_position.start == a.play_position.start && b.play_position.end == line * 0x100
            && b.play_position_start_last == line * 0x100),
        MainToAudio::Stop => replies_ack(r) && b.song == a.song && b.process_track_contexts == a.process_track_contexts
            && (a.song_state.play_p ==> b.song_state == (SongState { play_p: false, ..a.song_state }) && b.all_notef_off_p)
            && (!a.song_state.play_p ==> b.song_state == a.song_state),
        MainToAudio::Loop => replies_ack(r) && b.song == a.song && b.process_track_contexts == a.process_track_contexts
            && b.song_state == (SongState { loop_p: !a.song_state.loop_p, ..a.song_state }),
        MainToAudio::LoopRange(range) => replies_ack(r) && b.song == a.song && b.process_track_contexts
            == a.process_track_contexts && b.song_state == (SongState {
            loop_start: range.start,
            loop_end: range.end,
            ..a.song_state
        }),
        MainToAudio::LaneAdd(t) => replies_song(r, b.song@) && b.song@ == track_set(
            a.song@,
            t,
            |v: TrackV| TrackV { lanes: v.lanes.push(Map::empty()), ..v },
        ) && b.song_state == a.song_state && b.process_track_contexts == a.process_track_contexts,
        MainToAudio::LaneItem(items) => replies_song(r, b.song@) && b.song@ == song_put_all(a.song@, items@)
            && b.song_state == a.song_state && b.process_track_contexts == a.process_track_contexts,
        MainToAudio::NoteOn(t, key, _, velocity, delay) => replies_ack(r) && b.song == a.song && b.song_state
            == a.song_state && event_added(
            a.process_track_contexts@,
            b.process_track_contexts@,
            t,
            Event::NoteOn(key, velocity, delay),
        ),
        MainToAudio::NoteOff(t, key, _, _, delay) => replies_ack(r) && b.song == a.song && b.song_state
            == a.song_state && event_added(a.process_track_contexts@, b.process_track_contexts@, t, Event::NoteOff(key, delay)),
        MainToAudio::PluginLatency(id, latency) => replies_ack(r) && b.song == a.song && b.song_state == a.song_state
            && latency_set(a.process_track_contexts@, b.process_track_contexts@, id, latency),
        MainToAudio::PluginLoad(t, plugin_id, name) => replies_song(r, b.song@) && b.song@ == with_track(
            a.song@,
            t,
            TrackV {
                modules: a.song@.tracks[t as int].modules.push(loaded_module(a.song@, t, plugin_id, name)),
                ..a.song@.tracks[t as int]
            },
        ) && b.song_state == a.song_state && b.plugin_id_counter == id_step(a.plugin_id_counter)
            && b.process_track_contexts@ == a.process_track_contexts@.update(t as int, b.process_track_contexts@[t as int])
            && same_but_plugins(b.process_track_contexts@[t as int], a.process_track_contexts@[t as int])
            && b.process_track_contexts@[t as int].plugins@ == a.process_track_contexts@[t as int].plugins@.push(
            PluginSlot { id: a.plugin_id_counter, latency: 0 },
        ),
        MainToAudio::PluginDelete(mi) => replies_song(r, b.song@) && b.song@ == with_track(
            a.song@,
            mi.0,
            TrackV { modules: a.song@.tracks[mi.0 as int].modules.remove(mi.1 as int), ..a.song@.tracks[mi.0 as int] },
        ) && b.song_state == a.song_state && b.process_track_contexts@ == a.process_track_contexts@.update(
            mi.0 as int,
            b.process_track_contexts@[mi.0 as int],
        ) && same_but_plugins(b.process_track_contexts@[mi.0 as int], a.process_track_contexts@[mi.0 as int])
            && b.process_track_contexts@[mi.0 as int].plugins@ == a.process_track_contexts@[mi.0 as int].plugins@.remove(
            mi.1 as int,
        ),
        MainToAudio::PluginSidechain(mi, input) => replies_song(r, b.song@) && b.song@ == (if mi.0 < a.song@.tracks.len()
            && mi.1 < a.song@.tracks[mi.0 as int].modules.len() {
            with_track(
                a.song@,
                mi.0,
                TrackV {
                    modules: a.song@.tracks[mi.0 as int].modules.update(
                        mi.1 as int,
                        ModuleV {
                            audio_inputs: a.song@.tracks[mi.0 as int].modules[mi.1 as int].audio_inputs.push(input),
                            ..a.song@.tracks[mi.0 as int].modules[mi.1 as int]
                        },
                    ),
                    ..a.song@.tracks[mi.0 as int]
                },
            )
        } else {
            a.song@
        }) && b.song_state == a.song_state && b.process_track_contexts == a.process_track_contexts,
        MainToAudio::PointNew(c, module_index, param_id) => replies_song(r, b.song@) && b.song@ == song_point_new(
            a.song@,
            c,
            module_index,
            param_id,
        ) && b.song_state == a.song_state && b.process_track_contexts == a.process_track_contexts,
        MainToAudio::Quit => replies_ack(r) && b.song == a.song && b.song_state == a.song_state
            && b.process_track_contexts == a.process_track_contexts,
        MainToAudio::RecToggle => replies_ack(r) && b.song == a.song && b.process_track_contexts == a.process_track_contexts
            && b.song_state == (SongState { rec_p: !a.song_state.rec_p, ..a.song_state }),
        MainToAudio::TrackAdd => replies_song(r, b.song@) && track_appended(a.song@, b.song@) && b.song_state
            == a.song_state && b.process_track_contexts@.drop_last() == a.process_track_contexts@
            && b.process_track_contexts@.len() == a.process_track_contexts@.len() + 1,
        MainToAudio::TrackDelete(t) => replies_song(r, b.song@) && b.song@ == (SongV {
            tracks: remap_tracks(a.song@.tracks.remove(t as int), Remap::Delete(t)),
            ..a.song@
        }) && b.song_state == a.song_state && b.process_track_contexts@ == a.process_track_contexts@.remove(t as int),
        MainToAudio::TrackInsert(t, track) => replies_song(r, b.song@) && b.song@ == (SongV {
            tracks: remap_tracks(a.song@.tracks.insert(t as int, track@), Remap::Insert(t)),
            ..a.song@
        }) && b.song_state == a.song_state && b.process_track_contexts@.len() == a.process_track_contexts@.len() + 1
            && (forall|i: int| 0 <= i < t ==> #[trigger] b.process_track_contexts@[i] == a.process_track_contexts@[i])
            && (forall|i: int|
            t < i <= a.process_track_contexts@.len() ==> #[trigger] b.process_track_contexts@[i]
                == a.process_track_contexts@[i - 1]) && b.process_track_contexts@[t as int].plugins@.len()
            == track@.modules.len() && (forall|k: int|
            0 <= k < track@.modules.len() ==> #[trigger] b.process_track_contexts@[t as int].plugins@[k] == (PluginSlot {
                id: id_steps(a.plugin_id_counter, k as nat),
                latency: 0,
            })) && b.plugin_id_counter == id_steps(a.plugin_id_counter, track@.modules.len()),
        MainToAudio::TrackMove(t, d) => {
            let to = add_signed_saturating(t, d);
            &&& replies_song(r, b.song@)
            &&& b.song_state == a.song_state
            &&& (to == 0 || to >= a.song@.tracks.len()) ==> b.song == a.song && b.process_track_contexts
                == a.process_track_contexts
            &&& !(to == 0 || to >= a.song@.tracks.len()) ==> b.song@ == (SongV {
                tracks: remap_tracks(
                    a.song@.tracks.remove(t as int).insert(to as int, a.song@.tracks[t as int]),
                    Remap::Move(t, to),
                ),
                ..a.song@
            }) && b.process_track_contexts@ == a.process_track_contexts@.remove(t as int).insert(
                to as int,
                a.process_track_contexts@[t as int],
            )
        },
        MainToAudio::TrackMute(t, mute) => replies_song(r, b.song@) && b.song@ == track_set(
            a.song@,
            t,
            |v: TrackV| TrackV { mute, ..v },
        ) && b.song_state == a.song_state && b.process_track_contexts == a.process_track_contexts,
        MainToAudio::TrackSolo(t, solo) => replies_song(r, b.song@) && b.song@ == track_set(
            a.song@,
            t,
            |v: TrackV| TrackV { solo, ..v },
        ) && b.song_state == a.song_state && b.process_track_contexts == a.process_track_contexts,
        MainToAudio::TrackPan(t, pan_bits) => replies_song(r, b.song@) && b.song@ == track_set(
            a.song@,
            t,
            |v: TrackV| TrackV { pan_bits, ..v },
        ) && b.song_state == a.song_state && b.process_track_contexts == a.process_track_contexts,
        MainToAudio::TrackVolume(t, volume_bits) => replies_song(r, b.song@) && b.song@ == track_set(
            a.song@,
            t,
            |v: TrackV| TrackV { volume_bits, ..v },
        ) && b.song_state == a.song_state && b.process_track_contexts == a.process_track_contexts,
        MainToAudio::TrackRename(t, name) => replies_song(r, b.song@) && b.song@ == track_set(
            a.song@,
            t,
            |v: TrackV| TrackV { name, ..v },
        ) && b.song_state == a.song_state && b.process_track_contexts == a.process_track_contexts,
        MainToAudio::TrackRecOn(t) => replies_ack(r) && b.song == a.song && b.process_track_contexts
            == a.process_track_contexts && b.song_state == (SongState { tracks: b.song_state.tracks, ..a.song_state })
            && b.song_state.tracks@ == a.song_state.tracks@.update(
            t as int,
            TrackState { rec_p: true, ..a.song_state.tracks@[t as int] },
        ),
        MainToAudio::TrackRecOff(t) => replies_ack(r) && b.song == a.song && b.process_track_contexts
            == a.process_track_contexts && b.song_state == (SongState { tracks: b.song_state.tracks, ..a.song_state })
            && b.song_state.tracks@ == a.song_state.tracks@.update(
            t as int,
            TrackState { rec_p: false, ..a.song_state.tracks@[t as int] },
        ),
        MainToAudio::Song => replies_song(r, b.song@) && b.song == a.song && b.song_state == a.song_state
            && b.process_track_contexts == a.process_track_contexts,
        MainToAudio::SongFile(song_file) => replies_ack(r) && b.song == a.song && b.process_track_contexts
            == a.process_track_contexts && b.song_state == (SongState { song_file: b.song_state.song_file, ..a.song_state })
            && ({
            let bytes = vstd::utf8::encode_utf8(song_file@);
            let len = if bytes.len() < MAX_PATH_LEN - 1 {
                bytes.len() as int
            } else {
                MAX_PATH_LEN - 1
            };
            b.song_state.song_file@ == bytes.take(len) + seq![0u8] + a.song_state.song_file@.subrange(
                len + 1,
                MAX_PATH_LEN as int,
            )
        }),
        MainToAudio::SongOpen(song_file) => r == AudioStep::SongRead(song_file) && b.song@.tracks.len() == 1
            && b.song@.tracks[0] == crate::model::track::new_track_view(b.song@.tracks[0].name)
            && b.song@.tracks[0].name@ == crate::model::song::new_track_name(0) && b.process_track_contexts@.len() == 1
            && b.process_track_contexts@[0].plugins@.len() == 0 && b.song_state == a.song_state,
        MainToAudio::Undo => true,
        MainToAudio::Redo => true,
    }
}

/// Carries out request `message`, which is neither an undo nor a redo, as
/// [`plain_effect`] says; a cell write is recorded in the history with the request
/// that undoes it.
fn run_plain(singer: &mut Singer, message: MainToAudio, undo_history: &mut UndoHistory) -> (r: AudioStep)
    requires
        singer_wf(*old(singer)),
        history_wf(old(undo_history)@),
        request_ok(*old(singer), message),
        !(message is Undo || message is Redo),
    ensures
        singer_wf(*final(singer)),
        history_wf(final(undo_history)@),
        plain_effect(*old(singer), old(undo_history)@, message, *final(singer), final(undo_history)@, r),
{
    let redo = message.clone();
    proof {
        old(singer).song.lemma_view_len();
    }
    match message {
        MainToAudio::Bpm(bits) => {
            singer.song.bpm_bits = bits;
            assert(singer.song@.tracks == old(singer).song@.tracks);
            proof {
                crate::engine::singer::lemma_wf_keep(*old(singer), *singer);
            }
            AudioStep::Reply(AudioToMain::Song(singer.song.clone()))
        },
        MainToAudio::Play => {
            singer.play();
            AudioStep::Reply(AudioToMain::Ack)
        },
        MainToAudio::PlayLine(line) => {
            singer.play_line(line);
            AudioStep::Reply(AudioToMain::Ack)
        },
        MainToAudio::Stop => {
            singer.stop();
            AudioStep::Reply(AudioToMain::Ack)
        },
        MainToAudio::Loop => {
            singer.song_state.loop_p = !singer.song_state.loop_p;
            AudioStep::Reply(AudioToMain::Ack)
        },
        MainToAudio::LoopRange(range) => {
            singer.song_state.loop_start = range.start;
            singer.song_state.loop_end = range.end;
            AudioStep::Reply(AudioToMain::Ack)
        },
        MainToAudio::Song => AudioStep::Reply(AudioToMain::Song(singer.song.clone())),
        MainToAudio::LaneItem(items) => {
            let ghost its = items@;
            let undo = singer.lane_items_set(items);
            proof {
                crate::engine::lane_edit::lemma_undo_cursors(old(singer).song@, its);
            }
            let ghost h0 = undo_history@;
            undo_history.add(undo, redo);
            proof {
                if !h0.traveling_p {
                    let g = undo_history@;
                    assert(g.undos.drop_last() =~= h0.undos);
                    assert forall|i: int| 0 <= i < g.undos.len() implies lane_request((#[trigger] g.undos[i]).undo)
                        && lane_request(g.undos[i].redo) by {
                        if i < h0.undos.len() {
                            assert(g.undos[i] == h0.undos[i]);
                        } else {
                            let u = undo_items(old(singer).song@, its);
                            assert forall|k: int| 0 <= k < u.len() implies (#[trigger] u[k]).0.lane < usize::MAX by {
                                assert(u[k].0 == its[k].0);
                            }
                        }
                    }
                }
            }
            AudioStep::Reply(AudioToMain::Song(singer.song.clone()))
        },
        MainToAudio::PluginLatency(id, latency) => {
            singer.plugin_latency_set(id, latency);
            AudioStep::Reply(AudioToMain::Ack)
        },
        MainToAudio::PluginLoad(track_index, plugin_id, name) => {
            singer.module_load(track_index, plugin_id, name);
            AudioStep::Reply(AudioToMain::Song(singer.song.clone()))
        },
        MainToAudio::PluginDelete(module_index) => {
            singer.plugin_delete(module_index);
            AudioStep::Reply(AudioToMain::Song(singer.song.clone()))
        },
        MainToAudio::PluginSidechain(module_index, audio_input) => {
            singer.plugin_sidechain(module_index, audio_input);
            AudioStep::Reply(AudioToMain::Song(singer.song.clone()))
        },
        MainToAudio::PointNew(cursor, module_index, param_id) => {
            singer.point_new(cursor, module_index, param_id);
            AudioStep::Reply(AudioToMain::Song(singer.song.clone()))
        },
        MainToAudio::RecToggle => {
            singer.rec_toggle();
            AudioStep::Reply(AudioToMain::Ack)
        },
        MainToAudio::NoteOn(track_index, key, _channel, velocity, delay) => {
            singer.process_track_contexts[track_index].event_list_input.push(Event::NoteOn(key, velocity, delay));
            proof {
                crate::engine::singer::lemma_wf_contexts(*old(singer), *singer);
            }
            AudioStep::Reply(AudioToMain::Ack)
        },
        MainToAudio::NoteOff(track_index, key, _channel, _velocity, delay) => {
            singer.process_track_contexts[track_index].event_list_input.push(Event::NoteOff(key, delay));
            proof {
                crate::engine::singer::lemma_wf_contexts(*old(singer), *singer);
            }
            AudioStep::Reply(AudioToMain::Ack)
        },
        MainToAudio::TrackAdd => {
            singer.track_add();
            AudioStep::Reply(AudioToMain::Song(singer.song.clone()))
        },
        MainToAudio::TrackDelete(track_index) => {
            singer.track_delete(track_index);
            AudioStep::Reply(AudioToMain::Song(singer.song.clone()))
        },
        MainToAudio::TrackInsert(track_index, track) => {
            singer.track_insert(track_index, track);
            AudioStep::Reply(AudioToMain::Song(singer.song.clone()))
        },
        MainToAudio::TrackMove(track_index, delta) => {
            singer.track_move(track_index, delta);
            AudioStep::Reply(AudioToMain::Song(singer.song.clone()))
        },
        MainToAudio::TrackMute(track_index, mute) => {
            if track_index < singer.song.tracks.len() {
                singer.song.tracks[track_index].mute = mute;
                proof {
                    lemma_track_field_set(*old(singer), *singer, track_index);
                }
            }
            AudioStep::Reply(AudioToMain::Song(singer.song.clone()))
        },
        MainToAudio::TrackSolo(track_index, solo) => {
            if track_index < singer.song.tracks.len() {
                singer.song.tracks[track_index].solo = solo;
                proof {
                    lemma_track_field_set(*old(singer), *singer, track_index);
                }
            }
            AudioStep::Reply(AudioToMain::Song(singer.song.clone()))
        },
        MainToAudio::TrackPan(track_index, pan_bits) => {
            if track_index < singer.song.tracks.len() {
                singer.song.tracks[track_index].pan_bits = pan_bits;
                proof {
                    lemma_track_field_set(*old(singer), *singer, track_index);
                }
            }
            AudioStep::Reply(AudioToMain::Song(singer.song.clone()))
        },
        MainToAudio::TrackVolume(track_index, volume_bits) => {
            if track_index < singer.song.tracks.len() {
                singer.song.tracks[track_index].volume_bits = volume_bits;
                proof {
                    lemma_track_field_set(*old(singer), *singer, track_index);
                }
            }
            AudioStep::Reply(AudioToMain::Song(singer.song.clone()))
        },
        MainToAudio::TrackRename(track_index, name) => {
            if track_index < singer.song.tracks.len() {
                singer.song.tracks[track_index].name = name;
                proof {
                    lemma_track_field_set(*old(singer), *singer, track_index);
                }
            }
            AudioStep::Reply(AudioToMain::Song(singer.song.clone()))
        },
        MainToAudio::LaneAdd(track_index) => {
            if track_index < singer.song.tracks.len() {
                singer.song.tracks[track_index].lane_add();
                proof {
                    lemma_track_field_set(*old(singer), *singer, track_index);
                }
            }
            AudioStep::Reply(AudioToMain::Song(singer.song.clone()))
        },
        MainToAudio::TrackRecOn(track_index) => {
            singer.song_state.tracks[track_index].rec_p = true;
            AudioStep::Reply(AudioToMain::Ack)
        },
        MainToAudio::TrackRecOff(track_index) => {
            singer.song_state.tracks[track_index].rec_p = false;
            AudioStep::Reply(AudioToMain::Ack)
        },
        MainToAudio::SongFile(song_file) => {
            singer.song_state.song_file_set(song_file.as_str());
            AudioStep::Reply(AudioToMain::Ack)
        },
        MainToAudio::SongOpen(song_file) => {
            singer.song_close();
            AudioStep::SongRead(song_file)
        },
        MainToAudio::Quit => AudioStep::Reply(AudioToMain::Ack),
        MainToAudio::Undo => AudioStep::Reply(AudioToMain::Ack),
        MainToAudio::Redo => AudioStep::Reply(AudioToMain::Ack),
    }
}

/// A change to one track that keeps its modules and adds no lane less keeps the
/// invariant, and the song's value changes only at that track.
proof fn lemma_track_field_set(a: Singer, b: Singer, t: usize)
    requires
        singer_wf(a),
        t < a.song.tracks@.len(),
        b.song_state == a.song_state,
        b.process_track_contexts == a.process_track_contexts,
        b.song.name == a.song.name,
        b.song.bpm_bits == a.song.bpm_bits,
        b.song.sample_rate_bits == a.song.sample_rate_bits,
        b.song.lpb == a.song.lpb,
        b.song.tracks@ == a.song.tracks@.update(t as int, b.song.tracks@[t as int]),
        b.song.tracks@[t as int]@.modules == a.song.tracks@[t as int]@.modules,
        b.song.tracks@[t as int]@.lanes.len() >= a.song.tracks@[t as int]@.lanes.len(),
    ensures
        singer_wf(b),
        b.song@ == with_track(a.song@, t, b.song.tracks@[t as int]@),
{
    a.song.lemma_view_len();
    b.song.lemma_view_len();
    assert(b.song@.tracks =~= a.song@.tracks.update(t as int, b.song.tracks@[t as int]@));
    assert forall|i: int| 0 <= i < a.song@.tracks.len() implies (#[trigger] b.song@.tracks[i]).modules.len()
        == a.song@.tracks[i].modules.len() && b.song@.tracks[i].lanes.len() >= a.song@.tracks[i].lanes.len() by {
        a.song.lemma_track_view(i);
        b.song.lemma_track_view(i);
    }
    crate::engine::singer::lemma_wf_keep(a, b);
}

/// Carries out request `message`: an undo or a redo replays the cell writes that
/// the history hands out (without recording them again) and answers with the song;
/// any other request is carried out as [`plain_effect`] says.
pub fn run_main_to_audio(singer: &mut Singer, message: MainToAudio, undo_history: &mut UndoHistory) -> (r: AudioStep)
    requires
        singer_wf(*old(singer)),
        history_wf(old(undo_history)@),
        request_ok(*old(singer), message),
    ensures
        singer_wf(*final(singer)),
        history_wf(final(undo_history)@),
        run_effect(*old(singer), old(undo_history)@, message, *final(singer), final(undo_history)@, r),
{
    match message {
        MainToAudio::Undo => {
            let ghost h0 = undo_history@;
            let m = undo_history.undo();
            proof {
                lemma_history_step_wf(h0, undo_history@);
            }
            match m {
                Some(m) => {
                    proof {
                        assert(lane_request(h0.undos[h0.undos.len() - 1].undo));
                    }
                    run_plain(singer, m, undo_history);
                },
                None => {},
            }
            AudioStep::Reply(AudioToMain::Song(singer.song.clone()))
        },
        MainToAudio::Redo => {
            let ghost h0 = undo_history@;
            let m = undo_history.redo();
            proof {
                lemma_history_step_wf(h0, undo_history@);
            }
            match m {
                Some(m) => {
                    proof {
                        assert(lane_request(h0.redos[h0.redos.len() - 1].redo));
                    }
                    run_plain(singer, m, undo_history);
                },
                None => {},
            }
            AudioStep::Reply(AudioToMain::Song(singer.song.clone()))
        },
        other => run_plain(singer, other, undo_history),
    }
}

/// An undo or a redo keeps the history's invariant.
proof fn lemma_history_step_wf(h: UndoHistoryV, g: UndoHistoryV)
    requires
        history_wf(h),
        g == history_undo(h) || g == history_redo(h),
    ensures
        history_wf(g),
{
    if g == history_undo(h) && h.undos.len() > 0 {
        assert forall|i: int| 0 <= i < g.redos.len() implies lane_request((#[trigger] g.redos[i]).undo) && lane_request(
            g.redos[i].redo,
        ) by {
            if i < h.redos.len() {
                assert(g.redos[i] == h.redos[i]);
            } else {
                assert(g.redos[i] == h.undos[h.undos.len() - 1]);
            }
        }
        assert forall|i: int| 0 <= i < g.undos.len() implies lane_request((#[trigger] g.undos[i]).undo) && lane_request(
            g.undos[i].redo,
        ) by {
            assert(g.undos[i] == h.undos[i]);
        }
    }
    if g == history_redo(h) && h.redos.len() > 0 {
        assert forall|i: int| 0 <= i < g.undos.len() implies lane_request((#[trigger] g.undos[i]).undo) && lane_request(
            g.undos[i].redo,
        ) by {
            if i < h.undos.len() {
                assert(g.undos[i] == h.undos[i]);
            } else {
                assert(g.undos[i] == h.redos[h.redos.len() - 1]);
            }
        }
        assert forall|i: int| 0 <= i < g.redos.len() implies lane_request((#[trigger] g.redos[i]).undo) && lane_request(
            g.redos[i].redo,
        ) by {
            assert(g.redos[i] == h.redos[i]);
        }
    }
}

/// What request `m` does, from the state `a` and the history `h` to the state `b`
/// and the history `g`, with the reply `r`: an undo or a redo replays the cell
/// writes that the history hands out and answers with the song; any other request
/// is carried out as [`plain_effect`] says.
pub open spec fn run_effect(a: Singer, h: UndoHistoryV, m: MainToAudio, b: Singer, g: UndoHistoryV, r: AudioStep) -> bool {
    &&& !(m is Undo || m is Redo) ==> plain_effect(a, h, m, b, g, r)
    &&& m is Undo ==> g == history_undo(h) && b.song@ == song_after_writes(a.song@, undo_message(h)) && replies_song(
        r,
        b.song@,
    ) && b.song_state == a.song_state && b.process_track_contexts == a.process_track_contexts
    &&& m is Redo ==> g == history_redo(h) && b.song@ == song_after_writes(a.song@, redo_message(h)) && replies_song(
        r,
        b.song@,
    ) && b.song_state == a.song_state && b.process_track_contexts == a.process_track_contexts
}

/// The history as it stands when a new request comes in: no longer traveling.
pub open spec fn history_arrived(h: UndoHistoryV) -> UndoHistoryV {
    UndoHistoryV { traveling_p: false, ..h }
}

/// The state after the reply `r` is sent: a reply with the song marks the song as
/// saved from the editor's point of view (not dirty).
pub open spec fn dirty_cleared(s: Singer, r: AudioStep) -> Singer {
    if r matches AudioStep::Reply(AudioToMain::Song(_)) {
        Singer { song_state: SongState { song_dirty_p: false, ..s.song_state }, ..s }
    } else {
        s
    }
}

/// Handles one request from the editor: the history stops traveling, the request
/// is carried out as [`run_effect`] says, and a reply with the song clears the
/// song's dirty mark.
pub fn singer_step(singer: &mut Singer, message: MainToAudio, undo_history: &mut UndoHistory) -> (r: AudioStep)
    requires
        singer_wf(*old(singer)),
        history_wf(old(undo_history)@),
        request_ok(*old(singer), message),
    ensures
        singer_wf(*final(singer)),
        history_wf(final(undo_history)@),
        exists|mid: Singer|
            run_effect(*old(singer), history_arrived(old(undo_history)@), message, mid, final(undo_history)@, r)
                && *final(singer) == dirty_cleared(mid, r),
{
    undo_history.traveling_p = false;
    let r = run_main_to_audio(singer, message, undo_history);
    let ghost mid = *singer;
    match &r {
        AudioStep::Reply(AudioToMain::Song(_)) => {
            singer.song_state.song_dirty_p = false;
        },
        _ => {},
    }
    assert(*singer == dirty_cleared(mid, r));
    r
}

/// Finishes opening a song once its file `song_file` has been read into `song`:
/// the engine takes it as [`Singer::song_open`] says, the song is no longer dirty,
/// and the reply is the song.
pub fn song_opened(singer: &mut Singer, song_file: String, song: Song) -> (r: AudioToMain)
    requires
        singer_wf(*old(singer)),
        forall|i: int| 0 <= i < old(singer).process_track_contexts@.len() ==> (#[trigger] old(singer).process_track_contexts@[i]).plugins@.len() == 0,
        forall|i: int| 0 <= i < song@.tracks.len() ==> (#[trigger] song@.tracks[i]).lanes.len() > 0,
        old(singer).process_track_contexts@.len() + song@.tracks.len() <= usize::MAX,
    ensures
        singer_wf(*final(singer)),
        final(singer).song@ == song@,
        !final(singer).song_state.song_dirty_p,
        r matches AudioToMain::Song(x) && x@ == song@,
        final(singer).process_track_contexts@.len() == old(singer).process_track_contexts@.len() + song@.tracks.len(),
{
    singer.song_open(song_file, song);
    singer.song_state.song_dirty_p = false;
    AudioToMain::Song(singer.song.clone())
}

/// Cell writes keep the number of tracks.
proof fn lemma_put_all_tracks_len(s: SongV, items: Seq<(CursorTrack, Option<LaneItem>)>)
    ensures
        song_put_all(s, items).tracks.len() == s.tracks.len(),
    decreases items.len(),
{
    if items.len() > 0 {
        lemma_put_all_tracks_len(s, items.drop_last());
    }
}

/// Every request but opening a song keeps one context per track: when the engine
/// has as many contexts as tracks before a request, it has so after it.
pub proof fn lemma_contexts_follow_tracks(a: Singer, h: UndoHistoryV, m: MainToAudio, b: Singer, g: UndoHistoryV, r: AudioStep)
    requires
        singer_wf(a),
        a.process_track_contexts@.len() == a.song@.tracks.len(),
        request_ok(a, m),
        !(m is SongOpen),
        run_effect(a, h, m, b, g, r),
    ensures
        b.process_track_contexts@.len() == b.song@.tracks.len(),
{
    a.song.lemma_view_len();
    b.song.lemma_view_len();
    match undo_message(h) {
        Some(MainToAudio::LaneItem(items)) => lemma_put_all_tracks_len(a.song@, items@),
        _ => {},
    }
    match redo_message(h) {
        Some(MainToAudio::LaneItem(items)) => lemma_put_all_tracks_len(a.song@, items@),
        _ => {},
    }
    match m {
        MainToAudio::LaneItem(items) => lemma_put_all_tracks_len(a.song@, items@),
        _ => {},
    }
}

/// Writing distinct existing cells and then undoing gives back the song: after a
/// cell-write request is carried out, the writes that the next undo replays lead
/// back to the song before the request.
pub proof fn lemma_undo_restores(a: Singer, h: UndoHistoryV, m: MainToAudio, b: Singer, g: UndoHistoryV, r: AudioStep)
    requires
        m matches MainToAudio::LaneItem(items) && distinct_cells(a.song@, items@),
        !h.traveling_p,
        plain_effect(a, h, m, b, g, r),
    ensures
        song_after_writes(b.song@, undo_message(history_arrived(g))) == a.song@,
{
    if let MainToAudio::LaneItem(items) = m {
        lemma_lane_items_undo(a.song@, items@);
    }
}

/// Writing distinct cells of existing tracks, lanes that do not exist yet
/// included, and then undoing gives back the song but for the lanes the writes
/// added, which stay, empty: after a cell-write request is carried out, the writes
/// that the next undo replays lead to the song before the request with those
/// lanes added.
pub proof fn lemma_undo_restores_adding_lanes(
    a: Singer,
    h: UndoHistoryV,
    m: MainToAudio,
    b: Singer,
    g: UndoHistoryV,
    r: AudioStep,
)
    requires
        m matches MainToAudio::LaneItem(items) && (forall|i: int|
            0 <= i < items@.len() ==> (#[trigger] items@[i]).0.track < a.song@.tracks.len()) && (forall|i: int, j: int|
            0 <= i < j < items@.len() ==> #[trigger] items@[i].0 != #[trigger] items@[j].0),
        !h.traveling_p,
        plain_effect(a, h, m, b, g, r),
    ensures
        m matches MainToAudio::LaneItem(items) && song_after_writes(b.song@, undo_message(history_arrived(g))) == pad_all(
            a.song@,
            items@,
        ),
{
    if let MainToAudio::LaneItem(items) = m {
        lemma_lane_items_undo_adding_lanes(a.song@, items@);
    }
}

/// Undoing and then redoing a cell-write request gives back the song it made.
pub proof fn lemma_redo_restores(a: Singer, h: UndoHistoryV, m: MainToAudio, b: Singer, g: UndoHistoryV, r: AudioStep)
    requires
        m matches MainToAudio::LaneItem(items) && distinct_cells(a.song@, items@),
        !h.traveling_p,
        plain_effect(a, h, m, b, g, r),
    ensures
        song_after_writes(
            song_after_writes(b.song@, undo_message(history_arrived(g))),
            redo_message(history_arrived(history_undo(history_arrived(g)))),
        ) == b.song@,
{
    if let MainToAudio::LaneItem(items) = m {
        lemma_lane_items_undo(a.song@, items@);
        let g2 = history_undo(history_arrived(g));
        assert(g2.redos.last() == g.undos.last());
    }
}

/// Every audio input of the track's modules comes from a track before the last
/// possible index.
pub open spec fn inputs_below_max(t: TrackV) -> bool {
    forall|j: int, i: int|
        0 <= j < t.modules.len() && 0 <= i < t.modules[j].audio_inputs.len() ==> #[trigger] t.modules[j].audio_inputs[i].src_module_index.0
            < usize::MAX
}

proof fn lemma_fits_below_max(t: TrackV, r: Remap)
    requires
        !(r is Delete),
    ensures
        crate::model::track::remap_fits(t, r) == inputs_below_max(t),
{
    if inputs_below_max(t) {
        assert forall|j: int| 0 <= j < t.modules.len() implies crate::model::track::inputs_fit(
            #[trigger] t.modules[j].audio_inputs,
            r,
        ) by {
            assert forall|i: int| 0 <= i < t.modules[j].audio_inputs.len() implies #[trigger] t.modules[j].audio_inputs[i].src_module_index.0
                < usize::MAX by {
                assert(t.modules[j].audio_inputs[i].src_module_index.0 < usize::MAX);
            }
        }
    }
    if crate::model::track::remap_fits(t, r) {
        assert forall|j: int, i: int|
            0 <= j < t.modules.len() && 0 <= i < t.modules[j].audio_inputs.len() implies #[trigger] t.modules[j].audio_inputs[i].src_module_index.0
            < usize::MAX by {
            assert(crate::model::track::inputs_fit(t.modules[j].audio_inputs, r));
        }
    }
}

/// Whether every audio input of the track's modules comes from a track before the
/// last possible index.
fn track_inputs_below_max(track: &Track) -> (r: bool)
    ensures
        r == inputs_below_max(track@),
{
    let n = track.modules.len();
    for j in 0..n
        invariant
            n == track.modules@.len(),
            forall|j2: int, i: int|
                0 <= j2 < j && 0 <= i < track@.modules[j2].audio_inputs.len() ==> #[trigger] track@.modules[j2].audio_inputs[i].src_module_index.0
                    < usize::MAX,
    {
        let k = track.modules[j].audio_inputs.len();
        for i in 0..k
            invariant
                n == track.modules@.len(),
                0 <= j < n,
                k == track@.modules[j as int].audio_inputs.len(),
                forall|j2: int, i2: int|
                    0 <= j2 < j && 0 <= i2 < track@.modules[j2].audio_inputs.len() ==> #[trigger] track@.modules[j2].audio_inputs[i2].src_module_index.0
                        < usize::MAX,
                forall|i2: int| 0 <= i2 < i ==> #[trigger] track@.modules[j as int].audio_inputs[i2].src_module_index.0 < usize::MAX,
        {
            if track.modules[j].audio_inputs[i].src_module_index.0 == usize::MAX {
                assert(track@.modules[j as int].audio_inputs[i as int].src_module_index.0 == usize::MAX);
                return false;
            }
        }
    }
    true
}

/// Whether every track of the song, and `extra` if given, has all its audio inputs
/// from tracks before the last possible index.
fn song_inputs_below_max(song: &Song, extra: Option<&Track>) -> (r: bool)
    ensures
        r == ((forall|i: int| 0 <= i < song@.tracks.len() ==> inputs_below_max(#[trigger] song@.tracks[i])) && match extra {
            Some(t) => inputs_below_max(t@),
            None => true,
        }),
{
    proof {
        song.lemma_view_len();
    }
    let n = song.tracks.len();
    for i in 0..n
        invariant
            n == song@.tracks.len(),
            forall|i2: int| 0 <= i2 < i ==> inputs_below_max(#[trigger] song@.tracks[i2]),
    {
        proof {
            song.lemma_track_view(i as int);
        }
        if !track_inputs_below_max(&song.tracks[i]) {
            return false;
        }
    }
    match extra {
        Some(t) => track_inputs_below_max(t),
        None => true,
    }
}

/// Whether the engine can carry out `message`, as [`request_ok`] says.
pub fn request_admissible(singer: &Singer, message: &MainToAudio) -> (r: bool)
    ensures
        r == request_ok(*singer, *message),
{
    proof {
        singer.song.lemma_view_len();
    }
    match message {
        MainToAudio::PlayLine(line) => {
            let ok = *line <= usize::MAX / 0x100;
            assert(ok == (*line * 0x100 <= usize::MAX)) by (nonlinear_arith)
                requires
                    ok == (*line <= usize::MAX / 0x100),
            ;
            ok
        },
        MainToAudio::LaneItem(items) => {
            let n = items.len();
            for i in 0..n
                invariant
                    n == items@.len(),
                    *message == MainToAudio::LaneItem(*items),
                    forall|k: int| 0 <= k < i ==> (#[trigger] items@[k]).0.lane < usize::MAX,
            {
                if items[i].0.lane == usize::MAX {
                    assert(items@[i as int].0.lane == usize::MAX);
                    assert(!(forall|k: int| 0 <= k < items@.len() ==> (#[trigger] items@[k]).0.lane < usize::MAX));
                    let ghost mm = MainToAudio::LaneItem(*items);
                    assert(mm->LaneItem_0 == *items);
                    assert(mm->LaneItem_0@[i as int].0.lane == usize::MAX);
                    assert(!lane_request(mm));
                    return false;
                }
            }
            true
        },
        MainToAudio::NoteOn(t, _, _, _, _) => *t < singer.process_track_contexts.len(),
        MainToAudio::NoteOff(t, _, _, _, _) => *t < singer.process_track_contexts.len(),
        MainToAudio::PluginLoad(t, _, _) => *t < singer.song.tracks.len(),
        MainToAudio::PluginDelete(mi) => mi.0 < singer.song.tracks.len() && mi.1 < singer.song.tracks[mi.0].modules.len(),
        MainToAudio::PointNew(c, _, _) => c.track < singer.song.tracks.len() && c.lane < usize::MAX,
        MainToAudio::TrackDelete(t) => *t < singer.song.tracks.len(),
        MainToAudio::TrackInsert(t, track) => {
            if *t > singer.song.tracks.len() || track.lanes.len() == 0 {
                return false;
            }
            let ok = song_inputs_below_max(&singer.song, Some(track));
            proof {
                let ins = singer.song@.tracks.insert(*t as int, track@);
                assert forall|i: int| 0 <= i < ins.len() implies crate::model::track::remap_fits(
                    #[trigger] ins[i],
                    Remap::Insert(*t),
                ) == inputs_below_max(ins[i]) by {
                    lemma_fits_below_max(ins[i], Remap::Insert(*t));
                }
                if ok {
                    assert forall|i: int| 0 <= i < ins.len() implies crate::model::track::remap_fits(
                        #[trigger] ins[i],
                        Remap::Insert(*t),
                    ) by {
                        if i < *t {
                            assert(ins[i] == singer.song@.tracks[i]);
                        } else if i > *t {
                            assert(ins[i] == singer.song@.tracks[i - 1]);
                        }
                        assert(inputs_below_max(ins[i]));
                    }
                } else {
                    if !inputs_below_max(track@) {
                        assert(ins[*t as int] == track@);
                        assert(!crate::model::track::remap_fits(ins[*t as int], Remap::Insert(*t)));
                    } else {
                        let i = choose|i: int| 0 <= i < singer.song@.tracks.len() && !inputs_below_max(#[trigger] singer.song@.tracks[i]);
                        let j = if i < *t { i } else { i + 1 };
                        assert(ins[j] == singer.song@.tracks[i]);
                        assert(!crate::model::track::remap_fits(ins[j], Remap::Insert(*t)));
                    }
                }
            }
            ok
        },
        MainToAudio::TrackMove(t, d) => {
            let to = saturating_add_signed(*t, *d);
            if to == 0 || to >= singer.song.tracks.len() {
                return true;
            }
            if *t >= singer.song.tracks.len() {
                return false;
            }
            let ok = song_inputs_below_max(&singer.song, None);
            proof {
                let ts = singer.song@.tracks;
                assert forall|i: int| 0 <= i < ts.len() implies crate::model::track::remap_fits(
                    #[trigger] ts[i],
                    Remap::Move(*t, to),
                ) == inputs_below_max(ts[i]) by {
                    lemma_fits_below_max(ts[i], Remap::Move(*t, to));
                }
            }
            ok
        },
        MainToAudio::TrackRecOn(t) => *t < MAX_TRACKS,
        MainToAudio::TrackRecOff(t) => *t < MAX_TRACKS,
        _ => true,
    }
}

} // verus!
