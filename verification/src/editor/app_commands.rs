//! The editor's answers to the user's requests, one request at a time, and to the
//! answers of the audio engine and the plugin host.
use crate::cursor::{cursor_valid, lanes_nonempty, spec_down, spec_left, spec_right, spec_up, CursorTrack};
use crate::editor::app_state::{
    app_wf, lane_items_copy_or_cut_effect, lane_items_copy_or_cut_ok, lane_items_dup_effect, lane_items_dup_ok,
    lane_items_move_effect, lane_items_move_ok, lane_items_update_effect, lane_items_update_ok, select_mode_effect,
    writes_sent, AppState, PluginReply, UiEffect,
};
use crate::editor::ui_command::{
    CursorModule, FocusedPart, LaneCommand, MixerCommand, ModuleCommand, Route, TrackCommand, UiCommand,
};
use crate::engine::message::{AudioToMain, MainToAudio};
use crate::model::lane_item::LaneItem;
use crate::model::song::{spec_lane_item, SongV};
use crate::model::track::Track;
use crate::protocol::{MainToPlugin, PluginToMain};
use vstd::prelude::*;

verus! {

/// Every module of tracks `0..n` as `(track, module)`, in track order.
pub open spec fn module_pairs(s: SongV, n: int) -> Seq<(usize, usize)>
    decreases n,
{
    if n <= 0 {
        seq![]
    } else {
        module_pairs(s, n - 1) + Seq::new(s.tracks[n - 1].modules.len(), |m: int| ((n - 1) as usize, m as usize))
    }
}

/// The state saves that a song save asks for: one per module, in track order; the
/// answer to the last module of the last track writes the song file.
pub open spec fn song_save_effect(a: AppState, b: AppState) -> bool {
    let pairs = module_pairs(a.song@, a.song@.tracks.len() as int);
    let n = a.song@.tracks.len();
    let last_has_modules = n > 0 && a.song@.tracks[n - 1].modules.len() > 0;
    &&& b.to_plugin@ == a.to_plugin@ + Seq::new(pairs.len(), |i: int| MainToPlugin::StateSave(pairs[i].0, pairs[i].1))
    &&& b.callbacks_plugin_to_main@ == a.callbacks_plugin_to_main@ + Seq::new(
        pairs.len(),
        |i: int|
            if last_has_modules && i == pairs.len() - 1 {
                PluginReply::SongSaveFile
            } else {
                PluginReply::Ignore
            },
    )
    &&& b.effects@ == (if last_has_modules {
        a.effects@
    } else {
        a.effects@.push(UiEffect::SongSaveFile)
    })
    &&& b == (AppState {
        to_plugin: b.to_plugin,
        callbacks_plugin_to_main: b.callbacks_plugin_to_main,
        effects: b.effects,
        ..a
    })
}

/// The state saves that a track copy asks for: one per module of the current
/// track; the answer to the last one copies the track. A track without modules is
/// copied at once.
pub open spec fn track_copy_effect(a: AppState, b: AppState) -> bool {
    let t = a.cursor_track.track;
    let n = a.song@.tracks[t as int].modules.len();
    &&& n == 0 ==> b == (AppState { effects: b.effects, ..a }) && b.effects@ == a.effects@.push(UiEffect::ClipboardTrack(t))
    &&& n > 0 ==> b == (AppState { to_plugin: b.to_plugin, callbacks_plugin_to_main: b.callbacks_plugin_to_main, ..a })
        && b.to_plugin@ == a.to_plugin@ + Seq::new(n, |m: int| MainToPlugin::StateSave(t, m as usize))
        && b.callbacks_plugin_to_main@ == a.callbacks_plugin_to_main@ + Seq::new(
        n,
        |m: int|
            if m == n - 1 {
                PluginReply::TrackCopy
            } else {
                PluginReply::Ignore
            },
    )
}

impl AppState {
    /// Asks the plugin host for the state of every module, in track order, and
    /// writes the song file once the last module of the last track has answered
    /// (at once, when the last track has no module).
    pub fn song_save(&mut self)
        ensures
            song_save_effect(*old(self), *final(self)),
    {
        let ghost s = self.song@;
        proof {
            self.song.lemma_view_len();
        }
        let ntracks = self.song.tracks.len();
        let mut callback_p = false;
        for t in 0..ntracks
            invariant
                s == self.song@,
                ntracks == s.tracks.len(),
                ({
                    let pairs = module_pairs(s, t as int);
                    &&& self.to_plugin@ == old(self).to_plugin@ + Seq::new(
                        pairs.len(),
                        |i: int| MainToPlugin::StateSave(pairs[i].0, pairs[i].1),
                    )
                    &&& self.callbacks_plugin_to_main@ == old(self).callbacks_plugin_to_main@ + Seq::new(
                        pairs.len(),
                        |i: int|
                            if callback_p && i == pairs.len() - 1 {
                                PluginReply::SongSaveFile
                            } else {
                                PluginReply::Ignore
                            },
                    )
                }),
                callback_p ==> t == ntracks && ntracks > 0 && s.tracks[ntracks - 1].modules.len() > 0,
                (t == ntracks && ntracks > 0 && s.tracks[ntracks - 1].modules.len() > 0) ==> callback_p,
                *self == (AppState {
                    to_plugin: self.to_plugin,
                    callbacks_plugin_to_main: self.callbacks_plugin_to_main,
                    ..*old(self)
                }),
        {
            proof {
                self.song.lemma_track_view(t as int);
            }
            let nmodules = self.song.tracks[t].modules.len();
            let ghost before = module_pairs(s, t as int);
            let ghost p0 = self.to_plugin@;
            let ghost c0 = self.callbacks_plugin_to_main@;
            assert(!callback_p);
            assert(c0 =~= old(self).callbacks_plugin_to_main@ + Seq::new(before.len(), |i: int| PluginReply::Ignore));
            for m in 0..nmodules
                invariant
                    s == self.song@,
                    t < ntracks,
                    ntracks == s.tracks.len(),
                    nmodules == s.tracks[t as int].modules.len(),
                    self.to_plugin@ == p0 + Seq::new(m as nat, |j: int| MainToPlugin::StateSave(t, j as usize)),
                    self.callbacks_plugin_to_main@ == c0 + Seq::new(
                        m as nat,
                        |j: int|
                            if callback_p && j == m - 1 {
                                PluginReply::SongSaveFile
                            } else {
                                PluginReply::Ignore
                            },
                    ),
                    callback_p ==> t + 1 == ntracks && m == nmodules && nmodules > 0,
                    (t + 1 == ntracks && m == nmodules && nmodules > 0) ==> callback_p,
                    *self == (AppState {
                        to_plugin: self.to_plugin,
                        callbacks_plugin_to_main: self.callbacks_plugin_to_main,
                        ..*old(self)
                    }),
            {
                let last = t + 1 == ntracks && m + 1 == nmodules;
                let callback = if last {
                    PluginReply::SongSaveFile
                } else {
                    PluginReply::Ignore
                };
                if last {
                    callback_p = true;
                }
                self.send_to_plugin(MainToPlugin::StateSave(t, m), callback);
                assert(self.to_plugin@ =~= p0 + Seq::new((m + 1) as nat, |j: int| MainToPlugin::StateSave(t, j as usize)));
                assert(self.callbacks_plugin_to_main@ =~= c0 + Seq::new(
                    (m + 1) as nat,
                    |j: int|
                        if callback_p && j == m {
                            PluginReply::SongSaveFile
                        } else {
                            PluginReply::Ignore
                        },
                ));
            }
            proof {
                let pairs = module_pairs(s, t + 1);
                assert(pairs =~= before + Seq::new(nmodules as nat, |j: int| (t, j as usize)));
                assert(self.to_plugin@ =~= old(self).to_plugin@ + Seq::new(
                    pairs.len(),
                    |i: int| MainToPlugin::StateSave(pairs[i].0, pairs[i].1),
                ));
                assert(self.callbacks_plugin_to_main@ =~= old(self).callbacks_plugin_to_main@ + Seq::new(
                    pairs.len(),
                    |i: int|
                        if callback_p && i == pairs.len() - 1 {
                            PluginReply::SongSaveFile
                        } else {
                            PluginReply::Ignore
                        },
                ));
            }
        }
        if !callback_p {
            self.effect(UiEffect::SongSaveFile);
        }
        proof {
            let last_has_modules = ntracks > 0 && s.tracks[ntracks - 1].modules.len() > 0;
            if last_has_modules {
                self.song.lemma_track_view(ntracks - 1);
            }
        }
    }
}

/// The cursor on the first lane of the next track, wrapping.
pub open spec fn next_track_cursor(a: AppState) -> CursorTrack {
    CursorTrack {
        track: if a.cursor_track.track == a.song@.tracks.len() - 1 {
            0
        } else {
            (a.cursor_track.track + 1) as usize
        },
        lane: 0,
        ..a.cursor_track
    }
}

/// The cursor on the first lane of the previous track, wrapping.
pub open spec fn prev_track_cursor(a: AppState) -> CursorTrack {
    CursorTrack {
        track: if a.cursor_track.track == 0 {
            (a.song@.tracks.len() - 1) as usize
        } else {
            (a.cursor_track.track - 1) as usize
        },
        lane: 0,
        ..a.cursor_track
    }
}

/// `b` is `a` with request `m` queued for the audio engine.
pub open spec fn sent(a: AppState, b: AppState, m: MainToAudio) -> bool {
    b == (AppState { to_singer: b.to_singer, ..a }) && b.to_singer@ == a.to_singer@.push(m)
}

/// `b` is `a` with `e` left to the surroundings.
pub open spec fn effected(a: AppState, b: AppState, e: UiEffect) -> bool {
    b == (AppState { effects: b.effects, ..a }) && b.effects@ == a.effects@.push(e)
}

/// What choosing the parameter of the automation point under the cursor does: the
/// plugin host is asked for the parameters of the point's module; nothing when
/// there is no point or it names no automated parameter.
pub open spec fn automation_param_select_effect(a: AppState, b: AppState) -> bool {
    match spec_lane_item(a.song@, a.cursor_track) {
        Some(LaneItem::Point(p)) => {
            let ap = a.song@.tracks[a.cursor_track.track as int].automation_params;
            if p.automation_params_index < ap.len() {
                b == (AppState { to_plugin: b.to_plugin, callbacks_plugin_to_main: b.callbacks_plugin_to_main, ..a })
                    && b.to_plugin@ == a.to_plugin@.push(
                    MainToPlugin::Params(a.cursor_track.track, ap[p.automation_params_index as int].0),
                ) && b.callbacks_plugin_to_main@ == a.callbacks_plugin_to_main@.push(PluginReply::ParamSelect)
            } else {
                b == a
            }
        },
        _ => b == a,
    }
}

/// The number of modules of track `t`.
pub open spec fn modules_len(a: AppState, t: usize) -> nat {
    a.song@.tracks[t as int].modules.len()
}

/// The module cursor steps around the modules of its track and the slot after
/// them: down goes to `(i + 1) % (n + 1)` and up to `(i + n) % (n + 1)` for `n`
/// modules, so it stays within `0..=n`, and up after down comes back.
pub proof fn lemma_module_cursor_steps(a: AppState, b: AppState, c: AppState)
    requires
        a.cursor_track.track < a.song@.tracks.len(),
        a.cursor_module.index <= modules_len(a, a.cursor_track.track),
        modules_len(a, a.cursor_track.track) < usize::MAX,
        module_command_effect(a, b, ModuleCommand::CursorDown),
        module_command_effect(b, c, ModuleCommand::CursorUp),
    ensures
        ({
            let n = modules_len(a, a.cursor_track.track) as int;
            let i = a.cursor_module.index as int;
            &&& b.cursor_module.index == (i + 1) % (n + 1)
            &&& b.cursor_module.index <= n
            &&& c.cursor_module.index == (b.cursor_module.index + n) % (n + 1)
            &&& c == a
        }),
{
    let n = modules_len(a, a.cursor_track.track) as int;
    let i = a.cursor_module.index as int;
    assert(modules_len(b, b.cursor_track.track) == n);
    if i == n {
        assert((n + 1) % (n + 1) == 0) by (nonlinear_arith)
            requires
                n >= 0,
        ;
        assert((0 + n) % (n + 1) == n) by (nonlinear_arith)
            requires
                n >= 0,
        ;
    } else {
        assert((i + 1) % (n + 1) == i + 1) by (nonlinear_arith)
            requires
                0 <= i < n,
        ;
        assert((i + 1 + n) % (n + 1) == i) by (nonlinear_arith)
            requires
                0 <= i < n,
        ;
    }
}

/// What a module cursor move does.
pub open spec fn module_command_effect(a: AppState, b: AppState, c: ModuleCommand) -> bool {
    let i = a.cursor_module.index;
    match c {
        ModuleCommand::CursorUp => b == (AppState {
            cursor_module: CursorModule {
                index: if i == 0 {
                    modules_len(a, a.cursor_track.track) as usize
                } else {
                    (i - 1) as usize
                },
            },
            ..a
        }),
        ModuleCommand::CursorDown => b == (AppState {
            cursor_module: CursorModule {
                index: if i == modules_len(a, a.cursor_track.track) {
                    0
                } else {
                    (i + 1) as usize
                },
            },
            ..a
        }),
        ModuleCommand::CursorLeft => {
            let c2 = prev_track_cursor(a);
            let n = modules_len(a, c2.track);
            b == (AppState {
                cursor_track: c2,
                cursor_module: CursorModule { index: if i > n { n as usize } else { i } },
                ..a
            })
        },
        ModuleCommand::CursorRight => {
            let c2 = next_track_cursor(a);
            let n = modules_len(a, c2.track);
            b == (AppState {
                cursor_track: c2,
                cursor_module: CursorModule { index: if i > n { n as usize } else { i } },
                ..a
            })
        },
    }
}

/// What a track request does.
pub open spec fn track_command_effect(a: AppState, b: AppState, c: TrackCommand) -> bool {
    match c {
        TrackCommand::Copy => track_copy_effect(a, b),
        TrackCommand::CursorLeft => b == (AppState { cursor_track: prev_track_cursor(a), ..a }),
        TrackCommand::CursorRight => b == (AppState { cursor_track: next_track_cursor(a), ..a }),
        TrackCommand::Cut => track_copy_effect(a, AppState { to_singer: a.to_singer, ..b }) && b.to_singer@
            == a.to_singer@.push(MainToAudio::TrackDelete(a.cursor_track.track)),
        TrackCommand::Delete => sent(a, b, MainToAudio::TrackDelete(a.cursor_track.track)),
        TrackCommand::Paste => effected(a, b, UiEffect::PasteTrack),
        _ => b == a,
    }
}

/// What a lane request does.
pub open spec fn lane_command_effect(a: AppState, b: AppState, c: LaneCommand) -> bool {
    match c {
        LaneCommand::AutomationParamSelect => automation_param_select_effect(a, b),
        LaneCommand::Copy => lane_items_copy_or_cut_effect(a, b, true),
        LaneCommand::Cut => lane_items_copy_or_cut_effect(a, b, false),
        LaneCommand::CursorDown => b == (AppState { cursor_track: spec_down(a.cursor_track), ..a }),
        LaneCommand::CursorLeft => b == (AppState { cursor_track: spec_left(a.cursor_track, a.song@), ..a }),
        LaneCommand::CursorRight => b == (AppState { cursor_track: spec_right(a.cursor_track, a.song@), ..a }),
        LaneCommand::CursorUp => b == (AppState { cursor_track: spec_up(a.cursor_track), ..a }),
        LaneCommand::Dup => lane_items_dup_effect(a, b),
        LaneCommand::LaneItemDelete => writes_sent(a.to_singer@, b.to_singer@, seq![(a.cursor_track, None)]) && b == (AppState {
            to_singer: b.to_singer,
            ..a
        }),
        LaneCommand::LaneItemMove(ld, lnd) => lane_items_move_effect(a, b, ld, lnd),
        LaneCommand::LaneItemUpdate(kd, vd, dd, off, md) => lane_items_update_effect(a, b, kd, vd, dd, off, md),
        LaneCommand::Paste => effected(a, b, UiEffect::PasteLaneItems),
        LaneCommand::SelectMode => select_mode_effect(a, b),
        LaneCommand::SelectClear => b == (AppState {
            select_p: false,
            selection_track_min: None,
            selection_track_max: None,
            ..a
        }),
    }
}

/// What the user's request `c` does, from the editor state `a` to `b`.
pub open spec fn ui_effect(a: AppState, b: AppState, c: UiCommand) -> bool {
    match c {
        UiCommand::Command => b == (AppState { route: Route::Command, ..a }),
        UiCommand::FocusedPartNext => b == (AppState {
            focused_part: match a.focused_part {
                FocusedPart::Track => FocusedPart::Lane,
                FocusedPart::Lane => FocusedPart::Mixer,
                FocusedPart::Mixer => FocusedPart::Module,
                FocusedPart::Module => FocusedPart::Track,
            },
            ..a
        }),
        UiCommand::FocusedPartPrev => b == (AppState {
            focused_part: match a.focused_part {
                FocusedPart::Track => FocusedPart::Module,
                FocusedPart::Lane => FocusedPart::Track,
                FocusedPart::Mixer => FocusedPart::Lane,
                FocusedPart::Module => FocusedPart::Mixer,
            },
            ..a
        }),
        UiCommand::Follow => b == (AppState { follow_p: !a.follow_p, ..a }),
        UiCommand::Lane(lc) => lane_command_effect(a, b, lc),
        UiCommand::LaneAdd => sent(a, b, MainToAudio::LaneAdd(a.cursor_track.track)),
        UiCommand::Loop => sent(a, b, MainToAudio::Loop),
        UiCommand::Mixer(mc) => match mc {
            MixerCommand::CursorLeft => b == (AppState { cursor_track: prev_track_cursor(a), ..a }),
            MixerCommand::CursorRight => b == (AppState { cursor_track: next_track_cursor(a), ..a }),
            MixerCommand::Pan(d) => if a.cursor_track.track < a.song@.tracks.len() {
                effected(a, b, UiEffect::MixerPan(a.cursor_track.track, d))
            } else {
                b == a
            },
            MixerCommand::Volume(d) => if a.cursor_track.track < a.song@.tracks.len() {
                effected(a, b, UiEffect::MixerVolume(a.cursor_track.track, d))
            } else {
                b == a
            },
        },
        UiCommand::Module(mc) => module_command_effect(a, b, mc),
        UiCommand::PlayToggle => sent(a, b, if a.playing_p { MainToAudio::Stop } else { MainToAudio::Play }),
        UiCommand::SongSave => song_save_effect(a, b),
        UiCommand::Track(tc) => track_command_effect(a, b, tc),
        UiCommand::TrackAdd => sent(a, b, MainToAudio::TrackAdd),
        UiCommand::TrackMute(t, m) => {
            let t2 = match t {
                Some(x) => x,
                None => a.cursor_track.track,
            };
            sent(
                a,
                b,
                MainToAudio::TrackMute(
                    t2,
                    match m {
                        Some(x) => x,
                        None => !a.song@.tracks[t2 as int].mute,
                    },
                ),
            )
        },
        UiCommand::TrackPan(t, bits) => sent(a, b, MainToAudio::TrackPan(t, bits)),
        UiCommand::TrackSolo(t, m) => {
            let t2 = match t {
                Some(x) => x,
                None => a.cursor_track.track,
            };
            sent(
                a,
                b,
                MainToAudio::TrackSolo(
                    t2,
                    match m {
                        Some(x) => x,
                        None => !a.song@.tracks[t2 as int].solo,
                    },
                ),
            )
        },
        UiCommand::TrackVolume(t, bits) => sent(a, b, MainToAudio::TrackVolume(t, bits)),
    }
}

/// What a track request needs: the current track exists for a copy or a cut; there
/// is a track to move to for a cursor move, and the next index fits.
pub open spec fn track_command_ok(a: AppState, c: TrackCommand) -> bool {
    match c {
        TrackCommand::Copy => a.cursor_track.track < a.song@.tracks.len(),
        TrackCommand::Cut => a.cursor_track.track < a.song@.tracks.len(),
        TrackCommand::CursorLeft => a.song@.tracks.len() > 0,
        TrackCommand::CursorRight => a.song@.tracks.len() > 0 && a.cursor_track.track < usize::MAX,
        _ => true,
    }
}

/// What the user's request `c` needs of the editor state `a`: the tracks, lanes and
/// modules it reads exist, and no index or line leaves its integer type.
pub open spec fn ui_ok(a: AppState, c: UiCommand) -> bool {
    match c {
        UiCommand::Lane(lc) => match lc {
            LaneCommand::Copy => lane_items_copy_or_cut_ok(a, true),
            LaneCommand::Cut => lane_items_copy_or_cut_ok(a, false),
            LaneCommand::CursorDown => a.cursor_track.line < usize::MAX,
            LaneCommand::CursorLeft => cursor_valid(a.cursor_track, a.song@) && lanes_nonempty(a.song@),
            LaneCommand::CursorRight => cursor_valid(a.cursor_track, a.song@) && lanes_nonempty(a.song@),
            LaneCommand::Dup => lane_items_dup_ok(a),
            LaneCommand::LaneItemMove(ld, lnd) => lane_items_move_ok(a, ld, lnd),
            LaneCommand::LaneItemUpdate(kd, vd, dd, off, md) => lane_items_update_ok(a, kd, vd, dd, off, md),
            LaneCommand::SelectMode => app_wf(a),
            _ => true,
        },
        UiCommand::Module(mc) => match mc {
            ModuleCommand::CursorUp => a.cursor_module.index == 0 ==> a.cursor_track.track < a.song@.tracks.len(),
            ModuleCommand::CursorDown => a.cursor_track.track < a.song@.tracks.len() && a.cursor_module.index < usize::MAX,
            ModuleCommand::CursorLeft => a.song@.tracks.len() > 0 && prev_track_cursor(a).track < a.song@.tracks.len(),
            ModuleCommand::CursorRight => a.song@.tracks.len() > 0 && a.cursor_track.track < usize::MAX
                && next_track_cursor(a).track < a.song@.tracks.len(),
        },
        UiCommand::Mixer(mc) => match mc {
            MixerCommand::CursorLeft => a.song@.tracks.len() > 0,
            MixerCommand::CursorRight => a.song@.tracks.len() > 0 && a.cursor_track.track < usize::MAX,
            _ => true,
        },
        UiCommand::Track(tc) => track_command_ok(a, tc),
        UiCommand::TrackMute(t, m) => m is None ==> match t {
            Some(x) => x,
            None => a.cursor_track.track,
        } < a.song@.tracks.len(),
        UiCommand::TrackSolo(t, m) => m is None ==> match t {
            Some(x) => x,
            None => a.cursor_track.track,
        } < a.song@.tracks.len(),
        _ => true,
    }
}

impl AppState {
    /// Asks the plugin host for the state of every module of the current track and
    /// copies the track once the last one has answered (at once, when the track has
    /// no module).
    pub fn track_copy(&mut self)
        requires
            old(self).cursor_track.track < old(self).song@.tracks.len(),
        ensures
            track_copy_effect(*old(self), *final(self)),
    {
        proof {
            self.song.lemma_view_len();
            self.song.lemma_track_view(self.cursor_track.track as int);
        }
        let t = self.cursor_track.track;
        let n = self.song.tracks[t].modules.len();
        if n == 0 {
            self.effect(UiEffect::ClipboardTrack(t));
        } else {
            for m in 0..n
                invariant
                    self.to_plugin@ == old(self).to_plugin@ + Seq::new(m as nat, |j: int| MainToPlugin::StateSave(t, j as usize)),
                    self.callbacks_plugin_to_main@ == old(self).callbacks_plugin_to_main@ + Seq::new(
                        m as nat,
                        |j: int|
                            if j == n - 1 {
                                PluginReply::TrackCopy
                            } else {
                                PluginReply::Ignore
                            },
                    ),
                    *self == (AppState {
                        to_plugin: self.to_plugin,
                        callbacks_plugin_to_main: self.callbacks_plugin_to_main,
                        ..*old(self)
                    }),
            {
                let callback = if m + 1 == n {
                    PluginReply::TrackCopy
                } else {
                    PluginReply::Ignore
                };
                self.send_to_plugin(MainToPlugin::StateSave(t, m), callback);
                assert(self.to_plugin@ =~= old(self).to_plugin@ + Seq::new((m + 1) as nat, |j: int| MainToPlugin::StateSave(t, j as usize)));
                assert(self.callbacks_plugin_to_main@ =~= old(self).callbacks_plugin_to_main@ + Seq::new(
                    (m + 1) as nat,
                    |j: int|
                        if j == n - 1 {
                            PluginReply::TrackCopy
                        } else {
                            PluginReply::Ignore
                        },
                ));
            }
        }
    }

    /// Asks the plugin host for the parameters of the module of the automation point
    /// under the cursor, for the user to choose one.
    pub fn automation_param_select(&mut self)
        ensures
            automation_param_select_effect(*old(self), *final(self)),
    {
        match self.song.lane_item(&self.cursor_track) {
            Some(LaneItem::Point(p)) => {
                let idx = p.automation_params_index;
                proof {
                    self.song.lemma_track_view(self.cursor_track.track as int);
                }
                let t = self.cursor_track.track;
                if idx < self.song.tracks[t].automation_params.len() {
                    let module_index = self.song.tracks[t].automation_params[idx].0;
                    self.send_to_plugin(MainToPlugin::Params(t, module_index), PluginReply::ParamSelect);
                }
            },
            _ => {},
        }
    }

    /// Carries out a module cursor move, as [`module_command_effect`] says.
    pub fn run_module_command(&mut self, command: ModuleCommand)
        requires
            ui_ok(*old(self), UiCommand::Module(command)),
        ensures
            module_command_effect(*old(self), *final(self), command),
    {
        proof {
            self.song.lemma_view_len();
        }
        match command {
            ModuleCommand::CursorUp => {
                if self.cursor_module.index == 0 {
                    proof {
                        self.song.lemma_track_view(self.cursor_track.track as int);
                    }
                    self.cursor_module.index = self.song.tracks[self.cursor_track.track].modules.len();
                } else {
                    self.cursor_module.index = self.cursor_module.index - 1;
                }
            },
            ModuleCommand::CursorDown => {
                proof {
                    self.song.lemma_track_view(self.cursor_track.track as int);
                }
                if self.cursor_module.index == self.song.tracks[self.cursor_track.track].modules.len() {
                    self.cursor_module.index = 0;
                } else {
                    self.cursor_module.index = self.cursor_module.index + 1;
                }
            },
            ModuleCommand::CursorLeft => {
                self.track_prev();
                proof {
                    self.song.lemma_track_view(self.cursor_track.track as int);
                }
                let n = self.song.tracks[self.cursor_track.track].modules.len();
                if self.cursor_module.index > n {
                    self.cursor_module.index = n;
                }
            },
            ModuleCommand::CursorRight => {
                self.track_next();
                proof {
                    self.song.lemma_track_view(self.cursor_track.track as int);
                }
                let n = self.song.tracks[self.cursor_track.track].modules.len();
                if self.cursor_module.index > n {
                    self.cursor_module.index = n;
                }
            },
        }
    }

    /// Carries out a track request, as [`track_command_effect`] says.
    pub fn run_track_command(&mut self, command: &TrackCommand)
        requires
            track_command_ok(*old(self), *command),
        ensures
            track_command_effect(*old(self), *final(self), *command),
    {
        match command {
            TrackCommand::Copy => self.track_copy(),
            TrackCommand::CursorLeft => self.track_prev(),
            TrackCommand::CursorRight => self.track_next(),
            TrackCommand::Cut => {
                self.track_copy();
                let ghost mid = *self;
                self.send(MainToAudio::TrackDelete(self.cursor_track.track));
                assert(AppState { to_singer: old(self).to_singer, ..*self } == mid);
            },
            TrackCommand::Delete => self.send(MainToAudio::TrackDelete(self.cursor_track.track)),
            TrackCommand::Dup => {},
            TrackCommand::MoveLeft => {},
            TrackCommand::MoveRight => {},
            TrackCommand::Paste => self.effect(UiEffect::PasteTrack),
        }
    }

    /// Carries out the user's request `command`, as [`ui_effect`] says.
    pub fn run_ui_command(&mut self, command: &UiCommand)
        requires
            ui_ok(*old(self), *command),
        ensures
            ui_effect(*old(self), *final(self), *command),
    {
        proof {
            self.song.lemma_view_len();
        }
        match command {
            UiCommand::Command => {
                self.route = Route::Command;
            },
            UiCommand::Follow => {
                self.follow_p = !self.follow_p;
            },
            UiCommand::Loop => self.send(MainToAudio::Loop),
            UiCommand::FocusedPartNext => {
                self.focused_part = self.focused_part.next();
            },
            UiCommand::FocusedPartPrev => {
                self.focused_part = self.focused_part.prev();
            },
            UiCommand::PlayToggle => {
                if self.playing_p {
                    self.send(MainToAudio::Stop);
                } else {
                    self.send(MainToAudio::Play);
                }
            },
            UiCommand::SongSave => self.song_save(),
            UiCommand::Track(command) => self.run_track_command(command),
            UiCommand::TrackAdd => self.send(MainToAudio::TrackAdd),
            UiCommand::TrackMute(track_index, mute) => {
                let t = match track_index {
                    Some(x) => *x,
                    None => self.cursor_track.track,
                };
                let m = match mute {
                    Some(x) => *x,
                    None => {
                        proof {
                            self.song.lemma_track_view(t as int);
                        }
                        !self.song.tracks[t].mute
                    },
                };
                self.send(MainToAudio::TrackMute(t, m));
            },
            UiCommand::TrackSolo(track_index, solo) => {
                let t = match track_index {
                    Some(x) => *x,
                    None => self.cursor_track.track,
                };
                let m = match solo {
                    Some(x) => *x,
                    None => {
                        proof {
                            self.song.lemma_track_view(t as int);
                        }
                        !self.song.tracks[t].solo
                    },
                };
                self.send(MainToAudio::TrackSolo(t, m));
            },
            UiCommand::TrackPan(track_index, pan) => self.send(MainToAudio::TrackPan(*track_index, *pan)),
            UiCommand::TrackVolume(track_index, volume) => self.send(MainToAudio::TrackVolume(*track_index, *volume)),
            UiCommand::LaneAdd => self.send(MainToAudio::LaneAdd(self.cursor_track.track)),
            UiCommand::Lane(lc) => match lc {
                LaneCommand::AutomationParamSelect => self.automation_param_select(),
                LaneCommand::Copy => self.lane_items_copy_or_cut(true),
                LaneCommand::Cut => self.lane_items_copy_or_cut(false),
                LaneCommand::Paste => self.effect(UiEffect::PasteLaneItems),
                LaneCommand::CursorUp => self.cursor_up(),
                LaneCommand::CursorDown => self.cursor_down(),
                LaneCommand::CursorLeft => self.cursor_left(),
                LaneCommand::CursorRight => self.cursor_right(),
                LaneCommand::Dup => self.lane_items_dup(),
                LaneCommand::LaneItemDelete => self.lane_item_send(self.cursor_track, None),
                LaneCommand::LaneItemMove(ld, lnd) => self.lane_items_move(*ld, *lnd),
                LaneCommand::LaneItemUpdate(kd, vd, dd, off, md) => self.lane_items_update(*kd, *vd, *dd, *off, *md),
                LaneCommand::SelectMode => self.select_mode(),
                LaneCommand::SelectClear => self.select_clear(),
            },
            UiCommand::Module(mc) => self.run_module_command(*mc),
            UiCommand::Mixer(mc) => match mc {
                MixerCommand::CursorLeft => self.track_prev(),
                MixerCommand::CursorRight => self.track_next(),
                MixerCommand::Pan(d) => {
                    if self.cursor_track.track < self.song.tracks.len() {
                        self.effect(UiEffect::MixerPan(self.cursor_track.track, *d));
                    }
                },
                MixerCommand::Volume(d) => {
                    if self.cursor_track.track < self.song.tracks.len() {
                        self.effect(UiEffect::MixerVolume(self.cursor_track.track, *d));
                    }
                },
            },
        }
    }
}

/// The song with the saved `state` of module `m` of track `t`, when there is one.
pub open spec fn module_state_set(s: SongV, t: usize, m: usize, state: Seq<u8>) -> SongV {
    if t < s.tracks.len() && m < s.tracks[t as int].modules.len() {
        SongV {
            tracks: s.tracks.update(
                t as int,
                crate::model::track::TrackV {
                    modules: s.tracks[t as int].modules.update(
                        m as int,
                        crate::model::module::ModuleV { state: Some(state), ..s.tracks[t as int].modules[m as int] },
                    ),
                    ..s.tracks[t as int]
                },
            ),
            ..s
        }
    } else {
        s
    }
}

impl Track {
    fn module_state_put(&mut self, m: usize, state: Vec<u8>)
        requires
            m < old(self).modules@.len(),
        ensures
            final(self)@ == (crate::model::track::TrackV {
                modules: old(self)@.modules.update(
                    m as int,
                    crate::model::module::ModuleV { state: Some(state@), ..old(self)@.modules[m as int] },
                ),
                ..old(self)@
            }),
    {
        let ghost before = self@.modules;
        let ghost st = state@;
        self.modules[m].state = Some(state);
        assert(self@.modules =~= before.update(
            m as int,
            crate::model::module::ModuleV { state: Some(st), ..before[m as int] },
        ));
    }
}

impl AppState {
    /// Takes the engine's answer: a song replaces the editor's song, which counts as
    /// unchanged right after opening a song and as changed otherwise; the lane
    /// layout is computed again.
    pub fn receive_from_singer(&mut self, message: AudioToMain)
        ensures
            match message {
                AudioToMain::Song(song) => {
                    &&& final(self).song@ == song@
                    &&& final(self).song_open_p == false
                    &&& final(self).song_dirty_p == !old(self).song_open_p
                    &&& final(self).flatten_lane_index_to_track_lane_vec@ == crate::editor::app_state::flat_lanes(
                        song@,
                        song@.tracks.len() as int,
                    )
                    &&& final(self).lanes_before_track@.len() == song@.tracks.len()
                    &&& final(self).cursor_track == old(self).cursor_track
                    &&& final(self).to_singer == old(self).to_singer
                    &&& final(self).selection_track_min == old(self).selection_track_min
                    &&& final(self).selection_track_max == old(self).selection_track_max
                },
                AudioToMain::Ack => *final(self) == *old(self),
            },
    {
        match message {
            AudioToMain::Song(song) => {
                if self.song_open_p {
                    self.song = song;
                    self.song_open_p = false;
                    self.song_dirty_p = false;
                } else {
                    self.song = song;
                    self.song_dirty_p = true;
                }
                self.compute_track_offsets();
            },
            AudioToMain::Ack => {},
        }
    }

    /// Takes an answer of the plugin host: a saved module state goes into the song;
    /// then the oldest pending request's answer handler runs, as [`PluginReply`]
    /// says.
    pub fn receive_from_communicator(&mut self, message: PluginToMain)
        ensures
            ({
                let song1 = match message {
                    PluginToMain::DidStateSave(t, m, state) => module_state_set(old(self).song@, t, m, state@),
                    _ => old(self).song@,
                };
                &&& final(self).song@ == song1
                &&& old(self).callbacks_plugin_to_main@.len() == 0 ==> final(self).callbacks_plugin_to_main@.len() == 0
                    && final(self).effects == old(self).effects && final(self).route == old(self).route
                &&& old(self).callbacks_plugin_to_main@.len() > 0 ==> {
                    &&& final(self).callbacks_plugin_to_main@ == old(self).callbacks_plugin_to_main@.drop_first()
                    &&& match old(self).callbacks_plugin_to_main@[0] {
                        PluginReply::SongSaveFile => final(self).effects@ == old(self).effects@.push(UiEffect::SongSaveFile)
                            && final(self).route == old(self).route,
                        PluginReply::TrackCopy => final(self).effects@ == old(self).effects@.push(
                            UiEffect::ClipboardTrack(old(self).cursor_track.track),
                        ) && final(self).route == old(self).route,
                        PluginReply::ParamSelect => final(self).effects == old(self).effects && (message is DidParams
                            ==> final(self).route == Route::ParamSelect) && (!(message is DidParams) ==> final(self).route
                            == old(self).route),
                        PluginReply::Ignore => final(self).effects == old(self).effects && final(self).route == old(self).route,
                    }
                }
                &&& final(self).cursor_track == old(self).cursor_track
                &&& final(self).to_singer == old(self).to_singer
                &&& final(self).to_plugin == old(self).to_plugin
            }),
    {
        let mut message = message;
        let ghost song0 = self.song@;
        match message {
            PluginToMain::DidStateSave(t, m, state) => {
                proof {
                    self.song.lemma_view_len();
                }
                if t < self.song.tracks.len() {
                    proof {
                        self.song.lemma_track_view(t as int);
                    }
                    if m < self.song.tracks[t].modules.len() {
                        self.song.tracks[t].module_state_put(m, state);
                        assert(self.song@.tracks =~= module_state_set(song0, t, m, state@).tracks);
                    }
                }
                message = PluginToMain::DidLoad;
            },
            _ => {},
        }
        if self.callbacks_plugin_to_main.len() > 0 {
            let callback = self.callbacks_plugin_to_main.remove(0);
            assert(self.callbacks_plugin_to_main@ =~= old(self).callbacks_plugin_to_main@.drop_first());
            match callback {
                PluginReply::Ignore => {},
                PluginReply::SongSaveFile => self.effect(UiEffect::SongSaveFile),
                PluginReply::TrackCopy => self.effect(UiEffect::ClipboardTrack(self.cursor_track.track)),
                PluginReply::ParamSelect => {
                    match message {
                        PluginToMain::DidParams(params) => {
                            self.route = Route::ParamSelect;
                            self.params = params;
                        },
                        _ => {},
                    }
                },
            }
        }
    }

    /// Asks the user for a song file to open.
    pub fn song_open(&mut self)
        ensures
            effected(*old(self), *final(self), UiEffect::SongOpenDialog),
    {
        self.effect(UiEffect::SongOpenDialog);
    }

    /// Opens the song file that the user picked: the engine is asked to open it and
    /// the song it sends back counts as unchanged.
    pub fn song_open_picked(&mut self, path: String)
        ensures
            final(self).song_open_p,
            final(self).to_singer@ == old(self).to_singer@.push(MainToAudio::SongOpen(path)),
            *final(self) == (AppState { song_open_p: true, to_singer: final(self).to_singer, ..*old(self) }),
    {
        self.song_open_p = true;
        self.send(MainToAudio::SongOpen(path));
    }

    /// The song file was written; when the user picked a new path for it, the
    /// engine is told the path.
    pub fn song_save_file_done(&mut self, new_path: Option<String>)
        ensures
            !final(self).song_dirty_p,
            match new_path {
                Some(p) => final(self).to_singer@ == old(self).to_singer@.push(MainToAudio::SongFile(p)),
                None => final(self).to_singer@ == old(self).to_singer@,
            },
            *final(self) == (AppState { song_dirty_p: false, to_singer: final(self).to_singer, ..*old(self) }),
    {
        match new_path {
            Some(p) => self.send(MainToAudio::SongFile(p)),
            None => {},
        }
        self.song_dirty_p = false;
    }

    /// Inserts the track read from the clipboard at the current track.
    pub fn track_paste_did(&mut self, track: Track)
        ensures
            final(self).to_singer@.len() == old(self).to_singer@.len() + 1,
            final(self).to_singer@.drop_last() == old(self).to_singer@,
            final(self).to_singer@.last() matches MainToAudio::TrackInsert(t, u) && t == old(self).cursor_track.track && u@
                == track@,
            *final(self) == (AppState { to_singer: final(self).to_singer, ..*old(self) }),
    {
        let ghost v = track@;
        self.send(MainToAudio::TrackInsert(self.cursor_track.track, track));
        assert(final(self).to_singer@.drop_last() =~= old(self).to_singer@);
    }

    /// Asks the engine to add a track.
    pub fn track_add(&mut self)
        ensures
            sent(*old(self), *final(self), MainToAudio::TrackAdd),
    {
        self.send(MainToAudio::TrackAdd);
    }

    /// Asks the engine for the tempo whose `f64` bit pattern is `bpm_bits`.
    pub fn bpm_set(&mut self, bpm_bits: u64)
        ensures
            sent(*old(self), *final(self), MainToAudio::Bpm(bpm_bits)),
    {
        self.send(MainToAudio::Bpm(bpm_bits));
    }

    /// Puts a call of the pattern labelled `name` under the cursor.
    pub fn eval_call(&mut self, name: String)
        ensures
            writes_sent(old(self).to_singer@, final(self).to_singer@, seq![(old(self).cursor_track, Some(LaneItem::Call(name)))]),
            *final(self) == (AppState { to_singer: final(self).to_singer, ..*old(self) }),
    {
        self.lane_item_send(self.cursor_track, Some(LaneItem::Call(name)));
    }

    /// Puts the label `name` under the cursor.
    pub fn eval_label(&mut self, name: String)
        ensures
            writes_sent(old(self).to_singer@, final(self).to_singer@, seq![(old(self).cursor_track, Some(LaneItem::Label(name)))]),
            *final(self) == (AppState { to_singer: final(self).to_singer, ..*old(self) }),
    {
        self.lane_item_send(self.cursor_track, Some(LaneItem::Label(name)));
    }

    /// Puts a return from a call under the cursor.
    pub fn eval_ret(&mut self)
        ensures
            writes_sent(old(self).to_singer@, final(self).to_singer@, seq![(old(self).cursor_track, Some(LaneItem::Ret))]),
            *final(self) == (AppState { to_singer: final(self).to_singer, ..*old(self) }),
    {
        self.lane_item_send(self.cursor_track, Some(LaneItem::Ret));
    }

    /// Makes the automation point under the cursor automate parameter `param_id`
    /// of module `module_index`; nothing when there is no point there.
    pub fn param_set(&mut self, module_index: usize, param_id: u32)
        ensures
            (spec_lane_item(old(self).song@, old(self).cursor_track) matches Some(LaneItem::Point(_))) ==> sent(
                *old(self),
                *final(self),
                MainToAudio::PointNew(old(self).cursor_track, module_index, param_id),
            ),
            !(spec_lane_item(old(self).song@, old(self).cursor_track) matches Some(LaneItem::Point(_))) ==> *final(self)
                == *old(self),
    {
        match self.song.lane_item(&self.cursor_track) {
            Some(LaneItem::Point(_)) => self.send(MainToAudio::PointNew(self.cursor_track, module_index, param_id)),
            _ => {},
        }
    }
}

} // verus!
