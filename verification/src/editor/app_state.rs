//! The editor's state and its answers to the user's requests: cursor moves,
//! selection, clipboard and item edits, and the requests for the audio engine and
//! the plugin host that they make.
use crate::cursor::{cursor_valid, lanes_nonempty, spec_max_merge, spec_min_merge, CursorTrack};
use crate::editor::ui_command::{CursorModule, FocusedPart, Route};
use crate::engine::message::MainToAudio;
use crate::model::lane_item::LaneItem;
use crate::model::point::Point;
use crate::note::Note;
use crate::model::song::{spec_lane_item, Song, SongV};
use crate::protocol::{MainToPlugin, Param};
use vstd::prelude::*;

verus! {

/// What the editor does with the answer of the plugin host to one of its requests.
#[derive(Clone, Copy, Debug, PartialEq, Eq, Structural)]
pub enum PluginReply {
    /// Nothing.
    Ignore,
    /// Writes the song file (the answer to the last state save of a song save).
    SongSaveFile,
    /// Copies the current track to the clipboard (the answer to the last state
    /// save of a track copy).
    TrackCopy,
    /// Shows the parameters that came with the answer, for choosing one to
    /// automate.
    ParamSelect,
}

/// Work that the editor leaves to its surroundings: the clipboard, file dialogs and
/// files, and mixer values computed in floating point.
#[derive(Debug)]
pub enum UiEffect {
    /// Put these rows of cells on the clipboard.
    ClipboardLaneItems(Vec<Vec<Option<LaneItem>>>),
    /// Put the track at this index on the clipboard.
    ClipboardTrack(usize),
    /// Read rows of cells from the clipboard and paste them at the cursor.
    PasteLaneItems,
    /// Read a track from the clipboard and insert it at the current track.
    PasteTrack,
    /// Let the user pick a song file to open.
    SongOpenDialog,
    /// Write the song to its file, asking for a path if it has none.
    SongSaveFile,
    /// Move the pan of the track by the `f32` delta whose bit pattern is given.
    MixerPan(usize, u32),
    /// Move the volume of the track by the `f32` dB delta whose bit pattern is
    /// given.
    MixerVolume(usize, u32),
}

/// The editor's state. `to_singer` and `to_plugin` hold the requests for the audio
/// engine and the plugin host, in order, until they are sent;
/// `callbacks_plugin_to_main` says, in order, what to do with the plugin host's
/// answers; `effects` holds the work left to the surroundings; `playing_p` is
/// whether the engine plays, as it last published. The lane layout lists every
/// lane of the song in track order (`flatten_lane_index_to_track_lane_vec`), the
/// track of each (`flatten_lane_index_to_track_index_vec`) and, per track, the
/// number of lanes before it (`lanes_before_track`).
#[derive(Debug)]
pub struct AppState {
    pub focused_part: FocusedPart,
    pub follow_p: bool,
    pub cursor_track: CursorTrack,
    pub cursor_module: CursorModule,
    pub lane_item_last: LaneItem,
    pub route: Route,
    pub select_p: bool,
    pub selection_track_min: Option<CursorTrack>,
    pub selection_track_max: Option<CursorTrack>,
    pub song: Song,
    pub song_dirty_p: bool,
    pub song_open_p: bool,
    pub eval_window_open_p: bool,
    pub playing_p: bool,
    pub params: Vec<Param>,
    pub to_singer: Vec<MainToAudio>,
    pub to_plugin: Vec<MainToPlugin>,
    pub callbacks_plugin_to_main: Vec<PluginReply>,
    pub effects: Vec<UiEffect>,
    pub flatten_lane_index_max: usize,
    pub flatten_lane_index_to_track_index_vec: Vec<usize>,
    pub flatten_lane_index_to_track_lane_vec: Vec<(usize, usize)>,
    pub lanes_before_track: Vec<usize>,
}

/// The corners of the selection: from its first corner to the other one, or to the
/// cursor while the other one is open.
pub open spec fn selection_range(s: AppState) -> Option<(CursorTrack, CursorTrack)> {
    match s.selection_track_min {
        Some(min) => {
            let max = match s.selection_track_max {
                Some(m) => m,
                None => s.cursor_track,
            };
            Some((spec_min_merge(min, max), spec_max_merge(min, max)))
        },
        None => None,
    }
}

/// The lanes of track `t` that the selection from `min` to `max` covers: from
/// `min`'s lane on the first track (else the first lane) to `max`'s lane on the
/// last track (else the last lane), as far as the track has lanes.
pub open spec fn track_selected_lanes(s: SongV, min: CursorTrack, max: CursorTrack, t: int) -> Seq<(usize, usize)> {
    if 0 <= t < s.tracks.len() {
        let first: int = if t == min.track { min.lane as int } else { 0 };
        let last: int = if t == max.track { max.lane as int } else { s.tracks[t].lanes.len() as int };
        let end: int = if last < s.tracks[t].lanes.len() { last + 1 } else { s.tracks[t].lanes.len() as int };
        if first < end {
            Seq::new((end - first) as nat, |i: int| (t as usize, (first + i) as usize))
        } else {
            seq![]
        }
    } else {
        seq![]
    }
}

/// The `(track, lane)` pairs that the selection from `min` to `max` covers, for the
/// tracks from `min`'s up to (not including) `t`, in order.
pub open spec fn selected_lanes_to(s: SongV, min: CursorTrack, max: CursorTrack, t: int) -> Seq<(usize, usize)>
    decreases t - min.track,
{
    if t <= min.track {
        seq![]
    } else {
        selected_lanes_to(s, min, max, t - 1) + track_selected_lanes(s, min, max, t - 1)
    }
}

/// The `(track, lane)` pairs that the selection from `min` to `max` covers, in
/// order.
pub open spec fn selected_lanes(s: SongV, min: CursorTrack, max: CursorTrack) -> Seq<(usize, usize)> {
    selected_lanes_to(s, min, max, max.track + 1)
}

/// One row of the selection: for each line from `min.line` to `max.line`, the cell
/// of lane `tl` with its cursor, if it holds an item.
pub open spec fn selected_row(s: SongV, tl: (usize, usize), min: CursorTrack, max: CursorTrack) -> Seq<
    Option<(CursorTrack, LaneItem)>,
> {
    Seq::new(
        (max.line - min.line + 1) as nat,
        |k: int|
            {
                let c = CursorTrack { track: tl.0, lane: tl.1, line: (min.line + k) as usize };
                match spec_lane_item(s, c) {
                    Some(item) => Some((c, item)),
                    None => None,
                }
            },
    )
}

impl AppState {
    /// The editor as it starts: lane part focused, following the play position,
    /// cursors at the start, the track screen, no selection, a new song.
    pub fn new() -> (r: Self)
        ensures
            r.focused_part == FocusedPart::Lane,
            r.follow_p,
            r.cursor_track == (CursorTrack { track: 0, lane: 0, line: 0 }),
            r.cursor_module == (CursorModule { index: 0 }),
            r.route == Route::Track,
            !r.select_p,
            r.selection_track_min is None,
            r.selection_track_max is None,
            !r.song_dirty_p,
            !r.song_open_p,
            r.to_singer@.len() == 0,
            r.to_plugin@.len() == 0,
            r.callbacks_plugin_to_main@.len() == 0,
            r.effects@.len() == 0,
            r.lane_item_last == LaneItem::Note(crate::note::default_note()),
            r.song@.tracks.len() == 0,
            r.song.lpb == 4,
            crate::model::song::is_date_file_name(r.song.name@),
            r.song.bpm_bits == crate::model::song::DEFAULT_BPM_BITS,
            r.song.sample_rate_bits == crate::model::song::DEFAULT_SAMPLE_RATE_BITS,
            !r.eval_window_open_p,
            !r.playing_p,
            r.params@.len() == 0,
            r.flatten_lane_index_max == 0,
            r.flatten_lane_index_to_track_index_vec@.len() == 0,
            r.flatten_lane_index_to_track_lane_vec@.len() == 0,
            r.lanes_before_track@.len() == 0,
    {
        AppState {
            focused_part: FocusedPart::Lane,
            follow_p: true,
            cursor_track: CursorTrack { track: 0, lane: 0, line: 0 },
            cursor_module: CursorModule { index: 0 },
            lane_item_last: LaneItem::default(),
            route: Route::Track,
            select_p: false,
            selection_track_min: None,
            selection_track_max: None,
            song: Song::new(),
            song_dirty_p: false,
            song_open_p: false,
            eval_window_open_p: false,
            playing_p: false,
            params: Vec::new(),
            to_singer: Vec::new(),
            to_plugin: Vec::new(),
            callbacks_plugin_to_main: Vec::new(),
            effects: Vec::new(),
            flatten_lane_index_max: 0,
            flatten_lane_index_to_track_index_vec: Vec::new(),
            flatten_lane_index_to_track_lane_vec: Vec::new(),
            lanes_before_track: Vec::new(),
        }
    }

    /// The corners of the selection, as [`selection_range`] says.
    pub fn lane_items_selection_range(&self) -> (r: Option<(CursorTrack, CursorTrack)>)
        ensures
            r == selection_range(*self),
    {
        match &self.selection_track_min {
            Some(min) => {
                let max = match &self.selection_track_max {
                    Some(m) => *m,
                    None => self.cursor_track,
                };
                Some((min.min_merge(&max), min.max_merge(&max)))
            },
            None => None,
        }
    }

    /// The cells of the selection, row by row as [`selected_lanes`] orders the lanes,
    /// each row as [`selected_row`] says; nothing without a selection.
    pub fn lane_items_selected_cloned(&self) -> (r: Vec<Vec<Option<(CursorTrack, LaneItem)>>>)
        requires
            selection_range(*self) matches Some((min, max)) ==> max.line < usize::MAX,
        ensures
            match selection_range(*self) {
                Some((min, max)) => r@.len() == selected_lanes(self.song@, min, max).len() && forall|i: int|
                    0 <= i < r@.len() ==> (#[trigger] r@[i])@ == selected_row(
                        self.song@,
                        selected_lanes(self.song@, min, max)[i],
                        min,
                        max,
                    ),
                None => r@.len() == 0,
            },
    {
        let mut itemss: Vec<Vec<Option<(CursorTrack, LaneItem)>>> = Vec::new();
        let range = self.lane_items_selection_range();
        match range {
            Some((min, max)) => {
                proof {
                    self.song.lemma_view_len();
                }
                let ghost s = self.song@;
                let ntracks = self.song.tracks.len();
                let last = if max.track < ntracks {
                    max.track + 1
                } else {
                    ntracks
                };
                let mut t = min.track;
                assert(selected_lanes_to(s, min, max, t as int) =~= seq![]);
                while t < last
                    invariant
                        s == self.song@,
                        ntracks == s.tracks.len(),
                        max.track < usize::MAX ==> last <= max.track + 1,
                        last <= ntracks,
                        min.track <= t,
                        min.track <= max.track,
                        t <= last || t == min.track,
                        min.line <= max.line < usize::MAX,
                        itemss@.len() == selected_lanes_to(s, min, max, t as int).len(),
                        forall|i: int|
                            0 <= i < itemss@.len() ==> (#[trigger] itemss@[i])@ == selected_row(
                                s,
                                selected_lanes_to(s, min, max, t as int)[i],
                                min,
                                max,
                            ),
                    decreases last - t,
                {
                    proof {
                        self.song.lemma_track_view(t as int);
                    }
                    let track = &self.song.tracks[t];
                    let nlanes = track.lanes.len();
                    let first: usize = if t == min.track {
                        min.lane
                    } else {
                        0
                    };
                    let lane_last: usize = if t == max.track {
                        max.lane
                    } else {
                        nlanes
                    };
                    let end: usize = if lane_last < nlanes {
                        lane_last + 1
                    } else {
                        nlanes
                    };
                    let ghost before = itemss@;
                    let ghost tsel = track_selected_lanes(s, min, max, t as int);
                    let mut l = first;
                    while l < end
                        invariant
                            s == self.song@,
                            t < s.tracks.len(),
                            min.line <= max.line < usize::MAX,
                            first <= l,
                            l <= end || l == first,
                            end <= s.tracks[t as int].lanes.len(),
                            tsel == (if first < end {
                                Seq::new((end - first) as nat, |i: int| (t as usize, (first + i) as usize))
                            } else {
                                seq![]
                            }),
                            itemss@.len() == before.len() + (if l >= first { l - first } else { 0 }),
                            forall|i: int| 0 <= i < before.len() ==> #[trigger] itemss@[i] == before[i],
                            forall|i: int|
                                before.len() <= i < itemss@.len() ==> (#[trigger] itemss@[i])@ == selected_row(
                                    s,
                                    (t as usize, (first + i - before.len()) as usize),
                                    min,
                                    max,
                                ),
                        decreases end - l,
                    {
                        let mut items: Vec<Option<(CursorTrack, LaneItem)>> = Vec::new();
                        let mut line = min.line;
                        while line <= max.line
                            invariant
                                s == self.song@,
                                t < s.tracks.len(),
                                l < s.tracks[t as int].lanes.len(),
                                min.line <= line <= max.line + 1,
                                max.line < usize::MAX,
                                items@.len() == line - min.line,
                                forall|k: int|
                                    0 <= k < items@.len() ==> #[trigger] items@[k] == selected_row(
                                        s,
                                        (t as usize, l),
                                        min,
                                        max,
                                    )[k],
                            decreases max.line + 1 - line,
                        {
                            let c = CursorTrack { track: t, lane: l, line };
                            let cell = match self.song.lane_item(&c) {
                                Some(item) => Some((c, item.clone())),
                                None => None,
                            };
                            items.push(cell);
                            line = line + 1;
                        }
                        assert(items@ =~= selected_row(s, (t as usize, l), min, max));
                        itemss.push(items);
                        l = l + 1;
                    }
                    assert(selected_lanes_to(s, min, max, t + 1) == selected_lanes_to(s, min, max, t as int) + tsel);
                    assert forall|i: int| 0 <= i < itemss@.len() implies (#[trigger] itemss@[i])@ == selected_row(
                        s,
                        selected_lanes_to(s, min, max, t + 1)[i],
                        min,
                        max,
                    ) by {
                        if i >= before.len() {
                            assert(selected_lanes_to(s, min, max, t + 1)[i] == tsel[i - before.len()]);
                        } else {
                            assert(selected_lanes_to(s, min, max, t + 1)[i] == selected_lanes_to(s, min, max, t as int)[i]);
                        }
                    }
                    t = t + 1;
                }
                proof {
                    lemma_selected_lanes_tail(s, min, max, t as int);
                }
            },
            None => {},
        }
        itemss
    }
}

/// Past the last track, the selection covers no more lanes.
proof fn lemma_selected_lanes_tail(s: SongV, min: CursorTrack, max: CursorTrack, t: int)
    requires
        min.track <= t,
        t >= s.tracks.len() || t == max.track + 1,
        t <= max.track + 1,
    ensures
        selected_lanes(s, min, max) == selected_lanes_to(s, min, max, t),
    decreases max.track + 1 - t,
{
    if t < max.track + 1 {
        lemma_selected_lanes_tail(s, min, max, t + 1);
        assert(track_selected_lanes(s, min, max, t) =~= seq![]);
        assert(selected_lanes_to(s, min, max, t + 1) =~= selected_lanes_to(s, min, max, t));
    }
}

/// The request writes `item` under `c` (or clears the cell for `None`), and nothing
/// else.
pub open spec fn is_cell_write(m: MainToAudio, c: CursorTrack, item: Option<LaneItem>) -> bool {
    match m {
        MainToAudio::LaneItem(v) => v@ == seq![(c, item)],
        _ => false,
    }
}

/// `new` is `old` followed by one single-cell request per write of `writes`, in
/// order.
pub open spec fn writes_sent(old: Seq<MainToAudio>, new: Seq<MainToAudio>, writes: Seq<(CursorTrack, Option<LaneItem>)>) -> bool {
    &&& new.len() == old.len() + writes.len()
    &&& forall|i: int| 0 <= i < old.len() ==> #[trigger] new[i] == old[i]
    &&& forall|i: int| 0 <= i < writes.len() ==> is_cell_write(#[trigger] new[old.len() + i], writes[i].0, writes[i].1)
}

/// The flat layout of the lanes of tracks `0..n`: every lane as `(track, lane)`, in
/// track order.
pub open spec fn flat_lanes(s: SongV, n: int) -> Seq<(usize, usize)>
    decreases n,
{
    if n <= 0 {
        seq![]
    } else {
        flat_lanes(s, n - 1) + Seq::new(s.tracks[n - 1].lanes.len(), |l: int| ((n - 1) as usize, l as usize))
    }
}

/// The editor's invariant: while selecting, the selection has its first corner;
/// a closed selection's first corner is not on a later line than its other one.
pub open spec fn app_wf(s: AppState) -> bool {
    &&& s.select_p ==> s.selection_track_min is Some
    &&& match (s.selection_track_min, s.selection_track_max) {
        (Some(mn), Some(mx)) => mn.line <= mx.line,
        _ => true,
    }
}

impl AppState {
    /// Queues the request `m` for the audio engine.
    pub fn send(&mut self, m: MainToAudio)
        ensures
            final(self).to_singer@ == old(self).to_singer@.push(m),
            *final(self) == (AppState { to_singer: final(self).to_singer, ..*old(self) }),
    {
        self.to_singer.push(m);
    }

    /// Queues a request for the audio engine that writes `item` under `cursor` (or
    /// clears the cell for `None`).
    pub fn lane_item_send(&mut self, cursor: CursorTrack, item: Option<LaneItem>)
        ensures
            writes_sent(old(self).to_singer@, final(self).to_singer@, seq![(cursor, item)]),
            *final(self) == (AppState { to_singer: final(self).to_singer, ..*old(self) }),
    {
        let mut v: Vec<(CursorTrack, Option<LaneItem>)> = Vec::new();
        v.push((cursor, item));
        assert(v@ =~= seq![(cursor, item)]);
        self.send(MainToAudio::LaneItem(v));
        assert(self.to_singer@[old(self).to_singer@.len() as int] == MainToAudio::LaneItem(v));
    }

    /// Queues the request `m` for the plugin host, with what to do with its answer.
    pub fn send_to_plugin(&mut self, m: MainToPlugin, callback: PluginReply)
        ensures
            final(self).to_plugin@ == old(self).to_plugin@.push(m),
            final(self).callbacks_plugin_to_main@ == old(self).callbacks_plugin_to_main@.push(callback),
            *final(self) == (AppState {
                to_plugin: final(self).to_plugin,
                callbacks_plugin_to_main: final(self).callbacks_plugin_to_main,
                ..*old(self)
            }),
    {
        self.callbacks_plugin_to_main.push(callback);
        self.to_plugin.push(m);
    }

    /// Leaves `e` to the surroundings.
    pub fn effect(&mut self, e: UiEffect)
        ensures
            final(self).effects@ == old(self).effects@.push(e),
            *final(self) == (AppState { effects: final(self).effects, ..*old(self) }),
    {
        self.effects.push(e);
    }

    /// A frame that shows the play line `line_play` while the engine plays
    /// (`play_p`): with follow on, the cursor moves to that line; else nothing
    /// changes.
    pub fn follow_play_line(&mut self, play_p: bool, line_play: usize)
        ensures
            play_p && old(self).follow_p ==> *final(self) == (AppState {
                cursor_track: CursorTrack { line: line_play, ..old(self).cursor_track },
                ..*old(self)
            }),
            !(play_p && old(self).follow_p) ==> *final(self) == *old(self),
    {
        if play_p && self.follow_p {
            self.cursor_track.line = line_play;
        }
    }

    /// The cursor one line up.
    pub fn cursor_up(&mut self)
        ensures
            *final(self) == (AppState { cursor_track: crate::cursor::spec_up(old(self).cursor_track), ..*old(self) }),
    {
        self.cursor_track = self.cursor_track.up(&self.song);
    }

    /// The cursor one line down.
    pub fn cursor_down(&mut self)
        requires
            old(self).cursor_track.line < usize::MAX,
        ensures
            *final(self) == (AppState { cursor_track: crate::cursor::spec_down(old(self).cursor_track), ..*old(self) }),
    {
        self.cursor_track = self.cursor_track.down(&self.song);
    }

    /// The cursor one lane to the left, wrapping.
    pub fn cursor_left(&mut self)
        requires
            cursor_valid(old(self).cursor_track, old(self).song@),
            lanes_nonempty(old(self).song@),
        ensures
            *final(self) == (AppState {
                cursor_track: crate::cursor::spec_left(old(self).cursor_track, old(self).song@),
                ..*old(self)
            }),
    {
        self.cursor_track = self.cursor_track.left(&self.song);
    }

    /// The cursor one lane to the right, wrapping.
    pub fn cursor_right(&mut self)
        requires
            cursor_valid(old(self).cursor_track, old(self).song@),
            lanes_nonempty(old(self).song@),
        ensures
            *final(self) == (AppState {
                cursor_track: crate::cursor::spec_right(old(self).cursor_track, old(self).song@),
                ..*old(self)
            }),
    {
        self.cursor_track = self.cursor_track.right(&self.song);
    }

    /// The cursor on the first lane of the next track, wrapping from the last track
    /// to the first.
    pub fn track_next(&mut self)
        requires
            old(self).song@.tracks.len() > 0,
            old(self).cursor_track.track < usize::MAX,
        ensures
            *final(self) == (AppState {
                cursor_track: CursorTrack {
                    track: if old(self).cursor_track.track == old(self).song@.tracks.len() - 1 {
                        0
                    } else {
                        (old(self).cursor_track.track + 1) as usize
                    },
                    lane: 0,
                    ..old(self).cursor_track
                },
                ..*old(self)
            }),
    {
        proof {
            self.song.lemma_view_len();
        }
        if self.cursor_track.track == self.song.tracks.len() - 1 {
            self.cursor_track.track = 0;
        } else {
            self.cursor_track.track = self.cursor_track.track + 1;
        }
        self.cursor_track.lane = 0;
    }

    /// The cursor on the first lane of the previous track, wrapping from the first
    /// track to the last.
    pub fn track_prev(&mut self)
        requires
            old(self).song@.tracks.len() > 0,
        ensures
            *final(self) == (AppState {
                cursor_track: CursorTrack {
                    track: if old(self).cursor_track.track == 0 {
                        (old(self).song@.tracks.len() - 1) as usize
                    } else {
                        (old(self).cursor_track.track - 1) as usize
                    },
                    lane: 0,
                    ..old(self).cursor_track
                },
                ..*old(self)
            }),
    {
        proof {
            self.song.lemma_view_len();
        }
        if self.cursor_track.track == 0 {
            self.cursor_track.track = self.song.tracks.len() - 1;
        } else {
            self.cursor_track.track = self.cursor_track.track - 1;
        }
        self.cursor_track.lane = 0;
    }

    /// The track under the cursor, if there is one.
    pub fn track_current(&self) -> (r: Option<&crate::model::track::Track>)
        ensures
            match r {
                Some(t) => self.cursor_track.track < self.song.tracks@.len() && *t == self.song.tracks@[self.cursor_track.track as int],
                None => self.cursor_track.track >= self.song.tracks@.len(),
            },
    {
        self.song.track_at(self.cursor_track.track)
    }

    /// The flat index of lane `lane` of track `track` in the layout last computed:
    /// where the pair stands in `flatten_lane_index_to_track_lane_vec`; none when the
    /// layout has no such lane.
    pub fn flatten_lane_index(&self, track: usize, lane: usize) -> (r: Option<usize>)
        ensures
            match r {
                Some(k) => k < self.flatten_lane_index_to_track_lane_vec@.len()
                    && self.flatten_lane_index_to_track_lane_vec@[k as int] == (track, lane) && forall|j: int|
                    0 <= j < k ==> #[trigger] self.flatten_lane_index_to_track_lane_vec@[j] != (track, lane),
                None => forall|j: int|
                    0 <= j < self.flatten_lane_index_to_track_lane_vec@.len() ==> #[trigger] self.flatten_lane_index_to_track_lane_vec@[j]
                        != (track, lane),
            },
    {
        let v = &self.flatten_lane_index_to_track_lane_vec;
        let mut k: usize = 0;
        while k < v.len()
            invariant
                v@ == self.flatten_lane_index_to_track_lane_vec@,
                k <= v@.len(),
                forall|j: int| 0 <= j < k ==> #[trigger] v@[j] != (track, lane),
            decreases v@.len() - k,
        {
            let (t, l) = v[k];
            assert(v@[k as int] == (t, l));
            if t == track && l == lane {
                return Some(k);
            }
            k = k + 1;
        }
        None
    }

    /// Lays the lanes of the song out flat, as [`flat_lanes`] says, with the track of
    /// each lane, the number of lanes before each track, and the index of the last
    /// lane (0 when there is none).
    pub fn compute_track_offsets(&mut self)
        ensures
            final(self).flatten_lane_index_to_track_lane_vec@ == flat_lanes(
                old(self).song@,
                old(self).song@.tracks.len() as int,
            ),
            final(self).flatten_lane_index_to_track_index_vec@ == flat_lanes(
                old(self).song@,
                old(self).song@.tracks.len() as int,
            ).map_values(|tl: (usize, usize)| tl.0),
            final(self).lanes_before_track@.len() == old(self).song@.tracks.len(),
            forall|t: int|
                0 <= t < old(self).song@.tracks.len() ==> #[trigger] final(self).lanes_before_track@[t] == flat_lanes(
                    old(self).song@,
                    t,
                ).len(),
            final(self).flatten_lane_index_max == (if flat_lanes(old(self).song@, old(self).song@.tracks.len() as int).len()
                == 0 {
                0
            } else {
                flat_lanes(old(self).song@, old(self).song@.tracks.len() as int).len() - 1
            }),
            *final(self) == (AppState {
                flatten_lane_index_max: final(self).flatten_lane_index_max,
                flatten_lane_index_to_track_index_vec: final(self).flatten_lane_index_to_track_index_vec,
                flatten_lane_index_to_track_lane_vec: final(self).flatten_lane_index_to_track_lane_vec,
                lanes_before_track: final(self).lanes_before_track,
                ..*old(self)
            }),
    {
        let ghost s = self.song@;
        proof {
            self.song.lemma_view_len();
        }
        self.flatten_lane_index_to_track_index_vec.clear();
        self.flatten_lane_index_to_track_lane_vec.clear();
        self.lanes_before_track.clear();
        let n = self.song.tracks.len();
        for t in 0..n
            invariant
                n == s.tracks.len(),
                s == self.song@,
                s == old(self).song@,
                self.flatten_lane_index_to_track_lane_vec@ == flat_lanes(s, t as int),
                self.flatten_lane_index_to_track_index_vec@ == flat_lanes(s, t as int).map_values(|tl: (usize, usize)| tl.0),
                self.lanes_before_track@.len() == t,
                forall|k: int| 0 <= k < t ==> #[trigger] self.lanes_before_track@[k] == flat_lanes(s, k).len(),
                *self == (AppState {
                    flatten_lane_index_max: self.flatten_lane_index_max,
                    flatten_lane_index_to_track_index_vec: self.flatten_lane_index_to_track_index_vec,
                    flatten_lane_index_to_track_lane_vec: self.flatten_lane_index_to_track_lane_vec,
                    lanes_before_track: self.lanes_before_track,
                    ..*old(self)
                }),
        {
            proof {
                self.song.lemma_track_view(t as int);
            }
            let count = self.flatten_lane_index_to_track_lane_vec.len();
            self.lanes_before_track.push(count);
            let nl = self.song.tracks[t].lanes.len();
            let ghost before = flat_lanes(s, t as int);
            for l in 0..nl
                invariant
                    nl == s.tracks[t as int].lanes.len(),
                    s == self.song@,
                    t < n,
                    self.flatten_lane_index_to_track_lane_vec@ == before + Seq::new(l as nat, |k: int| (t, k as usize)),
                    self.flatten_lane_index_to_track_index_vec@ == (before + Seq::new(l as nat, |k: int| (t, k as usize))).map_values(
                        |tl: (usize, usize)| tl.0,
                    ),
                    self.lanes_before_track@.len() == t + 1,
                    forall|k: int| 0 <= k <= t ==> #[trigger] self.lanes_before_track@[k] == flat_lanes(s, k).len(),
                    *self == (AppState {
                        flatten_lane_index_max: self.flatten_lane_index_max,
                        flatten_lane_index_to_track_index_vec: self.flatten_lane_index_to_track_index_vec,
                        flatten_lane_index_to_track_lane_vec: self.flatten_lane_index_to_track_lane_vec,
                        lanes_before_track: self.lanes_before_track,
                        ..*old(self)
                    }),
            {
                self.flatten_lane_index_to_track_lane_vec.push((t, l));
                self.flatten_lane_index_to_track_index_vec.push(t);
                assert(self.flatten_lane_index_to_track_lane_vec@ =~= before + Seq::new((l + 1) as nat, |k: int| (t, k as usize)));
                assert(self.flatten_lane_index_to_track_index_vec@ =~= (before + Seq::new((l + 1) as nat, |k: int| (t, k as usize))).map_values(
                    |tl: (usize, usize)| tl.0,
                ));
            }
            assert(flat_lanes(s, t + 1) =~= before + Seq::new(nl as nat, |k: int| (t, k as usize)));
        }
        let count = self.flatten_lane_index_to_track_lane_vec.len();
        self.flatten_lane_index_max = if count == 0 {
            0
        } else {
            count - 1
        };
    }
}

/// The flat layout finds every lane again: lane `l` of track `t` stands at the
/// number of lanes before track `t`, plus `l`.
pub proof fn lemma_flat_lanes_index(s: SongV, n: int, t: int, l: int)
    requires
        0 <= t < n <= s.tracks.len(),
        0 <= l < s.tracks[t].lanes.len(),
    ensures
        flat_lanes(s, t).len() + l < flat_lanes(s, n).len(),
        flat_lanes(s, n)[flat_lanes(s, t).len() + l] == (t as usize, l as usize),
    decreases n,
{
    if t < n - 1 {
        lemma_flat_lanes_index(s, n - 1, t, l);
    }
}

/// Each entry of the flat layout is an existing lane, and it stands nowhere but at
/// the number of lanes before its track, plus its lane: the layout holds every lane
/// once.
pub proof fn lemma_flat_lanes_unique(s: SongV, n: int, k: int)
    requires
        0 <= n <= s.tracks.len() <= usize::MAX,
        forall|t: int| 0 <= t < s.tracks.len() ==> #[trigger] s.tracks[t].lanes.len() <= usize::MAX,
        0 <= k < flat_lanes(s, n).len(),
    ensures
        flat_lanes(s, n)[k].0 < n,
        flat_lanes(s, n)[k].1 < s.tracks[flat_lanes(s, n)[k].0 as int].lanes.len(),
        k == flat_lanes(s, flat_lanes(s, n)[k].0 as int).len() + flat_lanes(s, n)[k].1,
    decreases n,
{
    let pre = flat_lanes(s, n - 1);
    if k < pre.len() {
        lemma_flat_lanes_unique(s, n - 1, k);
        assert(flat_lanes(s, n)[k] == pre[k]);
    } else {
        assert(s.tracks[n - 1].lanes.len() <= usize::MAX);
        assert(flat_lanes(s, n)[k] == ((n - 1) as usize, (k - pre.len()) as usize));
    }
}

/// The cells of a row that hold items.
pub open spec fn somes(row: Seq<Option<(CursorTrack, LaneItem)>>) -> Seq<(CursorTrack, LaneItem)>
    decreases row.len(),
{
    if row.len() == 0 {
        seq![]
    } else {
        somes(row.drop_last()) + match row.last() {
            Some(x) => seq![x],
            None => seq![],
        }
    }
}

/// The cells of the rows that hold items, row by row.
pub open spec fn flat_cells(rows: Seq<Seq<Option<(CursorTrack, LaneItem)>>>) -> Seq<(CursorTrack, LaneItem)>
    decreases rows.len(),
{
    if rows.len() == 0 {
        seq![]
    } else {
        flat_cells(rows.drop_last()) + somes(rows.last())
    }
}

/// The rows of the selection from `min` to `max`, as [`selected_row`] says.
pub open spec fn selected_rows(s: SongV, min: CursorTrack, max: CursorTrack) -> Seq<Seq<Option<(CursorTrack, LaneItem)>>> {
    Seq::new(selected_lanes(s, min, max).len(), |i: int| selected_row(s, selected_lanes(s, min, max)[i], min, max))
}

/// The cells of the selection that hold items, with their cursors, in order.
pub open spec fn selection_cells(s: AppState) -> Seq<(CursorTrack, LaneItem)> {
    match selection_range(s) {
        Some((min, max)) => flat_cells(selected_rows(s.song@, min, max)),
        None => seq![],
    }
}

/// The plain value of rows of cells.
pub open spec fn rows_view(rows: Seq<Vec<Option<(CursorTrack, LaneItem)>>>) -> Seq<Seq<Option<(CursorTrack, LaneItem)>>> {
    rows.map_values(|r: Vec<Option<(CursorTrack, LaneItem)>>| r@)
}

/// The cells of the rows that hold items, as [`flat_cells`] says.
pub fn flatten_cells(rows: &Vec<Vec<Option<(CursorTrack, LaneItem)>>>) -> (r: Vec<(CursorTrack, LaneItem)>)
    ensures
        r@ == flat_cells(rows_view(rows@)),
{
    let mut r: Vec<(CursorTrack, LaneItem)> = Vec::new();
    for i in 0..rows.len()
        invariant
            r@ == flat_cells(rows_view(rows@).take(i as int)),
    {
        let ghost before = r@;
        let row = &rows[i];
        for k in 0..row.len()
            invariant
                row@ == rows_view(rows@)[i as int],
                r@ == before + somes(row@.take(k as int)),
        {
            match &row[k] {
                Some(cell) => {
                    r.push((cell.0, cell.1.clone()));
                },
                None => {},
            }
            assert(row@.take(k + 1).drop_last() =~= row@.take(k as int));
            assert(r@ =~= before + somes(row@.take(k + 1)));
        }
        assert(row@.take(row@.len() as int) =~= row@);
        assert(rows_view(rows@).take(i + 1).drop_last() =~= rows_view(rows@).take(i as int));
        assert(rows_view(rows@).take(i + 1).last() == row@);
    }
    assert(rows_view(rows@).take(rows@.len() as int) =~= rows_view(rows@));
    r
}

/// `x` kept within `lo..=hi`.
pub open spec fn clamp_int(x: int, lo: int, hi: int) -> int {
    if x < lo {
        lo
    } else if x > hi {
        hi
    } else {
        x
    }
}

/// An item after an edit: a note's key and velocity move by `kd` and `vd` within
/// 0 to 127 and its delay by `dd` within 0 to 255; a point's value moves by `vd`
/// and its delay by `dd`, both within 0 to 255; other items stay.
pub open spec fn item_updated(item: LaneItem, kd: i16, vd: i16, dd: i16) -> LaneItem {
    match item {
        LaneItem::Note(n) => LaneItem::Note(
            Note {
                key: clamp_int(n.key + kd, 0, 127) as i16,
                velocity: clamp_int(n.velocity + vd, 0, 127) as u8,
                delay: clamp_int(n.delay + dd, 0, 255) as u8,
                ..n
            },
        ),
        LaneItem::Point(p) => LaneItem::Point(
            Point { value: clamp_int(p.value + vd, 0, 255) as u8, delay: clamp_int(p.delay + dd, 0, 255) as u8, ..p },
        ),
        other => other,
    }
}

/// An edit moves a note's key by `kd`, its velocity by `vd` and its delay by `dd`,
/// stopping at the ends of their ranges (0 to 127, 0 to 127, 0 to 255), and keeps
/// the rest of the note. Without a selection, the note under the cursor is edited
/// the same way and becomes a note-off or not as `off` says.
pub proof fn lemma_note_edit_moves_by_deltas(n: Note, kd: i16, vd: i16, dd: i16, last: LaneItem, off: bool, md: i16)
    ensures
        item_updated(LaneItem::Note(n), kd, vd, dd) matches LaneItem::Note(m) && {
            &&& 0 <= n.key + kd <= 127 ==> m.key == n.key + kd
            &&& n.key + kd < 0 ==> m.key == 0
            &&& n.key + kd > 127 ==> m.key == 127
            &&& 0 <= n.velocity + vd <= 127 ==> m.velocity == n.velocity + vd
            &&& n.velocity + vd < 0 ==> m.velocity == 0
            &&& n.velocity + vd > 127 ==> m.velocity == 127
            &&& 0 <= n.delay + dd <= 255 ==> m.delay == n.delay + dd
            &&& n.delay + dd < 0 ==> m.delay == 0
            &&& n.delay + dd > 255 ==> m.delay == 255
            &&& m.off == n.off && m.channel == n.channel
        },
        single_update(Some(LaneItem::Note(n)), last, kd, vd, dd, off, md) matches LaneItem::Note(m) && {
            &&& 0 <= n.key + kd <= 127 ==> m.key == n.key + kd
            &&& n.key + kd < 0 ==> m.key == 0
            &&& n.key + kd > 127 ==> m.key == 127
            &&& 0 <= n.velocity + vd <= 127 ==> m.velocity == n.velocity + vd
            &&& 0 <= n.delay + dd <= 255 ==> m.delay == n.delay + dd
            &&& m.off == off && m.channel == n.channel
        },
{
}

/// An edit moves an automation point's value by `vd` and its delay by `dd`,
/// stopping at 0 and 255, and keeps the parameter it names.
pub proof fn lemma_point_edit_moves_by_deltas(p: Point, kd: i16, vd: i16, dd: i16)
    ensures
        item_updated(LaneItem::Point(p), kd, vd, dd) matches LaneItem::Point(q) && {
            &&& 0 <= p.value + vd <= 255 ==> q.value == p.value + vd
            &&& p.value + vd < 0 ==> q.value == 0
            &&& p.value + vd > 255 ==> q.value == 255
            &&& 0 <= p.delay + dd <= 255 ==> q.delay == p.delay + dd
            &&& p.delay + dd < 0 ==> q.delay == 0
            &&& p.delay + dd > 255 ==> q.delay == 255
            &&& q.automation_params_index == p.automation_params_index
        },
{
}

/// Two edits of a note's key in a row, with the key in range in between, move it
/// as one edit by the sum of the deltas.
pub proof fn lemma_note_key_edits_add(n: Note, kd1: i16, kd2: i16)
    requires
        0 <= n.key + kd1 <= 127,
        i16::MIN <= kd1 + kd2 <= i16::MAX,
    ensures
        item_updated(item_updated(LaneItem::Note(n), kd1, 0, 0), kd2, 0, 0) == item_updated(
            LaneItem::Note(n),
            (kd1 + kd2) as i16,
            0,
            0,
        ),
{
}

/// The writes of an edit of the selection are, in order, one for each cell that
/// is not a note-off: its cursor and its item edited.
pub proof fn lemma_update_writes_edit_each(cells: Seq<(CursorTrack, LaneItem)>, kd: i16, vd: i16, dd: i16)
    ensures
        update_writes(cells, kd, vd, dd) == cells.filter(|c: (CursorTrack, LaneItem)| !is_note_off(c.1)).map_values(
            |c: (CursorTrack, LaneItem)| (c.0, Some(item_updated(c.1, kd, vd, dd))),
        ),
    decreases cells.len(),
{
    let pred = |c: (CursorTrack, LaneItem)| !is_note_off(c.1);
    let f = |c: (CursorTrack, LaneItem)| (c.0, Some(item_updated(c.1, kd, vd, dd)));
    if cells.len() == 0 {
        assert(cells.filter(pred) =~= seq![]) by {
            reveal(Seq::filter);
        }
        assert(cells.filter(pred).map_values(f) =~= seq![]);
    } else {
        let prev = cells.drop_last();
        lemma_update_writes_edit_each(prev, kd, vd, dd);
        assert(cells =~= prev.push(cells.last()));
        prev.lemma_filter_push(cells.last(), pred);
        if pred(cells.last()) {
            assert(prev.filter(pred).push(cells.last()).map_values(f) =~= prev.filter(pred).map_values(f).push(
                f(cells.last()),
            ));
        }
        assert(update_writes(cells, kd, vd, dd) =~= cells.filter(pred).map_values(f));
    }
}

/// The sums of an edit stay within `i16`, which the editor computes them in.
pub open spec fn update_fits(item: LaneItem, kd: i16, vd: i16, dd: i16) -> bool {
    match item {
        LaneItem::Note(n) => i16::MIN <= n.key + kd <= i16::MAX && n.delay + dd <= i16::MAX,
        LaneItem::Point(p) => p.value + vd <= i16::MAX && p.delay + dd <= i16::MAX,
        _ => true,
    }
}

/// The writes of an edit of the selection: every item but note-offs, edited.
pub open spec fn update_writes(cells: Seq<(CursorTrack, LaneItem)>, kd: i16, vd: i16, dd: i16) -> Seq<(CursorTrack, Option<LaneItem>)>
    decreases cells.len(),
{
    if cells.len() == 0 {
        seq![]
    } else {
        update_writes(cells.drop_last(), kd, vd, dd) + match cells.last().1 {
            LaneItem::Note(n) if n.off => seq![],
            item => seq![(cells.last().0, Some(item_updated(item, kd, vd, dd)))],
        }
    }
}

/// An edited item, as [`item_updated`] says.
pub fn item_update(item: &LaneItem, kd: i16, vd: i16, dd: i16) -> (r: LaneItem)
    ensures
        r == item_updated(*item, kd, vd, dd),
{
    match item {
        LaneItem::Note(n) => {
            let key = clamp_i32(n.key as i32 + kd as i32, 0, 127);
            let velocity = clamp_i32(n.velocity as i32 + vd as i32, 0, 127);
            let delay = clamp_i32(n.delay as i32 + dd as i32, 0, 255);
            LaneItem::Note(Note { key: key as i16, velocity: velocity as u8, delay: delay as u8, ..*n })
        },
        LaneItem::Point(p) => {
            let value = clamp_i32(p.value as i32 + vd as i32, 0, 255);
            let delay = clamp_i32(p.delay as i32 + dd as i32, 0, 255);
            LaneItem::Point(Point { value: value as u8, delay: delay as u8, ..*p })
        },
        other => other.clone(),
    }
}

fn clamp_i32(x: i32, lo: i32, hi: i32) -> (r: i32)
    requires
        lo <= hi,
    ensures
        r == clamp_int(x as int, lo as int, hi as int),
{
    if x < lo {
        lo
    } else if x > hi {
        hi
    } else {
        x
    }
}

/// Writes that walk from `start`: row `i` goes down from `start`'s line in the lane
/// `i` steps to the right of `start` (wrapping as the cursor does), one cell per
/// line.
pub open spec fn walk_writes(start: CursorTrack, s: SongV, rows: Seq<Seq<Option<LaneItem>>>) -> Seq<(CursorTrack, Option<LaneItem>)>
    decreases rows.len(),
{
    if rows.len() == 0 {
        seq![]
    } else {
        let lane = crate::cursor::lanes_moved(start, s, (rows.len() - 1) as nat, true);
        walk_writes(start, s, rows.drop_last()) + Seq::new(
            rows.last().len(),
            |k: int| (CursorTrack { line: (start.line + k) as usize, ..lane }, rows.last()[k]),
        )
    }
}

/// Moving across lanes keeps the cursor on an existing lane and on its line.
pub proof fn lemma_lanes_moved_valid(c: CursorTrack, s: SongV, n: nat, right: bool)
    requires
        cursor_valid(c, s),
        lanes_nonempty(s),
    ensures
        cursor_valid(crate::cursor::lanes_moved(c, s, n, right), s),
        crate::cursor::lanes_moved(c, s, n, right).line == c.line,
    decreases n,
{
    if n > 0 {
        lemma_lanes_moved_valid(c, s, (n - 1) as nat, right);
        let d = crate::cursor::lanes_moved(c, s, (n - 1) as nat, right);
        assert(s.tracks[d.track as int].lanes.len() > 0);
        if right {
            let r = crate::cursor::spec_right(d, s);
            assert(s.tracks[r.track as int].lanes.len() > 0);
        } else {
            let l = crate::cursor::spec_left(d, s);
            assert(s.tracks[l.track as int].lanes.len() > 0);
        }
    }
}

impl AppState {
    /// Writes `rows` as [`walk_writes`] says, from `start`.
    pub fn rows_write(&mut self, start: CursorTrack, rows: &Vec<Vec<Option<LaneItem>>>)
        requires
            cursor_valid(start, old(self).song@),
            lanes_nonempty(old(self).song@),
            forall|i: int| 0 <= i < rows@.len() ==> start.line + (#[trigger] rows@[i])@.len() <= usize::MAX,
        ensures
            writes_sent(
                old(self).to_singer@,
                final(self).to_singer@,
                walk_writes(start, old(self).song@, rows@.map_values(|r: Vec<Option<LaneItem>>| r@)),
            ),
            *final(self) == (AppState { to_singer: final(self).to_singer, ..*old(self) }),
    {
        let ghost s = self.song@;
        let ghost rv = rows@.map_values(|r: Vec<Option<LaneItem>>| r@);
        let mut cursor = start;
        for i in 0..rows.len()
            invariant
                s == self.song@,
                rv == rows@.map_values(|r: Vec<Option<LaneItem>>| r@),
                cursor_valid(start, s),
                lanes_nonempty(s),
                forall|j: int| 0 <= j < rows@.len() ==> start.line + (#[trigger] rows@[j])@.len() <= usize::MAX,
                cursor == (CursorTrack { line: start.line, ..crate::cursor::lanes_moved(start, s, i as nat, true) }),
                writes_sent(old(self).to_singer@, self.to_singer@, walk_writes(start, s, rv.take(i as int))),
                *self == (AppState { to_singer: self.to_singer, ..*old(self) }),
        {
            proof {
                lemma_lanes_moved_valid(start, s, i as nat, true);
            }
            let row = &rows[i];
            assert(row@ == rv[i as int]);
            let ghost before = self.to_singer@;
            let ghost lane = crate::cursor::lanes_moved(start, s, i as nat, true);
            for k in 0..row.len()
                invariant
                    s == self.song@,
                    cursor == (CursorTrack { line: (start.line + k) as usize, ..lane }),
                    cursor_valid(lane, s),
                    lanes_nonempty(s),
                    start.line + row@.len() <= usize::MAX,
                    self.to_singer@.len() == before.len() + k,
                    forall|j: int| 0 <= j < before.len() ==> #[trigger] self.to_singer@[j] == before[j],
                    forall|j: int|
                        0 <= j < k ==> is_cell_write(
                            #[trigger] self.to_singer@[before.len() + j],
                            CursorTrack { line: (start.line + j) as usize, ..lane },
                            row@[j],
                        ),
                    *self == (AppState { to_singer: self.to_singer, ..*old(self) }),
            {
                let item = match &row[k] {
                    Some(x) => Some(x.clone()),
                    None => None,
                };
                let ghost prev = self.to_singer@;
                assert(item == row@[k as int]);
                self.lane_item_send(cursor, item);
                assert(is_cell_write(self.to_singer@[prev.len() + 0int], cursor, item));
                assert forall|j: int|
                    0 <= j < k + 1 implies is_cell_write(
                    #[trigger] self.to_singer@[before.len() + j],
                    CursorTrack { line: (start.line + j) as usize, ..lane },
                    row@[j],
                ) by {
                    if j < k {
                        assert(self.to_singer@[before.len() + j] == prev[before.len() + j]);
                    }
                }
                cursor = cursor.down(&self.song);
            }
            cursor = CursorTrack { line: cursor.line, ..cursor }.right(&self.song);
            cursor.line = start.line;
            proof {
                let w = walk_writes(start, s, rv.take(i as int));
                assert(rv.take(i + 1).drop_last() =~= rv.take(i as int));
                assert(rv.take(i + 1).last() == row@);
                let w2 = walk_writes(start, s, rv.take(i + 1));
                assert(w2.len() == w.len() + row@.len());
                assert forall|j: int| 0 <= j < w2.len() implies is_cell_write(
                    #[trigger] self.to_singer@[old(self).to_singer@.len() + j],
                    w2[j].0,
                    w2[j].1,
                ) by {
                    if j < w.len() {
                        assert(self.to_singer@[old(self).to_singer@.len() + j] == before[old(self).to_singer@.len() + j]);
                    } else {
                        let k2 = j - w.len();
                        assert(self.to_singer@[old(self).to_singer@.len() + j] == self.to_singer@[before.len() + k2]);
                    }
                }
            }
        }
        assert(rv.take(rows@.len() as int) =~= rv);
    }
}

/// The item under the cursor after an edit without a selection: a note is edited
/// as [`item_updated`] says and becomes a note-off or not as `off` says; another
/// item is edited as [`item_updated`] says; an empty cell gets a new automation
/// point when the module delta is not zero, else the last note entered.
pub open spec fn single_update(cell: Option<LaneItem>, last: LaneItem, kd: i16, vd: i16, dd: i16, off: bool, md: i16) -> LaneItem {
    match cell {
        Some(LaneItem::Note(n)) => match item_updated(LaneItem::Note(n), kd, vd, dd) {
            LaneItem::Note(m) => LaneItem::Note(Note { off, ..m }),
            other => other,
        },
        Some(item) => item_updated(item, kd, vd, dd),
        None => if md != 0 {
            LaneItem::Point(Point { automation_params_index: 0, value: 0, delay: 0 })
        } else {
            last
        },
    }
}

/// The item is a note-off.
pub open spec fn is_note_off(item: LaneItem) -> bool {
    match item {
        LaneItem::Note(n) => n.off,
        _ => false,
    }
}

/// The writes of a move: every cell is cleared, then every item is written under
/// its cursor moved as [`crate::cursor::spec_move_by`] says.
pub open spec fn move_writes(cells: Seq<(CursorTrack, LaneItem)>, ld: i64, lnd: i64, s: SongV) -> Seq<(CursorTrack, Option<LaneItem>)> {
    Seq::new(cells.len(), |i: int| (cells[i].0, None::<LaneItem>)) + Seq::new(
        cells.len(),
        |i: int| (crate::cursor::spec_move_by(cells[i].0, ld as int, lnd as int, s), Some(cells[i].1)),
    )
}

/// The cursor can move by `lnd` lines without leaving `usize`.
pub open spec fn line_move_fits(c: CursorTrack, lnd: i64) -> bool {
    lnd < 0 ==> c.line + (-lnd) <= usize::MAX
}

/// What [`AppState::lane_items_update`] needs.
pub open spec fn lane_items_update_ok(a: AppState, kd: i16, vd: i16, dd: i16, off: bool, md: i16) -> bool {
    &&& (selection_range(a) matches Some((min, max)) ==> max.line < usize::MAX)
    &&& (a.selection_track_min is Some ==> forall|i: int|
                0 <= i < selection_cells(a).len() && !is_note_off(#[trigger] selection_cells(a)[i].1)
                    ==> update_fits(selection_cells(a)[i].1, kd, vd, dd))
    &&& (a.selection_track_min is None ==> match spec_lane_item(a.song@, a.cursor_track) {
                Some(item) => update_fits(item, kd, vd, dd),
                None => true,
            })
}

/// What [`AppState::lane_items_update`] does, from `a` to `b`.
pub open spec fn lane_items_update_effect(a: AppState, b: AppState, kd: i16, vd: i16, dd: i16, off: bool, md: i16) -> bool {
    &&& (a.selection_track_min is Some ==> writes_sent(
                a.to_singer@,
                b.to_singer@,
                update_writes(selection_cells(a), kd, vd, dd),
            ) && b == (AppState { to_singer: b.to_singer, ..a }))
    &&& (a.selection_track_min is None ==> {
                let new = single_update(
                    spec_lane_item(a.song@, a.cursor_track),
                    a.lane_item_last,
                    kd,
                    vd,
                    dd,
                    off,
                    md,
                );
                &&& writes_sent(a.to_singer@, b.to_singer@, seq![(a.cursor_track, Some(new))])
                &&& b == (AppState {
                    to_singer: b.to_singer,
                    lane_item_last: if new is Note && !is_note_off(new) {
                        new
                    } else {
                        a.lane_item_last
                    },
                    ..a
                })
            })
}

/// What [`AppState::select_mode`] needs.
pub open spec fn select_mode_ok(a: AppState) -> bool {
    &&& (app_wf(a))
}

/// What [`AppState::select_mode`] does, from `a` to `b`.
pub open spec fn select_mode_effect(a: AppState, b: AppState) -> bool {
    &&& (app_wf(b))
    &&& (!a.select_p ==> b == (AppState {
                select_p: true,
                selection_track_min: Some(a.cursor_track),
                selection_track_max: None,
                ..a
            }))
    &&& (a.select_p ==> (selection_range(a) matches Some((min, max)) && b == (AppState {
                select_p: false,
                selection_track_min: Some(min),
                selection_track_max: Some(max),
                ..a
            })))
}

impl AppState {
    /// Edits the items of the selection, or the item under the cursor, as
    /// [`update_writes`] and [`single_update`] say; the last note entered is
    /// remembered.
    pub fn lane_items_update(&mut self, kd: i16, vd: i16, dd: i16, off: bool, md: i16)
        requires
            lane_items_update_ok(*old(self), kd, vd, dd, off, md),
        ensures
            lane_items_update_effect(*old(self), *final(self), kd, vd, dd, off, md),
    {
        if self.selection_track_min.is_some() {
            let itemss = self.lane_items_selected_cloned();
            let cells = flatten_cells(&itemss);
            proof {
                let (min, max) = selection_range(*self)->0;
                assert(rows_view(itemss@) =~= selected_rows(self.song@, min, max));
            }
            assert(cells@ == selection_cells(*self));
            for i in 0..cells.len()
                invariant
                    cells@ == selection_cells(*old(self)),
                    forall|j: int|
                        0 <= j < cells@.len() && !is_note_off(#[trigger] cells@[j].1) ==> update_fits(cells@[j].1, kd, vd, dd),
                    writes_sent(old(self).to_singer@, self.to_singer@, update_writes(cells@.take(i as int), kd, vd, dd)),
                    *self == (AppState { to_singer: self.to_singer, ..*old(self) }),
            {
                let c = cells[i].0;
                let item = &cells[i].1;
                let ghost prev = self.to_singer@;
                assert(cells@.take(i + 1).drop_last() =~= cells@.take(i as int));
                let skip = match item {
                    LaneItem::Note(n) => n.off,
                    _ => false,
                };
                if !skip {
                    let new = item_update(item, kd, vd, dd);
                    self.lane_item_send(c, Some(new));
                    proof {
                        let w = update_writes(cells@.take(i as int), kd, vd, dd);
                        let w2 = update_writes(cells@.take(i + 1), kd, vd, dd);
                        assert(w2 == w + seq![(c, Some(new))]);
                        assert forall|j: int| 0 <= j < w2.len() implies is_cell_write(
                            #[trigger] self.to_singer@[old(self).to_singer@.len() + j],
                            w2[j].0,
                            w2[j].1,
                        ) by {
                            if j < w.len() {
                                assert(self.to_singer@[old(self).to_singer@.len() + j] == prev[old(self).to_singer@.len() + j]);
                            } else {
                                assert(self.to_singer@[old(self).to_singer@.len() + j] == self.to_singer@[prev.len() + 0int]);
                            }
                        }
                    }
                } else {
                    assert(update_writes(cells@.take(i + 1), kd, vd, dd) == update_writes(cells@.take(i as int), kd, vd, dd));
                }
            }
            assert(cells@.take(cells@.len() as int) =~= cells@);
        } else {
            let cell = self.song.lane_item(&self.cursor_track);
            let new = match cell {
                Some(LaneItem::Note(n)) => {
                    let updated = item_update(&LaneItem::Note(*n), kd, vd, dd);
                    match updated {
                        LaneItem::Note(m) => LaneItem::Note(Note { off, ..m }),
                        other => other,
                    }
                },
                Some(item) => item_update(item, kd, vd, dd),
                None => {
                    if md != 0 {
                        LaneItem::Point(Point::default())
                    } else {
                        self.lane_item_last.clone()
                    }
                },
            };
            let is_on_note = match &new {
                LaneItem::Note(n) => !n.off,
                _ => false,
            };
            let kept = if is_on_note {
                Some(new.clone())
            } else {
                None
            };
            self.lane_item_send(self.cursor_track, Some(new));
            match kept {
                Some(x) => {
                    self.lane_item_last = x;
                },
                None => {},
            }
        }
    }

    /// Opens a selection at the cursor, or closes the open one at its corners.
    pub fn select_mode(&mut self)
        requires
            select_mode_ok(*old(self)),
        ensures
            select_mode_effect(*old(self), *final(self)),
    {
        self.select_p = !self.select_p;
        if self.select_p {
            self.selection_track_min = Some(self.cursor_track);
            self.selection_track_max = None;
        } else {
            match self.lane_items_selection_range() {
                Some((min, max)) => {
                    self.selection_track_min = Some(min);
                    self.selection_track_max = Some(max);
                },
                None => {},
            }
        }
    }

    /// Drops the selection.
    pub fn select_clear(&mut self)
        ensures
            app_wf(*final(self)),
            *final(self) == (AppState {
                select_p: false,
                selection_track_min: None,
                selection_track_max: None,
                ..*old(self)
            }),
    {
        self.select_p = false;
        self.selection_track_min = None;
        self.selection_track_max = None;
    }
}

/// The items of rows of cells.
pub open spec fn rows_items(rows: Seq<Seq<Option<(CursorTrack, LaneItem)>>>) -> Seq<Seq<Option<LaneItem>>> {
    rows.map_values(
        |row: Seq<Option<(CursorTrack, LaneItem)>>|
            row.map_values(
                |c: Option<(CursorTrack, LaneItem)>|
                    match c {
                        Some(x) => Some(x.1),
                        None => None,
                    },
            ),
    )
}

/// The selection as it stands after it is closed, if it is open.
pub open spec fn selection_closed(s: AppState) -> AppState {
    if s.select_p {
        match selection_range(s) {
            Some((min, max)) => AppState {
                select_p: false,
                selection_track_min: Some(min),
                selection_track_max: Some(max),
                ..s
            },
            None => s,
        }
    } else {
        s
    }
}

/// The writes that clear every cell of the lanes `lanes` from line `first` on, `n`
/// lines each, lane by lane.
pub open spec fn clear_writes(lanes: Seq<(usize, usize)>, first: usize, n: nat) -> Seq<(CursorTrack, Option<LaneItem>)>
    decreases lanes.len(),
{
    if lanes.len() == 0 {
        seq![]
    } else {
        clear_writes(lanes.drop_last(), first, n) + Seq::new(
            n,
            |k: int| (CursorTrack { track: lanes.last().0, lane: lanes.last().1, line: (first + k) as usize }, None::<LaneItem>),
        )
    }
}

/// A cut clears the whole block of the selection: `n` writes per selected lane, and
/// write `i * n + k` clears line `first + k` of the `i`-th selected lane, so that
/// every line of every selected lane is cleared, each once, and nothing else.
pub proof fn lemma_clear_writes_cover(lanes: Seq<(usize, usize)>, first: usize, n: nat)
    ensures
        clear_writes(lanes, first, n).len() == lanes.len() * n,
        forall|i: int, k: int|
            0 <= i < lanes.len() && 0 <= k < n ==> #[trigger] clear_writes(lanes, first, n)[i * n + k] == (
            CursorTrack { track: lanes[i].0, lane: lanes[i].1, line: (first + k) as usize },
            None::<LaneItem>,
        ),
    decreases lanes.len(),
{
    let w = clear_writes(lanes, first, n);
    if lanes.len() > 0 {
        let m = (lanes.len() - 1) as int;
        let prev = lanes.drop_last();
        lemma_clear_writes_cover(prev, first, n);
        let w0 = clear_writes(prev, first, n);
        assert(m * n + n == lanes.len() * n) by (nonlinear_arith)
            requires
                m == lanes.len() - 1,
        ;
        assert forall|i: int, k: int| 0 <= i < lanes.len() && 0 <= k < n implies #[trigger] w[i * n + k] == (
            CursorTrack { track: lanes[i].0, lane: lanes[i].1, line: (first + k) as usize },
            None::<LaneItem>,
        ) by {
            if i < m {
                assert(i * n + k < m * n) by (nonlinear_arith)
                    requires
                        0 <= i < m,
                        0 <= k < n,
                ;
                assert(0 <= i * n) by (nonlinear_arith)
                    requires
                        0 <= i,
                ;
                assert(prev[i] == lanes[i]);
                assert(w[i * n + k] == w0[i * n + k]);
            } else {
                assert(i * n == m * n);
                assert(w[i * n + k] == w[w0.len() + k]);
            }
        }
    }
}

proof fn lemma_somes_cells(s: SongV, row: Seq<Option<(CursorTrack, LaneItem)>>)
    requires
        forall|k: int| 0 <= k < row.len() ==> (#[trigger] row[k] matches Some(x) ==> spec_lane_item(s, x.0) == Some(x.1)),
    ensures
        forall|i: int| 0 <= i < somes(row).len() ==> spec_lane_item(s, (#[trigger] somes(row)[i]).0) == Some(somes(row)[i].1),
    decreases row.len(),
{
    if row.len() > 0 {
        let p = row.drop_last();
        assert forall|k: int| 0 <= k < p.len() implies (#[trigger] p[k] matches Some(x) ==> spec_lane_item(s, x.0) == Some(x.1)) by {
            assert(p[k] == row[k]);
        }
        lemma_somes_cells(s, p);
        assert(row[row.len() - 1] == row.last());
    }
}

proof fn lemma_flat_cells_items(s: SongV, rows: Seq<Seq<Option<(CursorTrack, LaneItem)>>>)
    requires
        forall|i: int, k: int|
            0 <= i < rows.len() && 0 <= k < rows[i].len() ==> (#[trigger] rows[i][k] matches Some(x) ==> spec_lane_item(s, x.0) == Some(x.1)),
    ensures
        forall|i: int| 0 <= i < flat_cells(rows).len() ==> spec_lane_item(s, (#[trigger] flat_cells(rows)[i]).0) == Some(flat_cells(rows)[i].1),
    decreases rows.len(),
{
    if rows.len() > 0 {
        let p = rows.drop_last();
        assert forall|i: int, k: int| 0 <= i < p.len() && 0 <= k < p[i].len() implies (#[trigger] p[i][k] matches Some(x) ==> spec_lane_item(
            s,
            x.0,
        ) == Some(x.1)) by {
            assert(p[i] == rows[i]);
        }
        lemma_flat_cells_items(s, p);
        let last = rows.last();
        assert forall|k: int| 0 <= k < last.len() implies (#[trigger] last[k] matches Some(x) ==> spec_lane_item(s, x.0) == Some(x.1)) by {
            assert(last[k] == rows[rows.len() - 1][k]);
        }
        lemma_somes_cells(s, last);
    }
}

/// Every cell of the selection that holds an item is an existing cell holding it.
pub proof fn lemma_selection_cells(a: AppState)
    ensures
        forall|i: int|
            0 <= i < selection_cells(a).len() ==> spec_lane_item(a.song@, (#[trigger] selection_cells(a)[i]).0) == Some(
                selection_cells(a)[i].1,
            ) && cursor_valid(selection_cells(a)[i].0, a.song@),
{
    match selection_range(a) {
        Some((min, max)) => {
            let rows = selected_rows(a.song@, min, max);
            lemma_flat_cells_items(a.song@, rows);
        },
        None => {},
    }
}

/// Moving across lines keeps the order of lines.
proof fn lemma_lines_moved_monotone(a: CursorTrack, b: CursorTrack, n: nat, up: bool)
    requires
        a.line <= b.line,
        !up ==> b.line + n <= usize::MAX,
    ensures
        crate::cursor::lines_moved(a, n, up).line <= crate::cursor::lines_moved(b, n, up).line,
        !up ==> crate::cursor::lines_moved(b, n, up).line == b.line + n,
        !up ==> crate::cursor::lines_moved(a, n, up).line == a.line + n,
    decreases n,
{
    if n > 0 {
        lemma_lines_moved_monotone(a, b, (n - 1) as nat, up);
    }
}

proof fn lemma_lanes_moved_line(c: CursorTrack, s: SongV, n: nat, right: bool)
    requires
        cursor_valid(c, s),
        lanes_nonempty(s),
    ensures
        crate::cursor::lanes_moved(c, s, n, right).line == c.line,
{
    lemma_lanes_moved_valid(c, s, n, right);
}

/// What [`AppState::lane_items_move`] needs.
pub open spec fn lane_items_move_ok(a: AppState, ld: i64, lnd: i64) -> bool {
    &&& (app_wf(a))
    &&& (lanes_nonempty(a.song@))
    &&& (ld > i64::MIN)
    &&& (lnd > i64::MIN)
    &&& (cursor_valid(a.cursor_track, a.song@))
    &&& (line_move_fits(a.cursor_track, lnd))
    &&& (selection_range(a) matches Some((min, max)) ==> max.line < usize::MAX)
    &&& (a.selection_track_min matches Some(m) ==> cursor_valid(m, a.song@) && line_move_fits(m, lnd))
    &&& (a.selection_track_max matches Some(m) ==> cursor_valid(m, a.song@) && line_move_fits(m, lnd))
    &&& (forall|i: int| 0 <= i < selection_cells(a).len() ==> line_move_fits(#[trigger] selection_cells(a)[i].0, lnd))
}

/// What [`AppState::lane_items_move`] does, from `a` to `b`.
pub open spec fn lane_items_move_effect(a: AppState, b: AppState, ld: i64, lnd: i64) -> bool {
    &&& (app_wf(b))
    &&& (b.cursor_track == crate::cursor::spec_move_by(a.cursor_track, ld as int, lnd as int, a.song@))
    &&& (a.selection_track_min is Some ==> {
                &&& writes_sent(
                    a.to_singer@,
                    b.to_singer@,
                    move_writes(selection_cells(a), ld, lnd, a.song@),
                )
                &&& b == (AppState {
                    to_singer: b.to_singer,
                    cursor_track: b.cursor_track,
                    selection_track_min: Some(crate::cursor::spec_move_by(a.selection_track_min->0, ld as int, lnd as int, a.song@)),
                    selection_track_max: match a.selection_track_max {
                        Some(m) => Some(crate::cursor::spec_move_by(m, ld as int, lnd as int, a.song@)),
                        None => None,
                    },
                    ..a
                })
            })
    &&& (a.selection_track_min is None ==> {
                &&& match spec_lane_item(a.song@, a.cursor_track) {
                    Some(item) => writes_sent(
                        a.to_singer@,
                        b.to_singer@,
                        seq![
                            (a.cursor_track, None),
                            (crate::cursor::spec_move_by(a.cursor_track, ld as int, lnd as int, a.song@), Some(item)),
                        ],
                    ),
                    None => b.to_singer@ =~= a.to_singer@,
                }
                &&& b == (AppState {
                    to_singer: b.to_singer,
                    cursor_track: b.cursor_track,
                    ..a
                })
            })
}

impl AppState {
    /// The lanes that the selection from `min` to `max` covers, as
    /// [`selected_lanes`] says.
    pub fn selected_lanes_of(&self, min: CursorTrack, max: CursorTrack) -> (r: Vec<(usize, usize)>)
        ensures
            r@ == selected_lanes(self.song@, min, max),
    {
        let mut r: Vec<(usize, usize)> = Vec::new();
        proof {
            self.song.lemma_view_len();
        }
        let ghost s = self.song@;
        if min.track > max.track {
            assert(selected_lanes_to(s, min, max, max.track + 1) =~= seq![]);
            return r;
        }
        let ntracks = self.song.tracks.len();
        let last = if max.track < ntracks {
            max.track + 1
        } else {
            ntracks
        };
        let mut t = min.track;
        assert(selected_lanes_to(s, min, max, t as int) =~= seq![]);
        while t < last
            invariant
                s == self.song@,
                ntracks == s.tracks.len(),
                max.track < usize::MAX ==> last <= max.track + 1,
                last <= ntracks,
                min.track <= t,
                min.track <= max.track,
                t <= last || t == min.track,
                r@ == selected_lanes_to(s, min, max, t as int),
            decreases last - t,
        {
            proof {
                self.song.lemma_track_view(t as int);
            }
            let nlanes = self.song.tracks[t].lanes.len();
            let first: usize = if t == min.track {
                min.lane
            } else {
                0
            };
            let lane_last: usize = if t == max.track {
                max.lane
            } else {
                nlanes
            };
            let end: usize = if lane_last < nlanes {
                lane_last + 1
            } else {
                nlanes
            };
            let ghost before = r@;
            let mut l = first;
            while l < end
                invariant
                    first <= l,
                    l <= end || l == first,
                    r@ == before + Seq::new((if l >= first { l - first } else { 0 }) as nat, |i: int| (t, (first + i) as usize)),
                decreases end - l,
            {
                r.push((t, l));
                l = l + 1;
                assert(r@ =~= before + Seq::new((l - first) as nat, |i: int| (t, (first + i) as usize)));
            }
            assert(r@ =~= selected_lanes_to(s, min, max, t + 1));
            t = t + 1;
        }
        proof {
            lemma_selected_lanes_tail(s, min, max, t as int);
        }
        r
    }

    /// Moves the items of the selection (or the item under the cursor) by `ld`
    /// lanes and `lnd` lines, as [`move_writes`] says, together with the selection
    /// corners and the cursor.
    pub fn lane_items_move(&mut self, ld: i64, lnd: i64)
        requires
            lane_items_move_ok(*old(self), ld, lnd),
        ensures
            lane_items_move_effect(*old(self), *final(self), ld, lnd),
    {
        let ghost s = self.song@;
        if self.selection_track_min.is_some() {
            let itemss = self.lane_items_selected_cloned();
            let cells = flatten_cells(&itemss);
            proof {
                let (min, max) = selection_range(*self)->0;
                assert(rows_view(itemss@) =~= selected_rows(self.song@, min, max));
                lemma_selection_cells(*self);
            }
            let n = cells.len();
            for i in 0..n
                invariant
                    n == cells@.len(),
                    cells@ == selection_cells(*old(self)),
                    writes_sent(
                        old(self).to_singer@,
                        self.to_singer@,
                        Seq::new(i as nat, |j: int| (cells@[j].0, None::<LaneItem>)),
                    ),
                    *self == (AppState { to_singer: self.to_singer, ..*old(self) }),
            {
                let ghost prev = self.to_singer@;
                self.lane_item_send(cells[i].0, None);
                proof {
                    let w = Seq::new((i + 1) as nat, |j: int| (cells@[j].0, None::<LaneItem>));
                    assert forall|j: int| 0 <= j < w.len() implies is_cell_write(
                        #[trigger] self.to_singer@[old(self).to_singer@.len() + j],
                        w[j].0,
                        w[j].1,
                    ) by {
                        if j < i {
                            assert(self.to_singer@[old(self).to_singer@.len() + j] == prev[old(self).to_singer@.len() + j]);
                        } else {
                            assert(self.to_singer@[old(self).to_singer@.len() + j] == self.to_singer@[prev.len() + 0int]);
                        }
                    }
                }
            }
            let ghost deleted = self.to_singer@;
            for i in 0..n
                invariant
                    n == cells@.len(),
                    cells@ == selection_cells(*old(self)),
                    s == self.song@,
                    lanes_nonempty(s),
                    ld > i64::MIN,
                    lnd > i64::MIN,
                    forall|j: int| 0 <= j < n ==> spec_lane_item(s, (#[trigger] cells@[j]).0) == Some(cells@[j].1) && cursor_valid(cells@[j].0, s),
                    forall|j: int| 0 <= j < n ==> line_move_fits(#[trigger] cells@[j].0, lnd),
                    deleted.len() == old(self).to_singer@.len() + n,
                    writes_sent(
                        old(self).to_singer@,
                        self.to_singer@,
                        Seq::new(n as nat, |j: int| (cells@[j].0, None::<LaneItem>)) + Seq::new(
                            i as nat,
                            |j: int| (crate::cursor::spec_move_by(cells@[j].0, ld as int, lnd as int, s), Some(cells@[j].1)),
                        ),
                    ),
                    *self == (AppState { to_singer: self.to_singer, ..*old(self) }),
            {
                assert(cursor_valid(cells@[i as int].0, s));
                assert(line_move_fits(cells@[i as int].0, lnd));
                let c = cells[i].0.move_by(ld, lnd, &self.song);
                let ghost prev = self.to_singer@;
                self.lane_item_send(c, Some(cells[i].1.clone()));
                proof {
                    let d = Seq::new(n as nat, |j: int| (cells@[j].0, None::<LaneItem>));
                    let w0 = d + Seq::new(
                        i as nat,
                        |j: int| (crate::cursor::spec_move_by(cells@[j].0, ld as int, lnd as int, s), Some(cells@[j].1)),
                    );
                    let w = d + Seq::new(
                        (i + 1) as nat,
                        |j: int| (crate::cursor::spec_move_by(cells@[j].0, ld as int, lnd as int, s), Some(cells@[j].1)),
                    );
                    assert forall|j: int| 0 <= j < w.len() implies is_cell_write(
                        #[trigger] self.to_singer@[old(self).to_singer@.len() + j],
                        w[j].0,
                        w[j].1,
                    ) by {
                        if j < w0.len() {
                            assert(w[j] == w0[j]);
                            assert(self.to_singer@[old(self).to_singer@.len() + j] == prev[old(self).to_singer@.len() + j]);
                        } else {
                            assert(self.to_singer@[old(self).to_singer@.len() + j] == self.to_singer@[prev.len() + 0int]);
                        }
                    }
                }
            }
            assert(move_writes(cells@, ld, lnd, s) =~= Seq::new(n as nat, |j: int| (cells@[j].0, None::<LaneItem>)) + Seq::new(
                n as nat,
                |j: int| (crate::cursor::spec_move_by(cells@[j].0, ld as int, lnd as int, s), Some(cells@[j].1)),
            ));
            let mn = self.selection_track_min.unwrap();
            self.selection_track_min = Some(mn.move_by(ld, lnd, &self.song));
            match self.selection_track_max {
                Some(mx) => {
                    self.selection_track_max = Some(mx.move_by(ld, lnd, &self.song));
                    proof {
                        lemma_move_keeps_order(mn, mx, ld, lnd, s);
                    }
                },
                None => {},
            }
        } else {
            match self.song.lane_item(&self.cursor_track) {
                Some(item) => {
                    let item = item.clone();
                    let ghost prev0 = self.to_singer@;
                    self.lane_item_send(self.cursor_track, None);
                    let c = self.cursor_track.move_by(ld, lnd, &self.song);
                    let ghost prev1 = self.to_singer@;
                    self.lane_item_send(c, Some(item));
                    proof {
                        let w = seq![(old(self).cursor_track, None::<LaneItem>), (c, Some(item))];
                        assert forall|j: int| 0 <= j < w.len() implies is_cell_write(
                            #[trigger] self.to_singer@[old(self).to_singer@.len() + j],
                            w[j].0,
                            w[j].1,
                        ) by {
                            if j == 0 {
                                assert(self.to_singer@[old(self).to_singer@.len() + j] == prev1[prev0.len() + 0int]);
                            } else {
                                assert(self.to_singer@[old(self).to_singer@.len() + j] == self.to_singer@[prev1.len() + 0int]);
                            }
                        }
                    }
                },
                None => {},
            }
        }
        self.cursor_track = self.cursor_track.move_by(ld, lnd, &self.song);
    }
}

/// Moving both corners of a selection the same way keeps the first one on a line
/// not after the other's.
proof fn lemma_move_keeps_order(a: CursorTrack, b: CursorTrack, ld: i64, lnd: i64, s: SongV)
    requires
        a.line <= b.line,
        cursor_valid(a, s),
        cursor_valid(b, s),
        lanes_nonempty(s),
        line_move_fits(b, lnd),
        ld > i64::MIN,
        lnd > i64::MIN,
    ensures
        crate::cursor::spec_move_by(a, ld as int, lnd as int, s).line <= crate::cursor::spec_move_by(b, ld as int, lnd as int, s).line,
{
    let n: nat = if ld < 0 { (-ld) as nat } else { ld as nat };
    let right = ld >= 0;
    let a1 = crate::cursor::lanes_moved(a, s, n, right);
    let b1 = crate::cursor::lanes_moved(b, s, n, right);
    lemma_lanes_moved_line(a, s, n, right);
    lemma_lanes_moved_line(b, s, n, right);
    let m: nat = if lnd < 0 { (-lnd) as nat } else { lnd as nat };
    lemma_lines_moved_monotone(a1, b1, m, lnd >= 0);
}

/// What [`AppState::lane_items_copy_or_cut`] needs.
pub open spec fn lane_items_copy_or_cut_ok(a: AppState, copy_p: bool) -> bool {
    &&& (app_wf(a))
    &&& (selection_closed(a).selection_track_max matches Some(mx) ==> mx.line < usize::MAX)
}

/// What [`AppState::lane_items_copy_or_cut`] does, from `a` to `b`.
pub open spec fn lane_items_copy_or_cut_effect(a: AppState, b: AppState, copy_p: bool) -> bool {
    let c = selection_closed(a);
    &&& app_wf(b)
    &&& match (c.selection_track_min, c.selection_track_max) {
        (Some(mn), Some(mx)) => {
            &&& b.effects@.len() == a.effects@.len() + 1
            &&& b.effects@.drop_last() =~= a.effects@
            &&& b.effects@.last() matches UiEffect::ClipboardLaneItems(rows) && rows@.len() == selected_lanes(c.song@, mn, mx).len()
                && forall|i: int|
                0 <= i < rows@.len() ==> (#[trigger] rows@[i])@ == rows_items(selected_rows(c.song@, mn, mx))[i]
            &&& copy_p ==> b.to_singer@ =~= a.to_singer@
            &&& !copy_p ==> writes_sent(
                a.to_singer@,
                b.to_singer@,
                clear_writes(selected_lanes(c.song@, mn, mx), mn.line, (mx.line - mn.line + 1) as nat),
            )
            &&& b == (AppState { to_singer: b.to_singer, effects: b.effects, ..c })
        },
        _ => b == c,
    }
}

/// What [`AppState::lane_items_dup`] needs.
pub open spec fn lane_items_dup_ok(a: AppState) -> bool {
    let c = selection_closed(a);
    &&& app_wf(a)
    &&& cursor_valid(a.cursor_track, a.song@)
    &&& lanes_nonempty(a.song@)
    &&& match (c.selection_track_min, c.selection_track_max) {
        (Some(mn), Some(mx)) => selection_range(c) matches Some((rmin, rmax)) && mx.line + 1 + (rmax.line - rmin.line + 1)
            <= usize::MAX && mx.line + (mx.line - mn.line + 1) <= usize::MAX,
        _ => selection_range(c) matches Some((rmin, rmax)) ==> rmax.line < usize::MAX,
    }
}

/// What [`AppState::lane_items_dup`] does, from `a` to `b`.
pub open spec fn lane_items_dup_effect(a: AppState, b: AppState) -> bool {
    let c = selection_closed(a);
    &&& app_wf(b)
    &&& match (c.selection_track_min, c.selection_track_max) {
        (Some(mn), Some(mx)) => {
            let start = CursorTrack { line: (mx.line + 1) as usize, ..c.cursor_track };
            let d = mx.line - mn.line + 1;
            let (rmin, rmax) = selection_range(c)->0;
            &&& writes_sent(a.to_singer@, b.to_singer@, walk_writes(start, c.song@, rows_items(selected_rows(c.song@, rmin, rmax))))
            &&& b == (AppState {
                to_singer: b.to_singer,
                cursor_track: start,
                selection_track_min: Some(CursorTrack { line: (mn.line + d) as usize, ..mn }),
                selection_track_max: Some(CursorTrack { line: (mx.line + d) as usize, ..mx }),
                ..c
            })
        },
        _ => b == c,
    }
}

impl AppState {
    /// The rows of the selection from `min` to `max` as plain items: for each lane
    /// of [`selected_lanes`], the cells from `min`'s line to `max`'s, holding an item
    /// or not.
    pub fn selection_items_of(&self, min: CursorTrack, max: CursorTrack) -> (r: (Vec<(usize, usize)>, Vec<Vec<Option<LaneItem>>>))
        requires
            min.line <= max.line < usize::MAX,
        ensures
            r.0@ == selected_lanes(self.song@, min, max),
            r.1@.len() == r.0@.len(),
            forall|i: int| 0 <= i < r.1@.len() ==> (#[trigger] r.1@[i])@ == rows_items(selected_rows(self.song@, min, max))[i],
    {
        let lanes = self.selected_lanes_of(min, max);
        let mut rows: Vec<Vec<Option<LaneItem>>> = Vec::new();
        for i in 0..lanes.len()
            invariant
                lanes@ == selected_lanes(self.song@, min, max),
                min.line <= max.line < usize::MAX,
                rows@.len() == i,
                forall|j: int| 0 <= j < i ==> (#[trigger] rows@[j])@ == rows_items(selected_rows(self.song@, min, max))[j],
        {
            let (t, l) = lanes[i];
            let mut row: Vec<Option<LaneItem>> = Vec::new();
            let mut line = min.line;
            while line <= max.line
                invariant
                    min.line <= line <= max.line + 1,
                    max.line < usize::MAX,
                    row@.len() == line - min.line,
                    forall|k: int|
                        0 <= k < row@.len() ==> #[trigger] row@[k] == spec_lane_item(
                            self.song@,
                            CursorTrack { track: t, lane: l, line: (min.line + k) as usize },
                        ),
                decreases max.line + 1 - line,
            {
                let c = CursorTrack { track: t, lane: l, line };
                let cell = match self.song.lane_item(&c) {
                    Some(item) => Some(item.clone()),
                    None => None,
                };
                row.push(cell);
                line = line + 1;
            }
            assert(row@ =~= rows_items(selected_rows(self.song@, min, max))[i as int]);
            rows.push(row);
        }
        (lanes, rows)
    }

    /// Copies the selection to the clipboard, closing it first if it is open; a cut
    /// also clears every cell of it, lane by lane, as [`clear_writes`] says.
    #[verifier::rlimit(40)]
    pub fn lane_items_copy_or_cut(&mut self, copy_p: bool)
        requires
            lane_items_copy_or_cut_ok(*old(self), copy_p),
        ensures
            lane_items_copy_or_cut_effect(*old(self), *final(self), copy_p),
    {
        if self.select_p {
            self.select_mode();
        }
        let ghost a = *self;
        match (self.selection_track_min, self.selection_track_max) {
            (Some(mn), Some(mx)) => {
                let (lanes, rows) = self.selection_items_of(mn, mx);
                if !copy_p {
                    let ghost n = (mx.line - mn.line + 1) as nat;
                    for i in 0..lanes.len()
                        invariant
                            lanes@ == selected_lanes(a.song@, mn, mx),
                            mn.line <= mx.line < usize::MAX,
                            n == mx.line - mn.line + 1,
                            writes_sent(old(self).to_singer@, self.to_singer@, clear_writes(lanes@.take(i as int), mn.line, n)),
                            *self == (AppState { to_singer: self.to_singer, ..a }),
                    {
                        let (t, l) = lanes[i];
                        let ghost before = self.to_singer@;
                        let ghost w0 = clear_writes(lanes@.take(i as int), mn.line, n);
                        let mut line = mn.line;
                        while line <= mx.line
                            invariant
                                mn.line <= line <= mx.line + 1,
                                mx.line < usize::MAX,
                                self.to_singer@.len() == before.len() + (line - mn.line),
                                forall|j: int| 0 <= j < before.len() ==> #[trigger] self.to_singer@[j] == before[j],
                                forall|k: int|
                                    0 <= k < line - mn.line ==> is_cell_write(
                                        #[trigger] self.to_singer@[before.len() + k],
                                        CursorTrack { track: t, lane: l, line: (mn.line + k) as usize },
                                        None,
                                    ),
                                *self == (AppState { to_singer: self.to_singer, ..a }),
                            decreases mx.line + 1 - line,
                        {
                            let ghost prev = self.to_singer@;
                            self.lane_item_send(CursorTrack { track: t, lane: l, line }, None);
                            assert forall|k: int|
                                0 <= k < line + 1 - mn.line implies is_cell_write(
                                #[trigger] self.to_singer@[before.len() + k],
                                CursorTrack { track: t, lane: l, line: (mn.line + k) as usize },
                                None,
                            ) by {
                                if k < line - mn.line {
                                    assert(self.to_singer@[before.len() + k] == prev[before.len() + k]);
                                } else {
                                    assert(self.to_singer@[before.len() + k] == self.to_singer@[prev.len() + 0int]);
                                }
                            }
                            line = line + 1;
                        }
                        proof {
                            assert(lanes@.take(i + 1).drop_last() =~= lanes@.take(i as int));
                            assert(lanes@.take(i + 1).last() == (t, l));
                            let w = clear_writes(lanes@.take(i + 1), mn.line, n);
                            assert forall|j: int| 0 <= j < w.len() implies is_cell_write(
                                #[trigger] self.to_singer@[old(self).to_singer@.len() + j],
                                w[j].0,
                                w[j].1,
                            ) by {
                                if j < w0.len() {
                                    assert(self.to_singer@[old(self).to_singer@.len() + j] == before[old(self).to_singer@.len() + j]);
                                } else {
                                    let k = j - w0.len();
                                    assert(self.to_singer@[old(self).to_singer@.len() + j] == self.to_singer@[before.len() + k]);
                                }
                            }
                        }
                    }
                    assert(lanes@.take(lanes@.len() as int) =~= lanes@);
                }
                self.effect(UiEffect::ClipboardLaneItems(rows));
            },
            _ => {},
        }
    }

    /// Writes the rows of items read from the clipboard from the cursor on, as
    /// [`walk_writes`] says.
    pub fn lane_items_paste(&mut self, itemss: &Vec<Vec<Option<LaneItem>>>)
        requires
            cursor_valid(old(self).cursor_track, old(self).song@),
            lanes_nonempty(old(self).song@),
            forall|i: int| 0 <= i < itemss@.len() ==> old(self).cursor_track.line + (#[trigger] itemss@[i])@.len() <= usize::MAX,
        ensures
            writes_sent(
                old(self).to_singer@,
                final(self).to_singer@,
                walk_writes(old(self).cursor_track, old(self).song@, itemss@.map_values(|r: Vec<Option<LaneItem>>| r@)),
            ),
            *final(self) == (AppState { to_singer: final(self).to_singer, ..*old(self) }),
    {
        let start = self.cursor_track;
        self.rows_write(start, itemss);
    }

    /// Duplicates the selection (closing it first if it is open) below itself: the
    /// cursor goes to the line after the selection, the items are written from
    /// there as [`walk_writes`] says, and the selection moves onto the copy.
    pub fn lane_items_dup(&mut self)
        requires
            lane_items_dup_ok(*old(self)),
        ensures
            lane_items_dup_effect(*old(self), *final(self)),
    {
        if self.select_p {
            self.select_mode();
        }
        let ghost a = *self;
        match (self.selection_track_min, self.selection_track_max) {
            (Some(mn), Some(mx)) => {
                let itemss = self.lane_items_selected_cloned();
                let ghost (rmin, rmax) = selection_range(a)->0;
                let mut rows: Vec<Vec<Option<LaneItem>>> = Vec::new();
                for i in 0..itemss.len()
                    invariant
                        itemss@.len() == selected_lanes(a.song@, rmin, rmax).len(),
                        forall|j: int|
                            0 <= j < itemss@.len() ==> (#[trigger] itemss@[j])@ == selected_row(
                                a.song@,
                                selected_lanes(a.song@, rmin, rmax)[j],
                                rmin,
                                rmax,
                            ),
                        rows@.len() == i,
                        forall|j: int| 0 <= j < i ==> (#[trigger] rows@[j])@ == rows_items(selected_rows(a.song@, rmin, rmax))[j],
                {
                    let mut row: Vec<Option<LaneItem>> = Vec::new();
                    let cells = &itemss[i];
                    for k in 0..cells.len()
                        invariant
                            cells@ == itemss@[i as int]@,
                            row@.len() == k,
                            forall|q: int|
                                0 <= q < k ==> #[trigger] row@[q] == match cells@[q] {
                                    Some(x) => Some(x.1),
                                    None => None::<LaneItem>,
                                },
                    {
                        let item = match &cells[k] {
                            Some(x) => Some(x.1.clone()),
                            None => None,
                        };
                        row.push(item);
                    }
                    assert(row@ =~= rows_items(selected_rows(a.song@, rmin, rmax))[i as int]);
                    rows.push(row);
                }
                assert(rows@.map_values(|r: Vec<Option<LaneItem>>| r@) =~= rows_items(selected_rows(a.song@, rmin, rmax)));
                self.cursor_track.line = mx.line + 1;
                let start = self.cursor_track;
                self.rows_write(start, &rows);
                let d = mx.line - mn.line + 1;
                self.selection_track_min = Some(CursorTrack { line: mn.line + d, ..mn });
                self.selection_track_max = Some(CursorTrack { line: mx.line + d, ..mx });
            },
            _ => {},
        }
    }
}

} // verus!
