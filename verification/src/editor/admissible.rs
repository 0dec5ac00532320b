//! Whether the editor can carry out a request of its user in the state it is in:
//! the test that [`crate::editor::app_commands::ui_ok`] states, made at run time.
use crate::cursor::{cursor_valid, lanes_nonempty, CursorTrack};
use crate::editor::app_commands::{next_track_cursor, prev_track_cursor, track_command_ok, ui_ok};
use crate::editor::app_state::{
    app_wf, flatten_cells, is_note_off, lane_items_copy_or_cut_ok, lane_items_dup_ok, lane_items_move_ok,
    lane_items_update_ok, line_move_fits, rows_view, selected_rows, selection_cells, selection_closed,
    selection_range, update_fits, AppState,
};
use crate::editor::ui_command::{LaneCommand, MixerCommand, ModuleCommand, TrackCommand, UiCommand};
use crate::model::lane_item::LaneItem;
use crate::model::song::{spec_lane_item, Song};
use vstd::prelude::*;

verus! {

fn cursor_valid_check(c: &CursorTrack, song: &Song) -> (r: bool)
    ensures
        r == cursor_valid(*c, song@),
{
    proof {
        song.lemma_view_len();
    }
    if c.track < song.tracks.len() {
        proof {
            song.lemma_track_view(c.track as int);
        }
        c.lane < song.tracks[c.track].lanes.len()
    } else {
        false
    }
}

fn lanes_nonempty_check(song: &Song) -> (r: bool)
    ensures
        r == lanes_nonempty(song@),
{
    proof {
        song.lemma_view_len();
    }
    let mut i: usize = 0;
    while i < song.tracks.len()
        invariant
            i <= song.tracks@.len(),
            song@.tracks.len() == song.tracks@.len(),
            forall|t: int| 0 <= t < i ==> #[trigger] song@.tracks[t].lanes.len() > 0,
        decreases song.tracks@.len() - i,
    {
        proof {
            song.lemma_track_view(i as int);
        }
        if song.tracks[i].lanes.len() == 0 {
            return false;
        }
        i = i + 1;
    }
    true
}

fn line_move_fits_check(c: &CursorTrack, lnd: i64) -> (r: bool)
    ensures
        r == line_move_fits(*c, lnd),
{
    if lnd < 0 {
        (c.line as i128) - (lnd as i128) <= usize::MAX as i128
    } else {
        true
    }
}

fn update_fits_check(item: &LaneItem, kd: i16, vd: i16, dd: i16) -> (r: bool)
    ensures
        r == update_fits(*item, kd, vd, dd),
{
    match item {
        LaneItem::Note(n) => {
            let k = n.key as i32 + kd as i32;
            i16::MIN as i32 <= k && k <= i16::MAX as i32 && n.delay as i32 + dd as i32 <= i16::MAX as i32
        },
        LaneItem::Point(p) => p.value as i32 + vd as i32 <= i16::MAX as i32 && p.delay as i32 + dd as i32
            <= i16::MAX as i32,
        _ => true,
    }
}

impl AppState {
    fn app_wf_check(&self) -> (r: bool)
        ensures
            r == app_wf(*self),
    {
        if self.select_p && self.selection_track_min.is_none() {
            return false;
        }
        match (&self.selection_track_min, &self.selection_track_max) {
            (Some(mn), Some(mx)) => mn.line <= mx.line,
            _ => true,
        }
    }

    /// The first corner and the other corner of the selection as it stands once it
    /// is closed, as [`selection_closed`] says.
    fn closed_corners(&self) -> (r: (Option<CursorTrack>, Option<CursorTrack>))
        ensures
            r == (selection_closed(*self).selection_track_min, selection_closed(*self).selection_track_max),
    {
        if self.select_p {
            match self.lane_items_selection_range() {
                Some((min, max)) => (Some(min), Some(max)),
                None => (self.selection_track_min, self.selection_track_max),
            }
        } else {
            (self.selection_track_min, self.selection_track_max)
        }
    }

    /// The cells of the selection that hold items, as [`selection_cells`] says.
    fn selection_cells_of(&self) -> (r: Vec<(CursorTrack, LaneItem)>)
        requires
            selection_range(*self) matches Some((min, max)) ==> max.line < usize::MAX,
        ensures
            r@ == selection_cells(*self),
    {
        let rows = self.lane_items_selected_cloned();
        let cells = flatten_cells(&rows);
        proof {
            match selection_range(*self) {
                Some((min, max)) => {
                    assert(rows_view(rows@) =~= selected_rows(self.song@, min, max));
                },
                None => {
                    assert(rows_view(rows@) =~= Seq::<Seq<Option<(CursorTrack, LaneItem)>>>::empty());
                },
            }
        }
        cells
    }

    fn update_ok_check(&self, kd: i16, vd: i16, dd: i16, off: bool, md: i16) -> (r: bool)
        ensures
            r == lane_items_update_ok(*self, kd, vd, dd, off, md),
    {
        match self.lane_items_selection_range() {
            Some((_, max)) => {
                if max.line == usize::MAX {
                    return false;
                }
            },
            None => {},
        }
        if self.selection_track_min.is_some() {
            let cells = self.selection_cells_of();
            let mut i: usize = 0;
            while i < cells.len()
                invariant
                    i <= cells@.len(),
                    cells@ == selection_cells(*self),
                    forall|j: int|
                        0 <= j < i && !is_note_off(#[trigger] cells@[j].1) ==> update_fits(cells@[j].1, kd, vd, dd),
                decreases cells@.len() - i,
            {
                let off_p = match &cells[i].1 {
                    LaneItem::Note(n) => n.off,
                    _ => false,
                };
                if !off_p && !update_fits_check(&cells[i].1, kd, vd, dd) {
                    return false;
                }
                i = i + 1;
            }
            true
        } else {
            match self.song.lane_item(&self.cursor_track) {
                Some(item) => update_fits_check(item, kd, vd, dd),
                None => true,
            }
        }
    }

    fn move_ok_check(&self, ld: i64, lnd: i64) -> (r: bool)
        ensures
            r == lane_items_move_ok(*self, ld, lnd),
    {
        if !self.app_wf_check() || !lanes_nonempty_check(&self.song) || ld == i64::MIN || lnd == i64::MIN {
            return false;
        }
        if !cursor_valid_check(&self.cursor_track, &self.song) || !line_move_fits_check(&self.cursor_track, lnd) {
            return false;
        }
        match self.lane_items_selection_range() {
            Some((_, max)) => {
                if max.line == usize::MAX {
                    return false;
                }
            },
            None => {},
        }
        match &self.selection_track_min {
            Some(m) => {
                if !cursor_valid_check(m, &self.song) || !line_move_fits_check(m, lnd) {
                    return false;
                }
            },
            None => {},
        }
        match &self.selection_track_max {
            Some(m) => {
                if !cursor_valid_check(m, &self.song) || !line_move_fits_check(m, lnd) {
                    return false;
                }
            },
            None => {},
        }
        let cells = self.selection_cells_of();
        let mut i: usize = 0;
        while i < cells.len()
            invariant
                i <= cells@.len(),
                cells@ == selection_cells(*self),
                forall|j: int| 0 <= j < i ==> line_move_fits(#[trigger] cells@[j].0, lnd),
            decreases cells@.len() - i,
        {
            if !line_move_fits_check(&cells[i].0, lnd) {
                return false;
            }
            i = i + 1;
        }
        true
    }

    fn copy_or_cut_ok_check(&self, copy_p: bool) -> (r: bool)
        ensures
            r == lane_items_copy_or_cut_ok(*self, copy_p),
    {
        if !self.app_wf_check() {
            return false;
        }
        match self.closed_corners().1 {
            Some(mx) => mx.line < usize::MAX,
            None => true,
        }
    }

    fn dup_ok_check(&self) -> (r: bool)
        ensures
            r == lane_items_dup_ok(*self),
    {
        if !self.app_wf_check() || !cursor_valid_check(&self.cursor_track, &self.song) || !lanes_nonempty_check(
            &self.song,
        ) {
            return false;
        }
        let ghost c = selection_closed(*self);
        let (cmin, cmax) = self.closed_corners();
        match (cmin, cmax) {
            (Some(mn), Some(mx)) => {
                let rmin = mn.min_merge(&mx);
                let rmax = mn.max_merge(&mx);
                assert(selection_range(c) == Some((rmin, rmax)));
                let a = mx.line as i128 + 1 + (rmax.line as i128 - rmin.line as i128 + 1);
                let b = mx.line as i128 + (mx.line as i128 - mn.line as i128 + 1);
                a <= usize::MAX as i128 && b <= usize::MAX as i128
            },
            (Some(mn), None) => {
                let rmax = mn.max_merge(&self.cursor_track);
                assert(selection_range(c) matches Some((_, x)) && x == rmax);
                rmax.line < usize::MAX
            },
            _ => true,
        }
    }

    /// Whether the request `command` can be carried out in this state, as [`ui_ok`]
    /// says.
    pub fn ui_command_admissible(&self, command: &UiCommand) -> (r: bool)
        ensures
            r == ui_ok(*self, *command),
    {
        proof {
            self.song.lemma_view_len();
        }
        let ntracks = self.song.tracks.len();
        let track = self.cursor_track.track;
        match command {
            UiCommand::Lane(lc) => match lc {
                LaneCommand::Copy => self.copy_or_cut_ok_check(true),
                LaneCommand::Cut => self.copy_or_cut_ok_check(false),
                LaneCommand::CursorDown => self.cursor_track.line < usize::MAX,
                LaneCommand::CursorLeft => cursor_valid_check(&self.cursor_track, &self.song) && lanes_nonempty_check(
                    &self.song,
                ),
                LaneCommand::CursorRight => cursor_valid_check(&self.cursor_track, &self.song)
                    && lanes_nonempty_check(&self.song),
                LaneCommand::Dup => self.dup_ok_check(),
                LaneCommand::LaneItemMove(ld, lnd) => self.move_ok_check(*ld, *lnd),
                LaneCommand::LaneItemUpdate(kd, vd, dd, off, md) => self.update_ok_check(*kd, *vd, *dd, *off, *md),
                LaneCommand::SelectMode => self.app_wf_check(),
                _ => true,
            },
            UiCommand::Module(mc) => match mc {
                ModuleCommand::CursorUp => self.cursor_module.index != 0 || track < ntracks,
                ModuleCommand::CursorDown => track < ntracks && self.cursor_module.index < usize::MAX,
                ModuleCommand::CursorLeft => {
                    if ntracks == 0 {
                        false
                    } else {
                        let prev = if track == 0 {
                            ntracks - 1
                        } else {
                            track - 1
                        };
                        assert(prev == prev_track_cursor(*self).track);
                        prev < ntracks
                    }
                },
                ModuleCommand::CursorRight => {
                    if ntracks == 0 || track == usize::MAX {
                        false
                    } else {
                        let next = if track == ntracks - 1 {
                            0
                        } else {
                            track + 1
                        };
                        assert(next == next_track_cursor(*self).track);
                        next < ntracks
                    }
                },
            },
            UiCommand::Mixer(mc) => match mc {
                MixerCommand::CursorLeft => ntracks > 0,
                MixerCommand::CursorRight => ntracks > 0 && track < usize::MAX,
                _ => true,
            },
            UiCommand::Track(tc) => {
                let ok = match tc {
                    TrackCommand::Copy => track < ntracks,
                    TrackCommand::Cut => track < ntracks,
                    TrackCommand::CursorLeft => ntracks > 0,
                    TrackCommand::CursorRight => ntracks > 0 && track < usize::MAX,
                    _ => true,
                };
                assert(ok == track_command_ok(*self, *tc));
                ok
            },
            UiCommand::TrackMute(t, m) => {
                let target = match t {
                    Some(x) => *x,
                    None => track,
                };
                m.is_some() || target < ntracks
            },
            UiCommand::TrackSolo(t, m) => {
                let target = match t {
                    Some(x) => *x,
                    None => track,
                };
                m.is_some() || target < ntracks
            },
            _ => true,
        }
    }
}

} // verus!
