//! How the pattern shows its cells: the text of a cell and its shade.
use crate::cursor::{spec_cursor_less, spec_max_merge, spec_min_merge, CursorTrack};
use crate::editor::app_state::AppState;
use crate::editor::ui_command::FocusedPart;
use crate::model::lane_item::LaneItem;
use crate::model::song::{spec_lane_item, Song, SongV};
use crate::note::{midi_name_defined, spec_midi_to_note_name};
use crate::text::{digits, push_digits, push_padded, zero_pad};
use vstd::prelude::*;

verus! {

broadcast use vstd::string::group_string_axioms;

/// `n` spaces.
pub open spec fn spaces(n: nat) -> Seq<char> {
    Seq::new(n, |i: int| ' ')
}

/// `s` padded on the right with spaces up to `width` characters.
pub open spec fn pad_right(s: Seq<char>, width: nat) -> Seq<char> {
    if s.len() >= width {
        s
    } else {
        s + spaces((width - s.len()) as nat)
    }
}

/// `n` as two or more upper-case hexadecimal digits.
pub open spec fn hex2(n: nat) -> Seq<char> {
    zero_pad(digits(n, 16, true), 2)
}

/// What a point shows of the parameter it automates: the module index in lower-case
/// hexadecimal and the low byte of the parameter id in upper-case hexadecimal, or
/// `---` when the track automates nothing at that index.
pub open spec fn point_param_text(params: Seq<(usize, u32)>, index: usize) -> Seq<char> {
    if index < params.len() {
        digits(params[index as int].0 as nat, 16, false) + digits((params[index as int].1 % 256) as nat, 16, true)
    } else {
        seq!['-', '-', '-']
    }
}

/// The text of a cell of a track whose automated parameters are `params`: a note
/// as its name, velocity and delay (a note-off as `OFF` and its delay), a point as
/// its parameter, value and delay, a label after `'`, a call after `^`, a return as
/// `^`; nine characters wide but for long labels; blanks for an empty cell.
pub open spec fn cell_text(params: Seq<(usize, u32)>, item: Option<LaneItem>) -> Seq<char> {
    match item {
        Some(LaneItem::Note(n)) => if n.off {
            pad_right(seq!['O', 'F', 'F'], 3) + spaces(4) + hex2(n.delay as nat)
        } else {
            pad_right(spec_midi_to_note_name(n.key as int)->0, 3) + seq![' '] + hex2(n.velocity as nat) + seq![' ']
                + hex2(n.delay as nat)
        },
        Some(LaneItem::Point(p)) => point_param_text(params, p.automation_params_index) + seq![' '] + hex2(
            p.value as nat,
        ) + seq![' '] + hex2(p.delay as nat),
        Some(LaneItem::Label(s)) => seq!['\''] + pad_right(s@, 8),
        Some(LaneItem::Call(s)) => seq!['^'] + pad_right(s@, 8),
        Some(LaneItem::Ret) => seq!['^'] + spaces(8),
        None => spaces(9),
    }
}

fn push_spaces(s: &mut String, n: usize)
    ensures
        final(s)@ == old(s)@ + spaces(n as nat),
{
    proof {
        reveal_strlit(" ");
    }
    let mut i: usize = 0;
    while i < n
        invariant
            i <= n,
            s@ == old(s)@ + spaces(i as nat),
        decreases n - i,
    {
        proof {
            reveal_strlit(" ");
        }
        s.append(" ");
        i = i + 1;
        assert(s@ =~= old(s)@ + spaces(i as nat));
    }
}

fn push_pad_right(s: &mut String, t: &str, width: usize)
    ensures
        final(s)@ == old(s)@ + pad_right(t@, width as nat),
{
    let n = t.unicode_len();
    s.append(t);
    if n < width {
        push_spaces(s, width - n);
    }
    assert(s@ =~= old(s)@ + pad_right(t@, width as nat));
}

/// The text of the cell at `line` of lane `lane` of track `track`, as [`cell_text`]
/// says.
pub fn lane_item_name(song: &Song, track: usize, lane: usize, line: usize) -> (r: String)
    requires
        track < song@.tracks.len(),
        lane < song@.tracks[track as int].lanes.len(),
        spec_lane_item(song@, CursorTrack { track, lane, line }) matches Some(LaneItem::Note(n)) ==> n.off || (
        n.key <= 127 && midi_name_defined(n.key as int)),
    ensures
        r@ == cell_text(
            song@.tracks[track as int].automation_params,
            spec_lane_item(song@, CursorTrack { track, lane, line }),
        ),
{
    proof {
        song.lemma_view_len();
        song.lemma_track_view(track as int);
        reveal_strlit("^");
        reveal_strlit("'");
        reveal_strlit("---");
        reveal_strlit(" ");
    }
    let t = &song.tracks[track];
    let ghost params = song@.tracks[track as int].automation_params;
    assert(params == t.automation_params@);
    let item = t.lanes[lane].item(line);
    assert(item matches Some(x) ==> spec_lane_item(song@, CursorTrack { track, lane, line }) == Some(*x));
    assert(item is None ==> spec_lane_item(song@, CursorTrack { track, lane, line }) is None);
    let mut s = String::new();
    match item {
        Some(LaneItem::Note(note)) => {
            let name = note.note_name();
            push_pad_right(&mut s, name.as_str(), 3);
            if note.off {
                push_spaces(&mut s, 4);
            } else {
                s.append(" ");
                push_padded(&mut s, note.velocity as usize, 16, true, 2);
                s.append(" ");
            }
            push_padded(&mut s, note.delay as usize, 16, true, 2);
        },
        Some(LaneItem::Point(point)) => {
            if point.automation_params_index < t.automation_params.len() {
                let (module_index, param_id) = t.automation_params[point.automation_params_index];
                push_digits(&mut s, module_index, 16, false);
                push_digits(&mut s, (param_id % 0x100) as usize, 16, true);
            } else {
                s.append("---");
            }
            s.append(" ");
            push_padded(&mut s, point.value as usize, 16, true, 2);
            s.append(" ");
            push_padded(&mut s, point.delay as usize, 16, true, 2);
        },
        Some(LaneItem::Label(label)) => {
            s.append("'");
            push_pad_right(&mut s, label.as_str(), 8);
        },
        Some(LaneItem::Call(label)) => {
            s.append("^");
            push_pad_right(&mut s, label.as_str(), 8);
        },
        Some(LaneItem::Ret) => {
            s.append("^");
            push_spaces(&mut s, 8);
        },
        None => {
            push_spaces(&mut s, 9);
        },
    }
    assert(s@ =~= cell_text(params, spec_lane_item(song@, CursorTrack { track, lane, line })));
    s
}

/// The shade of a cell of the pattern.
#[derive(Clone, Copy, Debug, PartialEq, Eq, Structural)]
pub enum CellShade {
    /// The cursor, while the lanes have the focus.
    Cursor,
    /// The line being played.
    Play,
    /// Inside the selection.
    Selected,
    /// The first line of a bar of 16 lines.
    Bar,
    /// The first line of a beat of 4 lines.
    Beat,
    Plain,
}

/// The shade of the cell at `c` when `line_play` is played, in this order of
/// precedence: the cursor while the lanes have the focus, the played line, and then
/// the selection (as far as its corners reach, the second corner being the cursor
/// while selecting) when there is one, else bar and beat lines.
pub open spec fn spec_cell_shade(a: AppState, c: CursorTrack, line_play: usize) -> CellShade {
    if a.cursor_track == c && a.focused_part == FocusedPart::Lane {
        CellShade::Cursor
    } else if c.line == line_play {
        CellShade::Play
    } else if a.selection_track_min is Some {
        let m = a.selection_track_min->0;
        let (min, max) = if a.select_p {
            (spec_min_merge(m, a.cursor_track), Some(spec_max_merge(m, a.cursor_track)))
        } else {
            (m, a.selection_track_max)
        };
        match max {
            Some(max) => if (min == c || spec_cursor_less(min, c)) && (c == max || spec_cursor_less(c, max)) {
                CellShade::Selected
            } else {
                CellShade::Plain
            },
            None => CellShade::Plain,
        }
    } else if c.line % 16 == 0 {
        CellShade::Bar
    } else if c.line % 4 == 0 {
        CellShade::Beat
    } else {
        CellShade::Plain
    }
}

impl AppState {
    /// The shade of the cell at `line` of lane `lane` of track `track` when
    /// `line_play` is played, as [`spec_cell_shade`] says.
    pub fn cell_shade(&self, track: usize, lane: usize, line: usize, line_play: usize) -> (r: CellShade)
        ensures
            r == spec_cell_shade(*self, CursorTrack { track, lane, line }, line_play),
    {
        let c = CursorTrack { track, lane, line };
        if self.cursor_track == c && self.focused_part == FocusedPart::Lane {
            CellShade::Cursor
        } else if line == line_play {
            CellShade::Play
        } else if let Some(m) = &self.selection_track_min {
            let (min, max) = if self.select_p {
                (m.min_merge(&self.cursor_track), Some(m.max_merge(&self.cursor_track)))
            } else {
                (*m, self.selection_track_max)
            };
            match max {
                Some(max) => if min.le(&c) && c.le(&max) {
                    CellShade::Selected
                } else {
                    CellShade::Plain
                },
                None => CellShade::Plain,
            }
        } else if line % 16 == 0 {
            CellShade::Bar
        } else if line % 4 == 0 {
            CellShade::Beat
        } else {
            CellShade::Plain
        }
    }
}

} // verus!
