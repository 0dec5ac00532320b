//! The editing cursor of the pattern: a line of a lane of a track.
use crate::model::song::{Song, SongV};
use vstd::prelude::*;

verus! {

/// A cell of the pattern.
#[derive(Clone, Copy, Debug, Default, PartialEq, Eq, Structural)]
pub struct CursorTrack {
    pub track: usize,
    pub lane: usize,
    pub line: usize,
}

/// Lexicographic order on `(track, lane)`.
pub open spec fn track_lane_le(a: CursorTrack, b: CursorTrack) -> bool {
    a.track < b.track || (a.track == b.track && a.lane <= b.lane)
}

/// The corner of the rectangle spanned by two cursors that comes first: the earlier
/// `(track, lane)` and the smaller line.
pub open spec fn spec_min_merge(a: CursorTrack, b: CursorTrack) -> CursorTrack {
    CursorTrack {
        track: if track_lane_le(a, b) { a.track } else { b.track },
        lane: if track_lane_le(a, b) { a.lane } else { b.lane },
        line: if a.line <= b.line { a.line } else { b.line },
    }
}

/// The corner of the rectangle spanned by two cursors that comes last.
pub open spec fn spec_max_merge(a: CursorTrack, b: CursorTrack) -> CursorTrack {
    CursorTrack {
        track: if track_lane_le(b, a) { a.track } else { b.track },
        lane: if track_lane_le(b, a) { a.lane } else { b.lane },
        line: if a.line >= b.line { a.line } else { b.line },
    }
}

/// Every track of the song has at least one lane; the cursor needs that to move
/// across lanes.
pub open spec fn lanes_nonempty(s: SongV) -> bool {
    forall|t: int| 0 <= t < s.tracks.len() ==> #[trigger] s.tracks[t].lanes.len() > 0
}

/// The cursor points at an existing lane.
pub open spec fn cursor_valid(c: CursorTrack, s: SongV) -> bool {
    c.track < s.tracks.len() && c.lane < s.tracks[c.track as int].lanes.len()
}

/// The cursor one lane to the left, wrapping from the first lane of a track to the
/// last lane of the track before it, and from the first track to the last.
pub open spec fn spec_left(c: CursorTrack, s: SongV) -> CursorTrack {
    if c.lane == 0 {
        let track = if c.track == 0 { (s.tracks.len() - 1) as usize } else { (c.track - 1) as usize };
        CursorTrack { track, lane: (s.tracks[track as int].lanes.len() - 1) as usize, line: c.line }
    } else {
        CursorTrack { lane: (c.lane - 1) as usize, ..c }
    }
}

/// The cursor one lane to the right, wrapping the same way.
pub open spec fn spec_right(c: CursorTrack, s: SongV) -> CursorTrack {
    if c.lane == s.tracks[c.track as int].lanes.len() - 1 {
        let track = if c.track + 1 == s.tracks.len() { 0usize } else { (c.track + 1) as usize };
        CursorTrack { track, lane: 0, line: c.line }
    } else {
        CursorTrack { lane: (c.lane + 1) as usize, ..c }
    }
}

/// The cursor one line up (it stays on line 0).
pub open spec fn spec_up(c: CursorTrack) -> CursorTrack {
    if c.line != 0 {
        CursorTrack { line: (c.line - 1) as usize, ..c }
    } else {
        c
    }
}

/// The cursor one line down.
pub open spec fn spec_down(c: CursorTrack) -> CursorTrack {
    CursorTrack { line: (c.line + 1) as usize, ..c }
}

/// `n` steps of `spec_left` (or of `spec_right` when `right`).
pub open spec fn lanes_moved(c: CursorTrack, s: SongV, n: nat, right: bool) -> CursorTrack
    decreases n,
{
    if n == 0 {
        c
    } else {
        let d = lanes_moved(c, s, (n - 1) as nat, right);
        if right {
            spec_right(d, s)
        } else {
            spec_left(d, s)
        }
    }
}

/// `n` steps of `spec_down` (or of `spec_up` when `up`).
pub open spec fn lines_moved(c: CursorTrack, n: nat, up: bool) -> CursorTrack
    decreases n,
{
    if n == 0 {
        c
    } else {
        let d = lines_moved(c, (n - 1) as nat, up);
        if up {
            spec_up(d)
        } else {
            spec_down(d)
        }
    }
}

/// `move_by`: first `|lane_delta|` lanes (right when positive), then `|line_delta|`
/// lines: down when `line_delta` is negative, up otherwise.
pub open spec fn spec_move_by(c: CursorTrack, lane_delta: int, line_delta: int, s: SongV) -> CursorTrack {
    let after_lanes = if lane_delta < 0 {
        lanes_moved(c, s, (-lane_delta) as nat, false)
    } else {
        lanes_moved(c, s, lane_delta as nat, true)
    };
    if line_delta < 0 {
        lines_moved(after_lanes, (-line_delta) as nat, false)
    } else {
        lines_moved(after_lanes, line_delta as nat, true)
    }
}

/// The cursor's own order: equal cells are equal; `a` comes before `b` when its
/// `(track, lane)` is not after `b`'s and its line is not after `b`'s; every other
/// pair counts as "after".
pub open spec fn spec_cursor_less(a: CursorTrack, b: CursorTrack) -> bool {
    a != b && track_lane_le(a, b) && a.line <= b.line
}

/// Three-way result of comparing two cursors.
#[derive(Clone, Copy, Debug, PartialEq, Eq, Structural)]
pub enum CursorOrder {
    Less,
    Equal,
    Greater,
}

impl CursorTrack {
    /// The first corner of the rectangle spanned by `self` and `other`.
    pub fn min_merge(&self, other: &Self) -> (r: Self)
        ensures
            r == spec_min_merge(*self, *other),
    {
        let first = self.track < other.track || (self.track == other.track && self.lane
            <= other.lane);
        let (track, lane) = if first {
            (self.track, self.lane)
        } else {
            (other.track, other.lane)
        };
        CursorTrack {
            track,
            lane,
            line: if self.line <= other.line {
                self.line
            } else {
                other.line
            },
        }
    }

    /// The last corner of the rectangle spanned by `self` and `other`.
    pub fn max_merge(&self, other: &Self) -> (r: Self)
        ensures
            r == spec_max_merge(*self, *other),
    {
        let last = other.track < self.track || (other.track == self.track && other.lane
            <= self.lane);
        let (track, lane) = if last {
            (self.track, self.lane)
        } else {
            (other.track, other.lane)
        };
        CursorTrack {
            track,
            lane,
            line: if self.line >= other.line {
                self.line
            } else {
                other.line
            },
        }
    }

    /// One line up, stopping at line 0.
    pub fn up(&self, _song: &Song) -> (r: Self)
        ensures
            r == spec_up(*self),
    {
        let mut cursor = *self;
        if cursor.line != 0 {
            cursor.line = cursor.line - 1;
        }
        cursor
    }

    /// One line down.
    pub fn down(&self, _song: &Song) -> (r: Self)
        requires
            self.line < usize::MAX,
        ensures
            r == spec_down(*self),
    {
        let mut cursor = *self;
        cursor.line = cursor.line + 1;
        cursor
    }

    /// One lane to the left, wrapping to the previous track and from the first track
    /// to the last.
    pub fn left(&self, song: &Song) -> (r: Self)
        requires
            cursor_valid(*self, song@),
            lanes_nonempty(song@),
        ensures
            r == spec_left(*self, song@),
            cursor_valid(r, song@),
    {
        let mut cursor = *self;
        proof {
            song.lemma_view_len();
        }
        if cursor.lane == 0 {
            if cursor.track == 0 {
                cursor.track = song.tracks.len() - 1;
            } else {
                cursor.track = cursor.track - 1;
            }
            proof {
                song.lemma_track_view(cursor.track as int);
            }
            cursor.lane = song.tracks[cursor.track].lanes.len() - 1;
        } else {
            cursor.lane = cursor.lane - 1;
        }
        cursor
    }

    /// One lane to the right, wrapping to the next track and from the last track to
    /// the first.
    pub fn right(&self, song: &Song) -> (r: Self)
        requires
            cursor_valid(*self, song@),
            lanes_nonempty(song@),
        ensures
            r == spec_right(*self, song@),
            cursor_valid(r, song@),
    {
        let mut cursor = *self;
        proof {
            song.lemma_view_len();
            song.lemma_track_view(cursor.track as int);
            song.lemma_track_view(0);
        }
        if cursor.lane == song.tracks[cursor.track].lanes.len() - 1 {
            cursor.lane = 0;
            if cursor.track == song.tracks.len() - 1 {
                cursor.track = 0;
            } else {
                cursor.track = cursor.track + 1;
            }
        } else {
            cursor.lane = cursor.lane + 1;
        }
        proof {
            song.lemma_track_view(cursor.track as int);
        }
        cursor
    }

    /// Moves by `lane_delta` lanes and then `line_delta` lines, as [`spec_move_by`]
    /// says.
    pub fn move_by(&self, lane_delta: i64, line_delta: i64, song: &Song) -> (r: Self)
        requires
            cursor_valid(*self, song@),
            lanes_nonempty(song@),
            line_delta < 0 ==> self.line + (-line_delta) <= usize::MAX,
            lane_delta > i64::MIN,
            line_delta > i64::MIN,
        ensures
            r == spec_move_by(*self, lane_delta as int, line_delta as int, song@),
            cursor_valid(r, song@),
    {
        let mut cursor = *self;
        let right = lane_delta >= 0;
        let lanes: i64 = if lane_delta < 0 {
            -lane_delta
        } else {
            lane_delta
        };
        let mut i: i64 = 0;
        while i < lanes
            invariant
                0 <= i <= lanes,
                cursor_valid(cursor, song@),
                lanes_nonempty(song@),
                cursor == lanes_moved(*self, song@, i as nat, right),
                cursor.line == self.line,
            decreases lanes - i,
        {
            cursor = if right {
                cursor.right(song)
            } else {
                cursor.left(song)
            };
            i = i + 1;
        }
        let after_lanes = cursor;
        let up = line_delta >= 0;
        let lines: i64 = if line_delta < 0 {
            -line_delta
        } else {
            line_delta
        };
        let mut j: i64 = 0;
        while j < lines
            invariant
                0 <= j <= lines,
                cursor_valid(cursor, song@),
                cursor == lines_moved(after_lanes, j as nat, up),
                after_lanes.line == self.line,
                !up ==> cursor.line == after_lanes.line + j,
                !up ==> self.line + lines <= usize::MAX,
                up == (line_delta >= 0),
                lines as int == (if line_delta < 0 { -line_delta } else { line_delta as int }),
            decreases lines - j,
        {
            cursor = if up {
                cursor.up(song)
            } else {
                cursor.down(song)
            };
            j = j + 1;
        }
        cursor
    }

    /// Compares two cursors by [`spec_cursor_less`].
    pub fn cmp(&self, other: &Self) -> (r: CursorOrder)
        ensures
            r == CursorOrder::Equal <==> *self == *other,
            r == CursorOrder::Less <==> spec_cursor_less(*self, *other),
    {
        if self.track == other.track && self.lane == other.lane && self.line == other.line {
            CursorOrder::Equal
        } else if (self.track < other.track || self.track == other.track && self.lane
            <= other.lane) && self.line <= other.line {
            CursorOrder::Less
        } else {
            CursorOrder::Greater
        }
    }

    /// `self` is not after `other` in the cursor's order.
    pub fn le(&self, other: &Self) -> (r: bool)
        ensures
            r == (*self == *other || spec_cursor_less(*self, *other)),
    {
        match self.cmp(other) {
            CursorOrder::Greater => false,
            _ => true,
        }
    }
}

/// The two corners of the selection rectangle do not depend on the order in which
/// its two cursors are given, and merging a cursor with itself gives it back.
pub proof fn lemma_merge_symmetric(a: CursorTrack, b: CursorTrack)
    ensures
        spec_min_merge(a, b) == spec_min_merge(b, a),
        spec_max_merge(a, b) == spec_max_merge(b, a),
        spec_min_merge(a, a) == a,
        spec_max_merge(a, a) == a,
        track_lane_le(spec_min_merge(a, b), spec_max_merge(a, b)),
        spec_min_merge(a, b).line <= spec_max_merge(a, b).line,
{
}

/// Stepping one lane right and then one lane left returns to the same cell, and so
/// does the reverse.
pub proof fn lemma_left_right_inverse(c: CursorTrack, s: SongV)
    requires
        cursor_valid(c, s),
        lanes_nonempty(s),
        s.tracks.len() <= usize::MAX,
        forall|t: int| 0 <= t < s.tracks.len() ==> #[trigger] s.tracks[t].lanes.len() <= usize::MAX,
    ensures
        spec_left(spec_right(c, s), s) == c,
        spec_right(spec_left(c, s), s) == c,
{
    assert(s.tracks[c.track as int].lanes.len() > 0);
    let r = spec_right(c, s);
    assert(s.tracks[r.track as int].lanes.len() > 0);
    let l = spec_left(c, s);
    assert(s.tracks[l.track as int].lanes.len() > 0);
}

/// Stepping one line down and then one line up returns to the same cell.
pub proof fn lemma_down_up_inverse(c: CursorTrack)
    requires
        c.line < usize::MAX,
    ensures
        spec_up(spec_down(c)) == c,
{
}

} // verus!
