//! Writing items into lanes on behalf of the editor, and what undoes such writes.
use crate::cursor::CursorTrack;
use crate::model::lane::{cell_set, map_get};
use crate::model::lane_item::LaneItem;
use crate::model::song::{spec_lane_item, SongV};
use crate::model::track::{Track, TrackV};
use vstd::prelude::*;

verus! {

/// `lanes`, followed by empty lanes up to `n` lanes in all.
pub open spec fn lanes_padded(lanes: Seq<Map<usize, LaneItem>>, n: int) -> Seq<Map<usize, LaneItem>> {
    if lanes.len() >= n {
        lanes
    } else {
        lanes + Seq::new((n - lanes.len()) as nat, |i: int| Map::<usize, LaneItem>::empty())
    }
}

/// The track after `item` is put at `line` of lane `lane` (or the line is cleared
/// when `item` is `None`); missing lanes up to `lane` are added first.
pub open spec fn track_put(t: TrackV, lane: usize, line: usize, item: Option<LaneItem>) -> TrackV {
    let lanes = lanes_padded(t.lanes, lane + 1);
    TrackV { lanes: lanes.update(lane as int, cell_set(lanes[lane as int], line, item)), ..t }
}

/// The song after `item` is put under the cursor `c`; a cursor past the last track
/// changes nothing.
pub open spec fn song_put(s: SongV, c: CursorTrack, item: Option<LaneItem>) -> SongV {
    if c.track < s.tracks.len() {
        SongV { tracks: s.tracks.update(c.track as int, track_put(s.tracks[c.track as int], c.lane, c.line, item)), ..s }
    } else {
        s
    }
}

/// The song after the writes of `items`, in order.
pub open spec fn song_put_all(s: SongV, items: Seq<(CursorTrack, Option<LaneItem>)>) -> SongV
    decreases items.len(),
{
    if items.len() == 0 {
        s
    } else {
        song_put(song_put_all(s, items.drop_last()), items.last().0, items.last().1)
    }
}

/// For each write of `items`, its cursor and what the cell held just before it.
pub open spec fn undo_items(s: SongV, items: Seq<(CursorTrack, Option<LaneItem>)>) -> Seq<(CursorTrack, Option<LaneItem>)>
    decreases items.len(),
{
    if items.len() == 0 {
        seq![]
    } else {
        undo_items(s, items.drop_last()).push(
            (items.last().0, spec_lane_item(song_put_all(s, items.drop_last()), items.last().0)),
        )
    }
}

/// The cursor's track and lane exist.
pub open spec fn cursor_in(s: SongV, c: CursorTrack) -> bool {
    c.track < s.tracks.len() && c.lane < s.tracks[c.track as int].lanes.len()
}

/// Every write of `items` targets an existing track and lane, and no two writes
/// target the same cell.
pub open spec fn distinct_cells(s: SongV, items: Seq<(CursorTrack, Option<LaneItem>)>) -> bool {
    &&& forall|i: int| 0 <= i < items.len() ==> cursor_in(s, #[trigger] items[i].0)
    &&& forall|i: int, j: int| 0 <= i < j < items.len() ==> #[trigger] items[i].0 != #[trigger] items[j].0
}

impl Track {
    /// Puts `item` at `line` of lane `lane` (or clears the line when `item` is
    /// `None`), adding empty lanes first if the track has fewer; returns what the
    /// line held.
    pub fn item_put(&mut self, lane: usize, line: usize, item: Option<LaneItem>) -> (r: Option<LaneItem>)
        requires
            old(self).lanes@.len() > 0,
            lane < usize::MAX,
        ensures
            final(self)@ == track_put(old(self)@, lane, line, item),
            final(self).on_key_lane_map@ == old(self).on_key_lane_map@,
            final(self).lanes@.len() > 0,
            r == (if lane < old(self)@.lanes.len() {
                map_get(old(self)@.lanes[lane as int], line)
            } else {
                None
            }),
    {
        let ghost n0 = self.lanes@.len();
        while self.lanes.len() - 1 < lane
            invariant
                lane < usize::MAX,
                self.lanes@.len() >= n0 > 0,
                n0 == old(self).lanes@.len(),
                self.lanes@.len() == n0 || self.lanes@.len() <= lane + 1,
                self@ == (TrackV {
                    lanes: old(self)@.lanes + Seq::new(
                        (self.lanes@.len() - n0) as nat,
                        |i: int| Map::<usize, LaneItem>::empty(),
                    ),
                    ..old(self)@
                }),
                self.on_key_lane_map@ == old(self).on_key_lane_map@,
            decreases lane + 1 - self.lanes@.len(),
        {
            let ghost before = self@.lanes;
            self.lane_add();
            assert(self@.lanes =~= old(self)@.lanes + Seq::new(
                (self.lanes@.len() - n0) as nat,
                |i: int| Map::<usize, LaneItem>::empty(),
            ));
        }
        assert(self@.lanes =~= lanes_padded(old(self)@.lanes, lane + 1));
        let ghost padded = self.lanes@;
        let r = self.lanes[lane].set(line, item);
        assert(self.lanes@ == padded.update(lane as int, self.lanes@[lane as int]));
        assert(self@.lanes =~= lanes_padded(old(self)@.lanes, lane + 1).update(
            lane as int,
            cell_set(lanes_padded(old(self)@.lanes, lane + 1)[lane as int], line, item),
        ));
        r
    }
}

/// A write to an existing cell keeps every track and lane in place.
proof fn lemma_put_keeps_shape(s: SongV, c: CursorTrack, x: Option<LaneItem>, d: CursorTrack)
    requires
        cursor_in(s, c),
    ensures
        song_put(s, c, x).tracks.len() == s.tracks.len(),
        cursor_in(song_put(s, c, x), d) == cursor_in(s, d),
        d != c ==> spec_lane_item(song_put(s, c, x), d) == spec_lane_item(s, d),
        spec_lane_item(song_put(s, c, x), c) == x,
{
    let t = s.tracks[c.track as int];
    assert(lanes_padded(t.lanes, c.lane + 1) == t.lanes);
    if d.track == c.track && d.lane == c.lane && d.line != c.line {
        assert(cell_set(t.lanes[c.lane as int], c.line, x).contains_key(d.line) == t.lanes[c.lane as int].contains_key(d.line));
    }
}

/// Two writes to different existing cells can be swapped.
proof fn lemma_put_commute(s: SongV, c: CursorTrack, x: Option<LaneItem>, d: CursorTrack, y: Option<LaneItem>)
    requires
        cursor_in(s, c),
        cursor_in(s, d),
        c != d,
    ensures
        song_put(song_put(s, c, x), d, y) == song_put(song_put(s, d, y), c, x),
{
    let a = song_put(song_put(s, c, x), d, y);
    let b = song_put(song_put(s, d, y), c, x);
    lemma_put_keeps_shape(s, c, x, d);
    lemma_put_keeps_shape(s, d, y, c);
    let tc = s.tracks[c.track as int];
    let td = s.tracks[d.track as int];
    assert(lanes_padded(tc.lanes, c.lane + 1) == tc.lanes);
    assert(lanes_padded(td.lanes, d.lane + 1) == td.lanes);
    if c.track == d.track {
        let t1 = song_put(s, c, x).tracks[c.track as int];
        let t2 = song_put(s, d, y).tracks[c.track as int];
        assert(lanes_padded(t1.lanes, d.lane + 1) == t1.lanes);
        assert(lanes_padded(t2.lanes, c.lane + 1) == t2.lanes);
        if c.lane == d.lane {
            assert(cell_set(cell_set(tc.lanes[c.lane as int], c.line, x), d.line, y) =~= cell_set(
                cell_set(tc.lanes[c.lane as int], d.line, y),
                c.line,
                x,
            ));
        }
        assert(a.tracks[c.track as int].lanes =~= b.tracks[c.track as int].lanes);
    } else {
        let t1 = song_put(s, c, x).tracks[d.track as int];
        let t2 = song_put(s, d, y).tracks[c.track as int];
        assert(lanes_padded(t1.lanes, d.lane + 1) == t1.lanes);
        assert(lanes_padded(t2.lanes, c.lane + 1) == t2.lanes);
    }
    assert(a.tracks =~= b.tracks);
}

/// A second write to a cell overrides the first.
proof fn lemma_put_twice(s: SongV, c: CursorTrack, x: Option<LaneItem>, y: Option<LaneItem>)
    requires
        cursor_in(s, c),
    ensures
        song_put(song_put(s, c, x), c, y) == song_put(s, c, y),
{
    let t = s.tracks[c.track as int];
    assert(lanes_padded(t.lanes, c.lane + 1) == t.lanes);
    let t1 = song_put(s, c, x).tracks[c.track as int];
    assert(lanes_padded(t1.lanes, c.lane + 1) == t1.lanes);
    assert(cell_set(cell_set(t.lanes[c.lane as int], c.line, x), c.line, y) =~= cell_set(
        t.lanes[c.lane as int],
        c.line,
        y,
    ));
    assert(song_put(song_put(s, c, x), c, y).tracks[c.track as int].lanes =~= song_put(s, c, y).tracks[c.track as int].lanes);
    assert(song_put(song_put(s, c, x), c, y).tracks =~= song_put(s, c, y).tracks);
}

/// Writing back what a cell holds changes nothing.
proof fn lemma_put_same(s: SongV, c: CursorTrack)
    requires
        cursor_in(s, c),
    ensures
        song_put(s, c, spec_lane_item(s, c)) == s,
{
    let t = s.tracks[c.track as int];
    assert(lanes_padded(t.lanes, c.lane + 1) == t.lanes);
    assert(cell_set(t.lanes[c.lane as int], c.line, spec_lane_item(s, c)) =~= t.lanes[c.lane as int]);
    assert(song_put(s, c, spec_lane_item(s, c)).tracks[c.track as int].lanes =~= t.lanes);
    assert(song_put(s, c, spec_lane_item(s, c)).tracks =~= s.tracks);
}

/// Writes to existing cells keep the shape, and leave the other cells as they were.
proof fn lemma_put_all_keeps(s: SongV, items: Seq<(CursorTrack, Option<LaneItem>)>, d: CursorTrack)
    requires
        forall|i: int| 0 <= i < items.len() ==> cursor_in(s, #[trigger] items[i].0),
    ensures
        forall|e: CursorTrack| cursor_in(song_put_all(s, items), e) == cursor_in(s, e),
        (forall|i: int| 0 <= i < items.len() ==> #[trigger] items[i].0 != d) ==> spec_lane_item(song_put_all(s, items), d)
            == spec_lane_item(s, d),
    decreases items.len(),
{
    if items.len() > 0 {
        let p = items.drop_last();
        assert forall|i: int| 0 <= i < p.len() implies cursor_in(s, #[trigger] p[i].0) by {
            assert(p[i] == items[i]);
        }
        lemma_put_all_keeps(s, p, d);
        let c = items.last().0;
        assert(cursor_in(s, items[items.len() - 1].0));
        assert(cursor_in(song_put_all(s, p), c));
        assert forall|e: CursorTrack| cursor_in(song_put_all(s, items), e) == cursor_in(s, e) by {
            lemma_put_keeps_shape(song_put_all(s, p), c, items.last().1, e);
        }
        if forall|i: int| 0 <= i < items.len() ==> #[trigger] items[i].0 != d {
            assert(items[items.len() - 1].0 != d);
            assert forall|i: int| 0 <= i < p.len() implies #[trigger] p[i].0 != d by {
                assert(p[i] == items[i]);
            }
            lemma_put_keeps_shape(song_put_all(s, p), c, items.last().1, d);
        }
    }
}

/// The undo list has one entry per write, with the write's cursor.
pub(crate) proof fn lemma_undo_cursors(s: SongV, items: Seq<(CursorTrack, Option<LaneItem>)>)
    ensures
        undo_items(s, items).len() == items.len(),
        forall|i: int| 0 <= i < items.len() ==> #[trigger] undo_items(s, items)[i].0 == items[i].0,
    decreases items.len(),
{
    if items.len() > 0 {
        lemma_undo_cursors(s, items.drop_last());
        assert forall|i: int| 0 <= i < items.len() implies #[trigger] undo_items(s, items)[i].0 == items[i].0 by {
            if i < items.len() - 1 {
                assert(undo_items(s, items)[i] == undo_items(s, items.drop_last())[i]);
                assert(items.drop_last()[i] == items[i]);
            }
        }
    }
}

/// A write to a cell that none of `items` touches can be moved in front of them.
proof fn lemma_put_through(s: SongV, c: CursorTrack, x: Option<LaneItem>, items: Seq<(CursorTrack, Option<LaneItem>)>)
    requires
        cursor_in(s, c),
        forall|i: int| 0 <= i < items.len() ==> cursor_in(s, #[trigger] items[i].0),
        forall|i: int| 0 <= i < items.len() ==> #[trigger] items[i].0 != c,
    ensures
        song_put_all(song_put(s, c, x), items) == song_put(song_put_all(s, items), c, x),
    decreases items.len(),
{
    if items.len() > 0 {
        let p = items.drop_last();
        assert forall|i: int| 0 <= i < p.len() implies cursor_in(s, #[trigger] p[i].0) && p[i].0 != c by {
            assert(p[i] == items[i]);
        }
        lemma_put_through(s, c, x, p);
        let d = items.last().0;
        assert(cursor_in(s, items[items.len() - 1].0));
        assert(items[items.len() - 1].0 != c);
        lemma_put_all_keeps(s, p, c);
        lemma_put_all_keeps(s, p, d);
        lemma_put_commute(song_put_all(s, p), c, x, d, items.last().1);
    }
}

/// Undoing a batch of writes to distinct existing cells, by writing back what the
/// cells held before the batch, gives back the song.
pub proof fn lemma_lane_items_undo(s: SongV, items: Seq<(CursorTrack, Option<LaneItem>)>)
    requires
        distinct_cells(s, items),
    ensures
        song_put_all(song_put_all(s, items), undo_items(s, items)) == s,
    decreases items.len(),
{
    if items.len() > 0 {
        let p = items.drop_last();
        let c = items.last().0;
        let x = items.last().1;
        assert(cursor_in(s, items[items.len() - 1].0));
        assert(distinct_cells(s, p)) by {
            assert forall|i: int| 0 <= i < p.len() implies cursor_in(s, #[trigger] p[i].0) by {
                assert(p[i] == items[i]);
            }
            assert forall|i: int, j: int| 0 <= i < j < p.len() implies #[trigger] p[i].0 != #[trigger] p[j].0 by {
                assert(p[i] == items[i]);
                assert(p[j] == items[j]);
            }
        }
        assert forall|i: int| 0 <= i < p.len() implies #[trigger] p[i].0 != c by {
            assert(p[i] == items[i]);
            assert(items[i].0 != items[items.len() - 1].0);
        }
        lemma_lane_items_undo(s, p);
        let up = undo_items(s, p);
        lemma_undo_cursors(s, p);
        lemma_put_all_keeps(s, p, c);
        let v = spec_lane_item(song_put_all(s, p), c);
        assert(v == spec_lane_item(s, c));
        let t = song_put_all(s, p);
        assert(cursor_in(t, c));
        assert forall|i: int| 0 <= i < up.len() implies cursor_in(t, #[trigger] up[i].0) && up[i].0 != c by {
            assert(up[i].0 == p[i].0);
        }
        lemma_put_through(t, c, x, up);
        assert(undo_items(s, items) == up.push((c, v)));
        assert(undo_items(s, items).drop_last() =~= up);
        assert(song_put_all(song_put_all(s, items), undo_items(s, items)) == song_put(
            song_put_all(song_put(t, c, x), up),
            c,
            v,
        ));
        lemma_put_all_keeps(t, up, c);
        lemma_put_twice(song_put_all(t, up), c, x, v);
        lemma_put_same(s, c);
    }
}

/// The song with empty lanes added to the track of `c`, up to lane `c.lane`; a
/// cursor past the last track changes nothing.
pub open spec fn pad_one(s: SongV, c: CursorTrack) -> SongV {
    if c.track < s.tracks.len() {
        SongV {
            tracks: s.tracks.update(
                c.track as int,
                TrackV { lanes: lanes_padded(s.tracks[c.track as int].lanes, c.lane + 1), ..s.tracks[c.track as int] },
            ),
            ..s
        }
    } else {
        s
    }
}

/// The song with the lanes that the cursors of `items` name added, empty.
pub open spec fn pad_all(s: SongV, items: Seq<(CursorTrack, Option<LaneItem>)>) -> SongV
    decreases items.len(),
{
    if items.len() == 0 {
        s
    } else {
        pad_one(pad_all(s, items.drop_last()), items.last().0)
    }
}

proof fn lemma_lanes_padded_index(l: Seq<Map<usize, LaneItem>>, n: int)
    requires
        n >= 0,
    ensures
        lanes_padded(l, n).len() == if l.len() >= n { l.len() as int } else { n },
        forall|k: int|
            0 <= k < lanes_padded(l, n).len() ==> #[trigger] lanes_padded(l, n)[k] == if k < l.len() {
                l[k]
            } else {
                Map::<usize, LaneItem>::empty()
            },
{
}

/// Adding lanes and writing a cell can be swapped.
proof fn lemma_pad_put_commute(s: SongV, c: CursorTrack, x: Option<LaneItem>, d: CursorTrack)
    ensures
        pad_one(song_put(s, c, x), d) == song_put(pad_one(s, d), c, x),
{
    if c.track < s.tracks.len() && d.track < s.tracks.len() {
        if c.track == d.track {
            let t = s.tracks[c.track as int];
            let l = t.lanes;
            let pc = lanes_padded(l, c.lane + 1);
            lemma_lanes_padded_index(l, c.lane + 1);
            let u = pc.update(c.lane as int, cell_set(pc[c.lane as int], c.line, x));
            lemma_lanes_padded_index(u, d.lane + 1);
            let pd = lanes_padded(l, d.lane + 1);
            lemma_lanes_padded_index(l, d.lane + 1);
            let v = lanes_padded(pd, c.lane + 1);
            lemma_lanes_padded_index(pd, c.lane + 1);
            let left = lanes_padded(u, d.lane + 1);
            let right = v.update(c.lane as int, cell_set(v[c.lane as int], c.line, x));
            assert(left.len() == right.len());
            assert forall|k: int| 0 <= k < left.len() implies left[k] == right[k] by {
                if k == c.lane {
                    assert(left[k] == u[k]);
                } else if k < u.len() {
                    assert(left[k] == u[k]);
                }
            }
            assert(left =~= right);
            assert(pad_one(song_put(s, c, x), d).tracks =~= song_put(pad_one(s, d), c, x).tracks);
        } else {
            assert(pad_one(song_put(s, c, x), d).tracks =~= song_put(pad_one(s, d), c, x).tracks);
        }
    }
}

/// Adding lanes commutes with a batch of writes.
proof fn lemma_pad_put_all_commute(s: SongV, d: CursorTrack, ws: Seq<(CursorTrack, Option<LaneItem>)>)
    ensures
        song_put_all(pad_one(s, d), ws) == pad_one(song_put_all(s, ws), d),
    decreases ws.len(),
{
    if ws.len() > 0 {
        lemma_pad_put_all_commute(s, d, ws.drop_last());
        lemma_pad_put_commute(song_put_all(s, ws.drop_last()), ws.last().0, ws.last().1, d);
    }
}

/// Adding the lanes of `ds` commutes with a batch of writes.
proof fn lemma_pad_all_put_all_commute(
    s: SongV,
    ds: Seq<(CursorTrack, Option<LaneItem>)>,
    ws: Seq<(CursorTrack, Option<LaneItem>)>,
)
    ensures
        song_put_all(pad_all(s, ds), ws) == pad_all(song_put_all(s, ws), ds),
    decreases ds.len(),
{
    if ds.len() > 0 {
        lemma_pad_all_put_all_commute(s, ds.drop_last(), ws);
        lemma_pad_put_all_commute(pad_all(s, ds.drop_last()), ds.last().0, ws);
    }
}

/// Added lanes are empty: no cell reads differently.
proof fn lemma_pad_all_item(s: SongV, ds: Seq<(CursorTrack, Option<LaneItem>)>, c: CursorTrack)
    ensures
        spec_lane_item(pad_all(s, ds), c) == spec_lane_item(s, c),
    decreases ds.len(),
{
    if ds.len() > 0 {
        let q = pad_all(s, ds.drop_last());
        lemma_pad_all_item(s, ds.drop_last(), c);
        let d = ds.last().0;
        if d.track < q.tracks.len() && d.track == c.track {
            lemma_lanes_padded_index(q.tracks[d.track as int].lanes, d.lane + 1);
        }
    }
}

/// Padding keeps the number of tracks, never removes a lane, and does nothing to
/// the tracks' other values.
proof fn lemma_pad_all_shape(s: SongV, ds: Seq<(CursorTrack, Option<LaneItem>)>)
    ensures
        pad_all(s, ds).tracks.len() == s.tracks.len(),
        pad_all(s, ds).name == s.name && pad_all(s, ds).bpm_bits == s.bpm_bits && pad_all(s, ds).sample_rate_bits
            == s.sample_rate_bits && pad_all(s, ds).lpb == s.lpb,
        forall|t: int|
            0 <= t < s.tracks.len() ==> (TrackV { lanes: s.tracks[t].lanes, ..#[trigger] pad_all(s, ds).tracks[t] })
                == s.tracks[t],
        forall|t: int| 0 <= t < s.tracks.len() ==> #[trigger] pad_all(s, ds).tracks[t].lanes.len() >= s.tracks[t].lanes.len(),
        forall|t: int, l: int|
            0 <= t < s.tracks.len() && 0 <= l < pad_all(s, ds).tracks[t].lanes.len() ==> #[trigger] pad_all(
                s,
                ds,
            ).tracks[t].lanes[l] == if l < s.tracks[t].lanes.len() {
                s.tracks[t].lanes[l]
            } else {
                Map::<usize, LaneItem>::empty()
            },
        forall|i: int|
            0 <= i < ds.len() && (#[trigger] ds[i]).0.track < s.tracks.len() ==> ds[i].0.lane < pad_all(s, ds).tracks[ds[i].0.track as int].lanes.len(),
    decreases ds.len(),
{
    if ds.len() > 0 {
        let p = ds.drop_last();
        let q = pad_all(s, p);
        lemma_pad_all_shape(s, p);
        let d = ds.last().0;
        if d.track < q.tracks.len() {
            lemma_lanes_padded_index(q.tracks[d.track as int].lanes, d.lane + 1);
        }
        let r = pad_all(s, ds);
        assert forall|t: int| 0 <= t < s.tracks.len() implies (TrackV { lanes: s.tracks[t].lanes, ..#[trigger] r.tracks[t] })
            == s.tracks[t] by {
            assert((TrackV { lanes: s.tracks[t].lanes, ..q.tracks[t] }) == s.tracks[t]);
        }
        assert forall|i: int|
            0 <= i < ds.len() && (#[trigger] ds[i]).0.track < s.tracks.len() implies ds[i].0.lane < r.tracks[ds[i].0.track as int].lanes.len() by {
            if i < p.len() {
                assert(ds[i] == p[i]);
            }
        }
    }
}

/// Writes never remove a lane, and after them each written lane exists.
proof fn lemma_put_all_lanes(s: SongV, ws: Seq<(CursorTrack, Option<LaneItem>)>)
    ensures
        song_put_all(s, ws).tracks.len() == s.tracks.len(),
        forall|t: int| 0 <= t < s.tracks.len() ==> #[trigger] song_put_all(s, ws).tracks[t].lanes.len() >= s.tracks[t].lanes.len(),
        forall|i: int|
            0 <= i < ws.len() && (#[trigger] ws[i]).0.track < s.tracks.len() ==> ws[i].0.lane < song_put_all(s, ws).tracks[ws[i].0.track as int].lanes.len(),
    decreases ws.len(),
{
    if ws.len() > 0 {
        let p = ws.drop_last();
        let q = song_put_all(s, p);
        lemma_put_all_lanes(s, p);
        let c = ws.last().0;
        if c.track < q.tracks.len() {
            lemma_lanes_padded_index(q.tracks[c.track as int].lanes, c.lane + 1);
        }
        let r = song_put_all(s, ws);
        assert forall|i: int|
            0 <= i < ws.len() && (#[trigger] ws[i]).0.track < s.tracks.len() implies ws[i].0.lane < r.tracks[ws[i].0.track as int].lanes.len() by {
            if i < p.len() {
                assert(ws[i] == p[i]);
            }
        }
    }
}

/// Padding lanes that exist already changes nothing.
proof fn lemma_pad_all_existing(s: SongV, ds: Seq<(CursorTrack, Option<LaneItem>)>)
    requires
        forall|i: int|
            0 <= i < ds.len() && (#[trigger] ds[i]).0.track < s.tracks.len() ==> ds[i].0.lane < s.tracks[ds[i].0.track as int].lanes.len(),
    ensures
        pad_all(s, ds) == s,
    decreases ds.len(),
{
    if ds.len() > 0 {
        let p = ds.drop_last();
        assert forall|i: int|
            0 <= i < p.len() && (#[trigger] p[i]).0.track < s.tracks.len() implies p[i].0.lane < s.tracks[p[i].0.track as int].lanes.len() by {
            assert(p[i] == ds[i]);
        }
        lemma_pad_all_existing(s, p);
        let d = ds.last().0;
        assert(ds[ds.len() - 1].0 == d);
        if d.track < s.tracks.len() {
            assert(lanes_padded(s.tracks[d.track as int].lanes, d.lane + 1) == s.tracks[d.track as int].lanes);
            assert(pad_one(s, d).tracks =~= s.tracks);
        }
    }
}

/// Padding does not change the undo list of a batch of writes.
proof fn lemma_pad_all_undo_items(
    s: SongV,
    ds: Seq<(CursorTrack, Option<LaneItem>)>,
    ws: Seq<(CursorTrack, Option<LaneItem>)>,
)
    ensures
        undo_items(pad_all(s, ds), ws) == undo_items(s, ws),
    decreases ws.len(),
{
    if ws.len() > 0 {
        let p = ws.drop_last();
        lemma_pad_all_undo_items(s, ds, p);
        lemma_pad_all_put_all_commute(s, ds, p);
        lemma_pad_all_item(song_put_all(s, p), ds, ws.last().0);
    }
}

/// Undoing a batch of writes to distinct cells of existing tracks gives back the
/// song, lanes that the writes added aside: those stay, empty. Every lane that the
/// song had holds its items again, and nothing else of the song changes.
pub proof fn lemma_lane_items_undo_adding_lanes(s: SongV, items: Seq<(CursorTrack, Option<LaneItem>)>)
    requires
        forall|i: int| 0 <= i < items.len() ==> (#[trigger] items[i]).0.track < s.tracks.len(),
        forall|i: int, j: int| 0 <= i < j < items.len() ==> #[trigger] items[i].0 != #[trigger] items[j].0,
    ensures
        ({
            let r = song_put_all(song_put_all(s, items), undo_items(s, items));
            &&& r == pad_all(s, items)
            &&& r.tracks.len() == s.tracks.len()
            &&& r.name == s.name && r.bpm_bits == s.bpm_bits && r.sample_rate_bits == s.sample_rate_bits && r.lpb == s.lpb
            &&& forall|t: int|
                0 <= t < s.tracks.len() ==> (TrackV { lanes: s.tracks[t].lanes, ..#[trigger] r.tracks[t] }) == s.tracks[t]
            &&& forall|t: int, l: int|
                0 <= t < s.tracks.len() && 0 <= l < r.tracks[t].lanes.len() ==> #[trigger] r.tracks[t].lanes[l] == if l
                    < s.tracks[t].lanes.len() {
                    s.tracks[t].lanes[l]
                } else {
                    Map::<usize, LaneItem>::empty()
                }
            &&& forall|t: int| 0 <= t < s.tracks.len() ==> #[trigger] r.tracks[t].lanes.len() >= s.tracks[t].lanes.len()
        }),
{
    let p = pad_all(s, items);
    lemma_pad_all_shape(s, items);
    assert(distinct_cells(p, items)) by {
        assert forall|i: int| 0 <= i < items.len() implies cursor_in(p, #[trigger] items[i].0) by {
            assert(items[i].0.track < s.tracks.len());
        }
    }
    lemma_lane_items_undo(p, items);
    lemma_pad_all_put_all_commute(s, items, items);
    lemma_put_all_lanes(s, items);
    lemma_pad_all_existing(song_put_all(s, items), items);
    lemma_pad_all_undo_items(s, items, items);
}

} // verus!
