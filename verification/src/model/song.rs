//! A song: tempo settings and its tracks, and the edits that insert, delete and
//! move tracks while keeping the audio routing between modules in step.
use crate::cursor::CursorTrack;
use crate::model::lane_item::LaneItem;
use crate::model::module::{AudioInput, Module, ModuleIndex, ModuleV};
use crate::model::track::{input_after_delete, input_after_insert, input_after_move, inputs_after_delete, inputs_fit, new_track_view, remap_fits, remap_track, Remap, Track, TrackV};
use crate::text::{digits, push_padded, zero_pad};
use chrono::Local;
use vstd::prelude::*;

verus! {

broadcast use vstd::std_specs::hash::group_hash_axioms;

/// An ASCII decimal digit.
pub open spec fn is_digit(c: char) -> bool {
    '0' <= c && c <= '9'
}

/// A song file name made from a date as `%Y%m%d.json` renders it: the year (four
/// digits, or a sign and more digits outside the years 0 to 9999), the month and
/// the day as two digits each, and `.json`.
pub open spec fn is_date_file_name(s: Seq<char>) -> bool {
    let n = s.len();
    &&& n >= 13
    &&& s.subrange(n - 5, n as int) == seq!['.', 'j', 's', 'o', 'n']
    &&& forall|i: int| 1 <= i < n - 5 ==> is_digit(#[trigger] s[i])
    &&& (is_digit(s[0]) || s[0] == '+' || s[0] == '-')
}

/// Calls `chrono::Local::now` and renders it with `DateTime::format` and the
/// strftime pattern `%Y%m%d.json`, the only pattern it takes. Which date comes out
/// depends on the clock and the time zone of the machine and is not stated; its
/// shape is: chrono writes the year zero-padded to four digits (with a sign and
/// more digits outside 0 to 9999), month and day as two digits, and the literal.
#[verifier::external_body]
fn local_now_formatted(pattern: &str) -> (r: String)
    requires
        pattern@ == "%Y%m%d.json"@,
    ensures
        is_date_file_name(r@),
{
    Local::now().format(pattern).to_string()
}

/// Bit pattern of the `f64` tempo of a new song: 128 BPM.
pub const DEFAULT_BPM_BITS: u64 = 0x4060000000000000;

/// Bit pattern of the `f64` sample rate of a new song: 48000 Hz.
pub const DEFAULT_SAMPLE_RATE_BITS: u64 = 0x40e7700000000000;

/// A song. `bpm_bits` and `sample_rate_bits` hold the bit patterns of the `f64`
/// tempo and sample rate; `lpb` is the number of lines per beat.
#[derive(Debug)]
pub struct Song {
    pub name: String,
    pub bpm_bits: u64,
    pub sample_rate_bits: u64,
    pub lpb: u16,
    pub tracks: Vec<Track>,
}

/// The mathematical value of a song.
pub struct SongV {
    pub name: String,
    pub bpm_bits: u64,
    pub sample_rate_bits: u64,
    pub lpb: u16,
    pub tracks: Seq<TrackV>,
}

pub open spec fn tracks_view(tracks: Seq<Track>) -> Seq<TrackV> {
    tracks.map_values(|t: Track| t@)
}

impl View for Song {
    type V = SongV;

    open spec fn view(&self) -> SongV {
        SongV {
            name: self.name,
            bpm_bits: self.bpm_bits,
            sample_rate_bits: self.sample_rate_bits,
            lpb: self.lpb,
            tracks: tracks_view(self.tracks@),
        }
    }
}

/// The name a new track gets: `Main` for the first track, else `T` and the number
/// of tracks before it in (at least two) upper-case hexadecimal digits.
pub open spec fn new_track_name(n: nat) -> Seq<char> {
    if n == 0 {
        seq!['M', 'a', 'i', 'n']
    } else {
        seq!['T'] + zero_pad(digits(n, 16, true), 2)
    }
}

/// The tracks after the remapping `r` of every track's module routing.
pub open spec fn remap_tracks(tracks: Seq<TrackV>, r: Remap) -> Seq<TrackV> {
    tracks.map_values(|t: TrackV| remap_track(t, r))
}

/// Every track's routing can take the remapping without overflowing an index.
pub open spec fn song_remap_fits(tracks: Seq<TrackV>, r: Remap) -> bool {
    forall|i: int| 0 <= i < tracks.len() ==> remap_fits(#[trigger] tracks[i], r)
}

/// `x + d`, clamped to the range of `usize`.
pub open spec fn add_signed_saturating(x: usize, d: isize) -> usize {
    let v = x + d;
    if v < 0 {
        0
    } else if v > usize::MAX {
        usize::MAX
    } else {
        v as usize
    }
}

/// `x + d`, clamped to the range of `usize`.
pub fn saturating_add_signed(x: usize, d: isize) -> (r: usize)
    ensures
        r == add_signed_saturating(x, d),
{
    if d >= 0 {
        let u = d as usize;
        if x > usize::MAX - u {
            usize::MAX
        } else {
            x + u
        }
    } else {
        let m: usize = if d == isize::MIN {
            (isize::MAX as usize) + 1
        } else {
            (-d) as usize
        };
        if x < m {
            0
        } else {
            x - m
        }
    }
}

impl Song {
    pub proof fn lemma_view_len(&self)
        ensures
            self@.tracks.len() == self.tracks@.len(),
    {
    }

    pub proof fn lemma_track_view(&self, i: int)
        requires
            0 <= i < self.tracks@.len(),
        ensures
            self@.tracks[i] == self.tracks@[i]@,
            self@.tracks[i].lanes.len() == self.tracks@[i].lanes@.len(),
            self@.tracks[i].modules.len() == self.tracks@[i].modules@.len(),
    {
    }

    /// A new song named after today's date (`YYYYMMDD.json`), at 128 BPM and
    /// 48000 Hz with 4 lines per beat and no tracks.
    pub fn new() -> (r: Self)
        ensures
            is_date_file_name(r.name@),
            r.bpm_bits == DEFAULT_BPM_BITS,
            r.sample_rate_bits == DEFAULT_SAMPLE_RATE_BITS,
            r.lpb == 4,
            r.tracks@.len() == 0,
    {
        Song {
            name: local_now_formatted("%Y%m%d.json"),
            bpm_bits: DEFAULT_BPM_BITS,
            sample_rate_bits: DEFAULT_SAMPLE_RATE_BITS,
            lpb: 4,
            tracks: Vec::new(),
        }
    }

    /// Appends a new track, named as [`new_track_name`] says.
    pub fn track_add(&mut self)
        ensures
            final(self)@.tracks.len() == old(self)@.tracks.len() + 1,
            final(self)@.tracks.drop_last() == old(self)@.tracks,
            final(self)@.tracks.last().name@ == new_track_name(old(self)@.tracks.len()),
            final(self)@.tracks.last() == new_track_view(final(self)@.tracks.last().name),
            final(self).tracks@.last().on_key_lane_map@ == Map::<i16, usize>::empty(),
            final(self)@.name == old(self)@.name,
            final(self)@.bpm_bits == old(self)@.bpm_bits,
            final(self)@.sample_rate_bits == old(self)@.sample_rate_bits,
            final(self)@.lpb == old(self)@.lpb,
    {
        let mut track = Track::new();
        let n = self.tracks.len();
        track.name = if n == 0 {
            proof {
                reveal_strlit("Main");
            }
            String::from_str("Main")
        } else {
            proof {
                reveal_strlit("T");
            }
            let mut s = String::from_str("T");
            push_padded(&mut s, n, 16, true, 2);
            s
        };
        assert(track.name@ =~= new_track_name(n as nat));
        let ghost t = track@;
        self.tracks.push(track);
        assert(final(self)@.tracks =~= old(self)@.tracks.push(t));
    }

    /// The track at `track_index`, if there is one.
    pub fn track_at(&self, track_index: usize) -> (r: Option<&Track>)
        ensures
            match r {
                Some(t) => track_index < self.tracks@.len() && *t == self.tracks@[track_index as int],
                None => track_index >= self.tracks@.len(),
            },
    {
        if track_index < self.tracks.len() {
            Some(&self.tracks[track_index])
        } else {
            None
        }
    }

    /// The module at `module_index`, if there is one.
    pub fn module_at(&self, module_index: ModuleIndex) -> (r: Option<&Module>)
        ensures
            match r {
                Some(m) => module_index.0 < self.tracks@.len() && module_index.1
                    < self.tracks@[module_index.0 as int].modules@.len() && *m
                    == self.tracks@[module_index.0 as int].modules@[module_index.1 as int],
                None => !(module_index.0 < self.tracks@.len() && module_index.1
                    < self.tracks@[module_index.0 as int].modules@.len()),
            },
    {
        match self.track_at(module_index.0) {
            Some(track) => {
                if module_index.1 < track.modules.len() {
                    Some(&track.modules[module_index.1])
                } else {
                    None
                }
            },
            None => None,
        }
    }

    /// The item under `cursor`, if its track, lane and line hold one.
    pub fn lane_item(&self, cursor: &CursorTrack) -> (r: Option<&LaneItem>)
        ensures
            match r {
                Some(item) => spec_lane_item(self@, *cursor) == Some(*item),
                None => spec_lane_item(self@, *cursor) is None,
            },
    {
        if cursor.track < self.tracks.len() {
            proof {
                self.lemma_track_view(cursor.track as int);
            }
            let track = &self.tracks[cursor.track];
            if cursor.lane < track.lanes.len() {
                assert(self@.tracks[cursor.track as int].lanes[cursor.lane as int]
                    == track.lanes@[cursor.lane as int]@);
                return track.lanes[cursor.lane].item(cursor.line);
            }
        }
        None
    }

    /// Deletes the track at `track_index`; inputs fed by it are dropped and inputs
    /// fed by later tracks follow them.
    pub fn track_delete(&mut self, track_index: usize)
        requires
            track_index < old(self)@.tracks.len(),
        ensures
            final(self)@ == (SongV {
                tracks: remap_tracks(old(self)@.tracks.remove(track_index as int), Remap::Delete(track_index)),
                ..old(self)@
            }),
    {
        let _track = self.tracks.remove(track_index);
        let ghost removed = tracks_view(self.tracks@);
        assert(removed =~= old(self)@.tracks.remove(track_index as int));
        self.remap_all(&Remap::Delete(track_index));
    }

    /// Inserts `track` at `track_index`; inputs fed by the tracks from that index on
    /// follow them one place down, including the inputs of the new track.
    pub fn track_insert(&mut self, track_index: usize, track: Track)
        requires
            track_index <= old(self)@.tracks.len(),
            song_remap_fits(old(self)@.tracks.insert(track_index as int, track@), Remap::Insert(track_index)),
        ensures
            final(self)@ == (SongV {
                tracks: remap_tracks(old(self)@.tracks.insert(track_index as int, track@), Remap::Insert(track_index)),
                ..old(self)@
            }),
    {
        let ghost t = track@;
        self.tracks.insert(track_index, track);
        assert(tracks_view(self.tracks@) =~= old(self)@.tracks.insert(track_index as int, t));
        self.remap_all(&Remap::Insert(track_index));
    }

    /// Moves the track at `track_index` by `delta` places and rewrites the routing
    /// as [`crate::model::track::input_after_move`] says.
    pub fn track_move(&mut self, track_index: usize, delta: isize)
        requires
            track_index < old(self)@.tracks.len(),
            add_signed_saturating(track_index, delta) < old(self)@.tracks.len(),
            song_remap_fits(
                old(self)@.tracks,
                Remap::Move(track_index, add_signed_saturating(track_index, delta)),
            ),
        ensures
            final(self)@ == (SongV {
                tracks: remap_tracks(
                    old(self)@.tracks.remove(track_index as int).insert(
                        add_signed_saturating(track_index, delta) as int,
                        old(self)@.tracks[track_index as int],
                    ),
                    Remap::Move(track_index, add_signed_saturating(track_index, delta)),
                ),
                ..old(self)@
            }),
    {
        let track_index_new = saturating_add_signed(track_index, delta);
        let track = self.tracks.remove(track_index);
        let ghost t = track@;
        assert(t == old(self)@.tracks[track_index as int]);
        self.tracks.insert(track_index_new, track);
        let ghost moved = old(self)@.tracks.remove(track_index as int).insert(track_index_new as int, t);
        assert(tracks_view(self.tracks@) =~= moved);
        assert(song_remap_fits(moved, Remap::Move(track_index, track_index_new))) by {
            assert forall|i: int| 0 <= i < moved.len() implies remap_fits(
                #[trigger] moved[i],
                Remap::Move(track_index, track_index_new),
            ) by {
                if i < track_index_new {
                    if i < track_index {
                        assert(moved[i] == old(self)@.tracks[i]);
                    } else {
                        assert(moved[i] == old(self)@.tracks[i + 1]);
                    }
                } else if i == track_index_new {
                } else {
                    if i <= track_index {
                        assert(moved[i] == old(self)@.tracks[i - 1]);
                    } else {
                        assert(moved[i] == old(self)@.tracks[i]);
                    }
                }
            }
        }
        self.remap_all(&Remap::Move(track_index, track_index_new));
    }

    fn remap_all(&mut self, r: &Remap)
        requires
            song_remap_fits(old(self)@.tracks, *r),
        ensures
            final(self)@ == (SongV { tracks: remap_tracks(old(self)@.tracks, *r), ..old(self)@ }),
    {
        let n = self.tracks.len();
        for i in 0..n
            invariant
                n == self.tracks@.len(),
                song_remap_fits(old(self)@.tracks, *r),
                self.name == old(self).name,
                self.bpm_bits == old(self).bpm_bits,
                self.sample_rate_bits == old(self).sample_rate_bits,
                self.lpb == old(self).lpb,
                old(self)@.tracks.len() == n,
                forall|k: int| 0 <= k < i ==> #[trigger] self.tracks@[k]@ == remap_track(old(self)@.tracks[k], *r),
                forall|k: int| i <= k < n ==> #[trigger] self.tracks@[k]@ == old(self)@.tracks[k],
        {
            assert(self.tracks@[i as int]@ == old(self)@.tracks[i as int]);
            assert(remap_fits(old(self)@.tracks[i as int], *r));
            let ghost prev = self.tracks@;
            self.tracks[i].remap_inputs(r);
            assert(forall|k: int| 0 <= k < n && k != i ==> self.tracks@[k] == prev[k]);
        }
        assert(tracks_view(self.tracks@) =~= remap_tracks(old(self)@.tracks, *r));
    }
}

impl Clone for Song {
    fn clone(&self) -> (r: Self)
        ensures
            r@ == self@,
            r.tracks@.len() == self.tracks@.len(),
            forall|i: int| 0 <= i < self.tracks@.len() ==> (#[trigger] r.tracks@[i])@ == self.tracks@[i]@
                && r.tracks@[i].lanes@.len() == self.tracks@[i].lanes@.len()
                && r.tracks@[i].modules@.len() == self.tracks@[i].modules@.len(),
    {
        let mut tracks: Vec<Track> = Vec::new();
        for i in 0..self.tracks.len()
            invariant
                tracks@.len() == i,
                forall|k: int| 0 <= k < i ==> (#[trigger] tracks@[k])@ == self.tracks@[k]@,
        {
            tracks.push(self.tracks[i].clone());
        }
        let r = Song {
            name: self.name.clone(),
            bpm_bits: self.bpm_bits,
            sample_rate_bits: self.sample_rate_bits,
            lpb: self.lpb,
            tracks,
        };
        assert(r@.tracks =~= self@.tracks);
        assert forall|i: int| 0 <= i < self.tracks@.len() implies r.tracks@[i].lanes@.len()
            == self.tracks@[i].lanes@.len() && r.tracks@[i].modules@.len() == self.tracks@[i].modules@.len() by {
            assert(r.tracks@[i]@.lanes.len() == self.tracks@[i]@.lanes.len());
            assert(r.tracks@[i]@.modules.len() == self.tracks@[i]@.modules.len());
        }
        r
    }
}

/// The item under a cursor, if its track, lane and line hold one.
pub open spec fn spec_lane_item(s: SongV, c: CursorTrack) -> Option<LaneItem> {
    if c.track < s.tracks.len() && c.lane < s.tracks[c.track as int].lanes.len()
        && s.tracks[c.track as int].lanes[c.lane as int].contains_key(c.line) {
        Some(s.tracks[c.track as int].lanes[c.lane as int][c.line])
    } else {
        None
    }
}

/// Remapping the inputs for an insertion at `k` and then for a deletion at `k`
/// gives back the inputs.
pub proof fn lemma_inputs_insert_delete(s: Seq<AudioInput>, k: int)
    requires
        0 <= k,
        forall|i: int| 0 <= i < s.len() ==> #[trigger] s[i].src_module_index.0 < usize::MAX,
    ensures
        inputs_after_delete(s.map_values(|a: AudioInput| input_after_insert(a, k)), k) == s,
    decreases s.len(),
{
    let m = s.map_values(|a: AudioInput| input_after_insert(a, k));
    if s.len() > 0 {
        assert(m.drop_last() =~= s.drop_last().map_values(|a: AudioInput| input_after_insert(a, k)));
        lemma_inputs_insert_delete(s.drop_last(), k);
        assert(m.last() == input_after_insert(s.last(), k));
        assert(input_after_delete(m.last(), k) == s.last());
        assert(s =~= s.drop_last().push(s.last()));
    } else {
        assert(s =~= seq![]);
    }
}

/// A track's routing survives an insertion at `k` followed by a deletion at `k`.
pub proof fn lemma_track_insert_delete(t: TrackV, k: usize)
    requires
        remap_fits(t, Remap::Insert(k)),
    ensures
        remap_track(remap_track(t, Remap::Insert(k)), Remap::Delete(k)) == t,
{
    let t2 = remap_track(remap_track(t, Remap::Insert(k)), Remap::Delete(k));
    assert forall|j: int| 0 <= j < t.modules.len() implies t2.modules[j] == t.modules[j] by {
        assert(inputs_fit(t.modules[j].audio_inputs, Remap::Insert(k)));
        lemma_inputs_insert_delete(t.modules[j].audio_inputs, k as int);
    }
    assert(t2.modules =~= t.modules);
}

/// Inserting a track at `k` and then deleting the track at `k` gives back the song.
pub proof fn lemma_song_insert_delete(s: SongV, k: usize, t: TrackV)
    requires
        k <= s.tracks.len(),
        song_remap_fits(s.tracks.insert(k as int, t), Remap::Insert(k)),
    ensures
        remap_tracks(
            remap_tracks(s.tracks.insert(k as int, t), Remap::Insert(k)).remove(k as int),
            Remap::Delete(k),
        ) == s.tracks,
{
    let ins = s.tracks.insert(k as int, t);
    let r = remap_tracks(remap_tracks(ins, Remap::Insert(k)).remove(k as int), Remap::Delete(k));
    assert forall|i: int| 0 <= i < s.tracks.len() implies r[i] == s.tracks[i] by {
        let j = if i < k { i } else { i + 1 };
        assert(ins[j] == s.tracks[i]);
        assert(remap_fits(ins[j], Remap::Insert(k)));
        lemma_track_insert_delete(s.tracks[i], k);
    }
    assert(r =~= s.tracks);
}

/// The tracks after the track at `from` is moved to `to`, as [`Song::track_move`]
/// says.
pub open spec fn tracks_moved(tracks: Seq<TrackV>, from: usize, to: usize) -> Seq<TrackV> {
    remap_tracks(tracks.remove(from as int).insert(to as int, tracks[from as int]), Remap::Move(from, to))
}

/// Every input of the tracks comes from the track at `from` or from a track
/// outside the places from `from` to `to`.
pub open spec fn inputs_clear_of_move(tracks: Seq<TrackV>, from: usize, to: usize) -> bool {
    forall|t: int, m: int, i: int|
        0 <= t < tracks.len() && 0 <= m < tracks[t].modules.len() && 0 <= i
            < tracks[t].modules[m].audio_inputs.len() ==> {
            let src = (#[trigger] tracks[t].modules[m].audio_inputs[i]).src_module_index.0;
            src == from || (src < from && src < to) || (src > from && src > to)
        }
}

proof fn lemma_input_move_back(a: AudioInput, from: usize, to: usize)
    requires
        a.src_module_index.0 == from || (a.src_module_index.0 < from && a.src_module_index.0 < to) || (
        a.src_module_index.0 > from && a.src_module_index.0 > to),
    ensures
        input_after_move(input_after_move(a, from as int, to as int), to as int, from as int) == a,
{
}

proof fn lemma_track_move_back(t: TrackV, from: usize, to: usize)
    requires
        forall|m: int, i: int|
            0 <= m < t.modules.len() && 0 <= i < t.modules[m].audio_inputs.len() ==> {
                let src = (#[trigger] t.modules[m].audio_inputs[i]).src_module_index.0;
                src == from || (src < from && src < to) || (src > from && src > to)
            },
    ensures
        remap_track(remap_track(t, Remap::Move(from, to)), Remap::Move(to, from)) == t,
{
    let t2 = remap_track(remap_track(t, Remap::Move(from, to)), Remap::Move(to, from));
    assert forall|m: int| 0 <= m < t.modules.len() implies t2.modules[m] == t.modules[m] by {
        let ins = t.modules[m].audio_inputs;
        let back = t2.modules[m].audio_inputs;
        assert forall|i: int| 0 <= i < ins.len() implies back[i] == ins[i] by {
            assert(t.modules[m].audio_inputs[i] == ins[i]);
            lemma_input_move_back(ins[i], from, to);
        }
        assert(back =~= ins);
    }
    assert(t2.modules =~= t.modules);
}

/// Moving a track from `from` to `to` and then moving it from `to` back to `from`
/// gives back the tracks, when every module input comes from the moved track or
/// from a track outside the places the move passes over.
pub proof fn lemma_track_move_round_trip(tracks: Seq<TrackV>, from: usize, to: usize)
    requires
        from < tracks.len(),
        to < tracks.len(),
        inputs_clear_of_move(tracks, from, to),
    ensures
        tracks_moved(tracks_moved(tracks, from, to), to, from) == tracks,
{
    let x = tracks[from as int];
    let b0 = tracks.remove(from as int).insert(to as int, x);
    let b = tracks_moved(tracks, from, to);
    let c0 = b.remove(to as int).insert(from as int, b[to as int]);
    assert(b0.remove(to as int).insert(from as int, b0[to as int]) =~= tracks);
    assert(c0 =~= remap_tracks(tracks, Remap::Move(from, to)));
    let c = tracks_moved(b, to, from);
    assert forall|i: int| 0 <= i < tracks.len() implies c[i] == tracks[i] by {
        assert(c[i] == remap_track(remap_track(tracks[i], Remap::Move(from, to)), Remap::Move(to, from)));
        assert forall|m: int, k: int|
            0 <= m < tracks[i].modules.len() && 0 <= k < tracks[i].modules[m].audio_inputs.len() implies {
                let src = (#[trigger] tracks[i].modules[m].audio_inputs[k]).src_module_index.0;
                src == from || (src < from && src < to) || (src > from && src > to)
            } by {
            assert(tracks[i].modules[m].audio_inputs[k] == tracks[i].modules[m].audio_inputs[k]);
        }
        lemma_track_move_back(tracks[i], from, to);
    }
    assert(c =~= tracks);
}

} // verus!
