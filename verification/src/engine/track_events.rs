//! The events a track produces while the song plays, and the lane items that
//! recorded input becomes.
use crate::engine::event::Event;
use crate::engine::process_track_context::ProcessTrackContext;
use crate::model::lane_item::{item_delay, LaneItem};
use crate::model::track::{Track, TrackV};
use crate::note::Note;
use std::ops::Range;
use vstd::prelude::*;

verus! {

broadcast use vstd::std_specs::hash::group_hash_axioms;

/// The events collected so far and the key held by each lane.
pub struct PlayState {
    pub events: Seq<Event>,
    pub on_keys: Seq<Option<i16>>,
}

/// `keys` long enough to hold lane `li`, new places empty.
pub open spec fn keys_extended(keys: Seq<Option<i16>>, li: int) -> Seq<Option<i16>> {
    if keys.len() <= li {
        keys + Seq::new((li + 1 - keys.len()) as nat, |i: int| None::<i16>)
    } else {
        keys
    }
}

/// A note of lane `li` that falls in the block: the key the lane still holds is
/// released, then, unless the note is a note-off, the new key sounds and the lane
/// holds it.
pub open spec fn note_step(st: PlayState, li: int, note: Note, delay: usize) -> PlayState {
    let events = if 0 <= li < st.on_keys.len() && st.on_keys[li] is Some {
        st.events.push(Event::NoteOff(st.on_keys[li]->0, delay))
    } else {
        st.events
    };
    if !note.off {
        PlayState {
            events: events.push(Event::NoteOn(note.key, note.velocity, delay)),
            on_keys: keys_extended(st.on_keys, li).update(li, Some(note.key)),
        }
    } else {
        PlayState { events, on_keys: st.on_keys }
    }
}

/// The item of lane `li` at `line`, when its time (line and delay, in 1/256 of a
/// line) falls in `range`.
pub open spec fn item_step(
    t: TrackV,
    st: PlayState,
    li: int,
    line: int,
    item: LaneItem,
    range: Range<usize>,
) -> PlayState {
    let time = line * 256 + item_delay(item);
    if range.start <= time < range.end {
        let delay = (time - range.start) as usize;
        match item {
            LaneItem::Note(n) => note_step(st, li, n, delay),
            LaneItem::Point(p) => {
                let (module_index, param_id) = t.automation_params[p.automation_params_index as int];
                PlayState {
                    events: st.events.push(Event::ParamValue(module_index, param_id, p.value, delay)),
                    on_keys: st.on_keys,
                }
            },
            _ => st,
        }
    } else {
        st
    }
}

/// The items at `line` of the first `nl` lanes, lane by lane.
pub open spec fn lanes_step(t: TrackV, st: PlayState, line: int, range: Range<usize>, nl: nat) -> PlayState
    decreases nl,
{
    if nl == 0 {
        st
    } else {
        let prev = lanes_step(t, st, line, range, (nl - 1) as nat);
        let li = nl - 1;
        if t.lanes[li].contains_key(line as usize) {
            item_step(t, prev, li, line, t.lanes[li][line as usize], range)
        } else {
            prev
        }
    }
}

/// The lines `first .. first + n`, line by line.
pub open spec fn lines_step(t: TrackV, st: PlayState, range: Range<usize>, first: int, n: nat) -> PlayState
    decreases n,
{
    if n == 0 {
        st
    } else {
        let prev = lines_step(t, st, range, first, (n - 1) as nat);
        lanes_step(t, prev, first + n - 1, range, t.lanes.len())
    }
}

/// Every line that `range` touches, from the line of its start to the line of its
/// end, both included.
pub open spec fn range_step(t: TrackV, st: PlayState, range: Range<usize>) -> PlayState {
    let first = range.start / 256;
    let last = range.end / 256;
    lines_step(t, st, range, first as int, if last >= first { (last - first + 1) as nat } else { 0 })
}

/// The events of one block: nothing when the song is stopped; the play range when it
/// runs forward; else, when the block wrapped at the end of the loop, the part up to
/// the loop end and then the part from the loop start.
pub open spec fn spec_compute_midi(
    t: TrackV,
    st: PlayState,
    play_p: bool,
    play_position: Range<usize>,
    loop_range: Range<usize>,
) -> PlayState {
    if !play_p {
        st
    } else if play_position.start < play_position.end {
        range_step(t, st, play_position)
    } else {
        range_step(
            t,
            range_step(t, st, Range { start: play_position.start, end: loop_range.end }),
            Range { start: loop_range.start, end: play_position.end },
        )
    }
}

/// The track holds `item` at `line` of lane `li` and nothing else.
pub open spec fn only_item(t: TrackV, li: int, line: usize, item: LaneItem) -> bool {
    &&& 0 <= li < t.lanes.len()
    &&& t.lanes[li] == Map::<usize, LaneItem>::empty().insert(line, item)
    &&& forall|j: int| 0 <= j < t.lanes.len() && j != li ==> #[trigger] t.lanes[j] == Map::<usize, LaneItem>::empty()
}

proof fn lemma_lanes_step_only(t: TrackV, st: PlayState, l: int, range: Range<usize>, nl: nat, li: int, line: usize, item: LaneItem)
    requires
        only_item(t, li, line, item),
        0 <= l <= usize::MAX,
        nl <= t.lanes.len(),
    ensures
        lanes_step(t, st, l, range, nl) == (if l == line && li < nl {
            item_step(t, st, li, l, item, range)
        } else {
            st
        }),
    decreases nl,
{
    if nl > 0 {
        lemma_lanes_step_only(t, st, l, range, (nl - 1) as nat, li, line, item);
        let j = nl - 1;
        if j != li {
            assert(t.lanes[j] == Map::<usize, LaneItem>::empty());
        }
    }
}

proof fn lemma_lines_step_only(t: TrackV, st: PlayState, range: Range<usize>, first: int, n: nat, li: int, line: usize, item: LaneItem)
    requires
        only_item(t, li, line, item),
        0 <= first,
        first + n <= usize::MAX + 1,
    ensures
        lines_step(t, st, range, first, n) == (if first <= line < first + n {
            item_step(t, st, li, line as int, item, range)
        } else {
            st
        }),
    decreases n,
{
    if n > 0 {
        lemma_lines_step_only(t, st, range, first, (n - 1) as nat, li, line, item);
        let prev = lines_step(t, st, range, first, (n - 1) as nat);
        lemma_lanes_step_only(t, prev, first + n - 1, range, t.lanes.len(), li, line, item);
    }
}

/// On a track that holds one item, the lines a range touches give what that item
/// gives when its time falls in the range, and nothing else.
proof fn lemma_range_step_only(t: TrackV, st: PlayState, range: Range<usize>, li: int, line: usize, item: LaneItem)
    requires
        only_item(t, li, line, item),
    ensures
        range_step(t, st, range) == (if range.start <= line * 256 + item_delay(item) < range.end {
            item_step(t, st, li, line as int, item, range)
        } else {
            st
        }),
{
    let first = range.start / 256;
    let last = range.end / 256;
    vstd::arithmetic::div_mod::lemma_fundamental_div_mod(range.start as int, 256);
    vstd::arithmetic::div_mod::lemma_fundamental_div_mod(range.end as int, 256);
    let n: nat = if last >= first { (last - first + 1) as nat } else { 0 };
    lemma_lines_step_only(t, st, range, first as int, n, li, line, item);
}

/// The events a forward block gives on a track that holds a single note `nt` (not a
/// note-off) at `line` of lane `li`, while that lane holds no key: the note sounds
/// with its time less the block start as delay when its time (line and delay, in
/// 1/256 of a line) falls in the block, and nothing happens when it does not.
pub proof fn lemma_forward_block_plays_its_note(
    t: TrackV,
    st: PlayState,
    play_position: Range<usize>,
    loop_range: Range<usize>,
    li: int,
    line: usize,
    nt: Note,
)
    requires
        only_item(t, li, line, LaneItem::Note(nt)),
        !nt.off,
        li >= st.on_keys.len() || st.on_keys[li] is None,
        play_position.start < play_position.end,
    ensures
        play_position.start <= line * 256 + nt.delay < play_position.end ==> spec_compute_midi(
            t,
            st,
            true,
            play_position,
            loop_range,
        ).events == st.events.push(Event::NoteOn(nt.key, nt.velocity, (line * 256 + nt.delay - play_position.start) as usize)),
        !(play_position.start <= line * 256 + nt.delay < play_position.end) ==> spec_compute_midi(
            t,
            st,
            true,
            play_position,
            loop_range,
        ) == st,
{
    lemma_range_step_only(t, st, play_position, li, line, LaneItem::Note(nt));
}

/// A note of a lane that still holds a key releases that key first, at the same
/// delay; a note-off item only releases it. Either way the lane then holds the new
/// key, or, after a note-off, what it held.
pub proof fn lemma_note_replaces_held_key(
    t: TrackV,
    st: PlayState,
    play_position: Range<usize>,
    loop_range: Range<usize>,
    li: int,
    line: usize,
    nt: Note,
    held: i16,
)
    requires
        only_item(t, li, line, LaneItem::Note(nt)),
        li < st.on_keys.len(),
        st.on_keys[li] == Some(held),
        play_position.start <= line * 256 + nt.delay < play_position.end,
    ensures
        ({
            let r = spec_compute_midi(t, st, true, play_position, loop_range);
            let d = (line * 256 + nt.delay - play_position.start) as usize;
            &&& !nt.off ==> r.events == st.events.push(Event::NoteOff(held, d)).push(Event::NoteOn(nt.key, nt.velocity, d))
            &&& !nt.off ==> r.on_keys == st.on_keys.update(li, Some(nt.key))
            &&& nt.off ==> r.events == st.events.push(Event::NoteOff(held, d))
            &&& nt.off ==> r.on_keys == st.on_keys
        }),
{
    lemma_range_step_only(t, st, play_position, li, line, LaneItem::Note(nt));
    assert(keys_extended(st.on_keys, li) == st.on_keys);
}

/// A block that wrapped at the loop end plays as the block from its start to the
/// loop end followed by the block from the loop start to its end.
pub proof fn lemma_wrapped_block_is_two_blocks(t: TrackV, st: PlayState, play_position: Range<usize>, loop_range: Range<usize>)
    requires
        play_position.start >= play_position.end,
        play_position.start < loop_range.end,
        loop_range.start < play_position.end,
    ensures
        spec_compute_midi(t, st, true, play_position, loop_range) == spec_compute_midi(
            t,
            spec_compute_midi(t, st, true, Range { start: play_position.start, end: loop_range.end }, loop_range),
            true,
            Range { start: loop_range.start, end: play_position.end },
            loop_range,
        ),
{
}

/// In a block that wrapped at the loop end, a single note (not a note-off) whose
/// time falls after the loop start and before the block end, and not in the part
/// before the loop end, sounds with its time less the loop start as delay.
pub proof fn lemma_wrapped_block_plays_note_after_loop_start(
    t: TrackV,
    st: PlayState,
    play_position: Range<usize>,
    loop_range: Range<usize>,
    li: int,
    line: usize,
    nt: Note,
)
    requires
        only_item(t, li, line, LaneItem::Note(nt)),
        !nt.off,
        li >= st.on_keys.len() || st.on_keys[li] is None,
        play_position.start >= play_position.end,
        loop_range.start <= line * 256 + nt.delay < play_position.end,
        !(play_position.start <= line * 256 + nt.delay < loop_range.end),
    ensures
        spec_compute_midi(t, st, true, play_position, loop_range).events == st.events.push(
            Event::NoteOn(nt.key, nt.velocity, (line * 256 + nt.delay - loop_range.start) as usize),
        ),
{
    let item = LaneItem::Note(nt);
    let first_part = Range { start: play_position.start, end: loop_range.end };
    lemma_range_step_only(t, st, first_part, li, line, item);
    lemma_range_step_only(t, st, Range { start: loop_range.start, end: play_position.end }, li, line, item);
}

/// Every automation point of the track names an existing automated parameter.
pub open spec fn points_valid(t: TrackV) -> bool {
    forall|li: int, line: usize|
        0 <= li < t.lanes.len() && #[trigger] t.lanes[li].contains_key(line) ==> match t.lanes[li][line] {
            LaneItem::Point(p) => p.automation_params_index < t.automation_params.len(),
            _ => true,
        }
}

/// Two contexts are set up for the same block, with the same plugin instances.
pub open spec fn same_setup(a: ProcessTrackContext, b: ProcessTrackContext) -> bool {
    &&& a.nchannels == b.nchannels
    &&& a.nframes == b.nframes
    &&& a.play_p == b.play_p
    &&& a.bpm_bits == b.bpm_bits
    &&& a.steady_time == b.steady_time
    &&& a.play_position == b.play_position
    &&& a.loop_range == b.loop_range
    &&& a.plugins == b.plugins
}

/// The block positions are far enough from the end of `usize` that line times fit.
pub open spec fn positions_fit(play_position: Range<usize>, loop_range: Range<usize>) -> bool {
    &&& play_position.end < usize::MAX - 512
    &&& loop_range.end < usize::MAX - 512
}

pub open spec fn context_state(c: ProcessTrackContext) -> PlayState {
    PlayState { events: c.event_list_input@, on_keys: c.on_keys@ }
}

impl Track {
    fn note_events(&self, context: &mut ProcessTrackContext, li: usize, note: &Note, delay: usize)
        requires
            li < self@.lanes.len(),
            li < usize::MAX,
        ensures
            context_state(*final(context)) == note_step(context_state(*old(context)), li as int, *note, delay),
            same_setup(*final(context), *old(context)),
    {
        if li < context.on_keys.len() {
            if let Some(key) = context.on_keys[li] {
                context.event_list_input.push(Event::NoteOff(key, delay));
            }
        }
        if !note.off {
            context.event_list_input.push(Event::NoteOn(note.key, note.velocity, delay));
            let ghost before = context.on_keys@;
            let ghost ev = context.event_list_input@;
            if context.on_keys.len() <= li {
                while context.on_keys.len() < li + 1
                    invariant
                        li < usize::MAX,
                        ev == context.event_list_input@,
                        same_setup(*context, *old(context)),
                        context.on_keys@.len() <= li + 1,
                        before.len() <= li,
                        context.on_keys@ == before + Seq::new((context.on_keys@.len() - before.len()) as nat, |i: int| None::<i16>),
                    decreases li + 1 - context.on_keys@.len(),
                {
                    context.on_keys.push(None);
                    assert(context.on_keys@ =~= before + Seq::new((context.on_keys@.len() - before.len()) as nat, |i: int| None::<i16>));
                }
            }
            assert(context.on_keys@ == keys_extended(before, li as int));
            context.on_keys.set(li, Some(note.key));
        }
    }

    fn line_events(&self, context: &mut ProcessTrackContext, line: usize, range: &Range<usize>)
        requires
            points_valid(self@),
            line <= range.end / 256,
            range.end < usize::MAX - 512,
            self@.lanes.len() < usize::MAX,
        ensures
            context_state(*final(context)) == lanes_step(self@, context_state(*old(context)), line as int, *range, self@.lanes.len()),
            same_setup(*final(context), *old(context)),
    {
        let ghost t = self@;
        let nl = self.lanes.len();
        for li in 0..nl
            invariant
                t == self@,
                nl == t.lanes.len(),
                points_valid(t),
                line <= range.end / 256,
                range.end < usize::MAX - 512,
                nl < usize::MAX,
                context_state(*context) == lanes_step(t, context_state(*old(context)), line as int, *range, li as nat),
                same_setup(*context, *old(context)),
        {
            assert(t.lanes[li as int] == self.lanes@[li as int]@);
            match self.lanes[li].item(line) {
                Some(item) => {
                    assert(line * 256 + 255 <= usize::MAX) by (nonlinear_arith)
                        requires
                            line <= range.end / 256,
                            range.end < usize::MAX - 512,
                    ;
                    let time = line * 256 + item.delay() as usize;
                    if range.start <= time && time < range.end {
                        let delay = time - range.start;
                        match item {
                            LaneItem::Note(note) => {
                                self.note_events(context, li, note, delay);
                            },
                            LaneItem::Point(point) => {
                                assert(t.lanes[li as int].contains_key(line));
                                let (module_index, param_id) = self.automation_params[point.automation_params_index];
                                context.event_list_input.push(
                                    Event::ParamValue(module_index, param_id, point.value, delay),
                                );
                            },
                            _ => {},
                        }
                    }
                },
                None => {},
            }
        }
    }

    fn range_events(&self, context: &mut ProcessTrackContext, range: Range<usize>)
        requires
            points_valid(self@),
            range.end < usize::MAX - 512,
            self@.lanes.len() < usize::MAX,
        ensures
            context_state(*final(context)) == range_step(self@, context_state(*old(context)), range),
            same_setup(*final(context), *old(context)),
    {
        let ghost t = self@;
        let line_start = range.start / 256;
        let line_end = range.end / 256;
        if line_end < line_start {
            return;
        }
        let mut line = line_start;
        while line <= line_end
            invariant
                t == self@,
                points_valid(t),
                range.end < usize::MAX - 512,
                t.lanes.len() < usize::MAX,
                line_start == range.start / 256,
                line_end == range.end / 256,
                line_start <= line <= line_end + 1,
                context_state(*context) == lines_step(t, context_state(*old(context)), range, line_start as int, (line - line_start) as nat),
                same_setup(*context, *old(context)),
            decreases line_end + 1 - line,
        {
            self.line_events(context, line, &range);
            line = line + 1;
        }
    }

    /// Adds to `context` the events of the block it describes, as
    /// [`spec_compute_midi`] says.
    pub fn compute_midi(&self, context: &mut ProcessTrackContext)
        requires
            points_valid(self@),
            positions_fit(old(context).play_position, old(context).loop_range),
            self@.lanes.len() < usize::MAX,
        ensures
            context_state(*final(context)) == spec_compute_midi(
                self@,
                context_state(*old(context)),
                old(context).play_p,
                old(context).play_position,
                old(context).loop_range,
            ),
            same_setup(*final(context), *old(context)),
    {
        if !context.play_p {
            return;
        }
        let pp_start = context.play_position.start;
        let pp_end = context.play_position.end;
        if pp_start < pp_end {
            self.range_events(context, Range { start: pp_start, end: pp_end });
        } else {
            let loop_start = context.loop_range.start;
            let loop_end = context.loop_range.end;
            self.range_events(context, Range { start: pp_start, end: loop_end });
            self.range_events(context, Range { start: loop_start, end: pp_end });
        }
    }
}

/// The lanes of a track and which lane each held key was recorded into.
pub struct RecordState {
    pub lanes: Seq<Map<usize, LaneItem>>,
    pub key_lanes: Map<i16, usize>,
}

/// The first lane from `i` on that has no item at `line`, or the number of lanes
/// when every lane has one.
pub open spec fn first_free_from(lanes: Seq<Map<usize, LaneItem>>, line: usize, i: int) -> int
    decreases lanes.len() - i,
{
    if i >= lanes.len() {
        lanes.len() as int
    } else if !lanes[i].contains_key(line) {
        i
    } else {
        first_free_from(lanes, line, i + 1)
    }
}

/// The note that a recorded note-on becomes.
pub open spec fn recorded_note(key: i16, velocity: u8, delay: u8) -> Note {
    Note { key, velocity, delay, off: false, channel: 0 }
}

/// The note that a recorded note-off becomes.
pub open spec fn recorded_note_off(key: i16, delay: u8) -> Note {
    Note { key, velocity: 100, delay, off: true, channel: 0 }
}

/// One recorded event at `line`: a note-on goes into the first lane that is free at
/// that line (a new lane when none is) and its lane is remembered for the key; a
/// note-off of a remembered key goes into that key's lane; other events leave no
/// trace.
pub open spec fn record_step(st: RecordState, e: Event, line: usize, delay: u8) -> RecordState {
    match e {
        Event::NoteOn(key, velocity, _) => {
            let li = first_free_from(st.lanes, line, 0);
            let lanes = if li == st.lanes.len() { st.lanes.push(Map::empty()) } else { st.lanes };
            RecordState {
                lanes: lanes.update(li, lanes[li].insert(line, LaneItem::Note(recorded_note(key, velocity, delay)))),
                key_lanes: st.key_lanes.insert(key, li as usize),
            }
        },
        Event::NoteOff(key, _) => {
            if st.key_lanes.contains_key(key) {
                let li = st.key_lanes[key] as int;
                RecordState {
                    lanes: st.lanes.update(li, st.lanes[li].insert(line, LaneItem::Note(recorded_note_off(key, delay)))),
                    key_lanes: st.key_lanes,
                }
            } else {
                st
            }
        },
        _ => st,
    }
}

/// The recorded events one after the other.
pub open spec fn record_all(st: RecordState, events: Seq<Event>, line: usize, delay: u8) -> RecordState
    decreases events.len(),
{
    if events.len() == 0 {
        st
    } else {
        record_step(record_all(st, events.drop_last(), line, delay), events.last(), line, delay)
    }
}

/// The remembered lanes of held keys are lanes of the track.
pub open spec fn key_lanes_valid(st: RecordState) -> bool {
    forall|k: i16| #[trigger] st.key_lanes.contains_key(k) ==> st.key_lanes[k] < st.lanes.len()
}

pub open spec fn record_state(t: &Track) -> RecordState {
    RecordState { lanes: t@.lanes, key_lanes: t.on_key_lane_map@ }
}

proof fn lemma_first_free_bound(lanes: Seq<Map<usize, LaneItem>>, line: usize, i: int)
    requires
        0 <= i <= lanes.len(),
    ensures
        i <= first_free_from(lanes, line, i) <= lanes.len(),
        first_free_from(lanes, line, i) < lanes.len() ==> !lanes[first_free_from(lanes, line, i)].contains_key(line),
    decreases lanes.len() - i,
{
    if i < lanes.len() && lanes[i].contains_key(line) {
        lemma_first_free_bound(lanes, line, i + 1);
    }
}

proof fn lemma_record_step_valid(st: RecordState, e: Event, line: usize, delay: u8)
    requires
        key_lanes_valid(st),
    ensures
        key_lanes_valid(record_step(st, e, line, delay)),
        record_step(st, e, line, delay).lanes.len() >= st.lanes.len(),
{
    lemma_first_free_bound(st.lanes, line, 0);
}

/// Whether `e` turns `key` on.
pub open spec fn turns_on(e: Event, key: i16) -> bool {
    match e {
        Event::NoteOn(k, _, _) => k == key,
        _ => false,
    }
}

proof fn lemma_first_free_taken(lanes: Seq<Map<usize, LaneItem>>, line: usize, i: int)
    requires
        0 <= i <= lanes.len(),
    ensures
        forall|j: int| i <= j < first_free_from(lanes, line, i) ==> #[trigger] lanes[j].contains_key(line),
    decreases lanes.len() - i,
{
    if i < lanes.len() && lanes[i].contains_key(line) {
        lemma_first_free_taken(lanes, line, i + 1);
    }
}

proof fn lemma_record_keeps_key_lane(st: RecordState, events: Seq<Event>, line: usize, delay: u8, key: i16)
    requires
        key_lanes_valid(st),
        st.key_lanes.contains_key(key),
        forall|i: int| 0 <= i < events.len() ==> !turns_on(#[trigger] events[i], key),
    ensures
        record_all(st, events, line, delay).key_lanes.contains_key(key),
        record_all(st, events, line, delay).key_lanes[key] == st.key_lanes[key],
        record_all(st, events, line, delay).lanes.len() >= st.lanes.len(),
        key_lanes_valid(record_all(st, events, line, delay)),
    decreases events.len(),
{
    if events.len() > 0 {
        let prev = events.drop_last();
        assert forall|i: int| 0 <= i < prev.len() implies !turns_on(#[trigger] prev[i], key) by {
            assert(prev[i] == events[i]);
        }
        lemma_record_keeps_key_lane(st, prev, line, delay, key);
        let m = record_all(st, prev, line, delay);
        lemma_record_step_valid(m, events.last(), line, delay);
        assert(!turns_on(events[events.len() - 1], key));
    }
}

/// A recorded note-on goes into the first lane free at its line (a new lane when
/// none is) as a note of its key and velocity, and a later note-off of the same
/// key, with no other note-on of that key recorded in between, goes into that same
/// lane at its own line as a note-off of that key.
pub proof fn lemma_note_off_follows_note_on(
    st: RecordState,
    key: i16,
    velocity: u8,
    on_delay_in: usize,
    line_on: usize,
    delay_on: u8,
    mid: Seq<Event>,
    line_mid: usize,
    delay_mid: u8,
    off_delay_in: usize,
    line_off: usize,
    delay_off: u8,
)
    requires
        key_lanes_valid(st),
        st.lanes.len() < usize::MAX,
        forall|i: int| 0 <= i < mid.len() ==> !turns_on(#[trigger] mid[i], key),
    ensures
        ({
            let s1 = record_step(st, Event::NoteOn(key, velocity, on_delay_in), line_on, delay_on);
            let s2 = record_all(s1, mid, line_mid, delay_mid);
            let s3 = record_step(s2, Event::NoteOff(key, off_delay_in), line_off, delay_off);
            exists|li: int|
                0 <= li <= st.lanes.len() && (forall|j: int| 0 <= j < li ==> #[trigger] st.lanes[j].contains_key(line_on))
                    && (li < st.lanes.len() ==> !st.lanes[li].contains_key(line_on)) && li < s3.lanes.len()
                    && s1.lanes[li][line_on] == LaneItem::Note(
                    Note { key, velocity, delay: delay_on, off: false, channel: 0 },
                ) && s3.lanes[li].contains_key(line_off) && s3.lanes[li][line_off] == LaneItem::Note(
                    Note { key, velocity: 100, delay: delay_off, off: true, channel: 0 },
                )
        }),
{
    let s1 = record_step(st, Event::NoteOn(key, velocity, on_delay_in), line_on, delay_on);
    let s2 = record_all(s1, mid, line_mid, delay_mid);
    let s3 = record_step(s2, Event::NoteOff(key, off_delay_in), line_off, delay_off);
    let li = first_free_from(st.lanes, line_on, 0);
    lemma_first_free_bound(st.lanes, line_on, 0);
    lemma_first_free_taken(st.lanes, line_on, 0);
    lemma_record_step_valid(st, Event::NoteOn(key, velocity, on_delay_in), line_on, delay_on);
    assert(s1.key_lanes[key] == li);
    lemma_record_keeps_key_lane(s1, mid, line_mid, delay_mid, key);
    assert(s2.key_lanes[key] == li);
    assert(s3.lanes[li] == s2.lanes[li].insert(line_off, LaneItem::Note(recorded_note_off(key, delay_off))));
}

/// Every automation point in the lanes names one of the first `n` automated
/// parameters.
pub open spec fn lanes_points_below(lanes: Seq<Map<usize, LaneItem>>, n: nat) -> bool {
    forall|li: int, line: usize|
        0 <= li < lanes.len() && #[trigger] lanes[li].contains_key(line) ==> match lanes[li][line] {
            LaneItem::Point(p) => p.automation_params_index < n,
            _ => true,
        }
}

proof fn lemma_record_step_points(st: RecordState, e: Event, line: usize, delay: u8, n: nat)
    requires
        key_lanes_valid(st),
        lanes_points_below(st.lanes, n),
    ensures
        lanes_points_below(record_step(st, e, line, delay).lanes, n),
{
    lemma_first_free_bound(st.lanes, line, 0);
    let r = record_step(st, e, line, delay).lanes;
    assert forall|li: int, l: usize| 0 <= li < r.len() && #[trigger] r[li].contains_key(l) implies match r[li][l] {
        LaneItem::Point(p) => p.automation_params_index < n,
        _ => true,
    } by {
        if li < st.lanes.len() && st.lanes[li].contains_key(l) && !(r[li][l] is Note) {
            assert(r[li][l] == st.lanes[li][l]);
        }
    }
}

/// Recording writes notes only, so every automation point left in the lanes still
/// names one of the first `n` automated parameters.
pub proof fn lemma_record_all_points(st: RecordState, events: Seq<Event>, line: usize, delay: u8, n: nat)
    requires
        key_lanes_valid(st),
        lanes_points_below(st.lanes, n),
    ensures
        lanes_points_below(record_all(st, events, line, delay).lanes, n),
        key_lanes_valid(record_all(st, events, line, delay)),
    decreases events.len(),
{
    if events.len() > 0 {
        lemma_record_all_points(st, events.drop_last(), line, delay, n);
        let m = record_all(st, events.drop_last(), line, delay);
        lemma_record_step_points(m, events.last(), line, delay, n);
        lemma_record_step_valid(m, events.last(), line, delay);
    }
}

impl Track {
    fn record_event(&mut self, event: &Event, line: usize, delay: u8)
        requires
            old(self)@.lanes.len() > 0,
            old(self)@.lanes.len() < usize::MAX,
            key_lanes_valid(record_state(old(self))),
        ensures
            record_state(final(self)) == record_step(record_state(old(self)), *event, line, delay),
            final(self).name == old(self).name,
            final(self).volume_bits == old(self).volume_bits,
            final(self).pan_bits == old(self).pan_bits,
            final(self).mute == old(self).mute,
            final(self).solo == old(self).solo,
            final(self)@.modules == old(self)@.modules,
            final(self).automation_params@ == old(self).automation_params@,
    {
        let ghost st = record_state(self);
        match event {
            Event::NoteOn(key, velocity, _) => {
                let item = LaneItem::Note(Note { key: *key, velocity: *velocity, delay, off: false, channel: 0 });
                let mut lane_index: usize = 0;
                loop
                    invariant
                        0 <= lane_index <= st.lanes.len(),
                        first_free_from(st.lanes, line, 0) == first_free_from(st.lanes, line, lane_index as int),
                        record_state(self) == st,
                        st.lanes.len() < usize::MAX,
                        self.name == old(self).name,
                        self.volume_bits == old(self).volume_bits,
                        self.pan_bits == old(self).pan_bits,
                        self.mute == old(self).mute,
                        self.solo == old(self).solo,
                        self@.modules == old(self)@.modules,
                        self.automation_params@ == old(self).automation_params@,
                    ensures
                        0 <= lane_index <= st.lanes.len(),
                        first_free_from(st.lanes, line, 0) == first_free_from(st.lanes, line, lane_index as int),
                        record_state(self) == st,
                        lane_index == st.lanes.len() || !st.lanes[lane_index as int].contains_key(line),
                        self.name == old(self).name,
                        self.volume_bits == old(self).volume_bits,
                        self.pan_bits == old(self).pan_bits,
                        self.mute == old(self).mute,
                        self.solo == old(self).solo,
                        self@.modules == old(self)@.modules,
                        self.automation_params@ == old(self).automation_params@,
                    decreases st.lanes.len() - lane_index,
                {
                    if lane_index == self.lanes.len() {
                        break;
                    }
                    assert(self@.lanes[lane_index as int] == self.lanes@[lane_index as int]@);
                    if !self.lanes[lane_index].items.contains_key(&line) {
                        break;
                    }
                    lane_index = lane_index + 1;
                }
                proof {
                    lemma_first_free_bound(st.lanes, line, lane_index as int);
                }
                assert(lane_index as int == first_free_from(st.lanes, line, 0));
                if lane_index == self.lanes.len() {
                    self.lane_add();
                }
                let ghost lanes1 = self@.lanes;
                assert(lane_index < self@.lanes.len());
                assert(self@.lanes.len() == self.lanes@.len());
                assert(self@.lanes[lane_index as int] == self.lanes@[lane_index as int]@);
                self.lanes[lane_index].items.insert(line, item);
                self.on_key_lane_map.insert(*key, lane_index);
                assert(self@.lanes =~= lanes1.update(lane_index as int, lanes1[lane_index as int].insert(line, item)));
                assert(lanes1 == (if lane_index == st.lanes.len() { st.lanes.push(Map::empty()) } else { st.lanes }));
                assert(item == LaneItem::Note(recorded_note(*key, *velocity, delay)));
                assert(self.on_key_lane_map@ == st.key_lanes.insert(*key, lane_index));
            },
            Event::NoteOff(key, _) => {
                match self.on_key_lane_map.get(key) {
                    Some(li) => {
                        let li = *li;
                        assert(self.on_key_lane_map@.contains_key(*key));
                        assert(st.key_lanes.contains_key(*key));
                        assert(li < self@.lanes.len());
                        let item = LaneItem::Note(Note { key: *key, velocity: 100, delay, off: true, channel: 0 });
                        let ghost lanes0 = self@.lanes;
                        assert(self@.lanes[li as int] == self.lanes@[li as int]@);
                        self.lanes[li].items.insert(line, item);
                        assert(self@.lanes =~= lanes0.update(li as int, lanes0[li as int].insert(line, item)));
                    },
                    None => {},
                }
            },
            Event::NoteAllOff => {},
            Event::ParamValue(_, _, _, _) => {},
        }
    }

    /// Writes recorded events into the lanes at the line where the block starts, as
    /// [`record_all`] says.
    pub fn events_append(&mut self, events: &Vec<Event>, play_position: &Range<usize>)
        requires
            old(self)@.lanes.len() > 0,
            old(self)@.lanes.len() + events@.len() < usize::MAX,
            key_lanes_valid(record_state(old(self))),
        ensures
            record_state(final(self)) == record_all(
                record_state(old(self)),
                events@,
                play_position.start / 256,
                (play_position.start % 256) as u8,
            ),
            key_lanes_valid(record_state(final(self))),
            old(self)@.lanes.len() <= final(self)@.lanes.len() <= old(self)@.lanes.len() + events@.len(),
            final(self).name == old(self).name,
            final(self).volume_bits == old(self).volume_bits,
            final(self).pan_bits == old(self).pan_bits,
            final(self).mute == old(self).mute,
            final(self).solo == old(self).solo,
            final(self)@.modules == old(self)@.modules,
            final(self).automation_params@ == old(self).automation_params@,
    {
        let line = play_position.start / 256;
        let delay = (play_position.start % 256) as u8;
        let n = events.len();
        for i in 0..n
            invariant
                n == events@.len(),
                line == play_position.start / 256,
                delay == (play_position.start % 256) as u8,
                record_state(self) == record_all(record_state(old(self)), events@.take(i as int), line, delay),
                key_lanes_valid(record_state(self)),
                self@.lanes.len() > 0,
                self@.lanes.len() <= old(self)@.lanes.len() + i,
                self@.lanes.len() >= old(self)@.lanes.len(),
                old(self)@.lanes.len() + events@.len() < usize::MAX,
                self.name == old(self).name,
                self.volume_bits == old(self).volume_bits,
                self.pan_bits == old(self).pan_bits,
                self.mute == old(self).mute,
                self.solo == old(self).solo,
                self@.modules == old(self)@.modules,
                self.automation_params@ == old(self).automation_params@,
        {
            let ghost before = record_state(self);
            proof {
                lemma_record_step_valid(before, events@[i as int], line, delay);
                lemma_first_free_bound(before.lanes, line, 0);
            }
            self.record_event(&events[i], line, delay);
            assert(events@.take(i + 1).drop_last() =~= events@.take(i as int));
        }
        assert(events@.take(n as int) =~= events@);
    }
}

/// An input event for one plugin instance, as its process data takes it.
#[derive(Clone, Copy, Debug, PartialEq, Eq, Structural)]
pub enum ModuleInput {
    /// Key, velocity, channel, delay.
    NoteOn(i16, u8, i16, usize),
    /// Key, channel, delay.
    NoteOff(i16, i16, usize),
    /// Parameter id, raw automation value (0 to 255), delay.
    ParamValue(u32, u8, usize),
}

/// The note-offs of every key still held, in lane order, at the start of the block.
pub open spec fn release_all(keys: Seq<Option<i16>>) -> Seq<ModuleInput>
    decreases keys.len(),
{
    if keys.len() == 0 {
        seq![]
    } else {
        let prev = release_all(keys.drop_last());
        match keys.last() {
            Some(k) => prev.push(ModuleInput::NoteOff(k, 0, 0)),
            None => prev,
        }
    }
}

/// The inputs of module `module_index` for one event of the track: notes go to every
/// module on channel 0, a release of all notes stops every held key (and forgets
/// them), and a parameter change goes only to the module it names.
pub open spec fn module_input_step(
    st: (Seq<ModuleInput>, Seq<Option<i16>>),
    e: Event,
    module_index: usize,
) -> (Seq<ModuleInput>, Seq<Option<i16>>) {
    match e {
        Event::NoteOn(key, velocity, delay) => (st.0.push(ModuleInput::NoteOn(key, velocity, 0, delay)), st.1),
        Event::NoteOff(key, delay) => (st.0.push(ModuleInput::NoteOff(key, 0, delay)), st.1),
        Event::NoteAllOff => (st.0 + release_all(st.1), seq![]),
        Event::ParamValue(mi, param_id, value, delay) => if mi == module_index {
            (st.0.push(ModuleInput::ParamValue(param_id, value, delay)), st.1)
        } else {
            st
        },
    }
}

/// All events of the track, one after the other.
pub open spec fn module_inputs(
    st: (Seq<ModuleInput>, Seq<Option<i16>>),
    events: Seq<Event>,
    module_index: usize,
) -> (Seq<ModuleInput>, Seq<Option<i16>>)
    decreases events.len(),
{
    if events.len() == 0 {
        st
    } else {
        module_input_step(module_inputs(st, events.drop_last(), module_index), events.last(), module_index)
    }
}

/// A release of all notes hands every module a note-off on channel 0, without
/// delay, for each key held, in lane order, after the inputs so far, and then no
/// key is held; as the only event of a block, those note-offs are all the inputs.
pub proof fn lemma_all_off_releases_held_keys(st: (Seq<ModuleInput>, Seq<Option<i16>>), module_index: usize)
    ensures
        module_input_step(st, Event::NoteAllOff, module_index).0 == st.0 + st.1.filter(|o: Option<i16>| o is Some).map_values(
            |o: Option<i16>| ModuleInput::NoteOff(o->0, 0, 0),
        ),
        module_input_step(st, Event::NoteAllOff, module_index).1.len() == 0,
        forall|li: int|
            0 <= li < st.1.len() && #[trigger] st.1[li] is Some ==> module_input_step(st, Event::NoteAllOff, module_index).0.contains(
                ModuleInput::NoteOff(st.1[li]->0, 0, 0),
            ),
        module_inputs(st, seq![Event::NoteAllOff], module_index) == module_input_step(st, Event::NoteAllOff, module_index),
{
    let pred = |o: Option<i16>| o is Some;
    let f = |o: Option<i16>| ModuleInput::NoteOff(o->0, 0, 0);
    lemma_release_all_held(st.1);
    let r = module_input_step(st, Event::NoteAllOff, module_index).0;
    assert forall|li: int| 0 <= li < st.1.len() && #[trigger] st.1[li] is Some implies r.contains(
        ModuleInput::NoteOff(st.1[li]->0, 0, 0),
    ) by {
        st.1.lemma_filter_contains(pred, li);
        let j = choose|j: int| 0 <= j < st.1.filter(pred).len() && st.1.filter(pred)[j] == st.1[li];
        assert(r[st.0.len() + j] == f(st.1[li]));
    }
    let one = seq![Event::NoteAllOff];
    assert(one.drop_last() =~= Seq::<Event>::empty());
    assert(one.last() == Event::NoteAllOff);
    assert(module_inputs(st, one.drop_last(), module_index) == st);
    reveal_with_fuel(module_inputs, 2);
}

/// The inputs a track's events give module `module_index` while no release of
/// all notes comes: every note-on and note-off, in order, on channel 0 with its
/// delay, and the parameter changes addressed to that module, in order; the held
/// keys stay as they were.
pub proof fn lemma_module_inputs_forward_events(
    st: (Seq<ModuleInput>, Seq<Option<i16>>),
    events: Seq<Event>,
    module_index: usize,
)
    requires
        forall|i: int| 0 <= i < events.len() ==> #[trigger] events[i] != Event::NoteAllOff,
    ensures
        module_inputs(st, events, module_index).1 == st.1,
        module_inputs(st, events, module_index).0 == st.0 + events.filter(
            |e: Event| forwards(e, module_index),
        ).map_values(|e: Event| forwarded(e)),
    decreases events.len(),
{
    let pred = |e: Event| forwards(e, module_index);
    let f = |e: Event| forwarded(e);
    if events.len() == 0 {
        assert(events.filter(pred) =~= seq![]) by {
            reveal(Seq::filter);
        }
        assert(st.0 + events.filter(pred).map_values(f) =~= st.0);
    } else {
        let prev = events.drop_last();
        assert forall|i: int| 0 <= i < prev.len() implies #[trigger] prev[i] != Event::NoteAllOff by {
            assert(prev[i] == events[i]);
        }
        lemma_module_inputs_forward_events(st, prev, module_index);
        assert(events =~= prev.push(events.last()));
        prev.lemma_filter_push(events.last(), pred);
        assert(events.last() != Event::NoteAllOff);
        if pred(events.last()) {
            assert(prev.filter(pred).push(events.last()).map_values(f) =~= prev.filter(pred).map_values(f).push(
                f(events.last()),
            ));
        }
        assert(module_inputs(st, events, module_index).0 =~= st.0 + events.filter(pred).map_values(f));
    }
}

/// Whether event `e` reaches module `module_index`: notes reach every module, a
/// parameter change only the module it names.
pub open spec fn forwards(e: Event, module_index: usize) -> bool {
    match e {
        Event::NoteOn(..) => true,
        Event::NoteOff(..) => true,
        Event::ParamValue(mi, _, _, _) => mi == module_index,
        Event::NoteAllOff => false,
    }
}

/// The input that a forwarded event becomes.
pub open spec fn forwarded(e: Event) -> ModuleInput {
    match e {
        Event::NoteOn(key, velocity, delay) => ModuleInput::NoteOn(key, velocity, 0, delay),
        Event::NoteOff(key, delay) => ModuleInput::NoteOff(key, 0, delay),
        Event::ParamValue(_, param_id, value, delay) => ModuleInput::ParamValue(param_id, value, delay),
        Event::NoteAllOff => ModuleInput::NoteOff(0, 0, 0),
    }
}

proof fn lemma_release_all_held(keys: Seq<Option<i16>>)
    ensures
        release_all(keys) == keys.filter(|o: Option<i16>| o is Some).map_values(
            |o: Option<i16>| ModuleInput::NoteOff(o->0, 0, 0),
        ),
    decreases keys.len(),
{
    let pred = |o: Option<i16>| o is Some;
    let f = |o: Option<i16>| ModuleInput::NoteOff(o->0, 0, 0);
    if keys.len() == 0 {
        assert(keys.filter(pred) =~= seq![]) by {
            reveal(Seq::filter);
        }
        assert(keys.filter(pred).map_values(f) =~= seq![]);
    } else {
        let prev = keys.drop_last();
        lemma_release_all_held(prev);
        assert(keys =~= prev.push(keys.last()));
        prev.lemma_filter_push(keys.last(), pred);
        if pred(keys.last()) {
            assert(prev.filter(pred).push(keys.last()).map_values(f) =~= prev.filter(pred).map_values(f).push(
                f(keys.last()),
            ));
        }
        assert(release_all(keys) =~= keys.filter(pred).map_values(f));
    }
}

fn release_keys(keys: &Vec<Option<i16>>, out: &mut Vec<ModuleInput>)
    ensures
        final(out)@ == old(out)@ + release_all(keys@),
{
    for i in 0..keys.len()
        invariant
            out@ == old(out)@ + release_all(keys@.take(i as int)),
    {
        assert(keys@.take(i + 1).drop_last() =~= keys@.take(i as int));
        if let Some(key) = keys[i] {
            out.push(ModuleInput::NoteOff(key, 0, 0));
        }
        assert(out@ =~= old(out)@ + release_all(keys@.take(i + 1)));
    }
    assert(keys@.take(keys@.len() as int) =~= keys@);
}

impl Track {
    /// The inputs of the module at `module_index` for the events collected in
    /// `context`; a release of all notes empties the context's held keys.
    pub fn prepare_module_event(&self, context: &mut ProcessTrackContext, module_index: usize) -> (r: Vec<ModuleInput>)
        ensures
            (r@, final(context).on_keys@) == module_inputs(
                (seq![], old(context).on_keys@),
                old(context).event_list_input@,
                module_index,
            ),
            final(context).event_list_input@ == old(context).event_list_input@,
            final(context).plugins@ == old(context).plugins@,
            final(context).play_p == old(context).play_p,
            final(context).play_position == old(context).play_position,
            final(context).loop_range == old(context).loop_range,
    {
        let mut out: Vec<ModuleInput> = Vec::new();
        let n = context.event_list_input.len();
        for i in 0..n
            invariant
                n == context.event_list_input@.len(),
                context.event_list_input@ == old(context).event_list_input@,
                context.plugins@ == old(context).plugins@,
                context.play_p == old(context).play_p,
                context.play_position == old(context).play_position,
                context.loop_range == old(context).loop_range,
                (out@, context.on_keys@) == module_inputs(
                    (seq![], old(context).on_keys@),
                    context.event_list_input@.take(i as int),
                    module_index,
                ),
        {
            assert(context.event_list_input@.take(i + 1).drop_last() =~= context.event_list_input@.take(i as int));
            let event = context.event_list_input[i];
            match event {
                Event::NoteOn(key, velocity, delay) => {
                    out.push(ModuleInput::NoteOn(key, velocity, 0, delay));
                },
                Event::NoteOff(key, delay) => {
                    out.push(ModuleInput::NoteOff(key, 0, delay));
                },
                Event::NoteAllOff => {
                    release_keys(&context.on_keys, &mut out);
                    context.on_keys.clear();
                },
                Event::ParamValue(mi, param_id, value, delay) => {
                    if mi == module_index {
                        out.push(ModuleInput::ParamValue(param_id, value, delay));
                    }
                },
            }
        }
        assert(context.event_list_input@.take(n as int) =~= context.event_list_input@);
        out
    }
}

} // verus!
