//! Which tracks the main mix takes: the decisions of mixing, apart from the
//! samples themselves.
use crate::model::song::{Song, SongV};
use vstd::prelude::*;

verus! {

/// Some track of the song is soloed, the main track included.
pub open spec fn any_solo(s: SongV) -> bool {
    exists|i: int| 0 <= i < s.tracks.len() && #[trigger] s.tracks[i].solo
}

/// Track `t` is summed into the main track: it is a track after the main track,
/// it is not muted, and it is soloed or no track is.
pub open spec fn feeds_main_mix(s: SongV, t: int) -> bool {
    &&& 1 <= t < s.tracks.len()
    &&& !s.tracks[t].mute
    &&& (!any_solo(s) || s.tracks[t].solo)
}

/// For each track of the song, whether the main mix takes it, as
/// [`feeds_main_mix`] says.
pub fn main_mix_tracks(song: &Song) -> (r: Vec<bool>)
    ensures
        r@.len() == song@.tracks.len(),
        forall|t: int| 0 <= t < r@.len() ==> #[trigger] r@[t] == feeds_main_mix(song@, t),
{
    proof {
        song.lemma_view_len();
    }
    let n = song.tracks.len();
    let mut solo_any = false;
    let mut i: usize = 0;
    while i < n
        invariant
            n == song@.tracks.len(),
            i <= n,
            solo_any == exists|j: int| 0 <= j < i && #[trigger] song@.tracks[j].solo,
        decreases n - i,
    {
        proof {
            song.lemma_track_view(i as int);
        }
        let solo = song.tracks[i].solo;
        assert(solo == song@.tracks[i as int].solo);
        if solo {
            solo_any = true;
        }
        i = i + 1;
        assert(solo_any == exists|j: int| 0 <= j < i && #[trigger] song@.tracks[j].solo) by {
            if !solo_any {
                assert forall|j: int| 0 <= j < i implies !#[trigger] song@.tracks[j].solo by {
                    if j < i - 1 {
                    } else {
                        assert(j == i - 1);
                    }
                }
            }
        }
    }
    let mut r: Vec<bool> = Vec::new();
    let mut t: usize = 0;
    while t < n
        invariant
            n == song@.tracks.len(),
            t <= n,
            solo_any == any_solo(song@),
            r@.len() == t,
            forall|u: int| 0 <= u < t ==> #[trigger] r@[u] == feeds_main_mix(song@, u),
        decreases n - t,
    {
        proof {
            song.lemma_track_view(t as int);
        }
        let track = &song.tracks[t];
        r.push(t >= 1 && !track.mute && (!solo_any || track.solo));
        t = t + 1;
    }
    r
}

/// Channel `ch` of a buffer is marked constant in `mask`: the buffer holds one
/// value for all its frames.
pub open spec fn is_constant(mask: u64, ch: nat) -> bool {
    mask & (1u64 << ch) != 0
}

/// How a module's input port is fed from another module's output port with
/// `src` and `dst` channels, whose constant channels are marked in `mask`: each
/// entry is an input channel, the output channel it copies, and whether that
/// output channel is constant. Equal channel counts copy channel by channel; a
/// mono output feeds every input channel; a mono input takes the mixdown of all
/// output channels instead (no entry); other counts copy as many channels as
/// both have.
pub open spec fn channel_routes(src: nat, dst: nat, mask: u64) -> Seq<(usize, usize, bool)> {
    if src == dst {
        Seq::new(src, |c: int| (c as usize, c as usize, is_constant(mask, c as nat)))
    } else if src == 1 {
        Seq::new(dst, |c: int| (c as usize, 0usize, is_constant(mask, 0)))
    } else if dst == 1 {
        Seq::empty()
    } else {
        let n = if src < dst { src } else { dst };
        Seq::new(n, |c: int| (c as usize, c as usize, is_constant(mask, c as nat)))
    }
}

/// The input port is fed by the average of all output channels.
pub open spec fn is_mixdown(src: nat, dst: nat) -> bool {
    src != dst && src != 1 && dst == 1
}

/// The constant marks of the input port after the routes are copied: a channel
/// copied from a constant one is marked, one copied from a varying one is not;
/// after a mixdown no channel is marked.
pub open spec fn mask_after(old: u64, routes: Seq<(usize, usize, bool)>) -> u64
    decreases routes.len(),
{
    if routes.len() == 0 {
        old
    } else {
        let m = mask_after(old, routes.drop_last());
        let (d, _, c) = routes.last();
        if c {
            m | (1u64 << d)
        } else {
            m & !(1u64 << d)
        }
    }
}

/// The routes from an output port of `src` channels to an input port of `dst`
/// channels, as [`channel_routes`] says, whether the input takes a mixdown, and
/// the input's constant marks afterwards.
pub fn channel_routing(src: usize, dst: usize, src_mask: u64, dst_mask: u64) -> (r: (Vec<(usize, usize, bool)>, bool, u64))
    requires
        src <= 64,
        dst <= 64,
    ensures
        r.0@ == channel_routes(src as nat, dst as nat, src_mask),
        r.1 == is_mixdown(src as nat, dst as nat),
        r.2 == if r.1 { 0u64 } else { mask_after(dst_mask, r.0@) },
{
    let mut routes: Vec<(usize, usize, bool)> = Vec::new();
    let mixdown = src != dst && src != 1 && dst == 1;
    let ghost goal = channel_routes(src as nat, dst as nat, src_mask);
    let n: usize = if mixdown {
        0
    } else if src == dst || src != 1 {
        if src < dst { src } else { dst }
    } else {
        dst
    };
    assert(goal.len() == n);
    let mut mask = dst_mask;
    let mut c: usize = 0;
    while c < n
        invariant
            n == goal.len(),
            n <= 64,
            c <= n,
            goal == channel_routes(src as nat, dst as nat, src_mask),
            src <= 64,
            dst <= 64,
            routes@ == goal.take(c as int),
            mask == mask_after(dst_mask, routes@),
        decreases n - c,
    {
        let from: usize = if src == 1 && src != dst { 0 } else { c };
        let constant = src_mask & (1u64 << from as u64) != 0;
        let entry = (c, from, constant);
        assert(entry == goal[c as int]);
        let ghost before = routes@;
        routes.push(entry);
        if constant {
            mask = mask | (1u64 << c as u64);
        } else {
            mask = mask & !(1u64 << c as u64);
        }
        c = c + 1;
        assert(routes@ =~= goal.take(c as int));
        assert(routes@.drop_last() =~= before);
    }
    assert(goal.take(n as int) =~= goal);
    let out = if mixdown { 0u64 } else { mask };
    (routes, mixdown, out)
}

} // verus!
