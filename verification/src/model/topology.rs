//! The order in which the modules of a song are processed: grouped into levels so
//! that every module comes after all modules that feed its audio inputs.
use crate::model::module::{AudioInput, ModuleIndex};
use crate::model::song::{Song, SongV};
use vstd::prelude::*;

verus! {

/// A module that takes part in the ordering: every module of every track, the
/// main track's included, so that modules of different tracks may feed each other.
pub open spec fn is_node(s: SongV, n: ModuleIndex) -> bool {
    n.0 < s.tracks.len() && n.1 < s.tracks[n.0 as int].modules.len()
}

/// The audio inputs of a module.
pub open spec fn node_inputs(s: SongV, n: ModuleIndex) -> Seq<AudioInput> {
    s.tracks[n.0 as int].modules[n.1 as int].audio_inputs
}

/// The modules with a level below `k`: a module has a level below `k + 1` when it
/// has one below `k`, or when it takes part in the ordering and every module feeding
/// it has a level below `k`. A module fed by a missing module never gets a level,
/// and neither does a module on a feedback cycle.
pub open spec fn placed_set(s: SongV, k: nat) -> Set<ModuleIndex>
    decreases k,
{
    if k == 0 {
        Set::empty()
    } else {
        let prev = placed_set(s, (k - 1) as nat);
        prev.union(Set::new(|n: ModuleIndex| is_node(s, n) && inputs_in(s, n, prev)))
    }
}

/// Every module feeding `n` is in `d`.
pub open spec fn inputs_in(s: SongV, n: ModuleIndex, d: Set<ModuleIndex>) -> bool {
    forall|i: int|
        0 <= i < node_inputs(s, n).len() ==> #[trigger] d.contains(
            node_inputs(s, n)[i].src_module_index,
        )
}

/// Whether module `n` has a level below `k`.
pub open spec fn placed(s: SongV, n: ModuleIndex, k: nat) -> bool {
    placed_set(s, k).contains(n)
}

/// Every module feeding `n` has a level below `k`.
pub open spec fn inputs_placed(s: SongV, n: ModuleIndex, k: nat) -> bool {
    inputs_in(s, n, placed_set(s, k))
}

/// Module `n` is on level `k`: it has a level below `k + 1` but not below `k`.
pub open spec fn on_level(s: SongV, n: ModuleIndex, k: nat) -> bool {
    placed(s, n, k + 1) && !placed(s, n, k)
}

/// No element occurs twice.
pub open spec fn distinct<T>(v: Seq<T>) -> bool {
    forall|i: int, j: int| 0 <= i < j < v.len() ==> v[i] != v[j]
}

/// `levels` are the levels of the song: level `k` holds each module on level `k`
/// once, no level is empty, no module is left after the last level, and every module
/// that takes part has a level.
pub open spec fn are_levels(s: SongV, levels: Seq<Seq<ModuleIndex>>) -> bool {
    &&& forall|k: int|
        0 <= k < levels.len() ==> #[trigger] levels[k].len() > 0 && distinct(levels[k])
    &&& forall|k: int, x: int|
        0 <= k < levels.len() && 0 <= x < levels[k].len() ==> on_level(
            s,
            #[trigger] levels[k][x],
            k as nat,
        )
    &&& forall|k: int, n: ModuleIndex|
        0 <= k < levels.len() && #[trigger] on_level(s, n, k as nat) ==> levels[k].contains(n)
    &&& forall|n: ModuleIndex| !#[trigger] on_level(s, n, levels.len())
    &&& forall|n: ModuleIndex| #[trigger] is_node(s, n) ==> placed(s, n, levels.len())
}

/// Some module never gets a level: the routing has a cycle, or a module is fed by a
/// module that does not exist.
pub open spec fn has_unplaceable(s: SongV) -> bool {
    forall|k: nat| #[trigger] some_unplaced(s, k)
}

/// Some module has no level below `k`.
pub open spec fn some_unplaced(s: SongV, k: nat) -> bool {
    exists|n: ModuleIndex| is_node(s, n) && !#[trigger] placed(s, n, k)
}

/// The value of a list of levels.
pub open spec fn levels_view(levels: Seq<Vec<ModuleIndex>>) -> Seq<Seq<ModuleIndex>> {
    levels.map_values(|l: Vec<ModuleIndex>| l@)
}

/// The flags of a vector of flag rows.
pub open spec fn grid(d: Seq<Vec<bool>>) -> Seq<Seq<bool>> {
    d.map_values(|row: Vec<bool>| row@)
}

/// `n` is among the first `x` elements of `v`.
pub open spec fn in_prefix(v: Seq<ModuleIndex>, x: int, n: ModuleIndex) -> bool {
    exists|y: int| 0 <= y < x && v[y] == n
}

/// The error of [`topological_levels`].
#[derive(Clone, Copy, Debug, PartialEq, Eq, Structural)]
pub enum TopologyError {
    /// Some module can never be processed: its inputs depend on it, or on a module
    /// that does not exist.
    CyclicDependency,
}

/// A module with a level below `k` has one below every larger bound.
pub proof fn lemma_placed_monotone(s: SongV, n: ModuleIndex, k: nat, j: nat)
    requires
        k <= j,
        placed(s, n, k),
    ensures
        placed(s, n, j),
    decreases j - k,
{
    if k < j {
        lemma_placed_monotone(s, n, k, (j - 1) as nat);
    }
}

/// Once a bound adds no module, no later bound does.
pub proof fn lemma_placed_stable(s: SongV, k: nat, j: nat)
    requires
        k <= j,
        forall|n: ModuleIndex| #[trigger] placed(s, n, k + 1) ==> placed(s, n, k),
    ensures
        forall|n: ModuleIndex| #[trigger] placed(s, n, j) ==> placed(s, n, k),
    decreases j - k,
{
    if k < j {
        lemma_placed_stable(s, k, (j - 1) as nat);
        assert forall|n: ModuleIndex| #[trigger] placed(s, n, j) implies placed(s, n, k) by {
            if !placed(s, n, (j - 1) as nat) {
                let jm = (j - 1) as nat;
                lemma_placed_succ(s, n, jm);
                assert(jm + 1 == j);
                assert(placed(s, n, jm + 1));
                assert(is_node(s, n));
                assert(inputs_placed(s, n, jm));
                assert forall|i: int| 0 <= i < node_inputs(s, n).len() implies #[trigger] placed_set(
                    s,
                    k,
                ).contains(node_inputs(s, n)[i].src_module_index) by {
                    lemma_inputs_elim(s, n, jm, i);
                    assert(placed(s, node_inputs(s, n)[i].src_module_index, k));
                }
                assert(inputs_placed(s, n, k));
                lemma_placed_succ(s, n, k);
                assert(placed(s, n, k + 1));
            }
        }
    }
}

proof fn lemma_inputs_elim(s: SongV, n: ModuleIndex, k: nat, i: int)
    requires
        inputs_placed(s, n, k),
        0 <= i < node_inputs(s, n).len(),
    ensures
        placed(s, node_inputs(s, n)[i].src_module_index, k),
{
}

/// One more bound adds the modules all of whose feeding modules are placed.
pub proof fn lemma_placed_succ(s: SongV, n: ModuleIndex, k: nat)
    ensures
        placed(s, n, k + 1) == (placed(s, n, k) || (is_node(s, n) && inputs_placed(s, n, k))),
{
    let k1 = k + 1;
    assert((k1 - 1) as nat == k);
}

/// A row of flags as a count of the set ones.
pub open spec fn count_row(r: Seq<bool>) -> nat
    decreases r.len(),
{
    if r.len() == 0 {
        0
    } else {
        count_row(r.drop_last()) + if r.last() { 1nat } else { 0nat }
    }
}

/// The number of set flags of a grid.
pub open spec fn count_grid(g: Seq<Seq<bool>>) -> nat
    decreases g.len(),
{
    if g.len() == 0 {
        0
    } else {
        count_grid(g.drop_last()) + count_row(g.last())
    }
}

/// The number of flags of a grid.
pub open spec fn size_grid(g: Seq<Seq<bool>>) -> nat
    decreases g.len(),
{
    if g.len() == 0 {
        0
    } else {
        size_grid(g.drop_last()) + g.last().len()
    }
}

proof fn lemma_count_row_bound(r: Seq<bool>)
    ensures
        count_row(r) <= r.len(),
    decreases r.len(),
{
    if r.len() > 0 {
        lemma_count_row_bound(r.drop_last());
    }
}

proof fn lemma_count_grid_bound(g: Seq<Seq<bool>>)
    ensures
        count_grid(g) <= size_grid(g),
    decreases g.len(),
{
    if g.len() > 0 {
        lemma_count_grid_bound(g.drop_last());
        lemma_count_row_bound(g.last());
    }
}

proof fn lemma_count_row_set(r: Seq<bool>, i: int)
    requires
        0 <= i < r.len(),
        !r[i],
    ensures
        count_row(r.update(i, true)) == count_row(r) + 1,
    decreases r.len(),
{
    let u = r.update(i, true);
    if i == r.len() - 1 {
        assert(u.drop_last() =~= r.drop_last());
    } else {
        assert(u.drop_last() =~= r.drop_last().update(i, true));
        lemma_count_row_set(r.drop_last(), i);
    }
}

proof fn lemma_count_grid_set(g: Seq<Seq<bool>>, t: int, m: int)
    requires
        0 <= t < g.len(),
        0 <= m < g[t].len(),
        !g[t][m],
    ensures
        count_grid(g.update(t, g[t].update(m, true))) == count_grid(g) + 1,
        size_grid(g.update(t, g[t].update(m, true))) == size_grid(g),
    decreases g.len(),
{
    let u = g.update(t, g[t].update(m, true));
    if t == g.len() - 1 {
        assert(u.drop_last() =~= g.drop_last());
        lemma_count_row_set(g[t], m);
    } else {
        assert(u.drop_last() =~= g.drop_last().update(t, g[t].update(m, true)));
        lemma_count_grid_set(g.drop_last(), t, m);
    }
}

/// The flags mirror the modules with a level below `k`.
pub open spec fn mirrors(s: SongV, done: Seq<Seq<bool>>, k: nat) -> bool {
    &&& done.len() == s.tracks.len()
    &&& forall|t: int| 0 <= t < done.len() ==> #[trigger] done[t].len() == s.tracks[t].modules.len()
    &&& forall|t: int, m: int|
        0 <= t < done.len() && 0 <= m < done[t].len() ==> #[trigger] done[t][m] == placed(
            s,
            (t as usize, m as usize),
            k,
        )
}

proof fn lemma_placed_is_node(s: SongV, n: ModuleIndex, k: nat)
    requires
        placed(s, n, k),
    ensures
        is_node(s, n),
    decreases k,
{
    if k > 0 && placed(s, n, (k - 1) as nat) {
        lemma_placed_is_node(s, n, (k - 1) as nat);
    }
}

fn node_ready(song: &Song, t: usize, m: usize, done: &Vec<Vec<bool>>, Ghost(k): Ghost<nat>) -> (r: bool)
    requires
        mirrors(song@, grid(done@), k),
        t < song@.tracks.len(),
        m < song@.tracks[t as int].modules.len(),
    ensures
        r == inputs_placed(song@, (t, m), k),
{
    let ghost s = song@;
    let ghost g = grid(done@);
    proof {
        song.lemma_track_view(t as int);
    }
    let module = &song.tracks[t].modules[m];
    assert(module.audio_inputs@ == node_inputs(s, (t, m)));
    let n = module.audio_inputs.len();
    for i in 0..n
        invariant
            n == node_inputs(s, (t, m)).len(),
            module.audio_inputs@ == node_inputs(s, (t, m)),
            s == song@,
            g == grid(done@),
            mirrors(s, g, k),
            forall|j: int| 0 <= j < i ==> #[trigger] placed_set(s, k).contains(node_inputs(s, (t, m))[j].src_module_index),
    {
        let (st, sm) = module.audio_inputs[i].src_module_index;
        let d = (st, sm);
        let ok = if st < done.len() {
            if sm < done[st].len() {
                assert(g[st as int] == done@[st as int]@);
                done[st][sm]
            } else {
                false
            }
        } else {
            false
        };
        if !ok {
            proof {
                if placed(s, d, k) {
                    lemma_placed_is_node(s, d, k);
                    song.lemma_track_view(st as int);
                    assert(g[st as int][sm as int] == placed(s, (st as usize, sm as usize), k));
                }
                assert(!placed_set(s, k).contains(node_inputs(s, (t, m))[i as int].src_module_index));
            }
            return false;
        }
        assert(g[st as int][sm as int] == placed(s, (st as usize, sm as usize), k));
    }
    true
}

/// Splits the modules of all tracks into levels: a module's level
/// is one more than the highest level of the modules feeding it, 0 when nothing
/// feeds it. Inside a level modules come in track order, then module order.
pub fn topological_levels(song: &Song) -> (r: Result<Vec<Vec<ModuleIndex>>, TopologyError>)
    ensures
        match r {
            Ok(levels) => are_levels(song@, levels_view(levels@)),
            Err(_) => has_unplaceable(song@),
        },
{
    let ghost s = song@;
    proof {
        song.lemma_view_len();
    }
    let ntracks = song.tracks.len();
    if ntracks == 0 {
        let levels: Vec<Vec<ModuleIndex>> = Vec::new();
        assert(levels_view(levels@) =~= Seq::<Seq<ModuleIndex>>::empty());
        proof {
            assert forall|n: ModuleIndex| !#[trigger] on_level(s, n, 0) by {
                lemma_placed_succ(s, n, 0);
            }
        }
        return Ok(levels);
    }
    let mut done: Vec<Vec<bool>> = Vec::new();
    for t in 0..ntracks
        invariant
            ntracks == s.tracks.len(),
            s == song@,
            done@.len() == t,
            forall|u: int| 0 <= u < t ==> #[trigger] done@[u]@.len() == s.tracks[u].modules.len(),
            forall|u: int, m: int| 0 <= u < t && 0 <= m < done@[u]@.len() ==> !#[trigger] done@[u]@[m],
    {
        proof {
            song.lemma_track_view(t as int);
        }
        let nm = song.tracks[t].modules.len();
        let mut row: Vec<bool> = Vec::new();
        for m in 0..nm
            invariant
                row@.len() == m,
                forall|j: int| 0 <= j < m ==> !#[trigger] row@[j],
        {
            row.push(false);
        }
        done.push(row);
    }
    let ghost mut k: nat = 0;
    assert(mirrors(s, grid(done@), k));
    let ghost size0 = size_grid(grid(done@));
    let mut levels: Vec<Vec<ModuleIndex>> = Vec::new();
    loop
        invariant
            s == song@,
            1 <= ntracks,
            ntracks == s.tracks.len(),
            mirrors(s, grid(done@), k),
            levels@.len() == k,
            forall|j: int| 0 <= j < k ==> #[trigger] levels@[j]@.len() > 0 && distinct(levels@[j]@),
            forall|j: int, x: int|
                0 <= j < k && 0 <= x < levels@[j]@.len() ==> on_level(s, #[trigger] levels@[j]@[x], j as nat),
            forall|j: int, n: ModuleIndex|
                0 <= j < k && #[trigger] on_level(s, n, j as nat) ==> levels@[j]@.contains(n),
            size_grid(grid(done@)) == size0,
        decreases size0 - count_grid(grid(done@)),
    {
        let ghost g = grid(done@);
        let mut level: Vec<ModuleIndex> = Vec::new();
        for t in 0..ntracks
            invariant
                s == song@,
                1 <= ntracks,
                ntracks == s.tracks.len(),
                g == grid(done@),
                mirrors(s, g, k),
                distinct(level@),
                forall|x: int| 0 <= x < level@.len() ==> #[trigger] level@[x].0 < t,
                forall|x: int| 0 <= x < level@.len() ==> on_level(s, #[trigger] level@[x], k),
                forall|n: ModuleIndex| n.0 < t && #[trigger] on_level(s, n, k) ==> level@.contains(n),
        {
            proof {
                song.lemma_track_view(t as int);
            }
            let nm = song.tracks[t].modules.len();
            let ghost before = level@;
            for m in 0..nm
                invariant
                    s == song@,
                    t < ntracks,
                    ntracks == s.tracks.len(),
                    nm == s.tracks[t as int].modules.len(),
                    g == grid(done@),
                    mirrors(s, g, k),
                    distinct(level@),
                    forall|x: int| 0 <= x < level@.len() ==> #[trigger] level@[x].0 < t || (level@[x].0 == t && level@[x].1 < m),
                    forall|x: int| 0 <= x < level@.len() ==> on_level(s, #[trigger] level@[x], k),
                    forall|n: ModuleIndex| (n.0 < t || (n.0 == t && n.1 < m)) && #[trigger] on_level(s, n, k) ==> level@.contains(n),
            {
                assert(g[t as int] == done@[t as int]@);
                let is_done = done[t][m];
                assert(is_done == placed(s, (t, m), k));
                if !is_done && node_ready(song, t, m, &done, Ghost(k)) {
                    let ghost prev = level@;
                    level.push((t, m));
                    proof {
                        assert(is_node(s, (t, m)));
                        lemma_placed_succ(s, (t, m), k);
                        assert(on_level(s, (t, m), k));
                        assert forall|x: int, y: int| 0 <= x < y < level@.len() implies level@[x] != level@[y] by {
                            if y == level@.len() - 1 {
                                assert(level@[x] == prev[x]);
                            }
                        }
                        assert forall|n: ModuleIndex| (n.0 < t || (n.0 == t && n.1 < m + 1)) && #[trigger] on_level(s, n, k) implies level@.contains(n) by {
                            if n.0 == t && n.1 == m {
                                assert(level@[level@.len() - 1] == n);
                            } else {
                                assert(prev.contains(n));
                                let x = choose|x: int| 0 <= x < prev.len() && prev[x] == n;
                                assert(level@[x] == n);
                            }
                        }
                    }
                } else {
                    proof {
                        assert forall|n: ModuleIndex| (n.0 < t || (n.0 == t && n.1 < m + 1)) && #[trigger] on_level(s, n, k) implies level@.contains(n) by {
                            if n.0 == t && n.1 == m {
                                lemma_placed_succ(s, n, k);
                                assert(n == (t, m));
                            }
                        }
                    }
                }
            }
            proof {
                assert forall|n: ModuleIndex| n.0 < t + 1 && #[trigger] on_level(s, n, k) implies level@.contains(n) by {
                    if n.0 == t {
                        lemma_placed_is_node(s, n, k + 1);
                    }
                }
            }
        }
        proof {
            assert forall|n: ModuleIndex| #[trigger] on_level(s, n, k) implies level@.contains(n) by {
                lemma_placed_is_node(s, n, k + 1);
            }
        }
        if level.len() == 0 {
            // No module became ready: every later bound adds nothing either.
            proof {
                assert forall|n: ModuleIndex| #[trigger] placed(s, n, k + 1) implies placed(s, n, k) by {
                    if !placed(s, n, k) {
                        assert(on_level(s, n, k));
                        assert(level@.contains(n));
                    }
                }
            }
            // Every module must have a level by now.
            for t in 0..ntracks
                invariant
                    s == song@,
                    1 <= ntracks,
                    ntracks == s.tracks.len(),
                    g == grid(done@),
                    mirrors(s, g, k),
                    forall|n: ModuleIndex| #[trigger] placed(s, n, k + 1) ==> placed(s, n, k),
                    forall|n: ModuleIndex| n.0 < t && #[trigger] is_node(s, n) ==> placed(s, n, k),
            {
                proof {
                    song.lemma_track_view(t as int);
                }
                let nm = song.tracks[t].modules.len();
                for m in 0..nm
                    invariant
                        s == song@,
                        t < ntracks,
                        ntracks == s.tracks.len(),
                        nm == s.tracks[t as int].modules.len(),
                        g == grid(done@),
                        mirrors(s, g, k),
                        forall|n: ModuleIndex| #[trigger] placed(s, n, k + 1) ==> placed(s, n, k),
                        forall|n: ModuleIndex| (n.0 < t || (n.0 == t && n.1 < m)) && #[trigger] is_node(s, n) ==> placed(s, n, k),
                {
                    assert(g[t as int] == done@[t as int]@);
                    if !done[t][m] {
                        proof {
                            let u: ModuleIndex = (t, m);
                            assert(is_node(s, u) && !placed(s, u, k));
                            assert forall|j: nat| !#[trigger] placed(s, u, j) by {
                                if placed(s, u, j) {
                                    if j <= k {
                                        lemma_placed_monotone(s, u, j, k);
                                    } else {
                                        lemma_placed_stable(s, k, j);
                                    }
                                }
                            }
                            assert forall|j: nat| #[trigger] some_unplaced(s, j) by {
                                assert(!placed(s, u, j));
                            }
                        }
                        return Err(TopologyError::CyclicDependency);
                    }
                }
            }
            proof {
                assert forall|n: ModuleIndex| #[trigger] is_node(s, n) implies placed(s, n, k) by {}
                assert forall|n: ModuleIndex| !#[trigger] on_level(s, n, k) by {}
                assert(levels_view(levels@).len() == k);
                assert forall|j: int| 0 <= j < k implies #[trigger] levels_view(levels@)[j] == levels@[j]@ by {}
            }
            return Ok(levels);
        }
        // Mark the modules of the new level.
        let ghost new_level = level@;
        let nl = level.len();
        for x in 0..nl
            invariant
                s == song@,
                ntracks == s.tracks.len(),
                level@ == new_level,
                nl == new_level.len(),
                distinct(new_level),
                forall|y: int| 0 <= y < new_level.len() ==> on_level(s, #[trigger] new_level[y], k),
                grid(done@).len() == s.tracks.len(),
                forall|t: int| 0 <= t < grid(done@).len() ==> #[trigger] grid(done@)[t].len() == s.tracks[t].modules.len(),
                forall|t: int, m: int|
                    0 <= t < grid(done@).len() && 0 <= m < grid(done@)[t].len() ==> #[trigger] grid(done@)[t][m]
                        == (placed(s, (t as usize, m as usize), k) || in_prefix(new_level, x as int, (t as usize, m as usize))),
                count_grid(grid(done@)) == count_grid(g) + x,
                size_grid(grid(done@)) == size_grid(g),
        {
            let (t, m) = level[x];
            proof {
                lemma_placed_is_node(s, (t, m), k + 1);
                song.lemma_track_view(t as int);
            }
            let ghost before = grid(done@);
            assert(!before[t as int][m as int]) by {
                if before[t as int][m as int] {
                    if !placed(s, (t, m), k) {
                        let y = choose|y: int| 0 <= y < x && new_level[y] == (t, m);
                        assert(new_level[y] == new_level[x as int]);
                    }
                }
            }
            assert(done@[t as int]@ == before[t as int]);
            done[t].set(m, true);
            proof {
                let after = grid(done@);
                assert(after =~= before.update(t as int, before[t as int].update(m as int, true)));
                lemma_count_grid_set(before, t as int, m as int);
                assert forall|tt: int, mm: int|
                    0 <= tt < after.len() && 0 <= mm < after[tt].len() implies #[trigger] after[tt][mm]
                        == (placed(s, (tt as usize, mm as usize), k) || in_prefix(new_level, x + 1, (tt as usize, mm as usize))) by {
                    let n = (tt as usize, mm as usize);
                    if tt == t as int && mm == m as int {
                        assert(new_level[x as int] == n);
                    } else {
                        assert(after[tt][mm] == before[tt][mm]);
                        assert(done.len() == done@.len());
                        assert(done@[tt].len() == done@[tt]@.len());
                        assert(after[tt] == done@[tt]@);
                        assert(n != (t, m));
                        if in_prefix(new_level, x + 1, n) {
                            let y = choose|y: int| 0 <= y < x + 1 && new_level[y] == n;
                            assert(y != x);
                        }
                        if in_prefix(new_level, x as int, n) {
                            let y = choose|y: int| 0 <= y < x && new_level[y] == n;
                            assert(0 <= y < x + 1 && new_level[y] == n);
                        }
                    }
                }
            }
        }
        proof {
            let after = grid(done@);
            assert forall|t: int, m: int|
                0 <= t < after.len() && 0 <= m < after[t].len() implies #[trigger] after[t][m] == placed(s, (t as usize, m as usize), k + 1) by {
                let n = (t as usize, m as usize);
                if placed(s, n, k + 1) && !placed(s, n, k) {
                    assert(on_level(s, n, k));
                    assert(new_level.contains(n));
                    let y = choose|y: int| 0 <= y < new_level.len() && new_level[y] == n;
                    assert(in_prefix(new_level, nl as int, n));
                }
                if in_prefix(new_level, nl as int, n) {
                    let y = choose|y: int| 0 <= y < nl && new_level[y] == n;
                    assert(on_level(s, new_level[y], k));
                }
                if placed(s, n, k) {
                    lemma_placed_monotone(s, n, k, k + 1);
                }
            }
            assert(mirrors(s, grid(done@), k + 1));
        }
        proof {
            lemma_count_grid_bound(grid(done@));
        }
        levels.push(level);
        proof {
            k = k + 1;
        }
    }
}

/// A module with a level below `k` is on some level below `k`.
pub proof fn lemma_placed_has_level(s: SongV, n: ModuleIndex, k: nat)
    requires
        placed(s, n, k),
    ensures
        exists|j: nat| j < k && #[trigger] on_level(s, n, j),
    decreases k,
{
    let km = (k - 1) as nat;
    assert(km + 1 == k);
    if placed(s, n, km) {
        lemma_placed_has_level(s, n, km);
        let j = choose|j: nat| j < km && #[trigger] on_level(s, n, j);
        assert(j < k && on_level(s, n, j));
    } else {
        assert(on_level(s, n, km));
    }
}

/// Every module of a level comes after every module that feeds it: each of them is
/// on an earlier level.
pub proof fn lemma_levels_respect_inputs(
    s: SongV,
    levels: Seq<Seq<ModuleIndex>>,
    k: int,
    x: int,
    i: int,
)
    requires
        are_levels(s, levels),
        0 <= k < levels.len(),
        0 <= x < levels[k].len(),
        0 <= i < node_inputs(s, levels[k][x]).len(),
    ensures
        exists|j: int|
            0 <= j < k && #[trigger] levels[j].contains(
                node_inputs(s, levels[k][x])[i].src_module_index,
            ),
{
    let n = levels[k][x];
    let d = node_inputs(s, n)[i].src_module_index;
    assert(on_level(s, n, k as nat));
    lemma_placed_succ(s, n, k as nat);
    assert(placed_set(s, k as nat).contains(d));
    lemma_placed_has_level(s, d, k as nat);
    let j = choose|j: nat| j < k && #[trigger] on_level(s, d, j);
    assert(levels[j as int].contains(d));
}

} // verus!
