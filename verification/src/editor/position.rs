//! How the editor writes a play position (bar, beat and line) and which lines it
//! shows.
use crate::text::{digits, push_digits, push_padded, zero_pad};
use std::ops::Range;
use vstd::prelude::*;

verus! {

/// The bar and beat of `line` with `lpb` lines per beat and four beats per bar,
/// both counted from 1: the bar in decimal with at least three digits, a dot, the
/// beat in upper-case hexadecimal.
pub open spec fn bar_beat_text(line: nat, lpb: nat) -> Seq<char> {
    let bar = lpb * 4;
    zero_pad(digits(line / bar + 1, 10, true), 3) + seq!['.'] + digits(line % bar / lpb + 1, 16, true)
}

/// The bar, beat and line of `line`: [`bar_beat_text`], a dot, and the line within
/// its beat, counted from 1, in upper-case hexadecimal.
pub open spec fn bar_beat_line_text(line: nat, lpb: nat) -> Seq<char> {
    bar_beat_text(line, lpb) + seq!['.'] + digits(line % lpb + 1, 16, true)
}

/// The bar and beat of `line`, as [`bar_beat_text`] says.
pub fn play_position_text2(line: usize, lpb: u16) -> (r: String)
    requires
        lpb > 0,
    ensures
        r@ == bar_beat_text(line as nat, lpb as nat),
{
    let lpb = lpb as usize;
    let bar = lpb * 4;
    let mut s = String::new();
    assert(line / bar < usize::MAX) by (nonlinear_arith)
        requires
            bar >= 4,
    ;
    push_padded(&mut s, line / bar + 1, 10, true, 3);
    proof {
        reveal_strlit(".");
    }
    s.append(".");
    assert(line % bar / lpb < usize::MAX) by (nonlinear_arith)
        requires
            bar == lpb * 4,
            lpb >= 1,
    ;
    push_digits(&mut s, line % bar / lpb + 1, 16, true);
    assert(s@ =~= bar_beat_text(line as nat, lpb as nat));
    s
}

/// The bar, beat and line of `line`, as [`bar_beat_line_text`] says.
pub fn play_position_text1(line: usize, lpb: u16) -> (r: String)
    requires
        lpb > 0,
    ensures
        r@ == bar_beat_line_text(line as nat, lpb as nat),
{
    let mut s = play_position_text2(line, lpb);
    proof {
        reveal_strlit(".");
    }
    s.append(".");
    let l = lpb as usize;
    assert(line % l < usize::MAX) by (nonlinear_arith)
        requires
            l >= 1,
    ;
    push_digits(&mut s, line % l + 1, 16, true);
    assert(s@ =~= bar_beat_line_text(line as nat, lpb as nat));
    s
}

/// The lines shown when `rows` lines fit on the screen: as many lines as fit,
/// with the cursor's line in the middle unless that would start before line 0.
pub fn visible_lines(cursor_line: usize, rows: usize) -> (r: Range<usize>)
    requires
        (if cursor_line >= rows / 2 { cursor_line - rows / 2 } else { 0 }) + rows <= usize::MAX,
    ensures
        r.start == (if cursor_line >= rows / 2 { cursor_line - rows / 2 } else { 0 }),
        r.end == r.start + rows,
{
    let center_offset = rows / 2;
    let start = if cursor_line >= center_offset {
        cursor_line - center_offset
    } else {
        0
    };
    Range { start, end: start + rows }
}

} // verus!
