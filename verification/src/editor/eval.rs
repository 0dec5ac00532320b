//! Evaluating a typed line: its words are read as a stack, and the last word is a
//! command that takes its argument from the word before it.
use crate::editor::app_commands::sent;
use crate::editor::app_state::{writes_sent, AppState};
use crate::engine::message::MainToAudio;
use crate::model::lane_item::LaneItem;
use vstd::prelude::*;
use vstd::string::StrSliceExecFns;

verus! {

broadcast use vstd::string::group_string_axioms;

/// The characters with the Unicode `White_Space` property, the ones that separate
/// words: U+0009 to U+000D, U+0020, U+0085, U+00A0, U+1680, U+2000 to U+200A,
/// U+2028, U+2029, U+202F, U+205F and U+3000.
pub open spec fn is_white_space(c: char) -> bool {
    let x = c as u32;
    ||| 9 <= x <= 13
    ||| x == 0x20
    ||| x == 0x85
    ||| x == 0xa0
    ||| x == 0x1680
    ||| 0x2000 <= x <= 0x200a
    ||| x == 0x2028
    ||| x == 0x2029
    ||| x == 0x202f
    ||| x == 0x205f
    ||| x == 0x3000
}

/// The words of `s`: its maximal runs of characters that are not white space, in
/// order.
pub open spec fn words(s: Seq<char>) -> Seq<Seq<char>>
    decreases s.len(),
{
    if s.len() == 0 {
        Seq::empty()
    } else {
        let pre = words(s.drop_last());
        if is_white_space(s.last()) {
            pre
        } else if s.len() > 1 && !is_white_space(s[s.len() - 2]) {
            pre.update(pre.len() - 1, pre.last().push(s.last()))
        } else {
            pre.push(seq![s.last()])
        }
    }
}

/// Every word is a non-empty run of characters that are not white space, and a
/// text that ends in such a character has a word.
pub proof fn lemma_words_clean(s: Seq<char>)
    ensures
        forall|i: int| 0 <= i < words(s).len() ==> (#[trigger] words(s)[i]).len() > 0,
        forall|i: int, j: int| 0 <= i < words(s).len() && 0 <= j < words(s)[i].len() ==> !is_white_space(
            #[trigger] words(s)[i][j],
        ),
        s.len() > 0 && !is_white_space(s.last()) ==> words(s).len() > 0,
    decreases s.len(),
{
    if s.len() > 0 {
        let p = s.drop_last();
        lemma_words_clean(p);
        let pre = words(p);
        let c = s.last();
        if !is_white_space(c) {
            if s.len() > 1 && !is_white_space(s[s.len() - 2]) {
                assert(p.last() == s[s.len() - 2]);
                let w = words(s);
                assert forall|i: int, j: int| 0 <= i < w.len() && 0 <= j < w[i].len() implies !is_white_space(
                    #[trigger] w[i][j],
                ) by {
                    if i == pre.len() - 1 && j == w[i].len() - 1 {
                        assert(w[i][j] == c);
                    } else if i == pre.len() - 1 {
                        assert(w[i][j] == pre[i][j]);
                    } else {
                        assert(w[i] == pre[i]);
                    }
                }
            }
        }
    }
}

fn char_is_white_space(c: char) -> (r: bool)
    ensures
        r == is_white_space(c),
{
    let x = c as u32;
    (9 <= x && x <= 13) || x == 0x20 || x == 0x85 || x == 0xa0 || x == 0x1680 || (0x2000 <= x && x <= 0x200a)
        || x == 0x2028 || x == 0x2029 || x == 0x202f || x == 0x205f || x == 0x3000
}

/// The characters of each string.
pub open spec fn strings_view(v: Seq<String>) -> Seq<Seq<char>> {
    v.map_values(|w: String| w@)
}

/// The words of `s`, split at white space.
pub fn split_whitespace(s: &str) -> (r: Vec<String>)
    ensures
        strings_view(r@) == words(s@),
{
    let n = s.unicode_len();
    let mut done: Vec<String> = Vec::new();
    let mut start: usize = 0;
    let mut in_word = false;
    let mut i: usize = 0;
    while i < n
        invariant
            n == s@.len(),
            i <= n,
            in_word == (i > 0 && !is_white_space(s@[i - 1])),
            in_word ==> start < i && words(s@.take(i as int)) == strings_view(done@).push(
                s@.subrange(start as int, i as int),
            ),
            !in_word ==> words(s@.take(i as int)) == strings_view(done@),
        decreases n - i,
    {
        let c = s.get_char(i);
        let ghost p = s@.take(i as int);
        let ghost q = s@.take(i as int + 1);
        assert(q.drop_last() =~= p);
        assert(q.last() == c);
        let ghost d0 = strings_view(done@);
        if char_is_white_space(c) {
            if in_word {
                let w = String::from_str(s.substring_char(start, i));
                done.push(w);
                assert(strings_view(done@) =~= d0.push(w@));
            }
            in_word = false;
        } else {
            if !in_word {
                start = i;
                in_word = true;
                assert(s@.subrange(i as int, i as int + 1) =~= seq![c]);
            } else {
                assert(s@.subrange(start as int, i as int + 1) =~= s@.subrange(start as int, i as int).push(c));
                assert(words(p).len() == d0.len() + 1);
            }
        }
        i = i + 1;
    }
    let ghost d0 = strings_view(done@);
    if in_word {
        let w = String::from_str(s.substring_char(start, n));
        done.push(w);
        assert(strings_view(done@) =~= d0.push(w@));
    }
    assert(s@.take(n as int) =~= s@);
    done
}

/// A word of an evaluated line: a number, with the bit pattern of its `f64`
/// value and its text as numbers are printed, or any other word.
#[derive(Debug)]
pub enum Word {
    Word(String),
    Number(u64, String),
}

/// The text that a word stands for as an argument.
pub open spec fn word_text(w: Word) -> String {
    match w {
        Word::Word(s) => s,
        Word::Number(_, t) => t,
    }
}

/// What evaluating the stack of `words` does to the editor `a`, giving `b`. The
/// last word is the command, the one before it its argument: `bpm` with a number
/// asks the engine for that tempo; `call` (or `c`) and `label` (or `l`) put a call
/// of, or a label named, the argument under the cursor; `ret` (or `r`) puts a
/// return there. Anything else, or a command without its argument, does nothing.
pub open spec fn eval_effect(a: AppState, b: AppState, words: Seq<Word>) -> bool {
    let rest = words.drop_last();
    let arg = rest.last();
    let cell_put = |item: LaneItem|
        writes_sent(a.to_singer@, b.to_singer@, seq![(a.cursor_track, Some(item))]) && b == (AppState {
            to_singer: b.to_singer,
            ..a
        });
    if words.len() > 0 && words.last() is Word {
        let command = words.last()->Word_0@;
        if command == "bpm"@ {
            if rest.len() > 0 && arg is Number {
                sent(a, b, MainToAudio::Bpm(arg->Number_0))
            } else {
                b == a
            }
        } else if command == "call"@ || command == "c"@ {
            if rest.len() > 0 {
                cell_put(LaneItem::Call(word_text(arg)))
            } else {
                b == a
            }
        } else if command == "label"@ || command == "l"@ {
            if rest.len() > 0 {
                cell_put(LaneItem::Label(word_text(arg)))
            } else {
                b == a
            }
        } else if command == "ret"@ || command == "r"@ {
            cell_put(LaneItem::Ret)
        } else {
            b == a
        }
    } else {
        b == a
    }
}

/// The evaluator of typed lines.
pub struct Eval {}

impl Eval {
    /// Evaluates the stack of `words`, as [`eval_effect`] says.
    pub fn eval(words: Vec<Word>, state: &mut AppState)
        ensures
            eval_effect(*old(state), *final(state), words@),
    {
        let mut stack = words;
        let ghost ws = stack@;
        let top = stack.pop();
        let ghost rest = stack@;
        assert(ws.len() > 0 ==> rest =~= ws.drop_last());
        match top {
            Some(Word::Word(command)) => {
                let bpm = String::from_str("bpm");
                let call = String::from_str("call");
                let c = String::from_str("c");
                let label = String::from_str("label");
                let l = String::from_str("l");
                let ret = String::from_str("ret");
                let r = String::from_str("r");
                if command == bpm {
                    match stack.pop() {
                        Some(Word::Number(bits, _)) => state.bpm_set(bits),
                        _ => {},
                    }
                } else if command == call || command == c {
                    match stack.pop() {
                        Some(Word::Word(w)) => state.eval_call(w),
                        Some(Word::Number(_, t)) => state.eval_call(t),
                        None => {},
                    }
                } else if command == label || command == l {
                    match stack.pop() {
                        Some(Word::Word(w)) => state.eval_label(w),
                        Some(Word::Number(_, t)) => state.eval_label(t),
                        None => {},
                    }
                } else if command == ret || command == r {
                    state.eval_ret();
                }
            },
            _ => {},
        }
    }
}

} // verus!
