//! Text helpers: case-insensitive subsequence matching and number formatting.
use vstd::prelude::*;
use vstd::std_specs::iter::IteratorSpec;

verus! {

broadcast use vstd::string::group_string_axioms;

/// The code of a character after ASCII lower-casing: `A`..`Z` map to `a`..`z`,
/// every other character keeps its code.
pub open spec fn lower_code(c: char) -> u32 {
    let x = c as u32;
    if 65 <= x && x <= 90 {
        (x + 32) as u32
    } else {
        x
    }
}

/// Greedy case-insensitive subsequence test: every character of `query`, in order,
/// is matched against the first not yet consumed character of `name` that equals it
/// up to ASCII case.
pub open spec fn is_subseq_ci(name: Seq<char>, query: Seq<char>) -> bool
    decreases name.len(),
{
    if query.len() == 0 {
        true
    } else if name.len() == 0 {
        false
    } else if lower_code(name[0]) == lower_code(query[0]) {
        is_subseq_ci(name.drop_first(), query.drop_first())
    } else {
        is_subseq_ci(name.drop_first(), query)
    }
}

fn char_lower_code(c: char) -> (r: u32)
    ensures
        r == lower_code(c),
{
    let x = c as u32;
    if 65 <= x && x <= 90 {
        x + 32
    } else {
        x
    }
}

/// Whether the characters of `query` occur in `name` in order, comparing up to
/// ASCII case.
pub fn is_subsequence_case_insensitive(name: &str, query: &str) -> (r: bool)
    ensures
        r == is_subseq_ci(name@, query@),
{
    let mut query_chars = query.chars();
    assert(query_chars.remaining() == query@);
    assert(query@.len() > 0 ==> query@ =~= seq![query@[0]] + query@.drop_first());
    let mut current_q = query_chars.next();
    assert(name@.skip(0) =~= name@);
    let ghost goal = is_subseq_ci(name@, query@);
    for c in it: name.chars()
        invariant
            goal == is_subseq_ci(name@, query@),
            it.seq() == name@,
            match current_q {
                Some(qc) => goal == is_subseq_ci(
                    name@.skip(it.index() as int),
                    seq![qc] + query_chars.remaining(),
                ),
                None => goal,
            },
    {
        assert(name@.skip(it.index() as int).drop_first() =~= name@.skip(it.index() + 1));
        assert(it.index() < name@.len());
        assert(c == name@[it.index() as int]);
        assert(name@.skip(it.index() as int)[0] == c);
        match current_q {
            Some(qc) => {
                assert((seq![qc] + query_chars.remaining()).drop_first()
                    =~= query_chars.remaining());
                if char_lower_code(qc) == char_lower_code(c) {
                    assert(query_chars.remaining().len() > 0 ==> query_chars.remaining()
                        =~= seq![query_chars.remaining()[0]] + query_chars.remaining().drop_first());
                    assert(goal == is_subseq_ci(name@.skip(it.index() + 1), query_chars.remaining()));
                    current_q = query_chars.next();
                    assert(current_q is None ==> query_chars.remaining().len() == 0);
                } else {
                    assert(goal == is_subseq_ci(name@.skip(it.index() + 1), seq![qc] + query_chars.remaining()));
                }
            },
            None => {},
        }
    }
    assert(name@.skip(name@.len() as int) =~= Seq::<char>::empty());
    current_q.is_none()
}

/// The digit character for a value below 16: `0`..`9`, then `A`..`F` when `upper`
/// and `a`..`f` otherwise.
pub open spec fn digit_char(d: nat, upper: bool) -> char {
    if d < 10 {
        ((48 + d) as u32) as char
    } else if upper {
        ((55 + d) as u32) as char
    } else {
        ((87 + d) as u32) as char
    }
}

/// The digits of `n` written in `base` (2 to 16), most significant first, with no
/// leading zeros (zero itself is one digit).
pub open spec fn digits(n: nat, base: nat, upper: bool) -> Seq<char>
    decreases n,
{
    if n < base || base < 2 {
        seq![digit_char(n % base, upper)]
    } else {
        proof {
            lemma_div_smaller(n, base);
        }
        digits(n / base, base, upper).push(digit_char(n % base, upper))
    }
}

/// The digits of a number are never empty.
pub proof fn lemma_digits_nonempty(n: nat, base: nat, upper: bool)
    requires
        base >= 2,
    ensures
        digits(n, base, upper).len() >= 1,
    decreases n,
{
    if n >= base {
        lemma_div_smaller(n, base);
        lemma_digits_nonempty(n / base, base, upper);
    }
}

/// Different numbers have different decimal digits.
pub proof fn lemma_decimal_digits_injective(a: nat, b: nat)
    requires
        digits(a, 10, true) == digits(b, 10, true),
    ensures
        a == b,
    decreases a,
{
    if a >= 10 {
        lemma_div_smaller(a, 10);
        lemma_digits_nonempty(a / 10, 10, true);
    }
    if b >= 10 {
        lemma_div_smaller(b, 10);
        lemma_digits_nonempty(b / 10, 10, true);
    }
    let da = digits(a, 10, true);
    let db = digits(b, 10, true);
    assert(da.last() == db.last());
    assert(da.last() == digit_char(a % 10, true));
    assert(db.last() == digit_char(b % 10, true));
    assert(((48 + a % 10) as u32) as char == ((48 + b % 10) as u32) as char);
    assert(a % 10 == b % 10);
    if a >= 10 && b >= 10 {
        assert(da.drop_last() =~= digits(a / 10, 10, true));
        assert(db.drop_last() =~= digits(b / 10, 10, true));
        lemma_decimal_digits_injective(a / 10, b / 10);
    }
}

/// Dividing by a base of at least two makes a positive number smaller.
pub proof fn lemma_div_smaller(n: nat, base: nat)
    requires
        base >= 2,
        n >= 1,
    ensures
        n / base < n,
        n / base <= n / 2,
{
    assert(n / base <= n / 2) by (nonlinear_arith)
        requires
            base >= 2,
    ;
    assert(n / base < n) by (nonlinear_arith)
        requires
            base >= 2,
            n >= 1,
    ;
}

/// `s` padded on the left with `'0'` up to `width` characters.
pub open spec fn zero_pad(s: Seq<char>, width: nat) -> Seq<char> {
    if s.len() >= width {
        s
    } else {
        Seq::new((width - s.len()) as nat, |i: int| '0') + s
    }
}

pub fn digit_str(d: usize, upper: bool) -> (s: &'static str)
    requires
        d < 16,
    ensures
        s@ == seq![digit_char(d as nat, upper)],
{
    proof {
        reveal_strlit("0");
        reveal_strlit("1");
        reveal_strlit("2");
        reveal_strlit("3");
        reveal_strlit("4");
        reveal_strlit("5");
        reveal_strlit("6");
        reveal_strlit("7");
        reveal_strlit("8");
        reveal_strlit("9");
        reveal_strlit("A");
        reveal_strlit("B");
        reveal_strlit("C");
        reveal_strlit("D");
        reveal_strlit("E");
        reveal_strlit("F");
        reveal_strlit("a");
        reveal_strlit("b");
        reveal_strlit("c");
        reveal_strlit("d");
        reveal_strlit("e");
        reveal_strlit("f");
    }
    let r = match d {
        0 => "0",
        1 => "1",
        2 => "2",
        3 => "3",
        4 => "4",
        5 => "5",
        6 => "6",
        7 => "7",
        8 => "8",
        9 => "9",
        10 => if upper { "A" } else { "a" },
        11 => if upper { "B" } else { "b" },
        12 => if upper { "C" } else { "c" },
        13 => if upper { "D" } else { "d" },
        14 => if upper { "E" } else { "e" },
        _ => if upper { "F" } else { "f" },
    };
    assert(r@ =~= seq![digit_char(d as nat, upper)]);
    r
}

/// Appends the digits of `n` in `base` to `s`.
pub fn push_digits(s: &mut String, n: usize, base: usize, upper: bool)
    requires
        2 <= base <= 16,
    ensures
        final(s)@ == old(s)@ + digits(n as nat, base as nat, upper),
    decreases n,
{
    if n >= base {
        proof {
            lemma_div_smaller(n as nat, base as nat);
        }
        push_digits(s, n / base, base, upper);
    }
    s.append(digit_str(n % base, upper));
    assert(old(s)@ + digits(n as nat, base as nat, upper) =~= final(s)@) by {
        if n >= base {
            assert(digits(n as nat, base as nat, upper) == digits(
                (n / base) as nat,
                base as nat,
                upper,
            ).push(digit_char((n % base) as nat, upper)));
        }
    }
}

/// Appends `n` in `base`, left-padded with zeros to at least `width` digits.
pub fn push_padded(s: &mut String, n: usize, base: usize, upper: bool, width: usize)
    requires
        2 <= base <= 16,
    ensures
        final(s)@ == old(s)@ + zero_pad(digits(n as nat, base as nat, upper), width as nat),
{
    let len = count_digits(n, base);
    let mut i = len;
    proof {
        reveal_strlit("0");
    }
    while i < width
        invariant
            len <= i <= if width > len { width } else { len },
            len == digits(n as nat, base as nat, upper).len(),
            s@ == old(s)@ + Seq::new((i - len) as nat, |k: int| '0'),
        decreases width - i,
    {
        proof {
            reveal_strlit("0");
        }
        s.append("0");
        i = i + 1;
        assert(s@ =~= old(s)@ + Seq::new((i - len) as nat, |k: int| '0'));
    }
    let ghost mid = s@;
    push_digits(s, n, base, upper);
    assert(final(s)@ =~= old(s)@ + zero_pad(digits(n as nat, base as nat, upper), width as nat));
}

/// The number of digits of `n` in `base`.
pub fn count_digits(n: usize, base: usize) -> (r: usize)
    requires
        2 <= base <= 16,
    ensures
        r == digits(n as nat, base as nat, true).len(),
        r == digits(n as nat, base as nat, false).len(),
    decreases n,
{
    if n < base {
        1
    } else {
        proof {
            lemma_div_smaller(n as nat, base as nat);
        }
        let r = count_digits(n / base, base);
        proof {
            lemma_digits_len_bound((n / base) as nat, base as nat, true);
        }
        r + 1
    }
}

proof fn lemma_digits_len_bound(n: nat, base: nat, u: bool)
    requires
        2 <= base,
    ensures
        digits(n, base, u).len() <= n + 1,
    decreases n,
{
    if n >= base {
        lemma_div_smaller(n, base);
        lemma_digits_len_bound(n / base, base, u);
    }
}

/// `n` in decimal, as a new string.
pub fn decimal_string(n: usize) -> (r: String)
    ensures
        r@ == digits(n as nat, 10, true),
{
    let mut s = String::new();
    push_digits(&mut s, n, 10, true);
    assert(s@ =~= digits(n as nat, 10, true));
    s
}

} // verus!
