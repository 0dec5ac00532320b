//! User settings: the catalogue of plugins found by a scan and the editor's
//! configuration, and where their files live.
use vstd::prelude::*;

verus! {

broadcast use vstd::string::group_string_axioms;

/// Whether `c` separates the components of a path.
pub open spec fn is_separator(c: char) -> bool {
    c == '/' || c == '\\'
}

/// The path of the entry `name` in directory `dir`: `name` itself for an empty
/// `dir`, otherwise `dir`, a `/` unless `dir` already ends with a separator, and
/// `name`.
pub open spec fn joined(dir: Seq<char>, name: Seq<char>) -> Seq<char> {
    if dir.len() == 0 {
        name
    } else if is_separator(dir.last()) {
        dir + name
    } else {
        dir + seq!['/'] + name
    }
}

/// The path of the entry `name` in directory `dir`.
pub fn join_path(dir: &str, name: &str) -> (r: String)
    ensures
        r@ == joined(dir@, name@),
{
    let n = dir.unicode_len();
    if n == 0 {
        return String::from_str(name);
    }
    let last = dir.get_char(n - 1);
    let mut s = String::from_str(dir);
    if last != '/' && last != '\\' {
        proof {
            reveal_strlit("/");
        }
        s.append("/");
    }
    s.append(name);
    s
}

/// What a scan learnt of one plugin: its id, the file it lives in, how many
/// seconds ago that file was modified, its index in the file, and what the plugin
/// says of itself.
#[derive(Debug)]
pub struct Description {
    pub id: String,
    pub path: String,
    pub modified: u64,
    pub index: u32,
    pub name: String,
    pub vender: String,
    pub version: String,
    pub description: String,
    pub features: Vec<String>,
}

impl Clone for Description {
    fn clone(&self) -> (r: Self)
        ensures
            r.id@ == self.id@,
            r.path@ == self.path@,
            r.modified == self.modified,
            r.index == self.index,
            r.name@ == self.name@,
            r.vender@ == self.vender@,
            r.version@ == self.version@,
            r.description@ == self.description@,
            r.features@.len() == self.features@.len(),
            forall|i: int| 0 <= i < self.features@.len() ==> (#[trigger] r.features@[i])@ == self.features@[i]@,
    {
        let mut features: Vec<String> = Vec::new();
        let mut i: usize = 0;
        while i < self.features.len()
            invariant
                i <= self.features@.len(),
                features@.len() == i,
                forall|j: int| 0 <= j < i ==> (#[trigger] features@[j])@ == self.features@[j]@,
            decreases self.features@.len() - i,
        {
            features.push(self.features[i].clone());
            i = i + 1;
        }
        Description {
            id: self.id.clone(),
            path: self.path.clone(),
            modified: self.modified,
            index: self.index,
            name: self.name.clone(),
            vender: self.vender.clone(),
            version: self.version.clone(),
            description: self.description.clone(),
            features,
        }
    }
}

/// The plugins found by the last scan, kept in the file at `setting_path`.
#[derive(Debug)]
pub struct ClapManager {
    pub setting_path: String,
    pub descriptions: Vec<Description>,
}

impl ClapManager {
    /// A catalogue kept in `claps.json` of the settings directory `setting_dir`,
    /// with no plugin in it yet.
    pub fn new(setting_dir: &str) -> (r: Self)
        ensures
            r.setting_path@ == joined(setting_dir@, "claps.json"@),
            r.descriptions@.len() == 0,
    {
        let name = "claps.json";
        ClapManager { setting_path: join_path(setting_dir, name), descriptions: Vec::new() }
    }

    /// The first description with id `id`, if any.
    pub fn description(&self, id: &String) -> (r: Option<&Description>)
        ensures
            match r {
                Some(d) => exists|i: int|
                    0 <= i < self.descriptions@.len() && *d == self.descriptions@[i] && d.id@ == id@ && forall|j: int|
                        0 <= j < i ==> (#[trigger] self.descriptions@[j]).id@ != id@,
                None => forall|i: int| 0 <= i < self.descriptions@.len() ==> (#[trigger] self.descriptions@[i]).id@ != id@,
            },
    {
        let mut i: usize = 0;
        while i < self.descriptions.len()
            invariant
                i <= self.descriptions@.len(),
                forall|j: int| 0 <= j < i ==> (#[trigger] self.descriptions@[j]).id@ != id@,
            decreases self.descriptions@.len() - i,
        {
            if self.descriptions[i].id == *id {
                return Some(&self.descriptions[i]);
            }
            i = i + 1;
        }
        None
    }
}

/// Byte strings in lexicographic order, as `String`'s order compares names: the
/// first differing byte decides, and a proper prefix comes first.
pub open spec fn bytes_lt(a: Seq<u8>, b: Seq<u8>) -> bool
    decreases a.len(),
{
    if a.len() == 0 {
        b.len() > 0
    } else if b.len() == 0 {
        false
    } else if a[0] != b[0] {
        a[0] < b[0]
    } else {
        bytes_lt(a.drop_first(), b.drop_first())
    }
}

/// The key by which descriptions are ordered: the UTF-8 bytes of the name.
pub open spec fn name_key(d: Description) -> Seq<u8> {
    vstd::utf8::encode_utf8(d.name@)
}

/// Whether a description's name has the key `k`.
pub open spec fn has_name_key(k: Seq<u8>) -> spec_fn(Description) -> bool {
    |d: Description| name_key(d) == k
}

/// No description comes after one whose name is greater.
pub open spec fn sorted_by_name(s: Seq<Description>) -> bool {
    forall|i: int, j: int| 0 <= i < j < s.len() ==> !bytes_lt(#[trigger] name_key(s[j]), #[trigger] name_key(s[i]))
}

/// For every name, the descriptions with that name come in the same order in `a`
/// as in `b`, and no others.
pub open spec fn same_order_per_name(a: Seq<Description>, b: Seq<Description>) -> bool {
    forall|k: Seq<u8>| #[trigger] a.filter(has_name_key(k)) == b.filter(has_name_key(k))
}

/// No byte string is below itself.
pub proof fn lemma_bytes_lt_irreflexive(a: Seq<u8>)
    ensures
        !bytes_lt(a, a),
    decreases a.len(),
{
    if a.len() > 0 {
        lemma_bytes_lt_irreflexive(a.drop_first());
    }
}

/// The byte order is transitive.
pub proof fn lemma_bytes_lt_transitive(a: Seq<u8>, b: Seq<u8>, c: Seq<u8>)
    requires
        bytes_lt(a, b),
        bytes_lt(b, c),
    ensures
        bytes_lt(a, c),
    decreases a.len(),
{
    if a.len() > 0 && b.len() > 0 && c.len() > 0 && a[0] == b[0] && b[0] == c[0] {
        lemma_bytes_lt_transitive(a.drop_first(), b.drop_first(), c.drop_first());
    }
}

/// Whether `a` comes before `b` in the byte order.
pub fn bytes_less(a: &[u8], b: &[u8]) -> (r: bool)
    ensures
        r == bytes_lt(a@, b@),
{
    let mut i: usize = 0;
    assert(a@.skip(0) =~= a@);
    assert(b@.skip(0) =~= b@);
    while i < a.len() && i < b.len()
        invariant
            i <= a@.len(),
            i <= b@.len(),
            bytes_lt(a@, b@) == bytes_lt(a@.skip(i as int), b@.skip(i as int)),
        decreases a@.len() - i,
    {
        assert(a@.skip(i as int)[0] == a@[i as int]);
        assert(b@.skip(i as int)[0] == b@[i as int]);
        if a[i] != b[i] {
            return a[i] < b[i];
        }
        assert(a@.skip(i as int).drop_first() =~= a@.skip(i + 1));
        assert(b@.skip(i as int).drop_first() =~= b@.skip(i + 1));
        i = i + 1;
    }
    assert(a@.skip(i as int).len() == a@.len() - i);
    assert(b@.skip(i as int).len() == b@.len() - i);
    i == a.len() && i < b.len()
}

/// Filtering a sequence with an element inserted at `p` filters the part before
/// `p`, the element and the part after.
pub proof fn lemma_filter_insert<A>(s: Seq<A>, p: int, x: A, pred: spec_fn(A) -> bool)
    requires
        0 <= p <= s.len(),
    ensures
        s.insert(p, x).filter(pred) == s.take(p).filter(pred) + seq![x].filter(pred) + s.skip(p).filter(pred),
        s.filter(pred) == s.take(p).filter(pred) + s.skip(p).filter(pred),
{
    assert(s.insert(p, x) =~= s.take(p) + seq![x] + s.skip(p));
    assert(s =~= s.take(p) + s.skip(p));
    Seq::filter_distributes_over_add(s.take(p) + seq![x], s.skip(p), pred);
    Seq::filter_distributes_over_add(s.take(p), seq![x], pred);
    Seq::filter_distributes_over_add(s.take(p), s.skip(p), pred);
}

/// Inserting `d` into sorted `out` at the first place whose name is greater keeps
/// `out` sorted, and no description from that place on has `d`'s name.
proof fn lemma_insert_sorted(out: Seq<Description>, p: int, d: Description)
    requires
        sorted_by_name(out),
        0 <= p <= out.len(),
        forall|m: int| 0 <= m < p ==> !bytes_lt(name_key(d), #[trigger] name_key(out[m])),
        p < out.len() ==> bytes_lt(name_key(d), name_key(out[p])),
    ensures
        sorted_by_name(out.insert(p, d)),
        forall|m: int| p <= m < out.len() ==> #[trigger] name_key(out[m]) != name_key(d),
{
    let o2 = out.insert(p, d);
    assert forall|m: int| p <= m < out.len() implies #[trigger] name_key(out[m]) != name_key(d) by {
        if m > p {
            assert(!bytes_lt(name_key(out[m]), name_key(out[p])));
        }
        if m == p {
            lemma_bytes_lt_irreflexive(name_key(d));
        }
    }
    assert forall|i: int, j: int| 0 <= i < j < o2.len() implies !bytes_lt(
        #[trigger] name_key(o2[j]),
        #[trigger] name_key(o2[i]),
    ) by {
        if i == p {
            let m = j - 1;
            assert(o2[j] == out[m]);
            if bytes_lt(name_key(out[m]), name_key(d)) {
                lemma_bytes_lt_transitive(name_key(out[m]), name_key(d), name_key(out[p]));
                if m == p {
                    lemma_bytes_lt_irreflexive(name_key(out[p]));
                } else {
                    assert(!bytes_lt(name_key(out[m]), name_key(out[p])));
                }
            }
        } else if j == p {
            assert(o2[i] == out[i]);
        } else {
            let i0 = if i < p { i } else { i - 1 };
            let j0 = if j < p { j } else { j - 1 };
            assert(o2[i] == out[i0]);
            assert(o2[j] == out[j0]);
            assert(!bytes_lt(name_key(out[j0]), name_key(out[i0])));
        }
    }
}

/// The place at which a description with name bytes `key` goes into `out`: the
/// first description whose name is greater, or the end.
fn insert_position(out: &Vec<Description>, key: &[u8]) -> (p: usize)
    ensures
        p <= out@.len(),
        forall|m: int| 0 <= m < p ==> !bytes_lt(key@, #[trigger] name_key(out@[m])),
        p < out@.len() ==> bytes_lt(key@, name_key(out@[p as int])),
{
    let mut j: usize = 0;
    while j < out.len()
        invariant
            j <= out@.len(),
            forall|m: int| 0 <= m < j ==> !bytes_lt(key@, #[trigger] name_key(out@[m])),
        decreases out@.len() - j,
    {
        let name: &str = out[j].name.as_str();
        if bytes_less(key, name.as_bytes()) {
            return j;
        }
        j = j + 1;
    }
    j
}

impl ClapManager {
    /// Orders the descriptions by name, keeping the order of those with the same
    /// name, as a stable sort by the name does.
    pub fn sort_by_name(&mut self)
        ensures
            final(self).setting_path == old(self).setting_path,
            sorted_by_name(final(self).descriptions@),
            same_order_per_name(final(self).descriptions@, old(self).descriptions@),
    {
        let mut rest: Vec<Description> = Vec::new();
        std::mem::swap(&mut rest, &mut self.descriptions);
        let ghost input = rest@;
        let mut out: Vec<Description> = Vec::new();
        let n = rest.len();
        let mut i: usize = 0;
        while i < n
            invariant
                n == input.len(),
                i <= n,
                rest@ == input.skip(i as int),
                sorted_by_name(out@),
                forall|k: Seq<u8>| #[trigger] out@.filter(has_name_key(k)) == input.take(i as int).filter(has_name_key(k)),
            decreases n - i,
        {
            let d = rest.remove(0);
            assert(d == input[i as int]);
            assert(rest@ =~= input.skip(i + 1));
            let name: &str = d.name.as_str();
            let p = insert_position(&out, name.as_bytes());
            let ghost o = out@;
            proof {
                lemma_insert_sorted(o, p as int, d);
                assert(input.take(i + 1) =~= input.take(i as int).push(d));
                assert forall|k: Seq<u8>| #[trigger] o.insert(p as int, d).filter(has_name_key(k)) == input.take(
                    i + 1,
                ).filter(has_name_key(k)) by {
                    let pred = has_name_key(k);
                    lemma_filter_insert(o, p as int, d, pred);
                    input.take(i as int).lemma_filter_push(d, pred);
                    reveal_with_fuel(Seq::filter, 2);
                    if name_key(d) == k {
                        assert forall|m: int| 0 <= m < o.skip(p as int).len() implies !pred(
                            #[trigger] o.skip(p as int)[m],
                        ) by {
                            assert(o.skip(p as int)[m] == o[p + m]);
                        }
                        o.skip(p as int).lemma_all_neg_filter_empty(pred);
                        assert(seq![d].filter(pred) =~= seq![d]);
                    } else {
                        assert(seq![d].filter(pred) =~= Seq::<Description>::empty());
                    }
                }
            }
            out.insert(p, d);
            i = i + 1;
        }
        assert(input.take(n as int) =~= input);
        self.descriptions = out;
    }
}

/// The editor's configuration: the MIDI input device to open, if one was chosen.
#[derive(Debug)]
pub struct Config {
    pub midi_device_input: Option<String>,
}

impl Default for Config {
    fn default() -> (r: Self)
        ensures
            r.midi_device_input is None,
    {
        Config { midi_device_input: None }
    }
}

impl Config {
    /// The path of the configuration file, `config.json` in the settings directory
    /// `setting_dir`.
    pub fn file(setting_dir: &str) -> (r: String)
        ensures
            r@ == joined(setting_dir@, "config.json"@),
    {
        join_path(setting_dir, "config.json")
    }
}

} // verus!
