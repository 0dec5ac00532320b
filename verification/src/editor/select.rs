//! Choosing one item of a list by typing part of its name: the items whose name
//! holds the typed characters in order, up to ASCII case, are offered.
use crate::editor::app_state::AppState;
use crate::settings::Description;
use crate::text::{is_subseq_ci, is_subsequence_case_insensitive};
use vstd::prelude::*;

verus! {

broadcast use vstd::string::group_string_axioms;

/// An item that can be chosen from a [`SelectView`] by its name.
pub trait SelectItem: Clone {
    fn name(&self) -> &str;
}

/// An item that can be chosen from a [`QueryView`] by its name.
pub trait QueryItem {
    fn name(&self) -> &str;
}

/// The indices, in increasing order, of the names that `query` is found in.
pub open spec fn matching_indices(names: Seq<Seq<char>>, query: Seq<char>) -> Seq<usize>
    decreases names.len(),
{
    if names.len() == 0 {
        Seq::empty()
    } else {
        let pre = matching_indices(names.drop_last(), query);
        if is_subseq_ci(names.last(), query) {
            pre.push((names.len() - 1) as usize)
        } else {
            pre
        }
    }
}

/// Every index that [`matching_indices`] gives is an index of `names`.
pub proof fn lemma_matching_indices_bound(names: Seq<Seq<char>>, query: Seq<char>)
    ensures
        forall|k: int|
            0 <= k < matching_indices(names, query).len() ==> #[trigger] matching_indices(names, query)[k]
                < names.len(),
    decreases names.len(),
{
    if names.len() > 0 {
        let pre = matching_indices(names.drop_last(), query);
        lemma_matching_indices_bound(names.drop_last(), query);
        assert forall|k: int| 0 <= k < matching_indices(names, query).len() implies #[trigger] matching_indices(
            names,
            query,
        )[k] < names.len() by {
            if k < pre.len() {
                assert(pre[k] < names.drop_last().len());
            }
        }
    }
}

/// The offered indices are exactly the indices of the names that `query` is
/// found in, each once, in increasing order.
pub proof fn lemma_matching_indices_exact(names: Seq<Seq<char>>, query: Seq<char>)
    requires
        names.len() <= usize::MAX,
    ensures
        forall|k: int| 0 <= k < names.len() ==> (is_subseq_ci(names[k], query) <==> matching_indices(
            names,
            query,
        ).contains(k as usize)),
        forall|i: int, j: int|
            0 <= i < j < matching_indices(names, query).len() ==> matching_indices(names, query)[i]
                < matching_indices(names, query)[j],
    decreases names.len(),
{
    lemma_matching_indices_bound(names, query);
    if names.len() > 0 {
        let pre_names = names.drop_last();
        let pre = matching_indices(pre_names, query);
        let r = matching_indices(names, query);
        lemma_matching_indices_exact(pre_names, query);
        lemma_matching_indices_bound(pre_names, query);
        let last = (names.len() - 1) as usize;
        assert forall|k: int| 0 <= k < names.len() implies (is_subseq_ci(names[k], query) <==> r.contains(
            k as usize,
        )) by {
            if k < names.len() - 1 {
                assert(names[k] == pre_names[k]);
                if pre.contains(k as usize) {
                    let w = choose|w: int| 0 <= w < pre.len() && pre[w] == k as usize;
                    assert(r[w] == k as usize);
                }
                if r.contains(k as usize) {
                    let w = choose|w: int| 0 <= w < r.len() && r[w] == k as usize;
                    if w < pre.len() {
                        assert(pre[w] == k as usize);
                    }
                }
            } else {
                assert(k as usize == last);
                if is_subseq_ci(names[k], query) {
                    assert(r[pre.len() as int] == last);
                }
                if r.contains(k as usize) {
                    let w = choose|w: int| 0 <= w < r.len() && r[w] == k as usize;
                    if w < pre.len() {
                        assert(pre[w] < pre_names.len());
                    }
                }
            }
        }
    }
}

/// The characters of each name.
pub open spec fn names_view(names: Seq<String>) -> Seq<Seq<char>> {
    names.map_values(|x: String| x@)
}

/// The indices of the names that `query` is found in.
pub fn matching(names: &Vec<String>, query: &str) -> (r: Vec<usize>)
    ensures
        r@ == matching_indices(names_view(names@), query@),
{
    let ghost v = names_view(names@);
    let mut r: Vec<usize> = Vec::new();
    let mut i: usize = 0;
    while i < names.len()
        invariant
            i <= names@.len(),
            v == names_view(names@),
            r@ == matching_indices(v.take(i as int), query@),
        decreases names@.len() - i,
    {
        let m = is_subsequence_case_insensitive(names[i].as_str(), query);
        proof {
            let s = v.take(i as int + 1);
            assert(s.drop_last() =~= v.take(i as int));
            assert(s.last() == names@[i as int]@);
        }
        if m {
            r.push(i);
        }
        i = i + 1;
    }
    assert(v.take(names@.len() as int) =~= v);
    r
}

/// The names that the items give, in order.
pub fn select_item_names<T: SelectItem>(items: &Vec<T>) -> (r: Vec<String>)
    ensures
        r@.len() == items@.len(),
{
    let mut r: Vec<String> = Vec::new();
    let mut i: usize = 0;
    while i < items.len()
        invariant
            i <= items@.len(),
            r@.len() == i,
        decreases items@.len() - i,
    {
        r.push(String::from_str(items[i].name()));
        i = i + 1;
    }
    r
}

/// The names that the items give, in order.
pub fn query_item_names<T: QueryItem>(items: &Vec<T>) -> (r: Vec<String>)
    ensures
        r@.len() == items@.len(),
{
    let mut r: Vec<String> = Vec::new();
    let mut i: usize = 0;
    while i < items.len()
        invariant
            i <= items@.len(),
            r@.len() == i,
        decreases items@.len() - i,
    {
        r.push(String::from_str(items[i].name()));
        i = i + 1;
    }
    r
}

/// The plugins' names, in order.
pub fn description_names(ds: &Vec<Description>) -> (r: Vec<String>)
    ensures
        r@.len() == ds@.len(),
        forall|i: int| 0 <= i < ds@.len() ==> (#[trigger] r@[i])@ == ds@[i].name@,
{
    let mut r: Vec<String> = Vec::new();
    let mut i: usize = 0;
    while i < ds.len()
        invariant
            i <= ds@.len(),
            r@.len() == i,
            forall|j: int| 0 <= j < i ==> (#[trigger] r@[j])@ == ds@[j].name@,
        decreases ds@.len() - i,
    {
        r.push(ds[i].name.clone());
        i = i + 1;
    }
    r
}

/// A list to choose from: `items`, the names they gave (`names`), the typed
/// `buffer`, the indices of the items it is found in (`quried_items`), and whether
/// the text field still has to take the keyboard focus (`focus_p`).
pub struct SelectView<T: SelectItem> {
    pub focus_p: bool,
    pub buffer: String,
    pub items: Vec<T>,
    pub names: Vec<String>,
    pub quried_items: Vec<usize>,
}

impl<T: SelectItem> SelectView<T> {
    /// One name per item, and every offered index is an index of `items`.
    pub open spec fn wf(&self) -> bool {
        &&& self.names@.len() == self.items@.len()
        &&& forall|k: int| 0 <= k < self.quried_items@.len() ==> #[trigger] self.quried_items@[k] < self.items@.len()
    }

    /// A list of `items` with nothing typed and nothing offered yet, whose text
    /// field is to take the focus.
    pub fn new(items: Vec<T>) -> (r: Self)
        ensures
            r.focus_p,
            r.buffer@ == Seq::<char>::empty(),
            r.items == items,
            r.quried_items@.len() == 0,
            r.wf(),
    {
        let names = select_item_names(&items);
        SelectView { focus_p: true, buffer: String::new(), items, names, quried_items: Vec::new() }
    }

    /// The text typed is now `buffer`: the items whose name it is found in are
    /// offered.
    pub fn query(&mut self, buffer: String)
        requires
            old(self).wf(),
        ensures
            final(self).quried_items@ == matching_indices(names_view(old(self).names@), buffer@),
            final(self).wf(),
            *final(self) == (SelectView { quried_items: final(self).quried_items, buffer, ..*old(self) }),
    {
        self.quried_items = matching(&self.names, buffer.as_str());
        self.buffer = buffer;
        proof {
            lemma_matching_indices_bound(names_view(self.names@), self.buffer@);
        }
    }

    /// The first item offered, chosen by Enter.
    pub fn first(&self) -> (r: Option<&T>)
        requires
            self.wf(),
        ensures
            r == (if self.quried_items@.len() > 0 {
                Some(&self.items@[self.quried_items@[0] as int])
            } else {
                None
            }),
    {
        if self.quried_items.len() > 0 {
            Some(&self.items[self.quried_items[0]])
        } else {
            None
        }
    }

    /// Whether the text field has to take the focus now; afterwards it has not.
    pub fn focus_take(&mut self) -> (r: bool)
        ensures
            r == old(self).focus_p,
            *final(self) == (SelectView { focus_p: false, ..*old(self) }),
    {
        let r = self.focus_p;
        self.focus_p = false;
        r
    }
}

/// A list to choose from that is used again after a choice: as [`SelectView`],
/// and its text field takes the focus again each time it is closed.
pub struct QueryView<T: QueryItem> {
    pub focus_p: bool,
    pub buffer: String,
    pub all_items: Vec<T>,
    pub names: Vec<String>,
    pub quried_items: Vec<usize>,
}

impl<T: QueryItem> QueryView<T> {
    /// One name per item, and every offered index is an index of `all_items`.
    pub open spec fn wf(&self) -> bool {
        &&& self.names@.len() == self.all_items@.len()
        &&& forall|k: int| 0 <= k < self.quried_items@.len() ==> #[trigger] self.quried_items@[k] < self.all_items@.len()
    }

    /// A list of `all_items` with nothing typed and nothing offered yet, whose
    /// text field is to take the focus.
    pub fn new(all_items: Vec<T>) -> (r: Self)
        ensures
            r.focus_p,
            r.buffer@ == Seq::<char>::empty(),
            r.all_items == all_items,
            r.quried_items@.len() == 0,
            r.wf(),
    {
        let names = query_item_names(&all_items);
        QueryView { focus_p: true, buffer: String::new(), all_items, names, quried_items: Vec::new() }
    }

    /// The text typed is now `buffer`: the items whose name it is found in are
    /// offered.
    pub fn query(&mut self, buffer: String)
        requires
            old(self).wf(),
        ensures
            final(self).quried_items@ == matching_indices(names_view(old(self).names@), buffer@),
            final(self).wf(),
            *final(self) == (QueryView { quried_items: final(self).quried_items, buffer, ..*old(self) }),
    {
        self.quried_items = matching(&self.names, buffer.as_str());
        self.buffer = buffer;
        proof {
            lemma_matching_indices_bound(names_view(self.names@), self.buffer@);
        }
    }

    /// The first item offered, chosen by Enter.
    pub fn first(&self) -> (r: Option<&T>)
        requires
            self.wf(),
        ensures
            r == (if self.quried_items@.len() > 0 {
                Some(&self.all_items@[self.quried_items@[0] as int])
            } else {
                None
            }),
    {
        if self.quried_items.len() > 0 {
            Some(&self.all_items[self.quried_items[0]])
        } else {
            None
        }
    }

    /// Whether the text field has to take the focus now; afterwards it has not.
    pub fn focus_take(&mut self) -> (r: bool)
        ensures
            r == old(self).focus_p,
            *final(self) == (QueryView { focus_p: false, ..*old(self) }),
    {
        let r = self.focus_p;
        self.focus_p = false;
        r
    }

    /// Closes the list: its text field takes the focus when it is shown again.
    pub fn close(&mut self)
        ensures
            *final(self) == (QueryView { focus_p: true, ..*old(self) }),
    {
        self.focus_p = true;
    }
}

/// The list of plugins to load one from: as [`SelectView`] over the plugin
/// descriptions, found by the plugins' names.
pub struct PluginSelectView {
    pub focus_p: bool,
    pub buffer: String,
    pub descriptions: Vec<Description>,
    pub names: Vec<String>,
    pub quried_items: Vec<usize>,
}

impl PluginSelectView {
    /// `names` are the plugins' names, and every offered index is an index of
    /// `descriptions`.
    pub open spec fn wf(&self) -> bool {
        &&& self.names@.len() == self.descriptions@.len()
        &&& forall|i: int| 0 <= i < self.names@.len() ==> (#[trigger] self.names@[i])@ == self.descriptions@[i].name@
        &&& forall|k: int| 0 <= k < self.quried_items@.len() ==> #[trigger] self.quried_items@[k] < self.descriptions@.len()
    }

    /// A list of the plugins `descriptions` with nothing typed and nothing offered
    /// yet, whose text field is to take the focus.
    pub fn new(descriptions: Vec<Description>) -> (r: Self)
        ensures
            r.focus_p,
            r.buffer@ == Seq::<char>::empty(),
            r.descriptions == descriptions,
            r.quried_items@.len() == 0,
            r.wf(),
    {
        let names = description_names(&descriptions);
        PluginSelectView { focus_p: true, buffer: String::new(), descriptions, names, quried_items: Vec::new() }
    }

    /// The text typed is now `buffer`: the plugins whose name it is found in are
    /// offered.
    pub fn query(&mut self, buffer: String)
        requires
            old(self).wf(),
        ensures
            final(self).quried_items@ == matching_indices(
                old(self).descriptions@.map_values(|d: Description| d.name@),
                buffer@,
            ),
            final(self).wf(),
            *final(self) == (PluginSelectView { quried_items: final(self).quried_items, buffer, ..*old(self) }),
    {
        self.quried_items = matching(&self.names, buffer.as_str());
        assert(names_view(self.names@) =~= self.descriptions@.map_values(|d: Description| d.name@));
        self.buffer = buffer;
        proof {
            lemma_matching_indices_bound(names_view(self.names@), self.buffer@);
        }
    }

    /// The first plugin offered, chosen by Enter.
    pub fn first(&self) -> (r: Option<&Description>)
        requires
            self.wf(),
        ensures
            r == (if self.quried_items@.len() > 0 {
                Some(&self.descriptions@[self.quried_items@[0] as int])
            } else {
                None
            }),
    {
        if self.quried_items.len() > 0 {
            Some(&self.descriptions[self.quried_items[0]])
        } else {
            None
        }
    }

    /// Whether the text field has to take the focus now; afterwards it has not.
    pub fn focus_take(&mut self) -> (r: bool)
        ensures
            r == old(self).focus_p,
            *final(self) == (PluginSelectView { focus_p: false, ..*old(self) }),
    {
        let r = self.focus_p;
        self.focus_p = false;
        r
    }
}

/// The window for typing a line of commands to evaluate.
pub struct EvalWindow {
    pub buffer: String,
}

impl EvalWindow {
    /// A window with nothing typed.
    pub fn new() -> (r: Self)
        ensures
            r.buffer@ == Seq::<char>::empty(),
    {
        EvalWindow { buffer: String::new() }
    }

    /// Enter: the window closes and the typed line is handed out to be evaluated;
    /// the window is empty again.
    pub fn submit(&mut self, state: &mut AppState) -> (r: String)
        ensures
            r == old(self).buffer,
            final(self).buffer@ == Seq::<char>::empty(),
            *final(state) == (AppState { eval_window_open_p: false, ..*old(state) }),
    {
        state.eval_window_open_p = false;
        let mut b = String::new();
        std::mem::swap(&mut b, &mut self.buffer);
        b
    }

    /// Escape: the window is marked open.
    pub fn escape(&mut self, state: &mut AppState)
        ensures
            *final(state) == (AppState { eval_window_open_p: true, ..*old(state) }),
            *final(self) == *old(self),
    {
        state.eval_window_open_p = true;
    }
}

} // verus!
