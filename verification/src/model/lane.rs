//! A lane: the items of one column of a track, keyed by line.
use crate::model::lane_item::LaneItem;
use std::collections::HashMap;
use vstd::prelude::*;

verus! {

broadcast use vstd::std_specs::hash::group_hash_axioms;

/// The items of a lane by line.
#[derive(Debug)]
pub struct Lane {
    pub items: HashMap<usize, LaneItem>,
}

impl View for Lane {
    type V = Map<usize, LaneItem>;

    open spec fn view(&self) -> Map<usize, LaneItem> {
        self.items@
    }
}

impl Clone for Lane {
    fn clone(&self) -> (r: Self)
        ensures
            r@ == self@,
    {
        Lane { items: self.items.clone() }
    }
}

impl Lane {
    /// An empty lane.
    pub fn new() -> (r: Self)
        ensures
            r@ == Map::<usize, LaneItem>::empty(),
    {
        Lane { items: HashMap::new() }
    }

    /// The item at `line`, if any.
    pub fn item(&self, line: usize) -> (r: Option<&LaneItem>)
        ensures
            match r {
                Some(item) => self@.contains_key(line) && *item == self@[line],
                None => !self@.contains_key(line),
            },
    {
        self.items.get(&line)
    }

    /// Puts `item` at `line`, or clears the line when `item` is `None`; returns what
    /// the line held before.
    pub fn set(&mut self, line: usize, item: Option<LaneItem>) -> (r: Option<LaneItem>)
        ensures
            final(self)@ == cell_set(old(self)@, line, item),
            r == map_get(old(self)@, line),
    {
        let r = self.items.remove(&line);
        match item {
            Some(x) => {
                self.items.insert(line, x);
            },
            None => {},
        }
        r
    }
}

/// The lane after `line` is given `item`, or cleared when `item` is `None`.
pub open spec fn cell_set(lane: Map<usize, LaneItem>, line: usize, item: Option<LaneItem>) -> Map<usize, LaneItem> {
    match item {
        Some(x) => lane.insert(line, x),
        None => lane.remove(line),
    }
}

/// The item at `line`, if the lane holds one.
pub open spec fn map_get(lane: Map<usize, LaneItem>, line: usize) -> Option<LaneItem> {
    if lane.contains_key(line) {
        Some(lane[line])
    } else {
        None
    }
}

} // verus!
