//! What a lane holds at a line.
use crate::model::point::Point;
use crate::note::{default_note, Note};
use vstd::prelude::*;

verus! {

/// The content of one cell of a lane: a note, an automation point, a call of a
/// labelled pattern, a label, or a return from a call.
#[derive(Debug)]
pub enum LaneItem {
    Note(Note),
    Point(Point),
    Call(String),
    Label(String),
    Ret,
}

impl Clone for LaneItem {
    fn clone(&self) -> (r: Self)
        ensures
            r == *self,
    {
        match self {
            LaneItem::Note(n) => LaneItem::Note(*n),
            LaneItem::Point(p) => LaneItem::Point(*p),
            LaneItem::Call(s) => LaneItem::Call(s.clone()),
            LaneItem::Label(s) => LaneItem::Label(s.clone()),
            LaneItem::Ret => LaneItem::Ret,
        }
    }
}

/// The delay of an item within its line, in 1/256 of a line.
pub open spec fn item_delay(item: LaneItem) -> u8 {
    match item {
        LaneItem::Note(n) => n.delay,
        LaneItem::Point(p) => p.delay,
        _ => 0,
    }
}

impl LaneItem {
    /// The delay of the item within its line; calls, labels and returns have none.
    pub fn delay(&self) -> (r: u8)
        ensures
            r == item_delay(*self),
    {
        match self {
            LaneItem::Note(n) => n.delay,
            LaneItem::Point(p) => p.delay,
            LaneItem::Call(_) => 0,
            LaneItem::Label(_) => 0,
            LaneItem::Ret => 0,
        }
    }
}

impl Default for LaneItem {
    fn default() -> (r: Self)
        ensures
            r == LaneItem::Note(default_note()),
    {
        LaneItem::Note(Note::default())
    }
}

} // verus!
