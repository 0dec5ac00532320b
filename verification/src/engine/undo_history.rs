//! The undo and redo stacks of the engine's edits.
use crate::engine::message::{msg_eq, MainToAudio};
use vstd::prelude::*;

verus! {

/// An edit as the history keeps it: the request that undoes it and the request
/// that makes it again.
#[derive(Debug)]
pub struct UndoHistoryItem {
    pub undo: MainToAudio,
    pub redo: MainToAudio,
}

/// The undo and redo stacks. While `traveling_p` is set (from an undo or a redo
/// until the next request), new edits are not recorded.
#[derive(Debug)]
pub struct UndoHistory {
    pub undos: Vec<UndoHistoryItem>,
    pub redos: Vec<UndoHistoryItem>,
    pub traveling_p: bool,
}

/// The mathematical value of a history: both stacks, tops last.
pub struct UndoHistoryV {
    pub undos: Seq<UndoHistoryItem>,
    pub redos: Seq<UndoHistoryItem>,
    pub traveling_p: bool,
}

impl View for UndoHistory {
    type V = UndoHistoryV;

    open spec fn view(&self) -> UndoHistoryV {
        UndoHistoryV { undos: self.undos@, redos: self.redos@, traveling_p: self.traveling_p }
    }
}

/// The history after an edit with its undo and redo requests is recorded: nothing
/// changes while traveling, else the edit goes on the undo stack and the redo stack
/// is emptied.
pub open spec fn history_add(h: UndoHistoryV, undo: MainToAudio, redo: MainToAudio) -> UndoHistoryV {
    if h.traveling_p {
        h
    } else {
        UndoHistoryV { undos: h.undos.push(UndoHistoryItem { undo, redo }), redos: seq![], traveling_p: false }
    }
}

/// The history after an undo: the top edit moves to the redo stack.
pub open spec fn history_undo(h: UndoHistoryV) -> UndoHistoryV {
    if h.undos.len() == 0 {
        UndoHistoryV { traveling_p: true, ..h }
    } else {
        UndoHistoryV { undos: h.undos.drop_last(), redos: h.redos.push(h.undos.last()), traveling_p: true }
    }
}

/// The history after a redo: the top of the redo stack moves back.
pub open spec fn history_redo(h: UndoHistoryV) -> UndoHistoryV {
    if h.redos.len() == 0 {
        UndoHistoryV { traveling_p: true, ..h }
    } else {
        UndoHistoryV { undos: h.undos.push(h.redos.last()), redos: h.redos.drop_last(), traveling_p: true }
    }
}

/// The request an undo hands out: the undo request of the top edit.
pub open spec fn undo_message(h: UndoHistoryV) -> Option<MainToAudio> {
    if h.undos.len() == 0 {
        None
    } else {
        Some(h.undos.last().undo)
    }
}

/// The request a redo hands out: the redo request of the top of the redo stack.
pub open spec fn redo_message(h: UndoHistoryV) -> Option<MainToAudio> {
    if h.redos.len() == 0 {
        None
    } else {
        Some(h.redos.last().redo)
    }
}

/// Both are absent, or both are present and say the same.
pub open spec fn same_message(a: Option<MainToAudio>, b: Option<MainToAudio>) -> bool {
    match (a, b) {
        (Some(x), Some(y)) => msg_eq(x, y),
        (None, None) => true,
        _ => false,
    }
}

impl UndoHistory {
    /// An empty history, not traveling.
    pub fn new() -> (r: Self)
        ensures
            r@.undos.len() == 0,
            r@.redos.len() == 0,
            !r@.traveling_p,
    {
        UndoHistory { undos: Vec::new(), redos: Vec::new(), traveling_p: false }
    }

    /// Records an edit, as [`history_add`] says.
    pub fn add(&mut self, undo: MainToAudio, redo: MainToAudio)
        ensures
            final(self)@ == history_add(old(self)@, undo, redo),
    {
        if self.traveling_p {
            return;
        }
        self.undos.push(UndoHistoryItem { undo, redo });
        self.redos.clear();
    }

    /// Undoes the top edit, as [`history_undo`] says, and hands out its undo request.
    pub fn undo(&mut self) -> (r: Option<MainToAudio>)
        ensures
            final(self)@ == history_undo(old(self)@),
            same_message(r, undo_message(old(self)@)),
    {
        self.traveling_p = true;
        match self.undos.pop() {
            Some(item) => {
                let r = item.undo.clone();
                self.redos.push(item);
                Some(r)
            },
            None => None,
        }
    }

    /// Redoes the top undone edit, as [`history_redo`] says, and hands out its redo
    /// request.
    pub fn redo(&mut self) -> (r: Option<MainToAudio>)
        ensures
            final(self)@ == history_redo(old(self)@),
            same_message(r, redo_message(old(self)@)),
    {
        self.traveling_p = true;
        match self.redos.pop() {
            Some(item) => {
                let r = item.redo.clone();
                self.undos.push(item);
                Some(r)
            },
            None => None,
        }
    }
}

/// Right after an edit is recorded, an undo hands out that edit's undo request and
/// leaves the undo stack as it was before the edit.
pub proof fn lemma_undo_after_add(h: UndoHistoryV, undo: MainToAudio, redo: MainToAudio)
    requires
        !h.traveling_p,
    ensures
        undo_message(history_add(h, undo, redo)) == Some(undo),
        history_undo(history_add(h, undo, redo)).undos == h.undos,
        redo_message(history_undo(history_add(h, undo, redo))) == Some(redo),
{
    assert(history_add(h, undo, redo).undos.drop_last() =~= h.undos);
}

/// A redo right after an undo hands out the undone edit's redo request and puts
/// both stacks back as they were.
pub proof fn lemma_redo_after_undo(h: UndoHistoryV)
    requires
        h.undos.len() > 0,
    ensures
        redo_message(history_undo(h)) == Some(h.undos.last().redo),
        history_redo(history_undo(h)).undos == h.undos,
        history_redo(history_undo(h)).redos == h.redos,
{
    assert(history_redo(history_undo(h)).undos =~= h.undos);
    assert(history_redo(history_undo(h)).redos =~= h.redos);
}

/// An undo right after a redo hands out the redone edit's undo request and puts
/// both stacks back as they were.
pub proof fn lemma_undo_after_redo(h: UndoHistoryV)
    requires
        h.redos.len() > 0,
    ensures
        undo_message(history_redo(h)) == Some(h.redos.last().undo),
        history_undo(history_redo(h)).undos == h.undos,
        history_undo(history_redo(h)).redos == h.redos,
{
    assert(history_undo(history_redo(h)).undos =~= h.undos);
    assert(history_undo(history_redo(h)).redos =~= h.redos);
}

/// Edits made while traveling are not recorded.
pub proof fn lemma_add_while_traveling(h: UndoHistoryV, undo: MainToAudio, redo: MainToAudio)
    requires
        h.traveling_p,
    ensures
        history_add(h, undo, redo) == h,
{
}

/// A recorded edit leaves nothing to redo.
pub proof fn lemma_add_clears_redo(h: UndoHistoryV, undo: MainToAudio, redo: MainToAudio)
    requires
        !h.traveling_p,
    ensures
        redo_message(history_add(h, undo, redo)) is None,
{
}

} // verus!
