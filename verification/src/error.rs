use vstd::prelude::*;

verus! {

/// Why a cursor seek or mutation failed.
#[derive(Debug, Clone, Copy, PartialEq, Eq, Structural)]
pub enum CursorPositionErrorKind {
    /// `seek` named a position at or past the length of the list.
    ExceededLength,
    /// `seek_head` or `seek_tail` was called on an empty list.
    IsEmpty,
    /// A relative seek or a mutation needed a current item, but the cursor
    /// was off the list.
    NotOnItem,
    /// A backward seek walked off the head; the cursor is now off the list.
    AttemptToPositionBeforeHead,
    /// A forward seek walked off the tail; the cursor is now off the list.
    AttemptToPositionAfterTail,
}

/// The error a cursor operation hands back, carrying the kind of
/// positioning failure.
#[derive(Debug, Clone, Copy, PartialEq, Eq, Structural)]
pub struct CursorPositionError {
    kind: CursorPositionErrorKind,
}

impl View for CursorPositionError {
    type V = CursorPositionErrorKind;

    /// The error abstracts to its kind.
    closed spec fn view(&self) -> CursorPositionErrorKind {
        self.kind
    }
}

impl CursorPositionError {
    /// An error of the given kind.
    pub fn new(kind: CursorPositionErrorKind) -> (e: CursorPositionError)
        ensures
            e@ == kind,
    {
        CursorPositionError { kind }
    }

    /// Which kind of positioning failure this is.
    pub fn kind(&self) -> (k: &CursorPositionErrorKind)
        ensures
            *k == self@,
    {
        &self.kind
    }
}

} // verus!
