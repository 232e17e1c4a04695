use vstd::prelude::*;

use crate::error::CursorPositionError;
use crate::error::CursorPositionErrorKind;
use crate::list::LinkedList;

verus! {

/// Where a fresh cursor first lands.
pub enum CursorStart {
    Head,
    Tail,
}

/// A movable position over a borrowed list, able to seek and peek at the
/// tracked position but never to change the list: many such cursors, and
/// iterators, may read one list side by side.
///
/// The position is either on the item at index `at`, or off the list
/// ("ghost"): that is the state before the head, past the tail, and on an
/// empty list.
pub struct LinkedListCursor<'a, T> {
    list: &'a LinkedList<T>,
    at: Option<usize>,
}

/// A movable position over a list, able to seek and peek like the read-only
/// cursor and also to insert, remove and replace at the tracked position.
///
/// The read-write cursor takes the list over while it works — it is thereby
/// the list's one accessor — and `into_list` hands the list back. Its
/// position is tracked exactly as the read-only cursor's.
pub struct LinkedListCursorMut<T> {
    list: LinkedList<T>,
    at: Option<usize>,
}

impl<T> LinkedList<T> {
    /// Stand a read-only cursor on the borrowed list, at its head or at its
    /// tail; on an empty list the cursor starts off the list.
    pub fn cursor(&self, start: CursorStart) -> (c: LinkedListCursor<T>)
        requires
            self.wf(),
        ensures
            c.wf(),
            c.list_view() == self@,
            self@.len() == 0 ==> c.pos() is None,
            self@.len() > 0 && start is Head ==> c.pos() == Some(0usize),
            self@.len() > 0 && start is Tail ==> (c.pos() matches Some(i) && i + 1 == self@.len()),
    {
        let at: Option<usize> = cursor_start_index(self, &start);
        LinkedListCursor { list: self, at }
    }

    /// Stand a read-write cursor on the list, at its head or at its tail; on
    /// an empty list the cursor starts off the list. The cursor takes the
    /// list over until `into_list`.
    pub fn cursor_mut(self, start: CursorStart) -> (c: LinkedListCursorMut<T>)
        requires
            self.wf(),
        ensures
            c.wf(),
            c.list_view() == self@,
            self@.len() == 0 ==> c.pos() is None,
            self@.len() > 0 && start is Head ==> c.pos() == Some(0usize),
            self@.len() > 0 && start is Tail ==> (c.pos() matches Some(i) && i + 1 == self@.len()),
    {
        let at: Option<usize> = cursor_start_index(&self, &start);
        LinkedListCursorMut { list: self, at }
    }
}

impl<'a, T> LinkedListCursor<'a, T> {
    /// The items of the borrowed list, head first.
    pub closed spec fn list_view(&self) -> Seq<T> {
        self.list@
    }

    /// The tracked position: the current index, or `None` off the list.
    pub closed spec fn pos(&self) -> Option<usize> {
        self.at
    }

    /// The cursor is sound: the list invariant holds, and the position,
    /// when on an item, lies inside the list.
    pub closed spec fn wf(&self) -> bool {
        &&& self.list.wf()
        &&& (self.at matches Some(i) ==> (i as int) < self.list@.len())
    }

    /// How many items the borrowed list holds.
    pub fn list_len(&self) -> (n: usize)
        requires
            self.wf(),
        ensures
            n == self.list_view().len(),
    {
        self.list.len()
    }

    /// Whether the borrowed list is empty.
    pub fn list_is_empty(&self) -> (r: bool)
        requires
            self.wf(),
        ensures
            r == (self.list_view().len() == 0),
    {
        self.list.is_empty()
    }

    /// Whether the cursor currently stands on an item.
    pub fn on_item(&self) -> (r: bool)
        ensures
            r == (self.pos() is Some),
    {
        self.at.is_some()
    }

    /// The current index, or `None` off the list.
    pub fn at(&self) -> (r: Option<usize>)
        ensures
            r == self.pos(),
    {
        self.at
    }

    /// Land on the head. Fails with `IsEmpty` on an empty list, leaving the
    /// cursor off the list.
    pub fn seek_head(&mut self) -> (r: Result<(), CursorPositionError>)
        requires
            old(self).wf(),
        ensures
            final(self).wf(),
            final(self).list_view() == old(self).list_view(),
            old(self).list_view().len() == 0 ==> (r matches Err(e) && e@ is IsEmpty) && final(self).pos() is None,
            old(self).list_view().len() > 0 ==> r is Ok && final(self).pos() == Some(0usize),
    {
        if self.list.is_empty() {
            self.at = None;
            Err(CursorPositionError::new(CursorPositionErrorKind::IsEmpty))
        } else {
            self.at = Some(0);
            Ok(())
        }
    }

    /// Land on the tail. Fails with `IsEmpty` on an empty list, leaving the
    /// cursor off the list.
    pub fn seek_tail(&mut self) -> (r: Result<(), CursorPositionError>)
        requires
            old(self).wf(),
        ensures
            final(self).wf(),
            final(self).list_view() == old(self).list_view(),
            old(self).list_view().len() == 0 ==> (r matches Err(e) && e@ is IsEmpty) && final(self).pos() is None,
            old(self).list_view().len() > 0 ==> r is Ok && (final(self).pos() matches Some(i) && i
                + 1 == old(self).list_view().len()),
    {
        if self.list.is_empty() {
            self.at = None;
            Err(CursorPositionError::new(CursorPositionErrorKind::IsEmpty))
        } else {
            self.at = Some(self.list.len() - 1);
            Ok(())
        }
    }

    /// Walk `to` positions forward. Requires standing on an item, else
    /// fails with `NotOnItem` and moves nothing. Walking past the tail
    /// fails with `AttemptToPositionAfterTail` and leaves the cursor off
    /// the list.
    pub fn seek_next(&mut self, to: usize) -> (r: Result<(), CursorPositionError>)
        requires
            old(self).wf(),
        ensures
            final(self).wf(),
            final(self).list_view() == old(self).list_view(),
            old(self).pos() is None ==> (r matches Err(e) && e@ is NotOnItem) && final(self).pos()
                == old(self).pos(),
            old(self).pos() matches Some(i) ==> i + to < old(self).list_view().len() ==> (
            r is Ok && final(self).pos() == Some((i + to) as usize)),
            old(self).pos() matches Some(i) ==> i + to >= old(self).list_view().len() ==> ((
            r matches Err(e) && e@ is AttemptToPositionAfterTail) && final(self).pos() is None),
    {
        match self.at {
            None => Err(CursorPositionError::new(CursorPositionErrorKind::NotOnItem)),
            Some(i) => {
                // how many forward steps the chain still has from position i
                let room: usize = self.list.len() - 1 - i;
                if to <= room {
                    self.at = Some(i + to);
                    Ok(())
                } else {
                    self.at = None;
                    Err(
                        CursorPositionError::new(
                            CursorPositionErrorKind::AttemptToPositionAfterTail,
                        ),
                    )
                }
            },
        }
    }

    /// Walk `to` positions backward. Requires standing on an item, else
    /// fails with `NotOnItem` and moves nothing. Walking off the head
    /// fails with `AttemptToPositionBeforeHead` and leaves the cursor off
    /// the list.
    pub fn seek_prev(&mut self, to: usize) -> (r: Result<(), CursorPositionError>)
        requires
            old(self).wf(),
        ensures
            final(self).wf(),
            final(self).list_view() == old(self).list_view(),
            old(self).pos() is None ==> (r matches Err(e) && e@ is NotOnItem) && final(self).pos()
                == old(self).pos(),
            old(self).pos() matches Some(i) ==> to <= i ==> (r is Ok && final(self).pos()
                == Some((i - to) as usize)),
            old(self).pos() matches Some(i) ==> to > i ==> ((r matches Err(e)
                && e@ is AttemptToPositionBeforeHead) && final(self).pos() is None),
    {
        match self.at {
            None => Err(CursorPositionError::new(CursorPositionErrorKind::NotOnItem)),
            Some(i) => {
                if to <= i {
                    self.at = Some(i - to);
                    Ok(())
                } else {
                    self.at = None;
                    Err(
                        CursorPositionError::new(
                            CursorPositionErrorKind::AttemptToPositionBeforeHead,
                        ),
                    )
                }
            },
        }
    }

    /// One step forward: `seek_next(1)`.
    pub fn next(&mut self) -> (r: Result<(), CursorPositionError>)
        requires
            old(self).wf(),
        ensures
            final(self).wf(),
            final(self).list_view() == old(self).list_view(),
            old(self).pos() is None ==> (r matches Err(e) && e@ is NotOnItem) && final(self).pos()
                == old(self).pos(),
            old(self).pos() matches Some(i) ==> i + 1 < old(self).list_view().len() ==> (
            r is Ok && final(self).pos() == Some((i + 1) as usize)),
            old(self).pos() matches Some(i) ==> i + 1 >= old(self).list_view().len() ==> ((
            r matches Err(e) && e@ is AttemptToPositionAfterTail) && final(self).pos() is None),
    {
        self.seek_next(1)
    }

    /// One step backward: `seek_prev(1)`.
    pub fn prev(&mut self) -> (r: Result<(), CursorPositionError>)
        requires
            old(self).wf(),
        ensures
            final(self).wf(),
            final(self).list_view() == old(self).list_view(),
            old(self).pos() is None ==> (r matches Err(e) && e@ is NotOnItem) && final(self).pos()
                == old(self).pos(),
            old(self).pos() matches Some(i) ==> i >= 1 ==> (r is Ok && final(self).pos()
                == Some((i - 1) as usize)),
            old(self).pos() matches Some(i) ==> i == 0 ==> ((r matches Err(e)
                && e@ is AttemptToPositionBeforeHead) && final(self).pos() is None),
    {
        self.seek_prev(1)
    }

    /// Land on absolute index `to`. Fails with `ExceededLength`, moving
    /// nothing, when `to` lies at or past the length; otherwise lands on
    /// `to`, seeking first to the head when the cursor was off the list.
    pub fn seek(&mut self, to: usize) -> (r: Result<(), CursorPositionError>)
        requires
            old(self).wf(),
        ensures
            final(self).wf(),
            final(self).list_view() == old(self).list_view(),
            to >= old(self).list_view().len() ==> (r matches Err(e) && e@ is ExceededLength)
                && final(self).pos() == old(self).pos(),
            to < old(self).list_view().len() ==> r is Ok && final(self).pos() == Some(to),
    {
        if to >= self.list.len() {
            Err(CursorPositionError::new(CursorPositionErrorKind::ExceededLength))
        } else {
            if self.at.is_none() {
                let _ = self.seek_head();
            }
            match self.at {
                Some(at) => {
                    if at == to {
                        Ok(())
                    } else if at < to {
                        self.seek_next(to - at)
                    } else {
                        self.seek_prev(at - to)
                    }
                },
                None => {
                    // a seek to the head of a non-empty list always lands
                    proof {
                        assert(false);
                    }
                    Err(CursorPositionError::new(CursorPositionErrorKind::IsEmpty))
                },
            }
        }
    }

    /// Borrow the current item, or nothing while off the list.
    pub fn peek(&self) -> (r: Option<&'a T>)
        requires
            self.wf(),
        ensures
            r is Some <==> self.pos() is Some,
            self.pos() matches Some(i) ==> (r matches Some(x) && *x == self.list_view()[i as int]),
    {
        match self.at {
            None => None,
            Some(i) => Some(self.list.get(i)),
        }
    }

    /// Borrow the item before the current one, or nothing when there is
    /// none on that side (including whenever the cursor is off the list).
    pub fn peek_prev(&self) -> (r: Option<&'a T>)
        requires
            self.wf(),
        ensures
            r is Some <==> (self.pos() matches Some(i) && i > 0),
            self.pos() matches Some(i) ==> i > 0 ==> (r matches Some(x) && *x
                == self.list_view()[i - 1]),
    {
        match self.at {
            None => None,
            Some(i) => {
                if i > 0 {
                    Some(self.list.get(i - 1))
                } else {
                    None
                }
            },
        }
    }

    /// Borrow the item after the current one, or nothing when there is
    /// none on that side (including whenever the cursor is off the list).
    pub fn peek_next(&self) -> (r: Option<&'a T>)
        requires
            self.wf(),
        ensures
            r is Some <==> (self.pos() matches Some(i) && i + 1 < self.list_view().len()),
            self.pos() matches Some(i) ==> i + 1 < self.list_view().len() ==> (r matches Some(
                x,
            ) && *x == self.list_view()[i + 1]),
    {
        match self.at {
            None => None,
            Some(i) => {
                let n: usize = self.list.len();
                if i < n - 1 {
                    Some(self.list.get(i + 1))
                } else {
                    None
                }
            },
        }
    }
}

/// The index a fresh cursor starts at: the requested end of the list, or
/// none on an empty list.
fn cursor_start_index<T>(list: &LinkedList<T>, start: &CursorStart) -> (at: Option<usize>)
    requires
        list.wf(),
    ensures
        list@.len() == 0 ==> at is None,
        list@.len() > 0 && start is Head ==> at == Some(0usize),
        list@.len() > 0 && start is Tail ==> (at matches Some(i) && i + 1 == list@.len()),
        at matches Some(i) ==> (i as int) < list@.len(),
{
    if list.is_empty() {
        None
    } else {
        match start {
            CursorStart::Head => Some(0),
            CursorStart::Tail => Some(list.len() - 1),
        }
    }
}

impl<T> LinkedListCursorMut<T> {
    /// The items of the taken-over list, head first.
    pub closed spec fn list_view(&self) -> Seq<T> {
        self.list@
    }

    /// The tracked position: the current index, or `None` off the list.
    pub closed spec fn pos(&self) -> Option<usize> {
        self.at
    }

    /// The cursor is sound: the list invariant holds, and the position,
    /// when on an item, lies inside the list.
    pub closed spec fn wf(&self) -> bool {
        &&& self.list.wf()
        &&& (self.at matches Some(i) ==> (i as int) < self.list@.len())
    }

    /// Give the list back.
    pub fn into_list(self) -> (l: LinkedList<T>)
        requires
            self.wf(),
        ensures
            l.wf(),
            l@ == self.list_view(),
    {
        self.list
    }

    /// How many items the underlying list holds.
    pub fn list_len(&self) -> (n: usize)
        requires
            self.wf(),
        ensures
            n == self.list_view().len(),
    {
        self.list.len()
    }

    /// Whether the underlying list is empty.
    pub fn list_is_empty(&self) -> (r: bool)
        requires
            self.wf(),
        ensures
            r == (self.list_view().len() == 0),
    {
        self.list.is_empty()
    }

    /// Whether the cursor currently stands on an item.
    pub fn on_item(&self) -> (r: bool)
        ensures
            r == (self.pos() is Some),
    {
        self.at.is_some()
    }

    /// The current index, or `None` off the list.
    pub fn at(&self) -> (r: Option<usize>)
        ensures
            r == self.pos(),
    {
        self.at
    }

    /// Land on the head. Fails with `IsEmpty` on an empty list, leaving the
    /// cursor off the list.
    pub fn seek_head(&mut self) -> (r: Result<(), CursorPositionError>)
        requires
            old(self).wf(),
        ensures
            final(self).wf(),
            final(self).list_view() == old(self).list_view(),
            old(self).list_view().len() == 0 ==> (r matches Err(e) && e@ is IsEmpty) && final(self).pos() is None,
            old(self).list_view().len() > 0 ==> r is Ok && final(self).pos() == Some(0usize),
    {
        if self.list.is_empty() {
            self.at = None;
            Err(CursorPositionError::new(CursorPositionErrorKind::IsEmpty))
        } else {
            self.at = Some(0);
            Ok(())
        }
    }

    /// Land on the tail. Fails with `IsEmpty` on an empty list, leaving the
    /// cursor off the list.
    pub fn seek_tail(&mut self) -> (r: Result<(), CursorPositionError>)
        requires
            old(self).wf(),
        ensures
            final(self).wf(),
            final(self).list_view() == old(self).list_view(),
            old(self).list_view().len() == 0 ==> (r matches Err(e) && e@ is IsEmpty) && final(self).pos() is None,
            old(self).list_view().len() > 0 ==> r is Ok && (final(self).pos() matches Some(i) && i
                + 1 == old(self).list_view().len()),
    {
        if self.list.is_empty() {
            self.at = None;
            Err(CursorPositionError::new(CursorPositionErrorKind::IsEmpty))
        } else {
            self.at = Some(self.list.len() - 1);
            Ok(())
        }
    }

    /// Walk `to` positions forward. Requires standing on an item, else
    /// fails with `NotOnItem` and moves nothing. Walking past the tail
    /// fails with `AttemptToPositionAfterTail` and leaves the cursor off
    /// the list.
    pub fn seek_next(&mut self, to: usize) -> (r: Result<(), CursorPositionError>)
        requires
            old(self).wf(),
        ensures
            final(self).wf(),
            final(self).list_view() == old(self).list_view(),
            old(self).pos() is None ==> (r matches Err(e) && e@ is NotOnItem) && final(self).pos()
                == old(self).pos(),
            old(self).pos() matches Some(i) ==> i + to < old(self).list_view().len() ==> (
            r is Ok && final(self).pos() == Some((i + to) as usize)),
            old(self).pos() matches Some(i) ==> i + to >= old(self).list_view().len() ==> ((
            r matches Err(e) && e@ is AttemptToPositionAfterTail) && final(self).pos() is None),
    {
        match self.at {
            None => Err(CursorPositionError::new(CursorPositionErrorKind::NotOnItem)),
            Some(i) => {
                // how many forward steps the chain still has from position i
                let room: usize = self.list.len() - 1 - i;
                if to <= room {
                    self.at = Some(i + to);
                    Ok(())
                } else {
                    self.at = None;
                    Err(
                        CursorPositionError::new(
                            CursorPositionErrorKind::AttemptToPositionAfterTail,
                        ),
                    )
                }
            },
        }
    }

    /// Walk `to` positions backward. Requires standing on an item, else
    /// fails with `NotOnItem` and moves nothing. Walking off the head
    /// fails with `AttemptToPositionBeforeHead` and leaves the cursor off
    /// the list.
    pub fn seek_prev(&mut self, to: usize) -> (r: Result<(), CursorPositionError>)
        requires
            old(self).wf(),
        ensures
            final(self).wf(),
            final(self).list_view() == old(self).list_view(),
            old(self).pos() is None ==> (r matches Err(e) && e@ is NotOnItem) && final(self).pos()
                == old(self).pos(),
            old(self).pos() matches Some(i) ==> to <= i ==> (r is Ok && final(self).pos()
                == Some((i - to) as usize)),
            old(self).pos() matches Some(i) ==> to > i ==> ((r matches Err(e)
                && e@ is AttemptToPositionBeforeHead) && final(self).pos() is None),
    {
        match self.at {
            None => Err(CursorPositionError::new(CursorPositionErrorKind::NotOnItem)),
            Some(i) => {
                if to <= i {
                    self.at = Some(i - to);
                    Ok(())
                } else {
                    self.at = None;
                    Err(
                        CursorPositionError::new(
                            CursorPositionErrorKind::AttemptToPositionBeforeHead,
                        ),
                    )
                }
            },
        }
    }

    /// One step forward: `seek_next(1)`.
    pub fn next(&mut self) -> (r: Result<(), CursorPositionError>)
        requires
            old(self).wf(),
        ensures
            final(self).wf(),
            final(self).list_view() == old(self).list_view(),
            old(self).pos() is None ==> (r matches Err(e) && e@ is NotOnItem) && final(self).pos()
                == old(self).pos(),
            old(self).pos() matches Some(i) ==> i + 1 < old(self).list_view().len() ==> (
            r is Ok && final(self).pos() == Some((i + 1) as usize)),
            old(self).pos() matches Some(i) ==> i + 1 >= old(self).list_view().len() ==> ((
            r matches Err(e) && e@ is AttemptToPositionAfterTail) && final(self).pos() is None),
    {
        self.seek_next(1)
    }

    /// One step backward: `seek_prev(1)`.
    pub fn prev(&mut self) -> (r: Result<(), CursorPositionError>)
        requires
            old(self).wf(),
        ensures
            final(self).wf(),
            final(self).list_view() == old(self).list_view(),
            old(self).pos() is None ==> (r matches Err(e) && e@ is NotOnItem) && final(self).pos()
                == old(self).pos(),
            old(self).pos() matches Some(i) ==> i >= 1 ==> (r is Ok && final(self).pos()
                == Some((i - 1) as usize)),
            old(self).pos() matches Some(i) ==> i == 0 ==> ((r matches Err(e)
                && e@ is AttemptToPositionBeforeHead) && final(self).pos() is None),
    {
        self.seek_prev(1)
    }

    /// Land on absolute index `to`. Fails with `ExceededLength`, moving
    /// nothing, when `to` lies at or past the length; otherwise lands on
    /// `to`, seeking first to the head when the cursor was off the list.
    pub fn seek(&mut self, to: usize) -> (r: Result<(), CursorPositionError>)
        requires
            old(self).wf(),
        ensures
            final(self).wf(),
            final(self).list_view() == old(self).list_view(),
            to >= old(self).list_view().len() ==> (r matches Err(e) && e@ is ExceededLength)
                && final(self).pos() == old(self).pos(),
            to < old(self).list_view().len() ==> r is Ok && final(self).pos() == Some(to),
    {
        if to >= self.list.len() {
            Err(CursorPositionError::new(CursorPositionErrorKind::ExceededLength))
        } else {
            if self.at.is_none() {
                let _ = self.seek_head();
            }
            match self.at {
                Some(at) => {
                    if at == to {
                        Ok(())
                    } else if at < to {
                        self.seek_next(to - at)
                    } else {
                        self.seek_prev(at - to)
                    }
                },
                None => {
                    // a seek to the head of a non-empty list always lands
                    proof {
                        assert(false);
                    }
                    Err(CursorPositionError::new(CursorPositionErrorKind::IsEmpty))
                },
            }
        }
    }

    /// Borrow the current item, or nothing while off the list.
    pub fn peek(&self) -> (r: Option<&T>)
        requires
            self.wf(),
        ensures
            r is Some <==> self.pos() is Some,
            self.pos() matches Some(i) ==> (r matches Some(x) && *x == self.list_view()[i as int]),
    {
        match self.at {
            None => None,
            Some(i) => Some(self.list.get(i)),
        }
    }

    /// Borrow the item before the current one, or nothing when there is
    /// none on that side (including whenever the cursor is off the list).
    pub fn peek_prev(&self) -> (r: Option<&T>)
        requires
            self.wf(),
        ensures
            r is Some <==> (self.pos() matches Some(i) && i > 0),
            self.pos() matches Some(i) ==> i > 0 ==> (r matches Some(x) && *x
                == self.list_view()[i - 1]),
    {
        match self.at {
            None => None,
            Some(i) => {
                if i > 0 {
                    Some(self.list.get(i - 1))
                } else {
                    None
                }
            },
        }
    }

    /// Borrow the item after the current one, or nothing when there is
    /// none on that side (including whenever the cursor is off the list).
    pub fn peek_next(&self) -> (r: Option<&T>)
        requires
            self.wf(),
        ensures
            r is Some <==> (self.pos() matches Some(i) && i + 1 < self.list_view().len()),
            self.pos() matches Some(i) ==> i + 1 < self.list_view().len() ==> (r matches Some(
                x,
            ) && *x == self.list_view()[i + 1]),
    {
        match self.at {
            None => None,
            Some(i) => {
                let n: usize = self.list.len();
                if i < n - 1 {
                    Some(self.list.get(i + 1))
                } else {
                    None
                }
            },
        }
    }

    /// Push at the head of the list. A tracked index moves up by one, since
    /// a new node now precedes it; an off-list cursor stays off the list.
    pub fn insert_head(&mut self, item: T)
        requires
            old(self).wf(),
            old(self).list_view().len() < usize::MAX,
        ensures
            final(self).wf(),
            final(self).list_view() == seq![item] + old(self).list_view(),
            old(self).pos() is None ==> final(self).pos() is None,
            old(self).pos() matches Some(i) ==> final(self).pos() == Some((i + 1) as usize),
    {
        self.list.push_head(item);
        match self.at {
            Some(i) => {
                self.at = Some(i + 1);
            },
            None => {},
        }
    }

    /// Push at the tail of the list; no tracked index moves.
    pub fn insert_tail(&mut self, item: T)
        requires
            old(self).wf(),
            old(self).list_view().len() < usize::MAX,
        ensures
            final(self).wf(),
            final(self).list_view() == old(self).list_view().push(item),
            final(self).pos() == old(self).pos(),
    {
        self.list.push_tail(item);
    }

    /// Splice `item` in immediately before the current item; the cursor
    /// keeps naming the same item, whose index moved up by one. Fails with
    /// `NotOnItem`, changing nothing, while off the list.
    pub fn insert_before(&mut self, item: T) -> (r: Result<(), CursorPositionError>)
        requires
            old(self).wf(),
            old(self).list_view().len() < usize::MAX,
        ensures
            final(self).wf(),
            old(self).pos() is None ==> (r matches Err(e) && e@ is NotOnItem) && final(self).list_view() == old(self).list_view() && final(self).pos() is None,
            old(self).pos() matches Some(i) ==> r is Ok && final(self).list_view() == old(self).list_view().insert(i as int, item) && final(self).pos() == Some((i + 1) as usize),
    {
        match self.at {
            None => Err(CursorPositionError::new(CursorPositionErrorKind::NotOnItem)),
            Some(i) => {
                self.list.insert_at(i, item);
                self.at = Some(i + 1);
                Ok(())
            },
        }
    }

    /// Splice `item` in immediately after the current item; the cursor
    /// keeps naming the same item at the same index. Fails with
    /// `NotOnItem`, changing nothing, while off the list.
    pub fn insert_after(&mut self, item: T) -> (r: Result<(), CursorPositionError>)
        requires
            old(self).wf(),
            old(self).list_view().len() < usize::MAX,
        ensures
            final(self).wf(),
            old(self).pos() is None ==> (r matches Err(e) && e@ is NotOnItem) && final(self).list_view() == old(self).list_view() && final(self).pos() is None,
            old(self).pos() matches Some(i) ==> r is Ok && final(self).list_view() == old(self).list_view().insert(i + 1, item) && final(self).pos() == Some(i),
    {
        match self.at {
            None => Err(CursorPositionError::new(CursorPositionErrorKind::NotOnItem)),
            Some(i) => {
                self.list.insert_at(i + 1, item);
                Ok(())
            },
        }
    }

    /// Detach the current item and hand it back. The cursor lands on the
    /// following item at the same index; on the new tail, one index down,
    /// when the removed item was the tail; off the list when the list is
    /// now empty. Fails with `NotOnItem`, changing nothing, while off the
    /// list.
    pub fn remove(&mut self) -> (r: Result<T, CursorPositionError>)
        requires
            old(self).wf(),
        ensures
            final(self).wf(),
            old(self).pos() is None ==> (r matches Err(e) && e@ is NotOnItem) && final(self).list_view() == old(self).list_view() && final(self).pos() is None,
            old(self).pos() matches Some(i) ==> {
                &&& (r matches Ok(item) && item == old(self).list_view()[i as int])
                &&& final(self).list_view() == old(self).list_view().remove(i as int)
                &&& final(self).pos() == (if old(self).list_view().len() == 1 {
                    Option::<usize>::None
                } else if i + 1 == old(self).list_view().len() {
                    Some((i - 1) as usize)
                } else {
                    Some(i)
                })
            },
    {
        match self.at {
            None => Err(CursorPositionError::new(CursorPositionErrorKind::NotOnItem)),
            Some(i) => {
                let item = self.list.remove_at(i);
                let new_len: usize = self.list.len();
                self.at = if new_len == 0 {
                    None
                } else if i == new_len {
                    Some(i - 1)
                } else {
                    Some(i)
                };
                Ok(item)
            },
        }
    }

    /// Borrow the current item for in-place mutation, or nothing while off
    /// the list. No links move, whatever the caller writes through the
    /// borrow.
    pub fn peek_mut(&mut self) -> (r: Option<&mut T>)
        requires
            old(self).wf(),
        ensures
            final(self).wf(),
            final(self).pos() == old(self).pos(),
            old(self).pos() is None ==> r is None && final(self).list_view() == old(
                self,
            ).list_view(),
            old(self).pos() matches Some(i) ==> (r matches Some(x) && *x == old(self).list_view()[i
                as int] && final(self).list_view() == old(self).list_view().update(
                i as int,
                *final(x),
            )),
    {
        match self.at {
            None => None,
            Some(i) => Some(self.list.get_mut(i)),
        }
    }

    /// Borrow the item before the current one for in-place mutation, or
    /// nothing when there is none on that side.
    pub fn peek_prev_mut(&mut self) -> (r: Option<&mut T>)
        requires
            old(self).wf(),
        ensures
            final(self).wf(),
            final(self).pos() == old(self).pos(),
            r is Some <==> (old(self).pos() matches Some(i) && i > 0),
            r is None ==> final(self).list_view() == old(self).list_view(),
            old(self).pos() matches Some(i) ==> i > 0 ==> (r matches Some(x) && *x == old(
                self,
            ).list_view()[i - 1] && final(self).list_view() == old(self).list_view().update(
                i - 1,
                *final(x),
            )),
    {
        match self.at {
            None => None,
            Some(i) => {
                if i > 0 {
                    Some(self.list.get_mut(i - 1))
                } else {
                    None
                }
            },
        }
    }

    /// Borrow the item after the current one for in-place mutation, or
    /// nothing when there is none on that side.
    pub fn peek_next_mut(&mut self) -> (r: Option<&mut T>)
        requires
            old(self).wf(),
        ensures
            final(self).wf(),
            final(self).pos() == old(self).pos(),
            r is Some <==> (old(self).pos() matches Some(i) && i + 1 < old(
                self,
            ).list_view().len()),
            r is None ==> final(self).list_view() == old(self).list_view(),
            old(self).pos() matches Some(i) ==> i + 1 < old(self).list_view().len() ==> (
            r matches Some(x) && *x == old(self).list_view()[i + 1] && final(self).list_view()
                == old(self).list_view().update(i + 1, *final(x))),
    {
        match self.at {
            None => None,
            Some(i) => {
                let n: usize = self.list.len();
                if i < n - 1 {
                    Some(self.list.get_mut(i + 1))
                } else {
                    None
                }
            },
        }
    }

    /// Swap the current item for `item` in place — no links move — and
    /// hand the old item back. Fails with `NotOnItem`, changing nothing,
    /// while off the list.
    pub fn replace(&mut self, item: T) -> (r: Result<T, CursorPositionError>)
        requires
            old(self).wf(),
        ensures
            final(self).wf(),
            final(self).pos() == old(self).pos(),
            old(self).pos() is None ==> (r matches Err(e) && e@ is NotOnItem) && final(self).list_view() == old(self).list_view(),
            old(self).pos() matches Some(i) ==> (r matches Ok(prev) && prev == old(self).list_view()[i as int]) && final(self).list_view() == old(self).list_view().update(
                i as int,
                item,
            ),
    {
        match self.at {
            None => Err(CursorPositionError::new(CursorPositionErrorKind::NotOnItem)),
            Some(i) => {
                let prev = self.list.replace_at(i, item);
                Ok(prev)
            },
        }
    }
}

} // verus!
