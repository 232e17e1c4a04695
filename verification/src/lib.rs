//! A doubly-linked list with two-ended push/pop, double-ended iteration,
//! and a seekable cursor that can peek, insert, remove and replace at any
//! position.
//!
//! Nodes are individually allocated slots of an arena held by the list;
//! `prev`/`next` links are slot indices, never owners. Every operation is
//! verified to keep the length, the `head`/`tail` links and every node's
//! neighbour links consistent with one chain from head to tail.

pub mod cursor;
pub mod error;
pub mod laws;
pub mod list;
pub mod node;

pub use crate::cursor::CursorStart;
pub use crate::cursor::LinkedListCursor;
pub use crate::cursor::LinkedListCursorMut;
pub use crate::error::CursorPositionError;
pub use crate::error::CursorPositionErrorKind;
pub use crate::list::LinkedList;
pub use crate::list::LinkedListIterator;
pub use crate::node::Node;
