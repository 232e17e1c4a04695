use vstd::prelude::*;

verus! {

/// One heap cell of the list: an item plus two navigation links.
///
/// A link is the arena index of a neighbouring node, or `None` where the node
/// has no neighbour on that side. Links are used only for navigation; the
/// arena owns the nodes.
pub struct Node<T> {
    pub(crate) prev: Option<usize>,
    pub(crate) next: Option<usize>,
    pub(crate) item: T,
}

impl<T> Node<T> {
    /// The link to the preceding node.
    pub closed spec fn prev_link(&self) -> Option<usize> {
        self.prev
    }

    /// The link to the following node.
    pub closed spec fn next_link(&self) -> Option<usize> {
        self.next
    }

    /// The item the node holds.
    pub closed spec fn spec_item(&self) -> T {
        self.item
    }

    /// A fresh node holding `item`, with no neighbours yet.
    pub fn new(item: T) -> (n: Node<T>)
        ensures
            n.prev_link() is None,
            n.next_link() is None,
            n.spec_item() == item,
    {
        Node { prev: None, next: None, item }
    }

    /// Point this node's backward link at `link`.
    pub fn set_prev(&mut self, link: Option<usize>)
        ensures
            final(self).prev_link() == link,
            final(self).next_link() == old(self).next_link(),
            final(self).spec_item() == old(self).spec_item(),
    {
        self.prev = link;
    }

    /// Point this node's forward link at `link`.
    pub fn set_next(&mut self, link: Option<usize>)
        ensures
            final(self).prev_link() == old(self).prev_link(),
            final(self).next_link() == link,
            final(self).spec_item() == old(self).spec_item(),
    {
        self.next = link;
    }

    /// Read the backward link.
    pub fn prev(&self) -> (r: Option<usize>)
        ensures
            r == self.prev_link(),
    {
        self.prev
    }

    /// Read the forward link.
    pub fn next(&self) -> (r: Option<usize>)
        ensures
            r == self.next_link(),
    {
        self.next
    }

    /// Discard the node shell and keep the item.
    pub fn into_item(self) -> (r: T)
        ensures
            r == self.spec_item(),
    {
        self.item
    }

    /// Borrow the item.
    pub fn item(&self) -> (r: &T)
        ensures
            *r == self.spec_item(),
    {
        &self.item
    }

    /// Swap the held item for `item` in place and hand the old one back.
    pub fn replace_item(&mut self, item: T) -> (r: T)
        ensures
            r == old(self).spec_item(),
            final(self).spec_item() == item,
            final(self).prev_link() == old(self).prev_link(),
            final(self).next_link() == old(self).next_link(),
    {
        let mut taken = item;
        core::mem::swap(&mut self.item, &mut taken);
        taken
    }

    /// Borrow the item for in-place mutation.
    pub fn item_mut(&mut self) -> (r: &mut T)
        ensures
            *r == old(self).spec_item(),
            final(self).spec_item() == *final(r),
            final(self).prev_link() == old(self).prev_link(),
            final(self).next_link() == old(self).next_link(),
    {
        &mut self.item
    }
}

} // verus!
