use vstd::prelude::*;

use crate::node::Node;

verus! {

/// A doubly-linked list: a chain of individually allocated nodes, navigated
/// through `prev`/`next` links, with the two ends reachable through `head`
/// and `tail`.
///
/// The nodes live in the slot arena `nodes`; a link is a slot index. Slots
/// listed in `free` are empty and wait for reuse. The ghost `order` records
/// the arena index of every chained node, head first: it is the witness that
/// the links thread the occupied slots into one connected chain.
pub struct LinkedList<T> {
    pub(crate) nodes: Vec<Option<Node<T>>>,
    pub(crate) free: Vec<usize>,
    pub(crate) head: Option<usize>,
    pub(crate) tail: Option<usize>,
    pub(crate) len: usize,
    pub(crate) order: Ghost<Seq<usize>>,
}

/// The free list is sound: every recorded slot lies in the arena, is empty,
/// and is recorded once.
pub(crate) open spec fn slots_wf<T>(nodes: Seq<Option<Node<T>>>, free: Seq<usize>) -> bool {
    &&& forall|k: int|
        0 <= k < free.len() ==> (#[trigger] free[k]) < nodes.len() && nodes[free[k] as int] is None
    &&& forall|k1: int, k2: int| 0 <= k1 < k2 < free.len() ==> free[k1] != free[k2]
}

impl<T> LinkedList<T> {
    /// The link that reaches the node at list position `i`: its arena index,
    /// or `None` for a position outside the list.
    pub(crate) closed spec fn link_at(&self, i: int) -> Option<usize> {
        if 0 <= i < self.order@.len() {
            Some(self.order@[i])
        } else {
            None
        }
    }

    /// The node standing at list position `i`.
    pub(crate) closed spec fn node_at(&self, i: int) -> Node<T>
        recommends
            0 <= i < self.order@.len(),
    {
        self.nodes@[self.order@[i] as int]->Some_0
    }

    /// The ghost chain of arena indices, head first.
    pub(crate) closed spec fn chain(&self) -> Seq<usize> {
        self.order@
    }

    /// The list's head link.
    pub closed spec fn head_link(&self) -> Option<usize> {
        self.head
    }

    /// The list's tail link.
    pub closed spec fn tail_link(&self) -> Option<usize> {
        self.tail
    }

    /// Every chained slot is occupied, and each node's links point at its
    /// neighbours on the chain: `prev` at the position before, `next` at the
    /// position after, `None` at either end.
    pub(crate) closed spec fn chain_linked(&self) -> bool {
        forall|i: int|
            0 <= i < self.order@.len() ==> {
                &&& (#[trigger] self.order@[i]) < self.nodes@.len()
                &&& self.nodes@[self.order@[i] as int] is Some
                &&& self.node_at(i).prev == self.link_at(i - 1)
                &&& self.node_at(i).next == self.link_at(i + 1)
            }
    }

    /// No arena slot appears twice on the chain: each node has one owner.
    pub(crate) closed spec fn chain_distinct(&self) -> bool {
        forall|i: int, j: int|
            0 <= i < j < self.order@.len() ==> self.order@[i] != self.order@[j]
    }

    /// The structural invariant, true between public operations: the count
    /// matches the chain, `head` and `tail` reach its two ends, the links
    /// mirror each other along it, and the free slots are sound.
    pub closed spec fn wf(&self) -> bool {
        &&& self.len == self.order@.len()
        &&& self.head == self.link_at(0)
        &&& self.tail == self.link_at(self.order@.len() - 1)
        &&& self.chain_linked()
        &&& self.chain_distinct()
        &&& slots_wf(self.nodes@, self.free@)
    }
}

impl<T> View for LinkedList<T> {
    type V = Seq<T>;

    /// The list abstracts to the sequence of its items, head first.
    closed spec fn view(&self) -> Seq<T> {
        Seq::new(self.order@.len(), |i: int| self.node_at(i).item)
    }
}

/// Borrow the arena slot at index `i` for mutation.
fn slot_mut<T>(nodes: &mut Vec<Option<Node<T>>>, i: usize) -> (r: &mut Option<Node<T>>)
    requires
        i < old(nodes)@.len(),
    ensures
        *r == old(nodes)@[i as int],
        final(nodes)@ == old(nodes)@.update(i as int, *final(r)),
{
    &mut nodes[i]
}

/// Borrow the node in the occupied arena slot at index `i`.
fn slot_ref<T>(nodes: &Vec<Option<Node<T>>>, i: usize) -> (r: &Node<T>)
    requires
        i < nodes@.len(),
        nodes@[i as int] is Some,
    ensures
        *r == nodes@[i as int]->Some_0,
{
    let slot = &nodes[i];
    slot.as_ref().unwrap()
}

/// Point the backward link of the node in slot `i` at `link`.
fn set_prev_link<T>(nodes: &mut Vec<Option<Node<T>>>, i: usize, link: Option<usize>)
    requires
        i < old(nodes)@.len(),
        old(nodes)@[i as int] is Some,
    ensures
        final(nodes)@.len() == old(nodes)@.len(),
        forall|j: int| 0 <= j < old(nodes)@.len() && j != i ==> final(nodes)@[j] == old(nodes)@[j],
        final(nodes)@[i as int] is Some,
        final(nodes)@[i as int]->Some_0.prev == link,
        final(nodes)@[i as int]->Some_0.next == old(nodes)@[i as int]->Some_0.next,
        final(nodes)@[i as int]->Some_0.item == old(nodes)@[i as int]->Some_0.item,
{
    let slot = slot_mut(nodes, i);
    match slot {
        Some(node) => {
            node.prev = link;
        },
        None => {},
    }
}

/// Point the forward link of the node in slot `i` at `link`.
fn set_next_link<T>(nodes: &mut Vec<Option<Node<T>>>, i: usize, link: Option<usize>)
    requires
        i < old(nodes)@.len(),
        old(nodes)@[i as int] is Some,
    ensures
        final(nodes)@.len() == old(nodes)@.len(),
        forall|j: int| 0 <= j < old(nodes)@.len() && j != i ==> final(nodes)@[j] == old(nodes)@[j],
        final(nodes)@[i as int] is Some,
        final(nodes)@[i as int]->Some_0.prev == old(nodes)@[i as int]->Some_0.prev,
        final(nodes)@[i as int]->Some_0.next == link,
        final(nodes)@[i as int]->Some_0.item == old(nodes)@[i as int]->Some_0.item,
{
    let slot = slot_mut(nodes, i);
    match slot {
        Some(node) => {
            node.next = link;
        },
        None => {},
    }
}

/// Put `node` into an empty slot — a reused free slot if one is recorded,
/// else a fresh slot pushed onto the arena — and hand back its index.
fn alloc_slot<T>(nodes: &mut Vec<Option<Node<T>>>, free: &mut Vec<usize>, node: Node<T>) -> (idx:
    usize)
    requires
        slots_wf(old(nodes)@, old(free)@),
    ensures
        slots_wf(final(nodes)@, final(free)@),
        idx < final(nodes)@.len(),
        old(nodes)@.len() <= final(nodes)@.len(),
        final(nodes)@[idx as int] == Some(node),
        forall|j: int| 0 <= j < old(nodes)@.len() && j != idx ==> final(nodes)@[j] == old(nodes)@[j],
        idx < old(nodes)@.len() ==> old(nodes)@[idx as int] is None,
{
    match free.pop() {
        Some(idx) => {
            let slot = slot_mut(nodes, idx);
            *slot = Some(node);
            proof {
                assert forall|k: int| 0 <= k < free@.len() implies (#[trigger] free@[k])
                    < nodes@.len() && nodes@[free@[k] as int] is None by {
                    assert(free@[k] == old(free)@[k]);
                    assert(old(free)@[k] != idx);
                }
            }
            idx
        },
        None => {
            let idx: usize = nodes.len();
            nodes.push(Some(node));
            idx
        },
    }
}

/// Empty the occupied slot at index `i`, record it as free, and hand back
/// the node it held.
fn take_slot<T>(nodes: &mut Vec<Option<Node<T>>>, free: &mut Vec<usize>, i: usize) -> (node: Node<
    T,
>)
    requires
        slots_wf(old(nodes)@, old(free)@),
        i < old(nodes)@.len(),
        old(nodes)@[i as int] is Some,
    ensures
        slots_wf(final(nodes)@, final(free)@),
        node == old(nodes)@[i as int]->Some_0,
        final(nodes)@.len() == old(nodes)@.len(),
        forall|j: int| 0 <= j < old(nodes)@.len() && j != i ==> final(nodes)@[j] == old(nodes)@[j],
        final(nodes)@[i as int] is None,
{
    let slot = slot_mut(nodes, i);
    let taken = slot.take();
    free.push(i);
    proof {
        assert forall|k1: int, k2: int| 0 <= k1 < k2 < free@.len() implies free@[k1] != free@[k2]
            by {
            if k2 == free@.len() - 1 {
                assert(old(nodes)@[old(free)@[k1] as int] is None);
            }
        }
    }
    taken.unwrap()
}

impl<T> LinkedList<T> {
    /// An empty list: no nodes, both end links absent.
    pub fn new() -> (l: LinkedList<T>)
        ensures
            l.wf(),
            l@ == Seq::<T>::empty(),
    {
        let l = LinkedList {
            nodes: Vec::new(),
            free: Vec::new(),
            head: None,
            tail: None,
            len: 0,
            order: Ghost(Seq::empty()),
        };
        proof {
            assert(l@ =~= Seq::<T>::empty());
        }
        l
    }

    /// How many items the list holds.
    pub fn len(&self) -> (n: usize)
        requires
            self.wf(),
        ensures
            n == self@.len(),
    {
        self.len
    }

    /// Whether the list holds no items.
    pub fn is_empty(&self) -> (r: bool)
        requires
            self.wf(),
        ensures
            r == (self@.len() == 0),
    {
        self.len == 0
    }
}

impl<T> LinkedList<T> {
    /// The arena index of the node at list position `k`, reached through the
    /// tail link for the last position and otherwise by walking the forward
    /// links from the head.
    fn index_of(&self, k: usize) -> (idx: usize)
        requires
            self.wf(),
            k < self@.len(),
        ensures
            idx == self.chain()[k as int],
    {
        if k + 1 == self.len {
            return self.tail.unwrap();
        }
        let mut cur: usize = self.head.unwrap();
        let mut step: usize = 0;
        while step < k
            invariant
                self.wf(),
                k < self@.len(),
                step <= k,
                cur == self.chain()[step as int],
            decreases k - step,
        {
            proof {
                assert(self.order@[step as int] < self.nodes@.len());
                assert(self.node_at(step as int).next == self.link_at(step as int + 1));
            }
            let node = slot_ref(&self.nodes, cur);
            cur = node.next.unwrap();
            step = step + 1;
        }
        cur
    }

    /// Splice `item` in so that it stands at list position `k`; the items
    /// from position `k` on move up by one.
    pub fn insert_at(&mut self, k: usize, item: T)
        requires
            old(self).wf(),
            k <= old(self)@.len(),
            old(self)@.len() < usize::MAX,
        ensures
            final(self).wf(),
            final(self)@ == old(self)@.insert(k as int, item),
    {
        let ghost ord0 = self.order@;
        // the future neighbours of the new node: the nodes now standing at
        // positions k - 1 and k
        let (prev_idx, next_idx): (Option<usize>, Option<usize>) = if k == self.len {
            (self.tail, None)
        } else {
            let ni = self.index_of(k);
            proof {
                assert(self.order@[k as int] < self.nodes@.len());
                assert(self.node_at(k as int).prev == self.link_at(k as int - 1));
            }
            let node = slot_ref(&self.nodes, ni);
            (node.prev, Some(ni))
        };
        proof {
            assert(prev_idx == old(self).link_at(k as int - 1));
            assert(next_idx == old(self).link_at(k as int));
        }
        let n: usize = alloc_slot(
            &mut self.nodes,
            &mut self.free,
            Node { prev: prev_idx, next: next_idx, item },
        );
        proof {
            assert forall|i: int| 0 <= i < ord0.len() implies ord0[i] != n by {
                assert(old(self).nodes@[ord0[i] as int] is Some);
            }
        }
        match prev_idx {
            Some(p) => {
                proof {
                    assert(old(self).nodes@[p as int] is Some);
                    assert(ord0[k as int - 1] != n);
                }
                set_next_link(&mut self.nodes, p, Some(n));
            },
            None => {
                self.head = Some(n);
            },
        }
        match next_idx {
            Some(x) => {
                proof {
                    assert(old(self).nodes@[x as int] is Some);
                    assert(ord0[k as int] != n);
                    if k > 0 {
                        assert(ord0[k as int - 1] != ord0[k as int]);
                    }
                }
                set_prev_link(&mut self.nodes, x, Some(n));
            },
            None => {
                self.tail = Some(n);
            },
        }
        self.len = self.len + 1;
        self.order = Ghost(ord0.insert(k as int, n));
        proof {
            self.lemma_insert_wf(*old(self), k as int, n, item);
        }
    }

    /// After the splice above, the chain invariant and the view follow from
    /// what the slot operations did.
    #[verifier::rlimit(40)]
    proof fn lemma_insert_wf(&self, pre: LinkedList<T>, k: int, n: usize, item: T)
        requires
            pre.wf(),
            0 <= k <= pre.order@.len(),
            self.order@ == pre.order@.insert(k, n),
            self.len == pre.order@.len() + 1,
            // the new slot holds the new node, linked to its neighbours
            n < self.nodes@.len(),
            self.nodes@[n as int] is Some,
            self.nodes@[n as int]->Some_0.prev == pre.link_at(k - 1),
            self.nodes@[n as int]->Some_0.next == pre.link_at(k),
            self.nodes@[n as int]->Some_0.item == item,
            // the new slot is fresh
            forall|i: int| 0 <= i < pre.order@.len() ==> pre.order@[i] != n,
            // the arena only grew
            pre.nodes@.len() <= self.nodes@.len(),
            // the node before position k now points forward at the new slot,
            // and is otherwise unchanged
            k > 0 ==> {
                let p = pre.order@[k - 1] as int;
                &&& self.nodes@[p] is Some
                &&& self.nodes@[p]->Some_0.prev == pre.node_at(k - 1).prev
                &&& self.nodes@[p]->Some_0.next == Some(n)
                &&& self.nodes@[p]->Some_0.item == pre.node_at(k - 1).item
            },
            // the node at position k now points backward at the new slot,
            // and is otherwise unchanged
            k < pre.order@.len() ==> {
                let x = pre.order@[k] as int;
                &&& self.nodes@[x] is Some
                &&& self.nodes@[x]->Some_0.prev == Some(n)
                &&& self.nodes@[x]->Some_0.next == pre.node_at(k).next
                &&& self.nodes@[x]->Some_0.item == pre.node_at(k).item
            },
            // every other slot of the old arena is untouched
            forall|j: int|
                0 <= j < pre.nodes@.len() && j != n && (k > 0 ==> j != pre.order@[k - 1]) && (k
                    < pre.order@.len() ==> j != pre.order@[k]) ==> self.nodes@[j] == pre.nodes@[j],
            // the ends
            self.head == (if k == 0 {
                Some(n)
            } else {
                pre.head
            }),
            self.tail == (if k == pre.order@.len() {
                Some(n)
            } else {
                pre.tail
            }),
            slots_wf(self.nodes@, self.free@),
        ensures
            self.wf(),
            self@ == pre@.insert(k, item),
    {
        let ord0 = pre.order@;
        let ord1 = self.order@;
        ord0.insert_ensures(k, n);
        assert(ord1.len() == ord0.len() + 1);
        // where each position of the new chain finds its node
        assert forall|i: int| 0 <= i < ord1.len() implies #[trigger] ord1[i] == (if i < k {
            ord0[i]
        } else if i == k {
            n
        } else {
            ord0[i - 1]
        }) by {
            if i > k {
                assert(ord1[(i - 1) + 1] == ord0[i - 1]);
            }
        }
        // distinctness of the new chain
        assert forall|i: int, j: int| 0 <= i < j < ord1.len() implies ord1[i] != ord1[j] by {
            if i != k && j != k {
                let i0 = if i < k {
                    i
                } else {
                    i - 1
                };
                let j0 = if j < k {
                    j
                } else {
                    j - 1
                };
                assert(ord0[i0] != ord0[j0]);
            }
        }
        // each node on the new chain is linked to its new neighbours
        assert forall|i: int| 0 <= i < ord1.len() implies {
            &&& (#[trigger] ord1[i]) < self.nodes@.len()
            &&& self.nodes@[ord1[i] as int] is Some
            &&& self.node_at(i).prev == self.link_at(i - 1)
            &&& self.node_at(i).next == self.link_at(i + 1)
        } by {
            if i < k - 1 || i > k + 1 {
                let i0 = if i < k {
                    i
                } else {
                    i - 1
                };
                assert(pre.order@[i0] < pre.nodes@.len());
                assert(pre.node_at(i0).prev == pre.link_at(i0 - 1));
                assert(pre.node_at(i0).next == pre.link_at(i0 + 1));
                assert(self.nodes@[ord1[i] as int] == pre.nodes@[ord0[i0] as int]);
            } else if i == k - 1 {
                assert(pre.order@[i] < pre.nodes@.len());
                assert(pre.node_at(i).prev == pre.link_at(i - 1));
            } else if i == k + 1 {
                assert(pre.order@[k] < pre.nodes@.len());
                assert(pre.node_at(k).next == pre.link_at(k + 1));
            }
        }
        assert(self.wf());
        // the new view is the old view with `item` spliced in at k: every
        // old node keeps its item, whether or not its links were rewritten
        assert forall|i: int| 0 <= i < ord1.len() implies #[trigger] self@[i] == pre@.insert(
            k,
            item,
        )[i] by {
            pre@.insert_ensures(k, item);
            if i < k {
                assert(self.node_at(i).item == pre.node_at(i).item);
            } else if i > k {
                assert(self.node_at(i).item == pre.node_at(i - 1).item);
                assert(pre@.insert(k, item)[(i - 1) + 1] == pre@[i - 1]);
            }
        }
        assert(self@ =~= pre@.insert(k, item));
    }

    /// Splice the node at list position `k` out and hand back its item; the
    /// items after position `k` move down by one.
    pub fn remove_at(&mut self, k: usize) -> (item: T)
        requires
            old(self).wf(),
            k < old(self)@.len(),
        ensures
            final(self).wf(),
            final(self)@ == old(self)@.remove(k as int),
            item == old(self)@[k as int],
    {
        let ghost ord0 = self.order@;
        let idx: usize = self.index_of(k);
        proof {
            assert(self.order@[k as int] < self.nodes@.len());
            assert(self.node_at(k as int).prev == self.link_at(k as int - 1));
            assert(self.node_at(k as int).next == self.link_at(k as int + 1));
        }
        let node = take_slot(&mut self.nodes, &mut self.free, idx);
        match node.prev {
            Some(p) => {
                proof {
                    assert(ord0[k as int - 1] != ord0[k as int]);
                }
                set_next_link(&mut self.nodes, p, node.next);
            },
            None => {
                self.head = node.next;
            },
        }
        match node.next {
            Some(x) => {
                proof {
                    assert(ord0[k as int + 1] != ord0[k as int]);
                    if k > 0 {
                        assert(ord0[k as int - 1] != ord0[k as int + 1]);
                    }
                }
                set_prev_link(&mut self.nodes, x, node.prev);
            },
            None => {
                self.tail = node.prev;
            },
        }
        self.len = self.len - 1;
        self.order = Ghost(ord0.remove(k as int));
        proof {
            self.lemma_remove_wf(*old(self), k as int);
        }
        node.item
    }

    /// After the splice above, the chain invariant and the view follow from
    /// what the slot operations did.
    #[verifier::rlimit(40)]
    proof fn lemma_remove_wf(&self, pre: LinkedList<T>, k: int)
        requires
            pre.wf(),
            0 <= k < pre.order@.len(),
            self.order@ == pre.order@.remove(k),
            self.len == pre.order@.len() - 1,
            self.nodes@.len() == pre.nodes@.len(),
            // the node before position k now points forward past it, and is
            // otherwise unchanged
            k > 0 ==> {
                let p = pre.order@[k - 1] as int;
                &&& self.nodes@[p] is Some
                &&& self.nodes@[p]->Some_0.prev == pre.node_at(k - 1).prev
                &&& self.nodes@[p]->Some_0.next == pre.link_at(k + 1)
                &&& self.nodes@[p]->Some_0.item == pre.node_at(k - 1).item
            },
            // the node after position k now points backward past it, and is
            // otherwise unchanged
            k + 1 < pre.order@.len() ==> {
                let x = pre.order@[k + 1] as int;
                &&& self.nodes@[x] is Some
                &&& self.nodes@[x]->Some_0.prev == pre.link_at(k - 1)
                &&& self.nodes@[x]->Some_0.next == pre.node_at(k + 1).next
                &&& self.nodes@[x]->Some_0.item == pre.node_at(k + 1).item
            },
            // every other slot is untouched
            forall|j: int|
                0 <= j < pre.nodes@.len() && j != pre.order@[k] && (k > 0 ==> j != pre.order@[k
                    - 1]) && (k + 1 < pre.order@.len() ==> j != pre.order@[k + 1])
                    ==> self.nodes@[j] == pre.nodes@[j],
            // the ends
            self.head == (if k == 0 {
                pre.link_at(1)
            } else {
                pre.head
            }),
            self.tail == (if k == pre.order@.len() - 1 {
                pre.link_at(k - 1)
            } else {
                pre.tail
            }),
            slots_wf(self.nodes@, self.free@),
        ensures
            self.wf(),
            self@ == pre@.remove(k),
    {
        let ord0 = pre.order@;
        let ord1 = self.order@;
        ord0.remove_ensures(k);
        assert(ord1.len() == ord0.len() - 1);
        // where each position of the shortened chain finds its node
        assert forall|i: int| 0 <= i < ord1.len() implies #[trigger] ord1[i] == (if i < k {
            ord0[i]
        } else {
            ord0[i + 1]
        }) by {}
        // distinctness of the shortened chain
        assert forall|i: int, j: int| 0 <= i < j < ord1.len() implies ord1[i] != ord1[j] by {
            let i0 = if i < k {
                i
            } else {
                i + 1
            };
            let j0 = if j < k {
                j
            } else {
                j + 1
            };
            assert(ord0[i0] != ord0[j0]);
        }
        // each remaining node is linked to its new neighbours
        assert forall|i: int| 0 <= i < ord1.len() implies {
            &&& (#[trigger] ord1[i]) < self.nodes@.len()
            &&& self.nodes@[ord1[i] as int] is Some
            &&& self.node_at(i).prev == self.link_at(i - 1)
            &&& self.node_at(i).next == self.link_at(i + 1)
        } by {
            let i0 = if i < k {
                i
            } else {
                i + 1
            };
            assert(pre.order@[i0] < pre.nodes@.len());
            assert(pre.node_at(i0).prev == pre.link_at(i0 - 1));
            assert(pre.node_at(i0).next == pre.link_at(i0 + 1));
            if i < k - 1 || i > k {
                // untouched slot: distinct from the freed slot and from the
                // two relinked neighbours
                assert(ord0[i0] != ord0[k]);
                if k > 0 {
                    assert(ord0[i0] != ord0[k - 1]);
                }
                if k + 1 < ord0.len() {
                    assert(ord0[i0] != ord0[k + 1]);
                }
                assert(self.nodes@[ord1[i] as int] == pre.nodes@[ord0[i0] as int]);
            } else if i == k - 1 {
                assert(pre.node_at(i).prev == pre.link_at(i - 1));
            }
        }
        assert(self.wf());
        // the shortened view drops exactly the item at k
        assert forall|i: int| 0 <= i < ord1.len() implies #[trigger] self@[i] == pre@.remove(k)[i]
            by {
            pre@.remove_ensures(k);
            if i < k {
                assert(self.node_at(i).item == pre.node_at(i).item);
            } else {
                assert(self.node_at(i).item == pre.node_at(i + 1).item);
            }
        }
        assert(self@ =~= pre@.remove(k));
    }

    /// Borrow the item at list position `k`.
    pub fn get(&self, k: usize) -> (r: &T)
        requires
            self.wf(),
            k < self@.len(),
        ensures
            *r == self@[k as int],
    {
        let idx: usize = self.index_of(k);
        proof {
            assert(self.order@[k as int] < self.nodes@.len());
        }
        let node = slot_ref(&self.nodes, idx);
        &node.item
    }

    /// Swap the item at list position `k` for `item` in place — no links
    /// move — and hand the old item back.
    pub fn replace_at(&mut self, k: usize, item: T) -> (r: T)
        requires
            old(self).wf(),
            k < old(self)@.len(),
        ensures
            final(self).wf(),
            final(self)@ == old(self)@.update(k as int, item),
            r == old(self)@[k as int],
    {
        let ghost ord0 = self.order@;
        let idx: usize = self.index_of(k);
        proof {
            assert(self.order@[k as int] < self.nodes@.len());
        }
        let slot = slot_mut(&mut self.nodes, idx);
        let taken = slot.take();
        let node = taken.unwrap();
        let Node { prev, next, item: r } = node;
        *slot = Some(Node { prev, next, item });
        proof {
            old(self).lemma_item_update(*self, k as int, item);
        }
        r
    }

    /// Two lists stand in `item_updated` when they have the same shape and
    /// the later one differs at most in the item held by the node at
    /// position `k`, where it holds `v`.
    spec fn item_updated(pre: LinkedList<T>, post: LinkedList<T>, k: int, v: T) -> bool {
        &&& post.order@ == pre.order@
        &&& post.head == pre.head
        &&& post.tail == pre.tail
        &&& post.len == pre.len
        &&& post.free@ == pre.free@
        &&& post.nodes@.len() == pre.nodes@.len()
        &&& 0 <= k < pre.order@.len()
        &&& post.nodes@[pre.order@[k] as int] is Some
        &&& post.nodes@[pre.order@[k] as int]->Some_0.prev == pre.node_at(k).prev
        &&& post.nodes@[pre.order@[k] as int]->Some_0.next == pre.node_at(k).next
        &&& post.nodes@[pre.order@[k] as int]->Some_0.item == v
        &&& forall|j: int|
            0 <= j < pre.nodes@.len() && j != pre.order@[k] ==> post.nodes@[j] == pre.nodes@[j]
    }

    /// Whatever item the node at position `k` comes to hold, the shape
    /// invariant holds on and the view changes at `k` alone.
    proof fn lemma_item_update_all(pre: LinkedList<T>, k: int)
        requires
            pre.wf(),
            0 <= k < pre.order@.len(),
        ensures
            forall|post: LinkedList<T>, v: T|
                #![trigger pre@.update(k, v), post.nodes@]
                Self::item_updated(pre, post, k, v) ==> post.wf() && post@ == pre@.update(k, v),
    {
        assert forall|post: LinkedList<T>, v: T|
            #![trigger pre@.update(k, v), post.nodes@]
            Self::item_updated(pre, post, k, v) implies post.wf() && post@ == pre@.update(k, v) by {
            pre.lemma_item_update(post, k, v);
        }
    }

    /// Borrow the item at list position `k` for in-place mutation; no
    /// links move, whatever the caller writes through the borrow.
    pub fn get_mut(&mut self, k: usize) -> (r: &mut T)
        requires
            old(self).wf(),
            k < old(self)@.len(),
        ensures
            *r == old(self)@[k as int],
            final(self).wf(),
            final(self)@ == old(self)@.update(k as int, *final(r)),
    {
        let ghost pre = *self;
        let idx: usize = self.index_of(k);
        proof {
            assert(self.order@[k as int] < self.nodes@.len());
            Self::lemma_item_update_all(pre, k as int);
        }
        let slot = slot_mut(&mut self.nodes, idx);
        let node = match slot {
            Some(node) => node,
            None => vstd::pervasive::unreached(),
        };
        let r = &mut node.item;
        r
    }

    /// Two lists that differ only in the item held by the node at position
    /// `k` have the same shape, and their views differ only at `k`.
    proof fn lemma_item_update(&self, post: LinkedList<T>, k: int, item: T)
        requires
            self.wf(),
            0 <= k < self.order@.len(),
            post.order@ == self.order@,
            post.head == self.head,
            post.tail == self.tail,
            post.len == self.len,
            post.free@ == self.free@,
            post.nodes@.len() == self.nodes@.len(),
            post.nodes@[self.order@[k] as int] is Some,
            post.nodes@[self.order@[k] as int]->Some_0.prev == self.node_at(k).prev,
            post.nodes@[self.order@[k] as int]->Some_0.next == self.node_at(k).next,
            post.nodes@[self.order@[k] as int]->Some_0.item == item,
            forall|j: int|
                0 <= j < self.nodes@.len() && j != self.order@[k] ==> post.nodes@[j]
                    == self.nodes@[j],
        ensures
            post.wf(),
            post@ == self@.update(k, item),
    {
        let ord = self.order@;
        assert forall|i: int| 0 <= i < ord.len() implies {
            &&& (#[trigger] ord[i]) < post.nodes@.len()
            &&& post.nodes@[ord[i] as int] is Some
            &&& post.node_at(i).prev == post.link_at(i - 1)
            &&& post.node_at(i).next == post.link_at(i + 1)
        } by {
            assert(self.node_at(i).prev == self.link_at(i - 1));
            assert(self.node_at(i).next == self.link_at(i + 1));
            if i != k {
                assert(ord[i] != ord[k]);
            }
        }
        assert forall|f: int| 0 <= f < post.free@.len() implies (#[trigger] post.free@[f])
            < post.nodes@.len() && post.nodes@[post.free@[f] as int] is None by {
            assert(self.free@[f] != ord[k]);
        }
        assert(post.wf());
        assert forall|i: int| 0 <= i < ord.len() implies #[trigger] post@[i] == self@.update(
            k,
            item,
        )[i] by {
            if i != k {
                assert(post.node_at(i).item == self.node_at(i).item);
            }
        }
        assert(post@ =~= self@.update(k, item));
    }

    /// Splice a fresh node in at the head in one step.
    pub fn push_head(&mut self, item: T)
        requires
            old(self).wf(),
            old(self)@.len() < usize::MAX,
        ensures
            final(self).wf(),
            final(self)@ == seq![item] + old(self)@,
    {
        self.insert_at(0, item);
        proof {
            assert(self@ =~= seq![item] + old(self)@);
        }
    }

    /// Splice a fresh node in at the tail in one step.
    pub fn push_tail(&mut self, item: T)
        requires
            old(self).wf(),
            old(self)@.len() < usize::MAX,
        ensures
            final(self).wf(),
            final(self)@ == old(self)@.push(item),
    {
        let k: usize = self.len;
        self.insert_at(k, item);
        proof {
            assert(self@ =~= old(self)@.push(item));
        }
    }

    /// Detach the head node and hand back its item, or nothing when the
    /// list is empty.
    pub fn pop_head(&mut self) -> (r: Option<T>)
        requires
            old(self).wf(),
        ensures
            final(self).wf(),
            old(self)@.len() == 0 ==> r is None && final(self)@ == old(self)@,
            old(self)@.len() > 0 ==> r == Some(old(self)@[0]) && final(self)@ == old(self)@.drop_first(),
    {
        if self.len == 0 {
            None
        } else {
            let item = self.remove_at(0);
            proof {
                assert(self@ =~= old(self)@.drop_first());
            }
            Some(item)
        }
    }

    /// Detach the tail node and hand back its item, or nothing when the
    /// list is empty.
    pub fn pop_tail(&mut self) -> (r: Option<T>)
        requires
            old(self).wf(),
        ensures
            final(self).wf(),
            old(self)@.len() == 0 ==> r is None && final(self)@ == old(self)@,
            old(self)@.len() > 0 ==> r == Some(old(self)@.last()) && final(self)@ == old(self)@.drop_last(),
    {
        if self.len == 0 {
            None
        } else {
            let k: usize = self.len - 1;
            let item = self.remove_at(k);
            proof {
                assert(self@ =~= old(self)@.drop_last());
            }
            Some(item)
        }
    }

    /// Borrow the head item, or nothing when the list is empty.
    pub fn peek_head(&self) -> (r: Option<&T>)
        requires
            self.wf(),
        ensures
            r is Some <==> self@.len() > 0,
            r matches Some(x) ==> *x == self@[0],
    {
        if self.len == 0 {
            None
        } else {
            Some(self.get(0))
        }
    }

    /// Borrow the tail item, or nothing when the list is empty.
    pub fn peek_tail(&self) -> (r: Option<&T>)
        requires
            self.wf(),
        ensures
            r is Some <==> self@.len() > 0,
            r matches Some(x) ==> *x == self@.last(),
    {
        if self.len == 0 {
            None
        } else {
            Some(self.get(self.len - 1))
        }
    }

    /// Structural law: the two end links name the same node exactly when the
    /// list holds at most one item, and either end link is absent exactly
    /// when the list is empty.
    pub proof fn lemma_end_links(&self)
        requires
            self.wf(),
        ensures
            self.head_link() == self.tail_link() <==> self@.len() <= 1,
            self.head_link() is None <==> self@.len() == 0,
            self.tail_link() is None <==> self@.len() == 0,
    {
        if self.order@.len() > 1 {
            assert(self.order@[0] != self.order@[self.order@.len() - 1]);
        }
    }
}

/// A double-ended, non-restartable traversal over a borrowed list.
///
/// The two ends advance independently, each walking the links in its own
/// direction: `next` yields items front to back, `next_back` back to front.
/// Each end runs until it walks off the list; the ends do not stop each
/// other, so a caller that consumes both ends is expected to take at most
/// `len` yields in total.
pub struct LinkedListIterator<'a, T> {
    list: &'a LinkedList<T>,
    front: Option<usize>,
    back: Option<usize>,
    fpos: Ghost<int>,
    bpos: Ghost<int>,
}

impl<T> LinkedList<T> {
    /// A fresh iterator over the list, front at the head, back at the tail.
    pub fn iter(&self) -> (it: LinkedListIterator<T>)
        requires
            self.wf(),
        ensures
            it.wf(),
            it.list_view() == self@,
            it.front_pos() == 0,
            it.back_pos() == self@.len() - 1,
    {
        LinkedListIterator {
            list: self,
            front: self.head,
            back: self.tail,
            fpos: Ghost(0),
            bpos: Ghost(self@.len() - 1),
        }
    }
}

impl<'a, T> LinkedListIterator<'a, T> {
    /// The items of the borrowed list, head first.
    pub closed spec fn list_view(&self) -> Seq<T> {
        self.list@
    }

    /// The list position the front end will yield next; the length of the
    /// list once the front end is exhausted.
    pub closed spec fn front_pos(&self) -> int {
        self.fpos@
    }

    /// The list position the back end will yield next; `-1` once the back
    /// end is exhausted.
    pub closed spec fn back_pos(&self) -> int {
        self.bpos@
    }

    /// What a full forward consumption will still yield, in order.
    pub open spec fn front_remaining(&self) -> Seq<T> {
        self.list_view().subrange(self.front_pos(), self.list_view().len() as int)
    }

    /// What a full backward consumption will still yield, in order.
    pub open spec fn back_remaining(&self) -> Seq<T> {
        self.list_view().subrange(0, self.back_pos() + 1).reverse()
    }

    /// The iterator is sound: the list invariant holds, each end's position
    /// lies in range, and each end's link reaches the node at its position.
    pub closed spec fn wf(&self) -> bool {
        &&& self.list.wf()
        &&& 0 <= self.fpos@ <= self.list@.len()
        &&& -1 <= self.bpos@ < self.list@.len()
        &&& self.front == self.list.link_at(self.fpos@)
        &&& self.back == self.list.link_at(self.bpos@)
    }

    /// Yield the item at the front end and walk that end one link tailward;
    /// nothing once the front end has walked off the list.
    pub fn next(&mut self) -> (r: Option<&'a T>)
        requires
            old(self).wf(),
        ensures
            final(self).wf(),
            final(self).list_view() == old(self).list_view(),
            final(self).back_pos() == old(self).back_pos(),
            old(self).front_pos() == old(self).list_view().len() ==> r is None && final(self).front_pos() == old(self).front_pos(),
            old(self).front_pos() < old(self).list_view().len() ==> (r matches Some(x) && *x == old(self).list_view()[old(self).front_pos()]) && final(self).front_pos() == old(self).front_pos() + 1,
    {
        match self.front {
            None => None,
            Some(i) => {
                let list: &'a LinkedList<T> = self.list;
                proof {
                    assert(list.order@[self.fpos@] < list.nodes@.len());
                    assert(list.node_at(self.fpos@).next == list.link_at(self.fpos@ + 1));
                }
                let node = slot_ref(&list.nodes, i);
                self.front = node.next;
                self.fpos = Ghost(self.fpos@ + 1);
                Some(&node.item)
            },
        }
    }

    /// Yield the item at the back end and walk that end one link headward;
    /// nothing once the back end has walked off the list.
    pub fn next_back(&mut self) -> (r: Option<&'a T>)
        requires
            old(self).wf(),
        ensures
            final(self).wf(),
            final(self).list_view() == old(self).list_view(),
            final(self).front_pos() == old(self).front_pos(),
            old(self).back_pos() == -1 ==> r is None && final(self).back_pos() == old(self).back_pos(),
            old(self).back_pos() >= 0 ==> (r matches Some(x) && *x == old(self).list_view()[old(self).back_pos()]) && final(self).back_pos() == old(self).back_pos() - 1,
    {
        match self.back {
            None => None,
            Some(i) => {
                let list: &'a LinkedList<T> = self.list;
                proof {
                    assert(list.order@[self.bpos@] < list.nodes@.len());
                    assert(list.node_at(self.bpos@).prev == list.link_at(self.bpos@ - 1));
                }
                let node = slot_ref(&list.nodes, i);
                self.back = node.prev;
                self.bpos = Ghost(self.bpos@ - 1);
                Some(&node.item)
            },
        }
    }
}

impl<T> Default for LinkedList<T> {
    /// The default list is the empty list.
    fn default() -> (l: LinkedList<T>)
        ensures
            l.wf(),
            l@ == Seq::<T>::empty(),
    {
        LinkedList::new()
    }
}

} // verus!
