use linked_list::LinkedList;
use linked_list::Node;

#[test]
fn it_can_be_instantiated_by_new_or_default() {
    let _ll1 = LinkedList::<u32>::new();
    let _ll2 = LinkedList::<String>::default();
}

#[test]
fn it_returns_proper_values_for_len_and_is_empty_for_an_empty_list() {
    let ll = LinkedList::<u32>::new();
    assert_eq!(0, ll.len());
    assert!(ll.is_empty());
    assert_eq!(None, ll.peek_head());
    assert_eq!(None, ll.peek_tail());
}

#[test]
fn it_allows_a_value_to_be_pushed_to_head_and_peeked_at_head_and_tail_and_len_and_is_empty_are_correct(
) {
    let mut ll = LinkedList::<u32>::new();
    ll.push_head(u32::MAX);
    assert_eq!(Some(u32::MAX), ll.peek_head().copied());
    assert_eq!(Some(u32::MAX), ll.peek_tail().copied());
    assert_eq!(1, ll.len());
    assert!(!ll.is_empty());
}

#[test]
fn it_allows_a_value_to_be_pushed_to_tail_and_peeked_at_head_and_tail_and_len_and_is_empty_are_correct(
) {
    let mut ll = LinkedList::<u32>::new();
    ll.push_tail(u32::MAX);
    assert_eq!(Some(u32::MAX), ll.peek_head().copied());
    assert_eq!(Some(u32::MAX), ll.peek_tail().copied());
    assert_eq!(1, ll.len());
    assert!(!ll.is_empty());
}

#[test]
fn it_allows_a_value_to_be_pushed_to_head_and_popped_at_head_and_tail() {
    let mut ll = LinkedList::<u32>::new();

    ll.push_head(u32::MAX);
    assert!(!ll.is_empty());
    assert_eq!(1, ll.len());
    assert_eq!(Some(u32::MAX), ll.pop_head());
    assert!(ll.is_empty());
    assert_eq!(0, ll.len());

    ll.push_head(0);
    assert!(!ll.is_empty());
    assert_eq!(1, ll.len());
    assert_eq!(Some(0), ll.pop_tail());
    assert!(ll.is_empty());
    assert_eq!(0, ll.len());
}

#[test]
fn it_allows_a_value_to_be_pushed_to_tail_and_popped_at_head_and_tail() {
    let mut ll = LinkedList::<u32>::new();

    ll.push_tail(u32::MAX);
    assert!(!ll.is_empty());
    assert_eq!(1, ll.len());
    assert_eq!(Some(u32::MAX), ll.pop_head());
    assert!(ll.is_empty());
    assert_eq!(0, ll.len());

    ll.push_tail(0);
    assert!(!ll.is_empty());
    assert_eq!(1, ll.len());
    assert_eq!(Some(0), ll.pop_tail());
    assert!(ll.is_empty());
    assert_eq!(0, ll.len());
}

#[test]
fn it_allows_multiple_pushes_peeks_pops_and_it_accurately_tracks_everything() {
    let mut ll = LinkedList::<&str>::new();

    assert!(ll.is_empty());
    assert_eq!(0, ll.len());
    assert_eq!(None, ll.peek_head());
    assert_eq!(None, ll.peek_tail());
    assert_eq!(None, ll.pop_head());
    assert_eq!(None, ll.pop_tail());
    assert!(ll.is_empty());
    assert_eq!(0, ll.len());

    ll.push_head("Hello");
    assert!(!ll.is_empty());
    assert_eq!(1, ll.len());
    assert_eq!(Some("Hello"), ll.peek_head().copied());
    assert_eq!(Some("Hello"), ll.peek_tail().copied());
    ll.push_tail("World");
    assert!(!ll.is_empty());
    assert_eq!(2, ll.len());
    assert_eq!(Some("Hello"), ll.peek_head().copied());
    assert_eq!(Some("World"), ll.peek_tail().copied());
    assert_eq!(Some("World"), ll.pop_tail());
    assert!(!ll.is_empty());
    assert_eq!(1, ll.len());
    assert_eq!(Some("Hello"), ll.peek_head().copied());
    assert_eq!(Some("Hello"), ll.peek_tail().copied());
    assert_eq!(Some("Hello"), ll.pop_tail());
    assert_eq!(None, ll.peek_head());
    assert_eq!(None, ll.peek_tail());
    assert!(ll.is_empty());
    assert_eq!(0, ll.len());

    ll.push_head("Hello");
    assert!(!ll.is_empty());
    assert_eq!(1, ll.len());
    assert_eq!(Some("Hello"), ll.peek_head().copied());
    assert_eq!(Some("Hello"), ll.peek_tail().copied());
    ll.push_tail("World");
    assert!(!ll.is_empty());
    assert_eq!(2, ll.len());
    assert_eq!(Some("Hello"), ll.peek_head().copied());
    assert_eq!(Some("World"), ll.peek_tail().copied());
    ll.push_head("Awesome");
    assert!(!ll.is_empty());
    assert_eq!(3, ll.len());
    assert_eq!(Some("Awesome"), ll.peek_head().copied());
    assert_eq!(Some("World"), ll.peek_tail().copied());
    assert_eq!(Some("World"), ll.pop_tail());
    assert!(!ll.is_empty());
    assert_eq!(2, ll.len());
    assert_eq!(Some("Awesome"), ll.peek_head().copied());
    assert_eq!(Some("Hello"), ll.peek_tail().copied());
    assert_eq!(Some("Hello"), ll.pop_tail());
    assert_eq!(Some("Awesome"), ll.peek_head().copied());
    assert_eq!(Some("Awesome"), ll.peek_tail().copied());
    assert!(!ll.is_empty());
    assert_eq!(1, ll.len());
    ll.push_tail("Isn't");
    ll.push_head("is");
    ll.push_tail("it");
    ll.push_head("This");
    assert_eq!(Some("This"), ll.peek_head().copied());
    assert_eq!(Some("it"), ll.peek_tail().copied());
    assert_eq!(Some("This"), ll.pop_head());
    assert_eq!(Some("is"), ll.pop_head());
    assert_eq!(Some("Awesome"), ll.pop_head());
    assert_eq!(Some("Isn't"), ll.pop_head());
    assert_eq!(Some("it"), ll.pop_head());
    assert!(ll.is_empty());
    assert_eq!(0, ll.len());
    assert_eq!(None, ll.peek_head());
    assert_eq!(None, ll.peek_tail());
    assert_eq!(None, ll.pop_head());
    assert_eq!(None, ll.pop_tail());
}

#[test]
fn push_tail_then_pop_tail_hands_the_value_back_and_restores_the_length() {
    let mut ll = LinkedList::<u32>::new();
    ll.push_tail(1);
    ll.push_tail(2);
    let before: usize = ll.len();
    ll.push_tail(77);
    assert_eq!(before + 1, ll.len());
    assert_eq!(Some(77), ll.pop_tail());
    assert_eq!(before, ll.len());
    assert_eq!(Some(&2), ll.peek_tail());
}

#[test]
fn push_head_then_pop_head_hands_the_value_back_and_restores_the_length() {
    let mut ll = LinkedList::<u32>::new();
    ll.push_head(1);
    ll.push_head(2);
    let before: usize = ll.len();
    ll.push_head(77);
    assert_eq!(before + 1, ll.len());
    assert_eq!(Some(77), ll.pop_head());
    assert_eq!(before, ll.len());
    assert_eq!(Some(&2), ll.peek_head());
}

#[test]
fn peeking_twice_without_mutation_gives_the_same_value() {
    let mut ll = LinkedList::<u32>::new();
    ll.push_tail(5);
    ll.push_tail(6);
    assert_eq!(ll.peek_head().copied(), ll.peek_head().copied());
    assert_eq!(ll.peek_tail().copied(), ll.peek_tail().copied());
}

#[test]
fn removing_every_element_from_the_head_reaches_the_empty_list() {
    let mut ll = LinkedList::<u32>::new();
    for v in [1, 2, 3, 4, 5] {
        ll.push_tail(v);
    }
    let mut expected_len: usize = 5;
    while let Some(_) = ll.pop_head() {
        expected_len -= 1;
        assert_eq!(expected_len, ll.len());
        assert_eq!(expected_len == 0, ll.is_empty());
        // head and tail agree with the count at every intermediate state
        assert_eq!(ll.peek_head().is_none(), expected_len == 0);
        assert_eq!(ll.peek_tail().is_none(), expected_len == 0);
        if expected_len == 1 {
            assert_eq!(ll.peek_head(), ll.peek_tail());
        }
    }
    assert_eq!(0, ll.len());
    assert!(ll.is_empty());
    assert_eq!(None, ll.peek_head());
    assert_eq!(None, ll.peek_tail());
}

#[test]
fn positional_access_reads_inserts_removes_and_replaces_at_interior_positions() {
    let mut ll = LinkedList::<u32>::new();
    ll.push_tail(10);
    ll.push_tail(30);
    ll.insert_at(1, 20);
    assert_eq!(3, ll.len());
    assert_eq!(&10, ll.get(0));
    assert_eq!(&20, ll.get(1));
    assert_eq!(&30, ll.get(2));
    assert_eq!(20, ll.replace_at(1, 21));
    assert_eq!(&21, ll.get(1));
    assert_eq!(21, ll.remove_at(1));
    assert_eq!(2, ll.len());
    assert_eq!(&10, ll.get(0));
    assert_eq!(&30, ll.get(1));
}

#[test]
fn get_mut_writes_through_to_the_stored_item() {
    let mut ll = LinkedList::<u32>::new();
    ll.push_tail(1);
    ll.push_tail(2);
    *ll.get_mut(1) = 42;
    assert_eq!(&42, ll.get(1));
    assert_eq!(Some(&42), ll.peek_tail());
    assert_eq!(&1, ll.get(0));
}

#[test]
fn freed_node_slots_are_reused_across_many_pushes_and_pops() {
    let mut ll = LinkedList::<u32>::new();
    for round in 0..100u32 {
        ll.push_head(round);
        ll.push_tail(round + 1000);
        assert_eq!(Some(round), ll.pop_head());
        assert_eq!(Some(round + 1000), ll.pop_tail());
    }
    assert!(ll.is_empty());
}

#[test]
fn a_fresh_node_has_no_neighbours_and_carries_its_item() {
    let mut n = Node::new(5u32);
    assert_eq!(None, n.prev());
    assert_eq!(None, n.next());
    assert_eq!(&5, n.item());
    n.set_prev(Some(1));
    n.set_next(Some(2));
    assert_eq!(Some(1), n.prev());
    assert_eq!(Some(2), n.next());
    assert_eq!(5, n.replace_item(9));
    *n.item_mut() += 1;
    assert_eq!(Some(1), n.prev());
    assert_eq!(Some(2), n.next());
    assert_eq!(10, n.into_item());
}
