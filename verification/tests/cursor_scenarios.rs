use linked_list::CursorPositionErrorKind;
use linked_list::CursorStart;
use linked_list::LinkedList;

#[test]
fn after_insert_after_and_one_step_forward_the_cursor_peeks_the_inserted_value() {
    let mut ll = LinkedList::new();
    ll.push_tail("A");
    ll.push_tail("B");
    let mut cursor = ll.cursor_mut(CursorStart::Head);
    assert!(cursor.insert_after("X").is_ok());
    assert!(cursor.next().is_ok());
    assert_eq!(Some(&"X"), cursor.peek());
}

#[test]
fn removing_the_middle_of_three_lands_on_the_follower_and_iteration_skips_it() {
    let mut ll = LinkedList::new();
    ll.push_tail("A");
    ll.push_tail("B");
    ll.push_tail("C");
    let mut cursor = ll.cursor_mut(CursorStart::Head);
    assert!(cursor.seek(1).is_ok());
    assert_eq!(Ok("B"), cursor.remove());
    assert_eq!(Some(1), cursor.at());
    assert_eq!(Some(&"C"), cursor.peek());

    let rest = cursor.into_list();
    let mut seen: Vec<&str> = Vec::new();
    let mut it = rest.iter();
    while let Some(value) = it.next() {
        seen.push(*value);
    }
    assert_eq!(vec!["A", "C"], seen);
}

#[test]
fn on_an_empty_list_seek_head_fails_with_is_empty_and_insert_head_leaves_the_cursor_ghost() {
    let ll = LinkedList::new();
    let mut cursor = ll.cursor_mut(CursorStart::Head);
    let err = cursor.seek_head().unwrap_err();
    assert_eq!(&CursorPositionErrorKind::IsEmpty, err.kind());
    assert_eq!(None, cursor.at());

    cursor.insert_head("x");
    assert_eq!(None, cursor.at());
    assert!(!cursor.on_item());
    assert_eq!(1, cursor.list_len());

    assert!(cursor.seek_head().is_ok());
    assert_eq!(Some(0), cursor.at());
    assert_eq!(Some(&"x"), cursor.peek());
}

#[test]
fn stepping_past_the_tail_fails_and_leaves_the_cursor_ghost() {
    let mut ll = LinkedList::new();
    ll.push_tail("A");
    ll.push_tail("B");
    let mut cursor = ll.cursor_mut(CursorStart::Tail);
    assert_eq!(Some(1), cursor.at());
    let err = cursor.next().unwrap_err();
    assert_eq!(&CursorPositionErrorKind::AttemptToPositionAfterTail, err.kind());
    assert_eq!(None, cursor.at());
}

#[test]
fn stepping_before_the_head_fails_and_leaves_the_cursor_ghost() {
    let mut ll = LinkedList::new();
    ll.push_tail("A");
    ll.push_tail("B");
    let mut cursor = ll.cursor_mut(CursorStart::Head);
    let err = cursor.prev().unwrap_err();
    assert_eq!(&CursorPositionErrorKind::AttemptToPositionBeforeHead, err.kind());
    assert_eq!(None, cursor.at());
}

#[test]
fn seeking_at_or_past_the_length_fails_with_exceeded_length_and_moves_nothing() {
    let mut ll = LinkedList::new();
    ll.push_tail("A");
    ll.push_tail("B");
    let mut cursor = ll.cursor(CursorStart::Head);
    let err = cursor.seek(2).unwrap_err();
    assert_eq!(&CursorPositionErrorKind::ExceededLength, err.kind());
    assert_eq!(Some(0), cursor.at());

    let empty = LinkedList::<u32>::new();
    let mut ghost_cursor = empty.cursor(CursorStart::Head);
    let err = ghost_cursor.seek(0).unwrap_err();
    assert_eq!(&CursorPositionErrorKind::ExceededLength, err.kind());
    assert_eq!(None, ghost_cursor.at());
}

#[test]
fn relative_seeks_and_mutations_off_the_list_fail_with_not_on_item() {
    let mut ll = LinkedList::new();
    ll.push_tail(1u32);
    let mut cursor = ll.cursor_mut(CursorStart::Head);
    assert!(cursor.next().is_err());
    assert_eq!(None, cursor.at());

    assert_eq!(
        &CursorPositionErrorKind::NotOnItem,
        cursor.seek_next(1).unwrap_err().kind()
    );
    assert_eq!(
        &CursorPositionErrorKind::NotOnItem,
        cursor.seek_prev(1).unwrap_err().kind()
    );
    assert_eq!(
        &CursorPositionErrorKind::NotOnItem,
        cursor.insert_before(9).unwrap_err().kind()
    );
    assert_eq!(
        &CursorPositionErrorKind::NotOnItem,
        cursor.insert_after(9).unwrap_err().kind()
    );
    assert_eq!(
        &CursorPositionErrorKind::NotOnItem,
        cursor.remove().unwrap_err().kind()
    );
    assert_eq!(
        &CursorPositionErrorKind::NotOnItem,
        cursor.replace(9).unwrap_err().kind()
    );
    assert_eq!(None, cursor.peek_mut().map(|_| ()));
    assert_eq!(1, cursor.list_len());
}

#[test]
fn a_seek_from_the_ghost_position_first_lands_on_the_head() {
    let mut ll = LinkedList::new();
    for v in [10u32, 20, 30, 40] {
        ll.push_tail(v);
    }
    let mut cursor = ll.cursor(CursorStart::Head);
    assert!(cursor.next().is_ok());
    assert!(cursor.seek_next(2).is_ok());
    assert_eq!(Some(3), cursor.at());
    assert!(cursor.next().is_err());
    assert_eq!(None, cursor.at());
    assert!(cursor.seek(2).is_ok());
    assert_eq!(Some(2), cursor.at());
    assert_eq!(Some(&30), cursor.peek());
}

#[test]
fn cursor_peeks_are_idempotent_without_intervening_mutation() {
    let mut ll = LinkedList::new();
    ll.push_tail("A");
    ll.push_tail("B");
    ll.push_tail("C");
    let mut cursor = ll.cursor(CursorStart::Head);
    assert!(cursor.seek(1).is_ok());
    assert_eq!(cursor.peek().copied(), cursor.peek().copied());
    assert_eq!(cursor.peek_prev().copied(), cursor.peek_prev().copied());
    assert_eq!(cursor.peek_next().copied(), cursor.peek_next().copied());
    assert_eq!(Some(&"B"), cursor.peek());
}

#[test]
fn many_read_only_accessors_may_read_the_list_side_by_side() {
    let mut ll = LinkedList::new();
    for v in [1u32, 2, 3] {
        ll.push_tail(v);
    }
    let mut c1 = ll.cursor(CursorStart::Head);
    let mut c2 = ll.cursor(CursorStart::Tail);
    let mut it = ll.iter();
    assert!(c1.next().is_ok());
    assert_eq!(Some(&2), c1.peek());
    assert_eq!(Some(&3), c2.peek());
    assert!(c2.prev().is_ok());
    assert_eq!(Some(&2), c2.peek());
    assert_eq!(Some(&1), it.next());
    assert_eq!(Some(&1), ll.peek_head());
}
