use aspirin::doubly_linked_list::LinkedStack as DoublyLinkedStack;
use aspirin::singly_linked_list::LinkedStack;

#[test]
fn test_new_stack() {
    let mut stack = LinkedStack::new();
    assert_eq!(stack.pop(), None);
}

#[test]
fn test_linked_stack() {
    let mut stack = LinkedStack::new();
    stack.push(1);
    stack.push(2);
    stack.push(3);

    assert_eq!(stack.pop(), Some(3));
    assert_eq!(stack.pop(), Some(2));

    stack.push(4);

    assert_eq!(stack.pop(), Some(4));
    assert_eq!(stack.pop(), Some(1));
    assert_eq!(stack.pop(), None);
}

#[test]
fn test_big_stack() {
    let mut stack = LinkedStack::new();
    for i in 0..1_000_000 {
        stack.push(i);
    }

    for i in (0..1_000_000).rev() {
        assert_eq!(stack.pop(), Some(i));
    }

    assert_eq!(stack.pop(), None);
}

#[test]
fn doubly_linked_new_stack_is_empty() {
    let mut stack = DoublyLinkedStack::new();
    assert_eq!(stack.pop(), None);
    assert_eq!(stack.pop(), None);
}
