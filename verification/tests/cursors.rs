use lifo_stack::cursor::StackIter;
use lifo_stack::stack::Stack;

fn numbers(n: i32) -> Stack<i32> {
    let mut stack = Stack::new();
    for i in 0..n {
        stack.push(i);
    }
    stack
}

fn drain(mut cursor: StackIter<'_, i32>) -> Vec<i32> {
    let mut seen = Vec::new();
    while let Some(value) = cursor.next() {
        seen.push(*value);
    }
    seen
}

#[test]
fn cursor_walks_bottom_to_top() {
    let stack = numbers(5);
    let mut cursor = stack.iter();
    assert_eq!(cursor.next(), Some(&0));
    assert_eq!(cursor.next(), Some(&1));
    assert_eq!(cursor.next(), Some(&2));
    assert_eq!(cursor.next(), Some(&3));
    assert_eq!(cursor.next(), Some(&4));
    assert_eq!(cursor.next(), None);
}

#[test]
fn cursor_order_is_opposite_of_pop_order() {
    let mut stack = numbers(3);
    assert_eq!(drain(stack.iter()), vec![0, 1, 2]);
    let mut popped = Vec::new();
    while let Some(value) = stack.pop() {
        popped.push(value);
    }
    assert_eq!(popped, vec![2, 1, 0]);
}

#[test]
fn exhausted_cursor_stays_exhausted() {
    let stack = numbers(2);
    let mut cursor = stack.iter();
    assert_eq!(cursor.next(), Some(&0));
    assert_eq!(cursor.next(), Some(&1));
    for _ in 0..10 {
        assert_eq!(cursor.next(), None);
    }
}

#[test]
fn cursor_over_empty_stack_is_exhausted() {
    let stack: Stack<i32> = Stack::new();
    let mut cursor = stack.iter();
    assert_eq!(cursor.next(), None);
    assert_eq!(cursor.next(), None);
}

#[test]
fn cursors_advance_independently() {
    let stack = numbers(5);
    let mut first = stack.iter();
    let mut second = stack.iter();
    assert_eq!(first.next(), Some(&0));
    assert_eq!(first.next(), Some(&1));
    assert_eq!(first.next(), Some(&2));
    assert_eq!(second.next(), Some(&0));
    assert_eq!(first.next(), Some(&3));
    assert_eq!(second.next(), Some(&1));
    assert_eq!(first.next(), Some(&4));
    assert_eq!(first.next(), None);
    assert_eq!(second.next(), Some(&2));
    assert_eq!(second.next(), Some(&3));
    assert_eq!(second.next(), Some(&4));
    assert_eq!(second.next(), None);
}

#[test]
fn exhausting_one_cursor_leaves_a_later_one_fresh() {
    let stack = numbers(3);
    let mut first = stack.iter();
    while first.next().is_some() {}
    let mut second = stack.iter();
    assert_eq!(second.next(), Some(&0));
    assert_eq!(first.next(), None);
    assert_eq!(second.next(), Some(&1));
}

#[test]
fn two_drained_cursors_match_borrowing_traversal() {
    let stack = numbers(5);
    let first = drain(stack.iter());
    let second = drain(stack.iter());
    let traversed: Vec<i32> = (&stack).into_iter().copied().collect();
    assert_eq!(first, second);
    assert_eq!(first, traversed);
    assert_eq!(first, vec![0, 1, 2, 3, 4]);
}

#[test]
fn cursor_does_not_change_the_stack() {
    let mut stack = numbers(3);
    assert_eq!(drain(stack.iter()), vec![0, 1, 2]);
    assert_eq!(stack.pop(), Some(2));
    assert_eq!(drain(stack.iter()), vec![0, 1]);
}

#[test]
fn cursor_yields_references_into_the_stack() {
    let mut stack = Stack::new();
    stack.push(String::from("a"));
    stack.push(String::from("b"));
    let mut cursor = stack.iter();
    let a: &String = cursor.next().unwrap();
    let b: &String = cursor.next().unwrap();
    assert_eq!(a, "a");
    assert_eq!(b, "b");
    assert!(cursor.next().is_none());
}
