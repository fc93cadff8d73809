use linear_containers::stack::Stack;

fn get_stack() -> Stack<i32> {
    let mut stack = Stack::new();
    stack.push(1);
    stack.push(2);
    stack.push(3);
    stack
}

#[test]
fn stack_test_push() {
    let stack = get_stack();

    assert_eq!(stack.as_slice(), vec![1, 2, 3]);
}

#[test]
fn stack_test_pop() {
    let mut stack = get_stack();

    assert_eq!(stack.pop(), Some(3));
    assert_eq!(stack.pop(), Some(2));
    assert_eq!(stack.pop(), Some(1));
    assert_eq!(stack.pop(), None);
}

#[test]
fn stack_test_top() {
    let mut stack = get_stack();

    assert_eq!(stack.top(), Some(&3));
    stack.pop();
    assert_eq!(stack.top(), Some(&2));
    stack.pop();
    assert_eq!(stack.top(), Some(&1));
    stack.pop();
    assert_eq!(stack.top(), None);
}

#[test]
fn stack_test_empty_and_size() {
    let mut stack = get_stack();

    assert!(!stack.is_empty());
    assert_eq!(stack.size(), 3);

    stack.pop();
    assert_eq!(stack.size(), 2);
    stack.pop();
    assert_eq!(stack.size(), 1);
    stack.pop();
    assert_eq!(stack.size(), 0);
    assert!(stack.is_empty());
}

#[test]
fn stack_pops_in_reverse_order() {
    let mut stack = Stack::new();
    stack.push(1);
    stack.push(2);
    stack.push(3);
    assert_eq!(stack.pop(), Some(3));
    assert_eq!(stack.pop(), Some(2));
    assert_eq!(stack.pop(), Some(1));
    assert_eq!(stack.pop(), None);
}

#[test]
fn stack_new_is_empty() {
    let mut stack: Stack<i32> = Stack::new();
    assert!(stack.is_empty());
    assert_eq!(stack.size(), 0);
    assert_eq!(stack.top(), None);
    assert_eq!(stack.pop(), None);
    assert_eq!(stack.size(), 0);
    assert_eq!(stack.as_slice(), Vec::<i32>::new());
}

#[test]
fn stack_round_trip_reverses_and_restores() {
    let items = [5, 3, 8, 1, 9, 2];
    let mut stack = Stack::new();
    stack.push(100);
    stack.push(200);
    for item in items {
        stack.push(item);
    }
    assert_eq!(stack.size(), 8);
    let mut popped = Vec::new();
    for _ in 0..items.len() {
        popped.push(stack.pop().unwrap());
    }
    assert_eq!(popped, vec![2, 9, 1, 8, 3, 5]);
    assert_eq!(stack.as_slice(), vec![100, 200]);
}

#[test]
fn stack_top_leaves_the_item_in_place() {
    let mut stack = Stack::new();
    stack.push("a");
    stack.push("b");
    assert_eq!(stack.top(), Some(&"b"));
    assert_eq!(stack.top(), Some(&"b"));
    assert_eq!(stack.size(), 2);
}

#[test]
fn stack_grows_without_bound() {
    let mut stack = Stack::new();
    for item in 0..10_000u32 {
        stack.push(item);
    }
    assert_eq!(stack.size(), 10_000);
    assert_eq!(stack.top(), Some(&9_999));
}
