use linear_containers::deque::Deque;

fn get_deque() -> Deque<i32> {
    let mut deque = Deque::new(5);
    deque.push_back(1).unwrap();
    deque.push_back(2).unwrap();
    deque.push_back(3).unwrap();
    deque
}

#[test]
fn deque_test_push() {
    let mut deque = get_deque();

    assert_eq!(deque.as_slice(), vec![1, 2, 3]);

    deque.push_front(4).unwrap();
    assert_eq!(deque.as_slice(), vec![4, 1, 2, 3]);
    deque.push_front(5).unwrap();
    assert_eq!(deque.as_slice(), vec![5, 4, 1, 2, 3]);
    assert_eq!(deque.push_front(6), Err("Queue is full".to_string()));
}

#[test]
fn deque_test_pop() {
    let mut deque = get_deque();

    assert_eq!(deque.pop_front(), Some(1));
    assert_eq!(deque.pop_back(), Some(3));
    assert_eq!(deque.pop_back(), Some(2));
    assert_eq!(deque.pop_front(), None);
    assert_eq!(deque.pop_back(), None);
}

#[test]
fn test_front_and_back() {
    let mut deque = get_deque();

    assert_eq!(deque.front(), Some(&1));
    assert_eq!(deque.back(), Some(&3));

    deque.pop_front();
    assert_eq!(deque.front(), Some(&2));
    assert_eq!(deque.back(), Some(&3));

    deque.pop_back();
    assert_eq!(deque.front(), Some(&2));
    assert_eq!(deque.back(), Some(&2));

    deque.pop_back();
    assert_eq!(deque.front(), None);
    assert_eq!(deque.back(), None);
}

#[test]
fn deque_test_empty_and_size() {
    let mut deque = get_deque();

    assert!(!deque.is_empty());
    assert_eq!(deque.size(), 3);

    deque.pop_front();
    assert_eq!(deque.size(), 2);
    deque.pop_front();
    assert_eq!(deque.size(), 1);
    deque.pop_front();
    assert_eq!(deque.size(), 0);
    assert!(deque.is_empty());
}

#[test]
fn deque_push_back_then_push_front() {
    let mut deque = get_deque();
    assert_eq!(deque.push_front(4), Ok(()));
    assert_eq!(deque.as_slice(), vec![4, 1, 2, 3]);
    assert_eq!(deque.front(), Some(&4));
    assert_eq!(deque.back(), Some(&3));
    assert_eq!(deque.size(), 4);
}

#[test]
fn deque_refuses_the_push_after_capacity_pushes() {
    for capacity in 0..6usize {
        let mut deque = Deque::new(capacity);
        for item in 0..capacity {
            let pushed = if item % 2 == 0 { deque.push_back(item) } else { deque.push_front(item) };
            assert_eq!(pushed, Ok(()));
        }
        assert_eq!(deque.size(), capacity);
        assert_eq!(deque.push_back(99), Err("Queue is full".to_string()));
        assert_eq!(deque.push_front(99), Err("Queue is full".to_string()));
        assert_eq!(deque.size(), capacity);
    }
}

#[test]
fn deque_full_push_leaves_the_items_alone() {
    let mut deque = Deque::new(2);
    deque.push_back(1).unwrap();
    deque.push_back(2).unwrap();
    assert!(deque.push_back(3).is_err());
    assert!(deque.push_front(0).is_err());
    assert_eq!(deque.as_slice(), vec![1, 2]);
}

#[test]
fn deque_has_room_again_after_a_pop() {
    let mut deque = Deque::new(3);
    deque.push_back(1).unwrap();
    deque.push_back(2).unwrap();
    deque.push_back(3).unwrap();
    assert!(deque.push_back(4).is_err());

    assert_eq!(deque.pop_front(), Some(1));
    assert_eq!(deque.push_back(4), Ok(()));
    assert!(deque.push_front(0).is_err());

    assert_eq!(deque.pop_back(), Some(4));
    assert_eq!(deque.push_front(0), Ok(()));
    assert!(deque.push_back(5).is_err());
    assert_eq!(deque.as_slice(), vec![0, 2, 3]);
}

#[test]
fn deque_with_no_capacity_refuses_every_push() {
    let mut deque: Deque<i32> = Deque::new(0);
    assert_eq!(deque.push_back(1), Err("Queue is full".to_string()));
    assert_eq!(deque.push_front(1), Err("Queue is full".to_string()));
    assert!(deque.is_empty());
    assert_eq!(deque.pop_back(), None);
    assert_eq!(deque.pop_front(), None);
    assert_eq!(deque.front(), None);
    assert_eq!(deque.back(), None);
}

#[test]
fn deque_new_is_empty() {
    let deque: Deque<i32> = Deque::new(4);
    assert!(deque.is_empty());
    assert_eq!(deque.size(), 0);
    assert_eq!(deque.as_slice(), Vec::<i32>::new());
}

#[test]
fn deque_back_pops_return_back_pushes_in_reverse() {
    let items = [5, 3, 8, 1, 9, 2];
    let mut deque = Deque::new(8);
    deque.push_back(100).unwrap();
    for item in items {
        deque.push_back(item).unwrap();
    }
    let mut popped = Vec::new();
    for _ in 0..items.len() {
        popped.push(deque.pop_back().unwrap());
    }
    assert_eq!(popped, vec![2, 9, 1, 8, 3, 5]);
    assert_eq!(deque.as_slice(), vec![100]);
}

#[test]
fn deque_front_pops_return_front_pushes_in_reverse() {
    let mut deque = Deque::new(3);
    deque.push_front(1).unwrap();
    deque.push_front(2).unwrap();
    deque.push_front(3).unwrap();
    assert_eq!(deque.as_slice(), vec![3, 2, 1]);
    assert_eq!(deque.pop_front(), Some(3));
    assert_eq!(deque.pop_front(), Some(2));
    assert_eq!(deque.pop_front(), Some(1));
    assert_eq!(deque.pop_front(), None);
}

#[test]
fn deque_front_pops_return_back_pushes_in_arrival_order() {
    let mut deque = Deque::new(3);
    deque.push_back(1).unwrap();
    deque.push_back(2).unwrap();
    deque.push_back(3).unwrap();
    assert_eq!(deque.pop_front(), Some(1));
    assert_eq!(deque.pop_front(), Some(2));
    assert_eq!(deque.pop_front(), Some(3));
    assert!(deque.is_empty());
}

#[test]
fn deque_single_item_is_front_and_back() {
    let mut deque = Deque::new(1);
    deque.push_front(7).unwrap();
    assert_eq!(deque.front(), Some(&7));
    assert_eq!(deque.back(), Some(&7));
    assert_eq!(deque.size(), 1);
    assert!(!deque.is_empty());
}

#[test]
fn deque_with_the_largest_capacity() {
    let mut deque: Deque<u64> = Deque::new(usize::MAX);
    assert!(deque.is_empty());
    assert_eq!(deque.push_back(1), Ok(()));
    assert_eq!(deque.push_front(0), Ok(()));
    assert_eq!(deque.as_slice(), vec![0, 1]);
}
