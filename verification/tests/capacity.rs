use linear_containers::capacity::capacity_exceeded;
use linear_containers::deque::Deque;
use linear_containers::queue::Queue;

#[test]
fn capacity_exceeded_says_the_queue_is_full() {
    assert_eq!(capacity_exceeded(), "Queue is full".to_string());
}

#[test]
fn full_containers_answer_with_the_same_error() {
    let mut deque: Deque<u8> = Deque::new(0);
    let mut queue: Queue<u8> = Queue::new(0);
    assert_eq!(deque.push_back(1), Err(capacity_exceeded()));
    assert_eq!(deque.push_front(1), Err(capacity_exceeded()));
    assert_eq!(queue.push(1), Err(capacity_exceeded()));
}
