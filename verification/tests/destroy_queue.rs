use aurenfox::framework::destroy_queue::DestroyQueue;

#[test]
fn new_queue_is_empty() {
    let mut q = DestroyQueue::new();
    assert!(q.is_empty());
    assert_eq!(q.len(), 0);
    assert_eq!(q.drain(), Vec::<usize>::new());
}

#[test]
fn drain_is_first_in_first_out() {
    let mut q = DestroyQueue::new();
    q.enqueue(3);
    q.enqueue(1);
    q.enqueue(2);
    assert_eq!(q.len(), 3);
    assert!(!q.is_empty());
    assert_eq!(q.drain(), vec![3, 1, 2]);
}

#[test]
fn a_second_drain_finds_nothing() {
    let mut q = DestroyQueue::new();
    q.enqueue(4);
    q.enqueue(4);
    q.enqueue(9);
    assert_eq!(q.drain(), vec![4, 4, 9]);
    assert_eq!(q.drain(), Vec::<usize>::new());
    assert!(q.is_empty());
}

#[test]
fn the_queue_is_usable_after_a_drain() {
    let mut q = DestroyQueue::new();
    q.enqueue(1);
    assert_eq!(q.drain(), vec![1]);
    q.enqueue(2);
    q.enqueue(3);
    assert_eq!(q.drain(), vec![2, 3]);
    assert_eq!(q.drain(), Vec::<usize>::new());
}
