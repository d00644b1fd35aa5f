use firmware::queue::{Rejected, SpawnQueue, QUEUE_CAPACITY};

#[test]
fn hundred_and_first_request_is_rejected() {
    let mut q = SpawnQueue::new();
    for i in 0..100u32 {
        assert_eq!(q.try_spawn(i as u8), Ok(()));
    }
    assert_eq!(q.len(), QUEUE_CAPACITY);
    assert_eq!(q.try_spawn(200), Err(Rejected(200)));
    assert_eq!(q.len(), 100);
    for i in 0..100u32 {
        assert_eq!(q.pop(), Some(i as u8));
    }
    assert_eq!(q.pop(), None);
}

#[test]
fn queue_keeps_order_across_wraparound() {
    let mut q = SpawnQueue::new();
    for round in 0..5u32 {
        for i in 0..70u32 {
            assert_eq!(q.try_spawn((round * 70 + i) as u8), Ok(()));
        }
        for i in 0..70u32 {
            assert_eq!(q.pop(), Some((round * 70 + i) as u8));
        }
    }
    assert_eq!(q.len(), 0);
}

#[test]
fn empty_queue_pops_nothing() {
    let mut q = SpawnQueue::new();
    assert_eq!(q.pop(), None);
    assert_eq!(q.len(), 0);
}
