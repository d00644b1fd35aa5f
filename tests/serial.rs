use firmware::line::{LineAssembler, RxError};
use firmware::queue::SpawnQueue;
use firmware::serial::{receive, run_pending, RxEvent};

#[test]
fn fault_queues_marker_and_newline() {
    let mut q = SpawnQueue::new();
    assert_eq!(receive(&mut q, RxEvent::Byte(b'a')), 1);
    assert_eq!(receive(&mut q, RxEvent::Fault(RxError::Framing)), 2);
    assert_eq!(q.pop(), Some(b'a'));
    assert_eq!(q.pop(), Some(b'F'));
    assert_eq!(q.pop(), Some(b'\n'));
    assert_eq!(q.pop(), None);
}

#[test]
fn full_queue_drops_received_bytes() {
    let mut q = SpawnQueue::new();
    for _ in 0..99 {
        receive(&mut q, RxEvent::Byte(b'x'));
    }
    assert_eq!(receive(&mut q, RxEvent::Fault(RxError::Noise)), 1);
    assert_eq!(receive(&mut q, RxEvent::Byte(b'y')), 0);
    assert_eq!(q.len(), 100);
}

#[test]
fn pending_requests_become_lines() {
    let mut q = SpawnQueue::new();
    let mut a = LineAssembler::new();
    for b in b"hi\nab" {
        receive(&mut q, RxEvent::Byte(*b));
    }
    receive(&mut q, RxEvent::Fault(RxError::Overrun));
    receive(&mut q, RxEvent::Byte(b'c'));
    let lines = run_pending(&mut q, &mut a);
    assert_eq!(lines, vec![String::from("hi"), String::from("abO")]);
    assert_eq!(q.len(), 0);
    assert_eq!(a.pending(), "c");
}
