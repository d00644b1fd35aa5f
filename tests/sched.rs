use firmware::sched::{ConfigError, Kernel};

// Tasks: 0 timer (3), 1 encoder_a (4), 2 encoder_b (4), 3 button (1),
// 4 line task (1), 5 serial receive (4).
// Resources: 0 terminal, 1 exti, 2 encoder, 3 tx, 4 line buffer.
fn device() -> Kernel {
    let prios = vec![3, 4, 4, 1, 1, 4];
    let uses = vec![(0, 0), (1, 1), (1, 2), (2, 1), (2, 2), (2, 3), (3, 3), (3, 1), (4, 0), (4, 4)];
    Kernel::new(prios, 5, uses).unwrap()
}

#[test]
fn ceilings_are_highest_user_priority() {
    let k = device();
    assert_eq!(k.ceiling(0), 3);
    assert_eq!(k.ceiling(1), 4);
    assert_eq!(k.ceiling(2), 4);
    assert_eq!(k.ceiling(3), 4);
    assert_eq!(k.ceiling(4), 1);
    assert_eq!(k.task_count(), 6);
    assert_eq!(k.priority(0), 3);
}

#[test]
fn unused_resource_has_ceiling_zero() {
    let k = Kernel::new(vec![2], 2, vec![(0, 0)]).unwrap();
    assert_eq!(k.ceiling(1), 0);
}

#[test]
fn configuration_errors() {
    assert_eq!(Kernel::new(vec![1, 0], 1, vec![]).err(), Some(ConfigError::ZeroPriority));
    assert_eq!(Kernel::new(vec![1], 1, vec![(1, 0)]).err(), Some(ConfigError::UnknownTask));
    assert_eq!(Kernel::new(vec![1], 1, vec![(0, 1)]).err(), Some(ConfigError::UnknownResource));
    assert_eq!(Kernel::new(vec![0], 1, vec![(3, 3)]).err(), Some(ConfigError::ZeroPriority));
}

#[test]
fn lock_raises_to_ceiling_and_blocks_users() {
    let mut k = device();
    assert_eq!(k.level(), 0);
    k.start(4);
    assert_eq!(k.level(), 1);
    k.lock(0);
    assert_eq!(k.level(), 3);
    // The timer shares the terminal and must wait; the encoder need not.
    assert!(!k.can_start(0));
    assert!(k.can_start(1));
    k.start(1);
    assert_eq!(k.running(), Some(1));
    assert_eq!(k.finish(), 1);
    assert_eq!(k.level(), 3);
    assert_eq!(k.unlock(), 0);
    assert_eq!(k.level(), 1);
    assert!(k.can_start(0));
    assert_eq!(k.finish(), 4);
    assert_eq!(k.running(), None);
}

#[test]
fn lock_below_current_level_keeps_it() {
    let mut k = device();
    k.start(2);
    k.lock(2);
    assert_eq!(k.level(), 4);
    k.unlock();
    assert_eq!(k.level(), 4);
    k.finish();
    assert_eq!(k.level(), 0);
}

#[test]
fn next_picks_highest_then_earliest() {
    let mut k = device();
    // Requests in order of arrival: button, timer, encoder_b, serial receive.
    let pending = vec![3, 0, 2, 5];
    assert_eq!(k.next(&pending), Some(2));
    assert_eq!(k.next(&vec![5, 2]), Some(0));
    assert_eq!(k.next(&vec![4, 3, 0]), Some(2));
    assert_eq!(k.next(&vec![4, 3]), Some(0));
    k.start(0);
    assert_eq!(k.next(&vec![4, 3, 0]), None);
    assert_eq!(k.next(&pending), Some(2));
    assert_eq!(k.next(&vec![]), None);
}

#[test]
fn equal_priority_does_not_preempt() {
    let mut k = device();
    k.start(1);
    assert!(!k.can_start(2));
    assert!(!k.can_start(5));
}
