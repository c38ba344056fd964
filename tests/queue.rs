use scrim_bot::error::Error;
use scrim_bot::queue::Queue;

fn full_queue() -> Queue {
    let mut q = Queue::new();
    for id in 1..=10u64 {
        assert_eq!(q.join(id), Ok(id as usize));
    }
    q
}

#[test]
fn join_appends_and_reports_size() {
    let mut q = Queue::new();
    assert_eq!(q.join(7), Ok(1));
    assert_eq!(q.join(3), Ok(2));
    assert_eq!(q.members, vec![7, 3]);
    assert_eq!(q.len(), 2);
    assert!(q.contains(3));
    assert!(!q.contains(4));
}

#[test]
fn join_twice_fails_already_queued() {
    let mut q = Queue::new();
    q.join(7).unwrap();
    assert_eq!(q.join(7), Err(Error::AlreadyQueued));
    assert_eq!(q.members, vec![7]);
}

#[test]
fn join_at_ten_fails_queue_full_and_keeps_queue() {
    let mut q = full_queue();
    let before = q.members.clone();
    assert_eq!(q.join(11), Err(Error::QueueFull));
    assert_eq!(q.members, before);
    // a member asking again at ten is refused as full too
    assert_eq!(q.join(4), Err(Error::QueueFull));
    assert_eq!(q.members, before);
}

#[test]
fn leave_removes_and_keeps_order() {
    let mut q = Queue::new();
    for id in [5u64, 6, 7, 8] {
        q.join(id).unwrap();
    }
    assert_eq!(q.leave(6), Ok(3));
    assert_eq!(q.members, vec![5, 7, 8]);
    assert_eq!(q.position(8), Some(2));
    assert_eq!(q.position(6), None);
}

#[test]
fn leave_absent_fails_not_queued() {
    let mut q = Queue::new();
    q.join(1).unwrap();
    assert_eq!(q.leave(2), Err(Error::NotQueued));
    assert_eq!(q.members, vec![1]);
}

#[test]
fn clear_empties_queue() {
    let mut q = full_queue();
    q.clear();
    assert_eq!(q.len(), 0);
}

#[test]
fn queue_bounded_and_unique_over_many_operations() {
    let mut q = Queue::new();
    let mut seed: u64 = 12345;
    for _ in 0..5000 {
        seed = seed.wrapping_mul(6364136223846793005).wrapping_add(1442695040888963407);
        let id = (seed >> 33) % 16;
        if (seed >> 20) % 3 == 0 {
            let _ = q.leave(id);
        } else {
            let _ = q.join(id);
        }
        assert!(q.len() <= 10);
        let mut seen = q.members.clone();
        seen.sort();
        seen.dedup();
        assert_eq!(seen.len(), q.len());
    }
}
