use mjpeg_relay::queue::{Dequeued, Enqueued, RelayQueue};
use mjpeg_relay::session::{step, Event, Phase};

fn take(q: &mut RelayQueue) -> Vec<u8> {
    match q.try_dequeue() {
        Dequeued::Frame(f) => f,
        other => panic!("unexpected {:?}", other),
    }
}

#[test]
fn queue_is_first_in_first_out() {
    let mut q = RelayQueue::new(8);
    assert!(q.is_empty());
    for i in 0..5u8 {
        assert!(matches!(q.try_enqueue(vec![0xFF, 0xD8, i, 0xFF, 0xD9]), Enqueued::Accepted));
    }
    assert_eq!(q.len(), 5);
    for i in 0..5u8 {
        assert_eq!(take(&mut q), vec![0xFF, 0xD8, i, 0xFF, 0xD9]);
    }
    assert!(matches!(q.try_dequeue(), Dequeued::Empty));
}

#[test]
fn full_queue_hands_frame_back_then_resumes() {
    let mut q = RelayQueue::new(2);
    assert_eq!(q.capacity(), 2);
    assert!(matches!(q.try_enqueue(vec![1]), Enqueued::Accepted));
    assert!(matches!(q.try_enqueue(vec![2]), Enqueued::Accepted));
    assert!(q.is_full());
    let back = match q.try_enqueue(vec![3]) {
        Enqueued::Full(f) => f,
        other => panic!("unexpected {:?}", other),
    };
    assert_eq!(back, vec![3]);
    assert_eq!(q.len(), 2);
    assert_eq!(take(&mut q), vec![1]);
    assert!(matches!(q.try_enqueue(back), Enqueued::Accepted));
    assert_eq!(take(&mut q), vec![2]);
    assert_eq!(take(&mut q), vec![3]);
}

#[test]
fn closed_queue_refuses_then_drains_then_ends() {
    let mut q = RelayQueue::new(4);
    assert!(matches!(q.try_enqueue(vec![7]), Enqueued::Accepted));
    q.close();
    assert!(q.is_closed());
    match q.try_enqueue(vec![8]) {
        Enqueued::Closed(f) => assert_eq!(f, vec![8]),
        other => panic!("unexpected {:?}", other),
    }
    assert_eq!(take(&mut q), vec![7]);
    assert!(matches!(q.try_dequeue(), Dequeued::Ended));
}

#[test]
fn queued_frames_survive_a_camera_reconnect() {
    let mut q = RelayQueue::new(8);
    assert!(matches!(q.try_enqueue(vec![0xFF, 0xD8, 1, 0xFF, 0xD9]), Enqueued::Accepted));
    let mut p = Phase::Serving;
    p = step(p, Event::ConnectionLost);
    p = step(p, Event::Bound);
    p = step(p, Event::Accepted);
    assert_eq!(p, Phase::Serving);
    assert!(matches!(q.try_enqueue(vec![0xFF, 0xD8, 2, 0xFF, 0xD9]), Enqueued::Accepted));
    assert_eq!(take(&mut q), vec![0xFF, 0xD8, 1, 0xFF, 0xD9]);
    assert_eq!(take(&mut q), vec![0xFF, 0xD8, 2, 0xFF, 0xD9]);
}
