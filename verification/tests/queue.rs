use server::queue::JobQueue;
use server::queue::Received;

#[test]
fn new_queue_is_open_and_empty() {
    let queue: JobQueue<u32> = JobQueue::new();
    assert!(queue.is_open());
    assert_eq!(queue.len(), 0);
}

#[test]
fn receive_on_open_empty_queue_is_empty() {
    let mut queue: JobQueue<u32> = JobQueue::new();
    assert!(matches!(queue.receive(), Received::Empty));
    assert!(queue.is_open());
}

#[test]
fn receive_is_first_in_first_out() {
    let mut queue = JobQueue::new();
    queue.send(7u32);
    queue.send(8);
    queue.send(9);
    assert_eq!(queue.len(), 3);
    assert!(matches!(queue.receive(), Received::Job(7)));
    assert!(matches!(queue.receive(), Received::Job(8)));
    assert_eq!(queue.len(), 1);
    assert!(matches!(queue.receive(), Received::Job(9)));
    assert!(matches!(queue.receive(), Received::Empty));
}

#[test]
fn closed_queue_is_drained_before_it_disconnects() {
    let mut queue = JobQueue::new();
    queue.send(1u32);
    queue.send(2);
    queue.close();
    assert!(!queue.is_open());
    assert_eq!(queue.len(), 2);
    assert!(matches!(queue.receive(), Received::Job(1)));
    assert!(matches!(queue.receive(), Received::Job(2)));
    assert!(matches!(queue.receive(), Received::Disconnected));
    assert!(matches!(queue.receive(), Received::Disconnected));
}

#[test]
fn closing_twice_changes_nothing() {
    let mut queue = JobQueue::new();
    queue.send(5u32);
    queue.close();
    queue.close();
    assert!(!queue.is_open());
    assert!(matches!(queue.receive(), Received::Job(5)));
    assert!(matches!(queue.receive(), Received::Disconnected));
}
