use nimble::queue::{BuildJob, JobQueue, QueueError};

#[test]
fn jobs_leave_in_fifo_order() {
    let mut q: JobQueue<BuildJob> = JobQueue::new(100);
    q.try_send(BuildJob { build_id: 1, deploy: true }).unwrap();
    q.try_send(BuildJob { build_id: 2, deploy: false }).unwrap();
    q.try_send(BuildJob { build_id: 3, deploy: true }).unwrap();
    assert_eq!(q.try_recv().unwrap().build_id, 1);
    assert_eq!(q.try_recv().unwrap().build_id, 2);
    assert_eq!(q.try_recv().unwrap().build_id, 3);
    assert!(q.try_recv().is_none());
}

#[test]
fn full_queue_refuses_the_next_job() {
    let mut q: JobQueue<BuildJob> = JobQueue::new(2);
    q.try_send(BuildJob { build_id: 1, deploy: true }).unwrap();
    q.try_send(BuildJob { build_id: 2, deploy: true }).unwrap();
    let err = q.try_send(BuildJob { build_id: 3, deploy: true }).unwrap_err();
    assert_eq!(err, QueueError::Full);
    assert_eq!(q.len(), 2);
}

#[test]
fn draining_a_full_queue_makes_room() {
    let mut q: JobQueue<BuildJob> = JobQueue::new(1);
    q.try_send(BuildJob { build_id: 1, deploy: true }).unwrap();
    assert!(q.try_send(BuildJob { build_id: 2, deploy: true }).is_err());
    assert_eq!(q.try_recv().unwrap().build_id, 1);
    q.try_send(BuildJob { build_id: 2, deploy: true }).unwrap();
}

#[test]
fn closed_queue_refuses_sends_but_drains() {
    let mut q: JobQueue<BuildJob> = JobQueue::new(4);
    q.try_send(BuildJob { build_id: 1, deploy: true }).unwrap();
    q.close();
    let err = q.try_send(BuildJob { build_id: 2, deploy: true }).unwrap_err();
    assert_eq!(err, QueueError::Closed);
    assert_eq!(q.try_recv().unwrap().build_id, 1);
    assert!(q.try_recv().is_none());
}

#[test]
fn zero_capacity_refuses_everything() {
    let mut q: JobQueue<BuildJob> = JobQueue::new(0);
    let err = q.try_send(BuildJob { build_id: 1, deploy: false }).unwrap_err();
    assert_eq!(err, QueueError::Full);
}
