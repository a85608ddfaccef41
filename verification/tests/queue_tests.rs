use triplewrapper_core::queue::{
    OperationQueue, Outcome, Priority, QueueConfig, QueueItem, QueueItemStatus,
};
use triplewrapper_core::types::{OperationId, OperationRequest, OperationType};

fn config(dir: &str) -> QueueConfig {
    QueueConfig {
        persistence_path: format!("{dir}/queue.json"),
        max_concurrent_operations: 1,
        ..Default::default()
    }
}

fn request(archive: &str) -> OperationRequest {
    OperationRequest {
        id: OperationId(0),
        op_type: OperationType::Extract,
        archive_path: archive.to_string(),
        output_path: Some("/out".to_string()),
        files_to_process: vec![],
        compression_level: 5,
        compression_format: None,
        workspace_override: None,
        verify_after: true,
        dry_run: false,
        password: None,
    }
}

#[test]
fn test_enqueue_dequeue() {
    let mut queue = OperationQueue::new(config("/tmp/q1"));
    let id = queue.enqueue(request("/test.zip"), Some(Priority::High));
    assert_eq!(queue.pending_count(), 1);
    let item = queue.dequeue().unwrap();
    assert_eq!(item.id, id);
    assert_eq!(item.priority, Priority::High);
    assert_eq!(item.status, QueueItemStatus::Running);
    assert!(item.started_at.is_some());
}

#[test]
fn test_priority_ordering() {
    let mut queue = OperationQueue::new(config("/tmp/q2"));
    for _ in 0..2 {
        queue.enqueue(request("/test.zip"), Some(Priority::Low));
    }
    queue.enqueue(request("/test2.zip"), Some(Priority::Critical));
    let item = queue.dequeue().unwrap();
    assert_eq!(item.priority, Priority::Critical);
}

#[test]
fn test_pause_resume() {
    let mut queue = OperationQueue::new(config("/tmp/q3"));
    assert!(!queue.is_paused());
    queue.pause();
    assert!(queue.is_paused());
    queue.resume();
    assert!(!queue.is_paused());
}

#[test]
fn test_batch_enqueue() {
    let mut queue = OperationQueue::new(config("/tmp/q4"));
    let requests: Vec<_> = (0..5).map(|_| (request("/test.zip"), Some(Priority::Normal))).collect();
    let ids = queue.enqueue_batch(requests);
    assert_eq!(ids.len(), 5);
    assert_eq!(queue.pending_count(), 5);
    let raw: Vec<u64> = ids.iter().map(|i| i.0).collect();
    assert_eq!(raw, vec![1, 2, 3, 4, 5]);
}

#[test]
fn test_pause_resume_item() {
    let mut queue = OperationQueue::new(config("/tmp/q5"));
    let id = queue.enqueue(request("/test.zip"), Some(Priority::Normal));
    queue.pause_item(id).unwrap();
    assert_eq!(queue.get_by_status(QueueItemStatus::Paused).len(), 1);
    queue.resume_item(id).unwrap();
    assert_eq!(queue.get_by_status(QueueItemStatus::Pending).len(), 1);
}

#[test]
fn equal_priorities_come_out_in_queue_order() {
    let mut queue = OperationQueue::new(config("/tmp/q6"));
    let a = queue.enqueue(request("/a.zip"), Some(Priority::Normal));
    let b = queue.enqueue(request("/b.zip"), None);
    let c = queue.enqueue(request("/c.zip"), Some(Priority::High));
    let order: Vec<OperationId> = queue.get_all().iter().map(|i| i.id).collect();
    assert_eq!(order, vec![c, a, b]);
    assert_eq!(queue.dequeue().unwrap().id, c);
    assert_eq!(queue.dequeue().unwrap().id, a);
    assert_eq!(queue.dequeue().unwrap().id, b);
    assert!(queue.dequeue().is_none());
}

#[test]
fn retry_cancel_and_unknown_ids() {
    let mut queue = OperationQueue::new(config("/tmp/q7"));
    let id = queue.enqueue(request("/a.zip"), None);
    assert!(queue.retry_item(id).is_err());
    queue.update_status(id, QueueItemStatus::Failed).unwrap();
    for _ in 0..3 {
        queue.retry_item(id).unwrap();
        queue.update_status(id, QueueItemStatus::Failed).unwrap();
    }
    let err = queue.retry_item(id).unwrap_err();
    assert_eq!(err.message(), "Internal error: Max retries exceeded");
    let err = queue.pause_item(OperationId(999)).unwrap_err();
    assert_eq!(err.message(), "Internal error: Queue item not found: 999");
    queue.cancel_item(id).unwrap();
    let all = queue.get_all();
    assert_eq!(all[0].status, QueueItemStatus::Cancelled);
    assert!(all[0].completed_at.is_some());
    assert!(queue.resume_item(id).is_err());
}

#[test]
fn running_set_and_outcomes() {
    let mut queue = OperationQueue::new(config("/tmp/q8"));
    let id = queue.enqueue(request("/a.zip"), None);
    assert!(queue.can_accept_work());
    let mut item: QueueItem = queue.dequeue().unwrap();
    queue.mark_running(item.id);
    assert_eq!(queue.running_count(), 1);
    assert!(!queue.can_accept_work());
    let status = queue.record_outcome(&mut item, Outcome::Failed("boom".to_string()));
    assert_eq!(status, QueueItemStatus::Pending);
    assert_eq!(item.retry_count, 1);
    assert_eq!(item.error_message.as_deref(), Some("boom"));
    assert_eq!(queue.running_count(), 0);
    assert_eq!(item.id, id);
}

#[test]
fn cleanup_drops_only_old_finished_items() {
    let mut queue = OperationQueue::new(config("/tmp/q9"));
    let a = queue.enqueue(request("/a.zip"), None);
    let b = queue.enqueue(request("/b.zip"), None);
    queue.update_status(a, QueueItemStatus::Completed).unwrap();
    // Far in the future: every finished item is older.
    let removed = queue.cleanup_before(u64::MAX);
    assert_eq!(removed, 1);
    let left: Vec<OperationId> = queue.get_all().iter().map(|i| i.id).collect();
    assert_eq!(left, vec![b]);
    assert_eq!(queue.cleanup_old(0), 0);
}

#[test]
fn restart_requeues_running_and_drops_finished() {
    let mut first = OperationQueue::new(config("/tmp/q10"));
    let a = first.enqueue(request("/a.zip"), Some(Priority::Low));
    let b = first.enqueue(request("/b.zip"), Some(Priority::High));
    let c = first.enqueue(request("/c.zip"), None);
    first.update_status(b, QueueItemStatus::Running).unwrap();
    first.update_status(c, QueueItemStatus::Completed).unwrap();
    let saved = first.get_all();
    let mut second = OperationQueue::new(config("/tmp/q10"));
    second.load(saved);
    let items = second.get_all();
    let ids: Vec<OperationId> = items.iter().map(|i| i.id).collect();
    assert_eq!(ids, vec![b, a]);
    assert_eq!(items[0].status, QueueItemStatus::Pending);
    assert!(items[0].started_at.is_none());
}
