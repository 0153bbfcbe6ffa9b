use retry_queue::error::StorageError;
use retry_queue::repository::{
    enqueue_public_highlight_job_at, get_public_highlight_retry_jobs,
    mark_public_highlight_job_success, update_public_highlight_job_failure, QueueStore,
};

fn ids(jobs: &[retry_queue::job::PublicHighlightRetryJob]) -> Vec<i64> {
    jobs.iter().map(|j| j.id).collect()
}

#[test]
fn publish_job_fails_once_then_succeeds() {
    let mut store = QueueStore::initialized();
    let id = enqueue_public_highlight_job_at(&mut store, "publish".to_string(), "{}".to_string(), 1000)
        .unwrap();
    assert_eq!(id, 1);
    let row = store.table().unwrap().find(1).unwrap();
    assert_eq!(row.attempts, 0);
    assert_eq!(row.created_at, 1000);
    assert_eq!(row.next_retry_at, 1000);
    assert_eq!(row.last_error, None);

    let batch = get_public_highlight_retry_jobs(&mut store, 10, 1000, 0).unwrap();
    assert_eq!(ids(&batch), vec![1]);

    update_public_highlight_job_failure(&mut store, 1, 1, 5000, Some("timeout".to_string())).unwrap();
    let row = store.table().unwrap().find(1).unwrap();
    assert_eq!(row.attempts, 1);
    assert_eq!(row.next_retry_at, 5000);
    assert_eq!(row.created_at, 1000);
    assert_eq!(row.last_error, Some("timeout".to_string()));

    let batch = get_public_highlight_retry_jobs(&mut store, 10, 1000, 0).unwrap();
    assert!(batch.is_empty());

    let batch = get_public_highlight_retry_jobs(&mut store, 10, 5000, 0).unwrap();
    assert_eq!(ids(&batch), vec![1]);
    assert_eq!(batch[0].job_type, "publish");
    assert_eq!(batch[0].payload_json, "{}");

    mark_public_highlight_job_success(&mut store, 1).unwrap();
    assert_eq!(store.table().unwrap().len(), 0);
    assert!(store.table().unwrap().find(1).is_none());

    let batch = get_public_highlight_retry_jobs(&mut store, 10, 5000, 0).unwrap();
    assert!(batch.is_empty());
}

#[test]
fn stale_job_is_purged_and_not_returned() {
    let mut store = QueueStore::initialized();
    enqueue_public_highlight_job_at(&mut store, "publish".to_string(), "{}".to_string(), 1000).unwrap();
    let batch = get_public_highlight_retry_jobs(&mut store, 10, 2000, 1500).unwrap();
    assert!(batch.is_empty());
    assert_eq!(store.table().unwrap().len(), 0);
}

#[test]
fn uninitialized_storage_fails_every_operation() {
    let mut store = QueueStore::uninitialized();
    assert!(!store.is_initialized());
    assert_eq!(
        enqueue_public_highlight_job_at(&mut store, "publish".to_string(), "{}".to_string(), 1),
        Err(StorageError::NotInitialized)
    );
    assert_eq!(
        get_public_highlight_retry_jobs(&mut store, 10, 1, 0).err(),
        Some(StorageError::NotInitialized)
    );
    assert_eq!(mark_public_highlight_job_success(&mut store, 1), Err(StorageError::NotInitialized));
    assert_eq!(
        update_public_highlight_job_failure(&mut store, 1, 1, 2, None),
        Err(StorageError::NotInitialized)
    );
    assert_eq!(StorageError::NotInitialized.message(), "Database not initialized");
}
