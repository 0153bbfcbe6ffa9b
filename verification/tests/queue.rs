use retry_queue::error::StorageError;
use retry_queue::job::PublicHighlightRetryJob;
use retry_queue::repository::{
    enqueue_public_highlight_job, enqueue_public_highlight_job_at,
    get_public_highlight_retry_jobs, mark_public_highlight_job_success,
    update_public_highlight_job_failure, QueueStore,
};
use retry_queue::table::JobTable;

fn job(id: i64, created_at: i64, next_retry_at: i64) -> PublicHighlightRetryJob {
    PublicHighlightRetryJob {
        id,
        job_type: "publish".to_string(),
        payload_json: format!("{{\"n\":{}}}", id),
        attempts: 0,
        created_at,
        next_retry_at,
        last_error: None,
    }
}

fn table_of(rows: Vec<PublicHighlightRetryJob>, last_id: i64) -> JobTable {
    JobTable::from_rows(rows, last_id).unwrap()
}

fn batch_ids(batch: &[PublicHighlightRetryJob]) -> Vec<i64> {
    batch.iter().map(|j| j.id).collect()
}

#[test]
fn enqueue_assigns_growing_identities_from_one() {
    let mut table = JobTable::new();
    assert_eq!(table.last_id(), 0);
    assert_eq!(table.enqueue("publish".to_string(), "a".to_string(), 10), Ok(1));
    assert_eq!(table.enqueue("publish".to_string(), "b".to_string(), 11), Ok(2));
    assert_eq!(table.enqueue("other".to_string(), "c".to_string(), 12), Ok(3));
    assert_eq!(table.last_id(), 3);
    assert_eq!(table.len(), 3);
    let rows = table.rows();
    assert_eq!(batch_ids(&rows), vec![1, 2, 3]);
    assert_eq!(rows[2].job_type, "other");
    assert_eq!(rows[2].payload_json, "c");
    assert_eq!(rows[2].attempts, 0);
    assert_eq!(rows[2].created_at, 12);
    assert_eq!(rows[2].next_retry_at, 12);
    assert_eq!(rows[2].last_error, None);
}

#[test]
fn duplicate_payloads_make_distinct_jobs() {
    let mut table = JobTable::new();
    let a = table.enqueue("publish".to_string(), "{}".to_string(), 5).unwrap();
    let b = table.enqueue("publish".to_string(), "{}".to_string(), 5).unwrap();
    assert_ne!(a, b);
    assert_eq!(table.len(), 2);
}

#[test]
fn identities_are_not_reused_after_deletion() {
    let mut table = JobTable::new();
    table.enqueue("publish".to_string(), "a".to_string(), 1).unwrap();
    table.enqueue("publish".to_string(), "b".to_string(), 2).unwrap();
    assert_eq!(table.mark_success(2), 1);
    assert_eq!(table.enqueue("publish".to_string(), "c".to_string(), 3), Ok(3));
    assert_eq!(batch_ids(&table.rows()), vec![1, 3]);
}

#[test]
fn enqueue_fails_when_identities_are_exhausted() {
    let mut table = table_of(vec![job(7, 1, 1)], i64::MAX);
    assert_eq!(
        table.enqueue("publish".to_string(), "{}".to_string(), 2),
        Err(StorageError::IdentitiesExhausted)
    );
    assert_eq!(table.len(), 1);
    assert_eq!(table.last_id(), i64::MAX);

    let mut last = table_of(vec![], i64::MAX - 1);
    assert_eq!(last.enqueue("publish".to_string(), "{}".to_string(), 2), Ok(i64::MAX));
    assert_eq!(
        last.enqueue("publish".to_string(), "{}".to_string(), 3),
        Err(StorageError::IdentitiesExhausted)
    );
}

#[test]
fn attempts_equal_the_number_of_failure_reports() {
    let mut table = JobTable::new();
    let id = table.enqueue("publish".to_string(), "{}".to_string(), 100).unwrap();
    for n in 1..=4 {
        let before = table.find(id).unwrap().attempts;
        assert_eq!(table.mark_failure(id, before + 1, 100 + n * 10, Some(format!("e{}", n))), 1);
        assert_eq!(table.find(id).unwrap().attempts, n);
    }
    let row = table.find(id).unwrap();
    assert_eq!(row.attempts, 4);
    assert_eq!(row.next_retry_at, 140);
    assert_eq!(row.last_error, Some("e4".to_string()));
    assert_eq!(row.created_at, 100);
}

#[test]
fn failure_report_overwrites_only_the_named_row() {
    let mut table = table_of(vec![job(1, 10, 10), job(2, 20, 20), job(3, 30, 30)], 3);
    assert_eq!(table.mark_failure(2, 5, 99, Some("boom".to_string())), 1);
    let rows = table.rows();
    assert_eq!(rows[0], job(1, 10, 10));
    assert_eq!(rows[2], job(3, 30, 30));
    assert_eq!(rows[1].id, 2);
    assert_eq!(rows[1].attempts, 5);
    assert_eq!(rows[1].next_retry_at, 99);
    assert_eq!(rows[1].created_at, 20);
    assert_eq!(rows[1].last_error, Some("boom".to_string()));
    assert_eq!(rows[1].payload_json, "{\"n\":2}");
    assert_eq!(table.mark_failure(2, 6, 120, None), 1);
    assert_eq!(table.find(2).unwrap().last_error, None);
    assert_eq!(table.find(2).unwrap().attempts, 6);
}

#[test]
fn failure_report_for_absent_job_is_a_no_op() {
    let mut table = table_of(vec![job(1, 10, 10), job(3, 30, 30)], 3);
    assert_eq!(table.mark_failure(2, 1, 50, Some("x".to_string())), 0);
    assert_eq!(table.mark_failure(4, 1, 50, None), 0);
    assert_eq!(table.rows(), vec![job(1, 10, 10), job(3, 30, 30)]);
}

#[test]
fn success_report_is_idempotent() {
    let mut table = table_of(vec![job(1, 10, 10), job(2, 20, 20), job(3, 30, 30)], 3);
    assert_eq!(table.mark_success(2), 1);
    let after_first = table.rows();
    assert_eq!(batch_ids(&after_first), vec![1, 3]);
    assert_eq!(table.mark_success(2), 0);
    assert_eq!(table.rows(), after_first);
    assert_eq!(table.last_id(), 3);

    let mut store = QueueStore::with_table(table);
    assert_eq!(mark_public_highlight_job_success(&mut store, 2), Ok(()));
    assert_eq!(mark_public_highlight_job_success(&mut store, 2), Ok(()));
    assert_eq!(store.table().unwrap().rows(), after_first);
}

#[test]
fn lookup_finds_first_middle_and_last_row() {
    let table = table_of(vec![job(2, 1, 1), job(5, 2, 2), job(9, 3, 3), job(10, 4, 4)], 12);
    for id in [2, 5, 9, 10] {
        assert!(table.contains(id));
        assert_eq!(table.find(id).unwrap().id, id);
    }
    for id in [-1, 0, 1, 3, 8, 11, 12, i64::MAX, i64::MIN] {
        assert!(!table.contains(id));
        assert!(table.find(id).is_none());
    }
}

#[test]
fn selection_returns_no_expired_and_no_early_job() {
    let mut table = table_of(
        vec![job(1, 50, 60), job(2, 100, 100), job(3, 100, 300), job(4, 150, 200), job(5, 99, 99)],
        5,
    );
    let batch = table.select_ready(10, 200, 100);
    assert_eq!(batch_ids(&batch), vec![2, 4]);
    for j in &batch {
        assert!(j.created_at >= 100);
        assert!(j.next_retry_at <= 200);
    }
}

#[test]
fn purge_deletes_expired_rows_that_were_never_returned() {
    let mut table = table_of(
        vec![job(1, 10, 10), job(2, 20, 500), job(3, 100, 100), job(4, 110, 110), job(5, 120, 120)],
        5,
    );
    let batch = table.select_ready(1, 200, 100);
    assert_eq!(batch_ids(&batch), vec![3]);
    let left = table.rows();
    assert_eq!(batch_ids(&left), vec![3, 4, 5]);
    assert!(left.iter().all(|j| j.created_at >= 100));
}

#[test]
fn purge_counts_what_it_deletes() {
    let mut table = table_of(vec![job(1, 10, 10), job(2, 20, 20), job(3, 30, 30)], 3);
    assert_eq!(table.purge_expired(10), 0);
    assert_eq!(table.len(), 3);
    assert_eq!(table.purge_expired(21), 2);
    assert_eq!(batch_ids(&table.rows()), vec![3]);
    assert_eq!(table.purge_expired(i64::MAX), 1);
    assert_eq!(table.len(), 0);
    assert_eq!(table.last_id(), 3);
}

#[test]
fn fresh_job_is_selected_at_its_creation_time() {
    let mut table = table_of(vec![job(1, 10, 10), job(2, 20, 5000)], 2);
    let id = table.enqueue("publish".to_string(), "new".to_string(), 1000).unwrap();
    let batch = table.select_ready(1, 1000, 1000);
    assert_eq!(batch.len(), 1);
    assert_eq!(batch[0].id, id);
    assert_eq!(batch[0].payload_json, "new");
    assert_eq!(batch[0].created_at, 1000);
    assert_eq!(batch[0].next_retry_at, 1000);
    assert_eq!(batch_ids(&table.rows()), vec![id]);
}

#[test]
fn job_is_not_ready_one_millisecond_early() {
    let mut table = JobTable::new();
    table.enqueue("publish".to_string(), "{}".to_string(), 1000).unwrap();
    assert!(table.select_ready(1, 999, 0).is_empty());
    assert_eq!(table.select_ready(1, 1000, 0).len(), 1);
}

#[test]
fn older_job_of_the_same_millisecond_goes_first() {
    let mut table = JobTable::new();
    let first = table.enqueue("publish".to_string(), "a".to_string(), 1000).unwrap();
    let second = table.enqueue("publish".to_string(), "b".to_string(), 1000).unwrap();
    let batch = table.select_ready(1, 1000, 1000);
    assert_eq!(batch_ids(&batch), vec![first]);
    let both = table.select_ready(2, 1000, 1000);
    assert_eq!(batch_ids(&both), vec![first, second]);
}

#[test]
fn selection_orders_by_retry_time_then_identity() {
    let mut table = table_of(
        vec![
            job(1, 0, 500),
            job(2, 0, 100),
            job(3, 0, 300),
            job(4, 0, 100),
            job(5, 0, 50),
            job(6, 0, 300),
            job(7, 0, 900),
        ],
        7,
    );
    let batch = table.select_ready(10, 600, 0);
    assert_eq!(batch_ids(&batch), vec![5, 2, 4, 3, 6, 1]);
    assert_eq!(table.len(), 7);
}

#[test]
fn selection_keeps_the_earliest_when_the_limit_cuts() {
    let rows = vec![
        job(1, 0, 500),
        job(2, 0, 100),
        job(3, 0, 300),
        job(4, 0, 100),
        job(5, 0, 50),
        job(6, 0, 300),
    ];
    let table = table_of(rows, 6);
    assert_eq!(batch_ids(&table.ready_batch(1, 600, 0)), vec![5]);
    assert_eq!(batch_ids(&table.ready_batch(2, 600, 0)), vec![5, 2]);
    assert_eq!(batch_ids(&table.ready_batch(3, 600, 0)), vec![5, 2, 4]);
    assert_eq!(batch_ids(&table.ready_batch(4, 600, 0)), vec![5, 2, 4, 3]);
    assert_eq!(batch_ids(&table.ready_batch(6, 600, 0)), vec![5, 2, 4, 3, 6, 1]);
    assert_eq!(batch_ids(&table.ready_batch(7, 600, 0)), vec![5, 2, 4, 3, 6, 1]);
    assert_eq!(batch_ids(&table.ready_batch(i64::MAX, 600, 0)), vec![5, 2, 4, 3, 6, 1]);
}

#[test]
fn limit_zero_selects_nothing_and_negative_limit_sets_no_bound() {
    let mut table = table_of(vec![job(1, 5, 30), job(2, 10, 20), job(3, 10, 10)], 3);
    assert!(table.ready_batch(0, 100, 0).is_empty());
    assert_eq!(batch_ids(&table.ready_batch(-1, 100, 0)), vec![3, 2, 1]);
    assert_eq!(batch_ids(&table.ready_batch(i64::MIN, 100, 0)), vec![3, 2, 1]);
    assert!(table.select_ready(0, 100, 10).is_empty());
    assert_eq!(batch_ids(&table.rows()), vec![2, 3]);
}

#[test]
fn selection_claims_nothing() {
    let mut table = table_of(vec![job(1, 0, 10), job(2, 0, 20), job(3, 0, 30)], 3);
    let first = table.select_ready(2, 25, 0);
    let again = table.select_ready(2, 25, 0);
    assert_eq!(first, again);
    assert_eq!(batch_ids(&first), vec![1, 2]);
    assert_eq!(table.len(), 3);
    let later = table.select_ready(5, 30, 0);
    assert_eq!(batch_ids(&later), vec![1, 2, 3]);
}

#[test]
fn cutoff_after_now_purges_and_selects_what_is_left() {
    let mut table = table_of(vec![job(1, 10, 10), job(2, 200, 50), job(3, 300, 300)], 3);
    let batch = table.select_ready(10, 100, 150);
    assert_eq!(batch_ids(&batch), vec![2]);
    assert_eq!(batch_ids(&table.rows()), vec![2, 3]);
}

#[test]
fn rows_round_trip_through_a_snapshot() {
    let mut table = JobTable::new();
    table.enqueue("publish".to_string(), "a".to_string(), 1).unwrap();
    table.enqueue("publish".to_string(), "b".to_string(), 2).unwrap();
    table.mark_failure(1, 1, 9, Some("late".to_string()));
    let copy = JobTable::from_rows(table.rows(), table.last_id()).unwrap();
    assert_eq!(copy.rows(), table.rows());
    assert_eq!(copy.last_id(), 2);
    assert_eq!(copy.len(), 2);
}

#[test]
fn rows_that_are_no_table_are_refused() {
    assert!(JobTable::from_rows(vec![], 0).is_some());
    assert!(JobTable::from_rows(vec![], -1).is_none());
    assert!(JobTable::from_rows(vec![job(1, 0, 0)], 0).is_none());
    assert!(JobTable::from_rows(vec![job(0, 0, 0)], 5).is_none());
    assert!(JobTable::from_rows(vec![job(-3, 0, 0)], 5).is_none());
    assert!(JobTable::from_rows(vec![job(2, 0, 0), job(2, 0, 0)], 5).is_none());
    assert!(JobTable::from_rows(vec![job(3, 0, 0), job(2, 0, 0)], 5).is_none());
    assert!(JobTable::from_rows(vec![job(1, 0, 0), job(2, 0, 0), job(6, 0, 0)], 5).is_none());
    assert!(JobTable::from_rows(vec![job(1, 0, 0), job(2, 0, 0), job(5, 0, 0)], 5).is_some());
    assert!(JobTable::from_rows(vec![job(i64::MAX, 0, 0)], i64::MAX).is_some());
}

#[test]
fn repository_uses_the_clock_for_new_jobs() {
    let mut store = QueueStore::initialized();
    let id = enqueue_public_highlight_job(&mut store, "publish".to_string(), "{}".to_string()).unwrap();
    assert_eq!(id, 1);
    let row = store.table().unwrap().find(id).unwrap();
    assert_eq!(row.created_at, row.next_retry_at);
    assert_eq!(row.attempts, 0);
    // Later than the first of January 2020, in milliseconds.
    assert!(row.created_at > 1_577_836_800_000);
    let second = enqueue_public_highlight_job(&mut store, "publish".to_string(), "{}".to_string()).unwrap();
    assert_eq!(second, 2);
    let batch = get_public_highlight_retry_jobs(&mut store, 10, i64::MAX, 0).unwrap();
    assert_eq!(batch.len(), 2);
    assert!(batch[0].is_due_before(&batch[1]));
}

#[test]
fn repository_reports_exhausted_identities() {
    let mut store = QueueStore::with_table(table_of(vec![], i64::MAX));
    assert!(store.is_initialized());
    assert_eq!(
        enqueue_public_highlight_job_at(&mut store, "publish".to_string(), "{}".to_string(), 1),
        Err(StorageError::IdentitiesExhausted)
    );
    assert_eq!(
        enqueue_public_highlight_job(&mut store, "publish".to_string(), "{}".to_string()),
        Err(StorageError::IdentitiesExhausted)
    );
    assert_eq!(
        StorageError::IdentitiesExhausted.message(),
        "Failed to enqueue public highlight job: identities exhausted"
    );
}

#[test]
fn repository_reports_are_silent_for_absent_jobs() {
    let mut store = QueueStore::initialized();
    assert_eq!(mark_public_highlight_job_success(&mut store, 42), Ok(()));
    assert_eq!(update_public_highlight_job_failure(&mut store, 42, 3, 10, Some("x".to_string())), Ok(()));
    assert_eq!(store.table().unwrap().len(), 0);
    assert!(QueueStore::uninitialized().table().is_none());
}

#[test]
fn job_predicates_follow_their_boundaries() {
    let j = job(4, 100, 200);
    assert!(j.is_expired(101));
    assert!(!j.is_expired(100));
    assert!(j.is_ready(200, 100));
    assert!(!j.is_ready(199, 100));
    assert!(!j.is_ready(200, 101));
    assert!(j.is_ready(i64::MAX, i64::MIN));
    let earlier = job(9, 0, 150);
    let same_time_older = job(3, 0, 200);
    assert!(earlier.is_due_before(&j));
    assert!(!j.is_due_before(&earlier));
    assert!(same_time_older.is_due_before(&j));
    assert!(!j.is_due_before(&same_time_older));
    assert!(!j.is_due_before(&j));
}

#[test]
fn job_constructor_clone_and_failure_record() {
    let fresh = PublicHighlightRetryJob::new(8, "publish".to_string(), "{\"a\":1}".to_string(), 77);
    assert_eq!(
        fresh,
        PublicHighlightRetryJob {
            id: 8,
            job_type: "publish".to_string(),
            payload_json: "{\"a\":1}".to_string(),
            attempts: 0,
            created_at: 77,
            next_retry_at: 77,
            last_error: None,
        }
    );
    let mut failed = fresh.clone();
    assert_eq!(failed, fresh);
    failed.record_failure(1, 177, Some("timeout".to_string()));
    assert_eq!(failed.attempts, 1);
    assert_eq!(failed.next_retry_at, 177);
    assert_eq!(failed.last_error, Some("timeout".to_string()));
    assert_eq!(failed.id, 8);
    assert_eq!(failed.created_at, 77);
    assert_eq!(failed.job_type, "publish");
    assert_eq!(failed.payload_json, "{\"a\":1}");
}
