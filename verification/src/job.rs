//! The job record and the predicates that decide its fate: expiry, readiness
//! and dispatch order.

use vstd::prelude::*;

verus! {

/// Mathematical model of one job record.
pub ghost struct JobView {
    pub id: int,
    pub job_type: Seq<char>,
    pub payload_json: Seq<char>,
    pub attempts: int,
    pub created_at: int,
    pub next_retry_at: int,
    pub last_error: Option<Seq<char>>,
}

impl JobView {
    /// The record that enqueueing creates: no attempts yet, no error, and
    /// eligible from the moment of its creation.
    pub open spec fn fresh(id: int, job_type: Seq<char>, payload_json: Seq<char>, now: int) -> JobView {
        JobView {
            id,
            job_type,
            payload_json,
            attempts: 0,
            created_at: now,
            next_retry_at: now,
            last_error: None,
        }
    }

    /// The record after a failure report: the three retry fields are
    /// overwritten, identity, payload and creation time stay.
    pub open spec fn failed(
        self,
        attempts: int,
        next_retry_at: int,
        last_error: Option<Seq<char>>,
    ) -> JobView {
        JobView { attempts, next_retry_at, last_error, ..self }
    }

    /// The job is older than the age horizon and falls to the purge.
    pub open spec fn expired(self, cutoff: int) -> bool {
        self.created_at < cutoff
    }

    /// The job survives the purge at `cutoff` and is due at `now`.
    pub open spec fn ready(self, now: int, cutoff: int) -> bool {
        self.created_at >= cutoff && self.next_retry_at <= now
    }

    /// Dispatch order: earlier retry time first, and among equal retry times
    /// the job that was enqueued first.
    pub open spec fn due_before(self, other: JobView) -> bool {
        self.next_retry_at < other.next_retry_at || (self.next_retry_at == other.next_retry_at
            && self.id < other.id)
    }

    /// The retry time is not before the creation time.
    pub open spec fn retry_not_before_creation(self) -> bool {
        self.next_retry_at >= self.created_at
    }
}

/// The model of an optional error text.
pub open spec fn error_view(last_error: Option<String>) -> Option<Seq<char>> {
    match last_error {
        Some(e) => Some(e@),
        None => None,
    }
}

/// One queued unit of retryable work.
#[derive(Debug, PartialEq, Eq)]
pub struct PublicHighlightRetryJob {
    pub id: i64,
    pub job_type: String,
    pub payload_json: String,
    pub attempts: i64,
    pub created_at: i64,
    pub next_retry_at: i64,
    pub last_error: Option<String>,
}

impl View for PublicHighlightRetryJob {
    type V = JobView;

    open spec fn view(&self) -> JobView {
        JobView {
            id: self.id as int,
            job_type: self.job_type@,
            payload_json: self.payload_json@,
            attempts: self.attempts as int,
            created_at: self.created_at as int,
            next_retry_at: self.next_retry_at as int,
            last_error: error_view(self.last_error),
        }
    }
}

impl Clone for PublicHighlightRetryJob {
    fn clone(&self) -> (copy: Self)
        ensures
            copy@ == self@,
    {
        let last_error = match &self.last_error {
            Some(e) => Some(e.clone()),
            None => None,
        };
        PublicHighlightRetryJob {
            id: self.id,
            job_type: self.job_type.clone(),
            payload_json: self.payload_json.clone(),
            attempts: self.attempts,
            created_at: self.created_at,
            next_retry_at: self.next_retry_at,
            last_error,
        }
    }
}

impl PublicHighlightRetryJob {
    /// A job as enqueueing stores it.
    pub fn new(id: i64, job_type: String, payload_json: String, now: i64) -> (job: Self)
        ensures
            job@ == JobView::fresh(id as int, job_type@, payload_json@, now as int),
    {
        PublicHighlightRetryJob {
            id,
            job_type,
            payload_json,
            attempts: 0,
            created_at: now,
            next_retry_at: now,
            last_error: None,
        }
    }

    /// Whether the purge at `cutoff` deletes this job.
    pub fn is_expired(&self, cutoff: i64) -> (expired: bool)
        ensures
            expired == self@.expired(cutoff as int),
    {
        self.created_at < cutoff
    }

    /// Whether this job survives the purge at `cutoff` and is due at `now`.
    pub fn is_ready(&self, now: i64, cutoff: i64) -> (ready: bool)
        ensures
            ready == self@.ready(now as int, cutoff as int),
    {
        self.created_at >= cutoff && self.next_retry_at <= now
    }

    /// Whether this job is dispatched before `other`.
    pub fn is_due_before(&self, other: &PublicHighlightRetryJob) -> (before: bool)
        ensures
            before == self@.due_before(other@),
    {
        self.next_retry_at < other.next_retry_at || (self.next_retry_at == other.next_retry_at
            && self.id < other.id)
    }

    /// Records a failure report on this job.
    pub fn record_failure(&mut self, attempts: i64, next_retry_at: i64, last_error: Option<String>)
        ensures
            final(self)@ == old(self)@.failed(
                attempts as int,
                next_retry_at as int,
                error_view(last_error),
            ),
    {
        self.attempts = attempts;
        self.next_retry_at = next_retry_at;
        self.last_error = last_error;
    }
}

} // verus!
