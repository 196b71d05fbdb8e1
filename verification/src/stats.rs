//! The snapshot values that the subsystems hand to the aggregator, and the
//! latency derived from the scheduler's task log.
//!
//! Timestamps are Unix nanoseconds held in `i64`; differences are taken in
//! `i128`, so no subtraction can overflow.

use vstd::prelude::*;

verus! {

/// The status of a task in the scheduler's log.
#[derive(Clone, Copy, PartialEq, Eq, Structural, Debug)]
pub enum Status {
    Enqueued,
    Processing,
    Succeeded,
    Failed,
    Canceled,
}

/// What the latency estimator reads of one task.
pub struct Task {
    /// When the task entered the queue, in Unix nanoseconds.
    pub enqueued_at_nanos: i64,
    pub status: Status,
}

/// The request descriptor for the latency estimator's task query: at most
/// one task, most recently enqueued first, pending statuses only.
pub struct PendingTaskQuery {
    pub limit: Option<u32>,
    pub reverse: Option<bool>,
    pub statuses: Option<Vec<Status>>,
}

/// The query the latency estimator issues.
pub fn pending_task_query() -> (q: PendingTaskQuery)
    ensures
        q.limit == Some(1u32),
        q.reverse == Some(true),
        q.statuses matches Some(s) && s@ == seq![Status::Enqueued, Status::Processing],
{
    let mut statuses: Vec<Status> = Vec::new();
    statuses.push(Status::Enqueued);
    statuses.push(Status::Processing);
    proof {
        assert(statuses@ =~= seq![Status::Enqueued, Status::Processing]);
    }
    PendingTaskQuery { limit: Some(1), reverse: Some(true), statuses: Some(statuses) }
}

/// The snapshot of the index-management subsystem, filtered by the caller's
/// access scope: sizes, the per-index document counts, and the moment of
/// the last update, when one ever happened.
pub struct GlobalStats {
    pub database_size: u64,
    pub used_database_size: u64,
    /// One entry per index: its name and its document count.
    pub indexes: Vec<(String, u64)>,
    /// Unix seconds of the last update, absent when none occurred.
    pub last_update_seconds: Option<i64>,
}

impl GlobalStats {
    /// Index names are pairwise distinct: the entries form a mapping.
    pub open spec fn wf(&self) -> bool {
        forall|i: int, j: int|
            0 <= i < j < self.indexes@.len() ==> #[trigger] self.indexes@[i].0@
                != #[trigger] self.indexes@[j].0@
    }
}

/// The scheduler's per-kind, per-status task counts over the whole log.
pub struct TaskStatusCounts {
    /// One entry per task kind: its name, and one entry per status with the
    /// count of such tasks.
    pub counts: Vec<(String, Vec<(String, u64)>)>,
}

impl TaskStatusCounts {
    /// Kind names are pairwise distinct, and so are the statuses of each
    /// kind: the entries form a mapping keyed by the pair.
    pub open spec fn wf(&self) -> bool {
        &&& forall|i: int, j: int|
            0 <= i < j < self.counts@.len() ==> #[trigger] self.counts@[i].0@
                != #[trigger] self.counts@[j].0@
        &&& forall|i: int, a: int, b: int|
            0 <= i < self.counts@.len() && 0 <= a < b < #[trigger] self.counts@[i].1@.len()
                ==> #[trigger] self.counts@[i].1@[a].0@ != #[trigger] self.counts@[i].1@[b].0@
    }
}

/// The admission queue's current accounting.
pub struct QueueStats {
    /// The configured bound on concurrently executing searches.
    pub capacity: usize,
    /// Searches executing right now.
    pub running: usize,
    /// Searches waiting for a slot.
    pub waiting: usize,
}

/// Everything one aggregation pass reads, gathered before any gauge is
/// written: a pass that fails to retrieve a part writes nothing.
pub struct SubsystemSnapshot {
    pub global: GlobalStats,
    pub task_counts: TaskStatusCounts,
    /// Whether the scheduler is actively processing a task.
    pub is_indexing: bool,
    pub queue: QueueStats,
    /// The answer to `pending_task_query`: at most one task, the most
    /// recently enqueued one with status enqueued or processing.
    pub pending: Vec<Task>,
    /// The wall clock at retrieval time, in Unix nanoseconds.
    pub now_nanos: i64,
}

impl SubsystemSnapshot {
    pub open spec fn wf(&self) -> bool {
        self.global.wf() && self.task_counts.wf()
    }
}

/// The queue latency derived from the query's answer: how long ago the
/// most recently enqueued pending task entered the queue, in nanoseconds,
/// and zero when nothing is pending.  Negative only under clock skew, which
/// is surfaced as it is.
pub open spec fn spec_latency_nanos(tasks: Seq<Task>, now: int) -> int {
    if tasks.len() == 0 {
        0
    } else {
        now - tasks[0].enqueued_at_nanos
    }
}

/// Derives the queue latency from the task query's answer.
pub fn estimate_latency_nanos(pending: &Vec<Task>, now_nanos: i64) -> (r: i128)
    ensures
        r == spec_latency_nanos(pending@, now_nanos as int),
{
    if pending.len() == 0 {
        0
    } else {
        (now_nanos as i128) - (pending[0].enqueued_at_nanos as i128)
    }
}

/// Relies on time::OffsetDateTime::now_utc, read out as Unix nanoseconds.
#[verifier::external_body]
fn system_now_unix_nanos() -> (r: i128) {
    time::OffsetDateTime::now_utc().unix_timestamp_nanos()
}

/// Clamps a nanosecond count into the `i64` timestamp range.
pub fn clamp_timestamp_nanos(n: i128) -> (r: i64)
    ensures
        n < i64::MIN ==> r == i64::MIN,
        n > i64::MAX ==> r == i64::MAX,
        i64::MIN <= n <= i64::MAX ==> r == n,
{
    if n < i64::MIN as i128 {
        i64::MIN
    } else if n > i64::MAX as i128 {
        i64::MAX
    } else {
        n as i64
    }
}

/// The wall clock now, in Unix nanoseconds.  Nothing is promised of a
/// clock reading; the latency estimator is verified for every value.
pub fn now_unix_nanos() -> i64 {
    clamp_timestamp_nanos(system_now_unix_nanos())
}

} // verus!
