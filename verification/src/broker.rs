//! The coordinators: job submission with write-ahead staging and recovery,
//! and bounded-wait job retrieval.
//!
//! Submission is a strict stage / commit / clean-up sequence: the request is
//! persisted in the staging store before any commit is attempted, and the
//! staged record is deleted only after the commit succeeded. A failed commit
//! deliberately leaves the record in place so `reattempt` can replay it; a
//! failed cleanup is tolerated and never turns a successful submission into a
//! failure.

use vstd::prelude::*;

use crate::error::ErrorKind;
use crate::payload::{augment_request, augmented_model, InputModel, JobRequest};
use crate::staging::StagingStore;
use crate::store::{has_job, job_index, Job, JobModel, QueueStore};

verus! {

/// Submits a job: stage, commit, then best-effort cleanup.
///
/// The staged record exists from the moment staging succeeds until the commit
/// is confirmed: every failed commit leaves it addressable at the returned
/// timestamp with the original payload, and only a successful commit (with a
/// working staging store) removes it. A cleanup failure is swallowed: the
/// submission still reports the committed job's identifier.
pub fn submit(
    qs: &mut QueueStore,
    ss: &mut StagingStore,
    queue_name: &String,
    req: &JobRequest,
) -> (r: Result<u64, ErrorKind>)
    requires
        old(qs).wf(),
        old(qs).next_job_id < u64::MAX,
        old(ss).wf(),
        old(ss).next_stamp < i64::MAX,
    ensures
        final(qs).wf(),
        final(ss).wf(),
        old(ss).fail_writes > 0 ==> r == Err::<u64, ErrorKind>(ErrorKind::Staging) && *final(qs)
            == *old(qs) && final(ss).records == old(ss).records && final(ss).next_stamp == old(
            ss,
        ).next_stamp,
        old(ss).fail_writes == 0 ==> {
            &&& final(ss).next_stamp == old(ss).next_stamp + 1
            &&& forall|q: Seq<char>, t: i64|
                !(q == queue_name@ && t == old(ss).next_stamp) ==> #[trigger] final(ss).staged(
                    q,
                    t,
                ) == old(ss).staged(q, t)
            &&& (old(qs).fail_commits > 0 ==> r == Err::<u64, ErrorKind>(ErrorKind::Internal)
                && final(ss).staged(queue_name@, old(ss).next_stamp) && final(ss).payload_of(
                queue_name@,
                old(ss).next_stamp,
            ) == req@ && final(qs).queues == old(qs).queues && final(qs).next_job_id == old(
                qs,
            ).next_job_id && final(qs).fail_commits == old(qs).fail_commits - 1)
            &&& (old(qs).fail_commits == 0 && !old(qs).has_queue(queue_name@) ==> r == Err::<
                u64,
                ErrorKind,
            >(ErrorKind::NoSuchQueue) && final(ss).staged(queue_name@, old(ss).next_stamp)
                && final(ss).payload_of(queue_name@, old(ss).next_stamp) == req@ && *final(qs)
                == *old(qs))
            &&& (old(qs).fail_commits == 0 && old(qs).has_queue(queue_name@) ==> {
                &&& r == Ok::<u64, ErrorKind>(old(qs).next_job_id)
                &&& final(qs).next_job_id == old(qs).next_job_id + 1
                &&& final(qs).jobs_model(queue_name@) == old(qs).jobs_model(queue_name@).push(
                    JobModel { id: old(qs).next_job_id, input: req@ },
                )
                &&& final(qs).settings_of(queue_name@) == old(qs).settings_of(queue_name@)
                &&& forall|q: Seq<char>| #[trigger]
                    final(qs).has_queue(q) == old(qs).has_queue(q)
                &&& forall|q: Seq<char>|
                    q != queue_name@ && old(qs).has_queue(q) ==> #[trigger] final(qs).settings_of(
                        q,
                    ) == old(qs).settings_of(q) && final(qs).jobs_model(q) == old(qs).jobs_model(q)
                &&& (old(ss).fail_deletes == 0 ==> !final(ss).staged(
                    queue_name@,
                    old(ss).next_stamp,
                ))
                &&& (old(ss).fail_deletes > 0 ==> final(ss).staged(
                    queue_name@,
                    old(ss).next_stamp,
                ) && final(ss).payload_of(queue_name@, old(ss).next_stamp) == req@)
            })
        },
{
    let ghost pre_ss = *ss;
    let stamp = match ss.write_job(queue_name, req) {
        Ok(t) => t,
        Err(e) => {
            return Err(e);
        },
    };
    let ghost mid_ss = *ss;
    let result = match qs.create_job(queue_name, req) {
        Ok(id) => {
            let _ = ss.delete_job(queue_name, stamp);
            Ok(id)
        },
        Err(e) => Err(e),
    };
    proof {
        assert forall|q: Seq<char>, t: i64|
            !(q == queue_name@ && t == pre_ss.next_stamp) implies #[trigger] ss.staged(q, t)
            == pre_ss.staged(q, t) by {
            assert(mid_ss.staged(q, t) == pre_ss.staged(q, t));
            assert(ss.staged(q, t) == mid_ss.staged(q, t));
        }
    }
    result
}

/// Replays a staged submission: reads the record addressed by `stamp`, marks
/// an object input with the original staging timestamp, and commits it as a
/// fresh submission. Success deletes the record (best effort); any failure
/// retains it and surfaces the error. A missing record is a staging error.
pub fn reattempt(
    qs: &mut QueueStore,
    ss: &mut StagingStore,
    queue_name: &String,
    stamp: i64,
) -> (r: Result<u64, ErrorKind>)
    requires
        old(qs).wf(),
        old(qs).next_job_id < u64::MAX,
        old(ss).wf(),
    ensures
        final(qs).wf(),
        final(ss).wf(),
        !old(ss).staged(queue_name@, stamp) ==> r == Err::<u64, ErrorKind>(ErrorKind::Staging)
            && *final(qs) == *old(qs) && *final(ss) == *old(ss),
        old(ss).staged(queue_name@, stamp) ==> {
            &&& (old(qs).fail_commits > 0 ==> r == Err::<u64, ErrorKind>(ErrorKind::Internal)
                && *final(ss) == *old(ss) && final(qs).queues == old(qs).queues
                && final(qs).next_job_id == old(qs).next_job_id
                && final(qs).fail_commits == old(qs).fail_commits - 1)
            &&& (old(qs).fail_commits == 0 && !old(qs).has_queue(queue_name@) ==> r == Err::<
                u64,
                ErrorKind,
            >(ErrorKind::NoSuchQueue) && *final(qs) == *old(qs) && *final(ss) == *old(ss))
            &&& (old(qs).fail_commits == 0 && old(qs).has_queue(queue_name@) ==> {
                &&& r == Ok::<u64, ErrorKind>(old(qs).next_job_id)
                &&& final(qs).next_job_id == old(qs).next_job_id + 1
                &&& final(qs).jobs_model(queue_name@) == old(qs).jobs_model(queue_name@).push(
                    JobModel {
                        id: old(qs).next_job_id,
                        input: augmented_model(
                            old(ss).payload_of(queue_name@, stamp),
                            stamp,
                        ),
                    },
                )
                &&& final(qs).settings_of(queue_name@) == old(qs).settings_of(queue_name@)
                &&& forall|q: Seq<char>| #[trigger]
                    final(qs).has_queue(q) == old(qs).has_queue(q)
                &&& forall|q: Seq<char>|
                    q != queue_name@ && old(qs).has_queue(q) ==> #[trigger] final(qs).settings_of(
                        q,
                    ) == old(qs).settings_of(q) && final(qs).jobs_model(q) == old(qs).jobs_model(q)
                &&& (old(ss).fail_deletes == 0 ==> !final(ss).staged(queue_name@, stamp))
                &&& (old(ss).fail_deletes > 0 ==> final(ss).staged(queue_name@, stamp))
                &&& forall|q: Seq<char>, t: i64|
                    !(q == queue_name@ && t == stamp) ==> #[trigger] final(ss).staged(q, t) == old(
                        ss,
                    ).staged(q, t)
            })
        },
{
    let staged = match ss.get_job(queue_name, stamp) {
        Ok(p) => p,
        Err(e) => {
            return Err(e);
        },
    };
    let marked = augment_request(staged, stamp);
    match qs.create_job(queue_name, &marked) {
        Ok(id) => {
            let _ = ss.delete_job(queue_name, stamp);
            Ok(id)
        },
        Err(e) => Err(e),
    }
}

/// Staging durability: a submission whose staging succeeded but whose commit
/// failed on the backend's one pending outage leaves its record addressable
/// with the client's payload — and leaves the stores in exactly the state in
/// which `reattempt`'s contract promises to commit that payload (marked) and
/// report the next identifier: the record is staged, the queue still exists,
/// and no outage is pending.
pub proof fn lemma_failed_submit_recoverable(
    pre_qs: QueueStore,
    pre_ss: StagingStore,
    post_qs: QueueStore,
    post_ss: StagingStore,
    queue_name: Seq<char>,
    req_input: Option<InputModel>,
)
    requires
        pre_qs.has_queue(queue_name),
        pre_qs.fail_commits == 1,
        post_ss.staged(queue_name, pre_ss.next_stamp),
        post_ss.payload_of(queue_name, pre_ss.next_stamp) == req_input,
        post_qs.queues == pre_qs.queues,
        post_qs.fail_commits == pre_qs.fail_commits - 1,
    ensures
        post_qs.has_queue(queue_name),
        post_qs.fail_commits == 0,
        post_ss.staged(queue_name, pre_ss.next_stamp),
        post_ss.payload_of(queue_name, pre_ss.next_stamp) == req_input,
{
    let k = choose|i: int|
        0 <= i < pre_qs.queues@.len() && pre_qs.queues@[i].name@ == queue_name;
    assert(post_qs.queues@[k].name@ == queue_name);
}

/// How long a retrieval response may be held back when no job is available:
/// a configured non-zero delay bounds the wait; zero or absent disables it.
pub struct RetrievalConfig {
    pub next_job_delay_ms: Option<u64>,
}

/// The terminal state of one retrieval call. The delay variant instructs the
/// caller to suspend its own response for that many milliseconds before
/// reporting "empty"; it must not hold any store connection meanwhile.
pub enum PollOutcome {
    Found(Job),
    EmptyImmediate,
    EmptyAfterDelay(u64),
}

/// The outcome owed when no job is available: wait out the configured
/// non-zero delay, or report "empty" at once.
pub open spec fn empty_outcome(cfg: RetrievalConfig) -> PollOutcome {
    match cfg.next_job_delay_ms {
        Some(d) => if d > 0 {
            PollOutcome::EmptyAfterDelay(d)
        } else {
            PollOutcome::EmptyImmediate
        },
        None => PollOutcome::EmptyImmediate,
    }
}

fn on_empty(cfg: &RetrievalConfig) -> (r: PollOutcome)
    ensures
        r == empty_outcome(*cfg),
{
    match cfg.next_job_delay_ms {
        Some(d) => if d > 0 {
            PollOutcome::EmptyAfterDelay(d)
        } else {
            PollOutcome::EmptyImmediate
        },
        None => PollOutcome::EmptyImmediate,
    }
}

/// Retrieves the next available job in the store's own order, without
/// reordering, peeking ahead, or caching. With no job available the outcome
/// tells the caller to answer "empty", after the configured delay if one is
/// set; store errors propagate unchanged.
pub fn poll_next(qs: &mut QueueStore, cfg: &RetrievalConfig, queue_name: &String) -> (r: Result<
    PollOutcome,
    ErrorKind,
>)
    requires
        old(qs).wf(),
    ensures
        final(qs).wf(),
        final(qs).next_job_id == old(qs).next_job_id,
        final(qs).fail_commits == old(qs).fail_commits,
        !old(qs).has_queue(queue_name@) ==> r == Err::<PollOutcome, ErrorKind>(
            ErrorKind::NoSuchQueue,
        ) && *final(qs) == *old(qs),
        old(qs).has_queue(queue_name@) && old(qs).jobs_model(queue_name@).len() == 0 ==> (
        r matches Ok(out) && out == empty_outcome(*cfg)) && *final(qs) == *old(qs),
        old(qs).has_queue(queue_name@) && old(qs).jobs_model(queue_name@).len() > 0 ==> {
            &&& (r matches Ok(out) && out matches PollOutcome::Found(job) && job@ == old(
                qs,
            ).jobs_model(queue_name@)[0])
            &&& final(qs).jobs_model(queue_name@) == old(qs).jobs_model(queue_name@).drop_first()
            &&& final(qs).settings_of(queue_name@) == old(qs).settings_of(queue_name@)
            &&& forall|q: Seq<char>| #[trigger] final(qs).has_queue(q) == old(qs).has_queue(q)
            &&& forall|q: Seq<char>|
                q != queue_name@ && old(qs).has_queue(q) ==> #[trigger] final(qs).settings_of(q)
                    == old(qs).settings_of(q) && final(qs).jobs_model(q) == old(qs).jobs_model(q)
        },
{
    match qs.next_queued_job(queue_name) {
        Ok(Some(job)) => Ok(PollOutcome::Found(job)),
        Ok(None) => Ok(on_empty(cfg)),
        Err(e) => Err(e),
    }
}

/// Retrieves the queued job with the given identifier, with the same
/// "empty implies optional delay" policy as `poll_next`.
pub fn fetch_job(
    qs: &mut QueueStore,
    cfg: &RetrievalConfig,
    queue_name: &String,
    job_id: u64,
) -> (r: Result<PollOutcome, ErrorKind>)
    requires
        old(qs).wf(),
    ensures
        final(qs).wf(),
        final(qs).next_job_id == old(qs).next_job_id,
        final(qs).fail_commits == old(qs).fail_commits,
        !old(qs).has_queue(queue_name@) ==> r == Err::<PollOutcome, ErrorKind>(
            ErrorKind::NoSuchQueue,
        ) && *final(qs) == *old(qs),
        old(qs).has_queue(queue_name@) && !has_job(old(qs).jobs_model(queue_name@), job_id) ==> (
        r matches Ok(out) && out == empty_outcome(*cfg)) && *final(qs) == *old(qs),
        old(qs).has_queue(queue_name@) && has_job(old(qs).jobs_model(queue_name@), job_id) ==> {
            &&& (r matches Ok(out) && out matches PollOutcome::Found(job) && job@ == old(
                qs,
            ).jobs_model(queue_name@)[job_index(old(qs).jobs_model(queue_name@), job_id)])
            &&& final(qs).jobs_model(queue_name@) == old(qs).jobs_model(queue_name@).remove(
                job_index(old(qs).jobs_model(queue_name@), job_id),
            )
            &&& final(qs).settings_of(queue_name@) == old(qs).settings_of(queue_name@)
            &&& forall|q: Seq<char>| #[trigger] final(qs).has_queue(q) == old(qs).has_queue(q)
            &&& forall|q: Seq<char>|
                q != queue_name@ && old(qs).has_queue(q) ==> #[trigger] final(qs).settings_of(q)
                    == old(qs).settings_of(q) && final(qs).jobs_model(q) == old(qs).jobs_model(q)
        },
{
    match qs.fetch_queued_job(queue_name, job_id) {
        Ok(Some(job)) => Ok(PollOutcome::Found(job)),
        Ok(None) => Ok(on_empty(cfg)),
        Err(e) => Err(e),
    }
}

} // verus!
