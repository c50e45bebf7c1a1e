//! An in-memory model of the job staging store: a durable area that records a
//! job submission request before it is committed, keyed by queue name and a
//! monotonically increasing timestamp.
//!
//! A staged record is the durability artifact that makes recovery possible:
//! it is written before any commit is attempted and deleted only after a
//! commit succeeds. Counters of injected write and delete failures stand in
//! for storage faults, so the coordinator's error paths can be exercised.

use vstd::prelude::*;

use crate::error::ErrorKind;
use crate::payload::{InputModel, JobRequest};

verus! {

/// One staged submission: the queue it targets, the timestamp that addresses
/// it, and the original job-creation request.
pub struct StagedRecord {
    pub queue: String,
    pub stamp: i64,
    pub payload: JobRequest,
}

/// The staging store: staged records in write order, the next timestamp to
/// assign, and counts of injected write and delete failures standing in for
/// storage faults.
pub struct StagingStore {
    pub records: Vec<StagedRecord>,
    pub next_stamp: i64,
    pub fail_writes: u64,
    pub fail_deletes: u64,
}

impl StagingStore {
    /// Timestamps are strictly increasing in write order and below the next
    /// one to assign.
    pub open spec fn wf(self) -> bool {
        &&& 1 <= self.next_stamp
        &&& forall|a: int, b: int|
            0 <= a < b < self.records@.len() ==> self.records@[a].stamp < self.records@[b].stamp
        &&& forall|a: int|
            0 <= a < self.records@.len() ==> (#[trigger] self.records@[a]).stamp < self.next_stamp
    }

    /// Whether a record staged for `queue` is addressable at `stamp`.
    pub open spec fn staged(self, queue: Seq<char>, stamp: i64) -> bool {
        exists|i: int|
            0 <= i < self.records@.len() && self.records@[i].queue@ == queue
                && self.records@[i].stamp == stamp
    }

    pub open spec fn record_index(self, queue: Seq<char>, stamp: i64) -> int {
        choose|i: int|
            0 <= i < self.records@.len() && self.records@[i].queue@ == queue
                && self.records@[i].stamp == stamp
    }

    /// The staged payload addressed by `queue` and `stamp`.
    pub open spec fn payload_of(self, queue: Seq<char>, stamp: i64) -> Option<InputModel> {
        self.records@[self.record_index(queue, stamp)].payload@
    }

    /// With strictly increasing timestamps, a matching position is the
    /// position every lookup uses.
    pub proof fn lemma_record_index_is(self, queue: Seq<char>, stamp: i64, i: int)
        requires
            self.wf(),
            0 <= i < self.records@.len(),
            self.records@[i].queue@ == queue,
            self.records@[i].stamp == stamp,
        ensures
            self.staged(queue, stamp),
            self.record_index(queue, stamp) == i,
    {
        assert(self.staged(queue, stamp));
        let j = self.record_index(queue, stamp);
        assert(0 <= j < self.records@.len() && self.records@[j].queue@ == queue
            && self.records@[j].stamp == stamp);
        if i < j {
            assert(self.records@[i].stamp < self.records@[j].stamp);
        } else if j < i {
            assert(self.records@[j].stamp < self.records@[i].stamp);
        }
    }

    /// An empty staging store: no records, timestamps start at 1, no
    /// injected failures.
    pub fn new() -> (r: StagingStore)
        ensures
            r.wf(),
            r.records@.len() == 0,
            forall|q: Seq<char>, t: i64| !r.staged(q, t),
            r.next_stamp == 1,
            r.fail_writes == 0,
            r.fail_deletes == 0,
    {
        StagingStore { records: Vec::new(), next_stamp: 1, fail_writes: 0, fail_deletes: 0 }
    }

    /// The position of the record addressed by `queue` and `stamp`, if any.
    fn find_record(&self, queue: &String, stamp: i64) -> (r: Option<usize>)
        requires
            self.wf(),
        ensures
            match r {
                Some(i) => i < self.records@.len() && self.records@[i as int].queue@ == queue@
                    && self.records@[i as int].stamp == stamp && self.staged(queue@, stamp)
                    && self.record_index(queue@, stamp) == i as int,
                None => !self.staged(queue@, stamp),
            },
    {
        let mut i: usize = 0;
        while i < self.records.len()
            invariant
                self.wf(),
                i <= self.records@.len(),
                forall|j: int|
                    0 <= j < i ==> !(self.records@[j].queue@ == queue@ && self.records@[j].stamp
                        == stamp),
            decreases self.records@.len() - i,
        {
            if self.records[i].stamp == stamp && self.records[i].queue == *queue {
                proof {
                    self.lemma_record_index_is(queue@, stamp, i as int);
                }
                return Some(i);
            }
            i += 1;
        }
        None
    }

    /// Persists a submission request under the next timestamp for later
    /// recovery. This is the write-ahead step: it either completes, or the
    /// whole submission fails with a staging error and nothing is recorded.
    pub fn write_job(&mut self, queue: &String, payload: &JobRequest) -> (r: Result<
        i64,
        ErrorKind,
    >)
        requires
            old(self).wf(),
            old(self).next_stamp < i64::MAX,
        ensures
            final(self).wf(),
            final(self).fail_deletes == old(self).fail_deletes,
            old(self).fail_writes > 0 ==> r == Err::<i64, ErrorKind>(ErrorKind::Staging)
                && final(self).records == old(self).records && final(self).next_stamp == old(
                self,
            ).next_stamp && final(self).fail_writes == old(self).fail_writes - 1,
            old(self).fail_writes == 0 ==> {
                &&& r == Ok::<i64, ErrorKind>(old(self).next_stamp)
                &&& final(self).next_stamp == old(self).next_stamp + 1
                &&& final(self).fail_writes == 0
                &&& final(self).staged(queue@, old(self).next_stamp)
                &&& final(self).payload_of(queue@, old(self).next_stamp) == payload@
                &&& forall|q: Seq<char>, t: i64|
                    !(q == queue@ && t == old(self).next_stamp) ==> #[trigger] final(self).staged(
                        q,
                        t,
                    ) == old(self).staged(q, t)
                &&& forall|q: Seq<char>, t: i64|
                    !(q == queue@ && t == old(self).next_stamp) && old(self).staged(q, t)
                        ==> #[trigger] final(self).payload_of(q, t) == old(self).payload_of(q, t)
            },
    {
        if self.fail_writes > 0 {
            self.fail_writes = self.fail_writes - 1;
            return Err(ErrorKind::Staging);
        }
        let ghost pre = *self;
        let stamp = self.next_stamp;
        self.records.push(StagedRecord { queue: queue.clone(), stamp, payload: payload.clone() });
        self.next_stamp = self.next_stamp + 1;
        proof {
            let n = pre.records@.len() as int;
            self.lemma_record_index_is(queue@, stamp, n);
            assert forall|q: Seq<char>, t: i64|
                !(q == queue@ && t == pre.next_stamp) implies #[trigger] self.staged(q, t)
                == pre.staged(q, t) by {
                if pre.staged(q, t) {
                    let k = pre.record_index(q, t);
                    pre.lemma_record_index_is(q, t, k);
                    assert(self.records@[k].queue@ == q && self.records@[k].stamp == t);
                }
                if self.staged(q, t) {
                    let k = choose|k: int|
                        0 <= k < self.records@.len() && self.records@[k].queue@ == q
                            && self.records@[k].stamp == t;
                    assert(k != n);
                    assert(pre.records@[k].queue@ == q && pre.records@[k].stamp == t);
                }
            }
            assert forall|q: Seq<char>, t: i64|
                !(q == queue@ && t == pre.next_stamp) && pre.staged(q, t) implies #[trigger] self
                .payload_of(q, t) == pre.payload_of(q, t) by {
                let k = pre.record_index(q, t);
                pre.lemma_record_index_is(q, t, k);
                self.lemma_record_index_is(q, t, k);
            }
        }
        Ok(stamp)
    }

    /// Reads back the staged payload addressed by `queue` and `stamp`; a
    /// missing record is a staging error (the recovery target is gone or was
    /// never staged).
    pub fn get_job(&self, queue: &String, stamp: i64) -> (r: Result<JobRequest, ErrorKind>)
        requires
            self.wf(),
        ensures
            self.staged(queue@, stamp) ==> (r matches Ok(p) && p@ == self.payload_of(
                queue@,
                stamp,
            )),
            !self.staged(queue@, stamp) ==> r == Err::<JobRequest, ErrorKind>(ErrorKind::Staging),
    {
        match self.find_record(queue, stamp) {
            Some(i) => Ok(self.records[i].payload.clone()),
            None => Err(ErrorKind::Staging),
        }
    }

    /// Best-effort removal of a staged record once its commit succeeded.
    /// Reports whether the record was removed; a pending injected failure, or
    /// a record already gone, leaves the store's records as they were. The
    /// caller never fails on this outcome.
    pub fn delete_job(&mut self, queue: &String, stamp: i64) -> (removed: bool)
        requires
            old(self).wf(),
        ensures
            final(self).wf(),
            final(self).next_stamp == old(self).next_stamp,
            final(self).fail_writes == old(self).fail_writes,
            old(self).fail_deletes > 0 ==> !removed && final(self).records == old(self).records
                && final(self).fail_deletes == old(self).fail_deletes - 1,
            old(self).fail_deletes == 0 ==> final(self).fail_deletes == 0,
            old(self).fail_deletes == 0 && !old(self).staged(queue@, stamp) ==> !removed
                && final(self).records == old(self).records,
            old(self).fail_deletes == 0 && old(self).staged(queue@, stamp) ==> {
                &&& removed
                &&& !final(self).staged(queue@, stamp)
                &&& forall|q: Seq<char>, t: i64|
                    !(q == queue@ && t == stamp) ==> #[trigger] final(self).staged(q, t) == old(
                        self,
                    ).staged(q, t)
                &&& forall|q: Seq<char>, t: i64|
                    !(q == queue@ && t == stamp) && old(self).staged(q, t)
                        ==> #[trigger] final(self).payload_of(q, t) == old(self).payload_of(q, t)
            },
    {
        if self.fail_deletes > 0 {
            self.fail_deletes = self.fail_deletes - 1;
            return false;
        }
        let ghost pre = *self;
        match self.find_record(queue, stamp) {
            Some(i) => {
                self.records.remove(i);
                proof {
                    assert forall|a: int, b: int|
                        0 <= a < b < self.records@.len() implies self.records@[a].stamp < self
                        .records@[b].stamp by {
                        if b < i {
                        } else if a < i {
                            assert(self.records@[b] == pre.records@[b + 1]);
                        } else {
                            assert(self.records@[a] == pre.records@[a + 1]);
                            assert(self.records@[b] == pre.records@[b + 1]);
                        }
                    }
                    if self.staged(queue@, stamp) {
                        let k = choose|k: int|
                            0 <= k < self.records@.len() && self.records@[k].queue@ == queue@
                                && self.records@[k].stamp == stamp;
                        let kp: int = if k < i {
                            k
                        } else {
                            k + 1
                        };
                        assert(pre.records@[kp].queue@ == queue@ && pre.records@[kp].stamp
                            == stamp);
                        pre.lemma_record_index_is(queue@, stamp, kp);
                        assert(kp == i as int);
                        assert(false);
                    }
                    assert forall|q: Seq<char>, t: i64|
                        !(q == queue@ && t == stamp) implies #[trigger] self.staged(q, t)
                        == pre.staged(q, t) by {
                        if pre.staged(q, t) {
                            let k = pre.record_index(q, t);
                            pre.lemma_record_index_is(q, t, k);
                            assert(k != i);
                            if k < i {
                                assert(self.records@[k].queue@ == q && self.records@[k].stamp
                                    == t);
                            } else {
                                assert(self.records@[k - 1].queue@ == q && self.records@[k
                                    - 1].stamp == t);
                            }
                        }
                        if self.staged(q, t) {
                            let k = choose|k: int|
                                0 <= k < self.records@.len() && self.records@[k].queue@ == q
                                    && self.records@[k].stamp == t;
                            if k < i {
                                assert(pre.records@[k].queue@ == q && pre.records@[k].stamp == t);
                            } else {
                                assert(pre.records@[k + 1].queue@ == q && pre.records@[k + 1].stamp
                                    == t);
                            }
                        }
                    }
                    assert forall|q: Seq<char>, t: i64|
                        !(q == queue@ && t == stamp) && pre.staged(q, t) implies #[trigger] self
                        .payload_of(q, t) == pre.payload_of(q, t) by {
                        let k = pre.record_index(q, t);
                        pre.lemma_record_index_is(q, t, k);
                        assert(k != i);
                        if k < i {
                            self.lemma_record_index_is(q, t, k);
                        } else {
                            self.lemma_record_index_is(q, t, k - 1);
                        }
                    }
                }
                true
            }
            None => false,
        }
    }
}

} // verus!
