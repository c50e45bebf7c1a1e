//! An in-memory model of the queue store: the authoritative engine holding
//! queue definitions, queue membership, and committed jobs.
//!
//! The store assigns job identifiers at commit time, defines the retrieval
//! order of queued jobs, and reports every failure as a distinct error kind.
//! A counter of injected commit failures stands in for backend outages, so
//! that the submission coordinator's recovery path can be exercised.

use vstd::prelude::*;

use crate::error::ErrorKind;
use crate::payload::{InputModel, InputValue, JobRequest};

verus! {

/// Whether an upsert created a queue or replaced the settings of one that
/// already existed; the two must stay observably distinct.
#[derive(Clone, Copy, Debug, PartialEq, Eq, Structural)]
pub enum UpsertOutcome {
    Created,
    Updated,
}

/// Whether a deletion removed a queue or found none of that name.
#[derive(Clone, Copy, Debug, PartialEq, Eq, Structural)]
pub enum DeleteOutcome {
    Deleted,
    NotFound,
}

/// A queue's configuration: an opaque, validated blob whose semantics the
/// store owns. A settings payload is valid exactly when it is an object.
pub struct Settings {
    pub data: InputValue,
}

impl View for Settings {
    type V = InputModel;

    open spec fn view(&self) -> InputModel {
        self.data@
    }
}

impl Settings {
    pub open spec fn spec_valid(self) -> bool {
        self@ is Object
    }

    /// A settings payload passes validation exactly when it is an object.
    pub fn is_valid(&self) -> (r: bool)
        ensures
            r == self.spec_valid(),
    {
        match &self.data {
            InputValue::Object(_) => true,
            InputValue::Other(_) => false,
        }
    }
}

impl Clone for Settings {
    fn clone(&self) -> (r: Self)
        ensures
            r@ == self@,
    {
        Settings { data: self.data.clone() }
    }
}

/// Mathematical form of a committed job.
pub struct JobModel {
    pub id: u64,
    pub input: Option<InputModel>,
}

/// A committed job: its store-assigned identifier and the client's input.
pub struct Job {
    pub id: u64,
    pub input: Option<InputValue>,
}

impl View for Job {
    type V = JobModel;

    open spec fn view(&self) -> JobModel {
        JobModel {
            id: self.id,
            input: match self.input {
                Some(v) => Some(v@),
                None => None,
            },
        }
    }
}

/// The queued jobs as the model sees them, in retrieval order.
pub open spec fn jobs_as_models(s: Seq<Job>) -> Seq<JobModel> {
    Seq::new(s.len(), |i: int| s[i]@)
}

/// One named queue: its settings and its queued jobs in retrieval order.
pub struct QueueEntry {
    pub name: String,
    pub settings: Settings,
    pub jobs: Vec<Job>,
}

/// Queued job identifiers are strictly increasing (commit order is kept and
/// no identifier repeats) and every identifier was assigned below `bound`.
pub open spec fn entry_wf(e: QueueEntry, bound: u64) -> bool {
    &&& forall|a: int, b: int| 0 <= a < b < e.jobs@.len() ==> e.jobs@[a].id < e.jobs@[b].id
    &&& forall|a: int| 0 <= a < e.jobs@.len() ==> (#[trigger] e.jobs@[a]).id < bound
}

/// The queue store: every queue, the next identifier to assign, and a count
/// of injected commit failures standing in for backend outages.
pub struct QueueStore {
    pub queues: Vec<QueueEntry>,
    pub next_job_id: u64,
    pub fail_commits: u64,
}

impl QueueStore {
    /// Queue names are unique and every queue is well-formed.
    pub open spec fn wf(self) -> bool {
        &&& 1 <= self.next_job_id
        &&& forall|i: int, j: int|
            0 <= i < j < self.queues@.len() ==> self.queues@[i].name@ != self.queues@[j].name@
        &&& forall|i: int|
            0 <= i < self.queues@.len() ==> entry_wf(
                #[trigger] self.queues@[i],
                self.next_job_id,
            )
    }

    pub open spec fn has_queue(self, name: Seq<char>) -> bool {
        exists|i: int| 0 <= i < self.queues@.len() && self.queues@[i].name@ == name
    }

    pub open spec fn index_of(self, name: Seq<char>) -> int {
        choose|i: int| 0 <= i < self.queues@.len() && self.queues@[i].name@ == name
    }

    pub open spec fn queue_at(self, name: Seq<char>) -> QueueEntry {
        self.queues@[self.index_of(name)]
    }

    pub open spec fn settings_of(self, name: Seq<char>) -> InputModel {
        self.queue_at(name).settings@
    }

    pub open spec fn jobs_model(self, name: Seq<char>) -> Seq<JobModel> {
        jobs_as_models(self.queue_at(name).jobs@)
    }

    /// With unique names, a matching index is the index every lookup uses.
    pub proof fn lemma_index_is(self, name: Seq<char>, i: int)
        requires
            self.wf(),
            0 <= i < self.queues@.len(),
            self.queues@[i].name@ == name,
        ensures
            self.has_queue(name),
            self.index_of(name) == i,
    {
        assert(self.has_queue(name));
        let j = self.index_of(name);
        assert(0 <= j < self.queues@.len() && self.queues@[j].name@ == name);
        if i < j {
            assert(self.queues@[i].name@ != self.queues@[j].name@);
        } else if j < i {
            assert(self.queues@[j].name@ != self.queues@[i].name@);
        }
    }

    /// An empty store: no queues, identifiers start at 1, no injected
    /// failures.
    pub fn new() -> (r: QueueStore)
        ensures
            r.wf(),
            r.queues@.len() == 0,
            forall|q: Seq<char>| !r.has_queue(q),
            r.next_job_id == 1,
            r.fail_commits == 0,
    {
        QueueStore { queues: Vec::new(), next_job_id: 1, fail_commits: 0 }
    }

    /// The index of the queue named `name`, if it exists.
    fn find_queue(&self, name: &String) -> (r: Option<usize>)
        requires
            self.wf(),
        ensures
            match r {
                Some(i) => i < self.queues@.len() && self.queues@[i as int].name@ == name@
                    && self.has_queue(name@) && self.index_of(name@) == i as int,
                None => !self.has_queue(name@),
            },
    {
        let mut i: usize = 0;
        while i < self.queues.len()
            invariant
                self.wf(),
                i <= self.queues@.len(),
                forall|j: int| 0 <= j < i ==> self.queues@[j].name@ != name@,
            decreases self.queues@.len() - i,
        {
            if self.queues[i].name == *name {
                proof {
                    self.lemma_index_is(name@, i as int);
                }
                return Some(i);
            }
            i += 1;
        }
        None
    }

    /// The names of all queues, in store order.
    pub fn queue_names(&self) -> (r: Vec<String>)
        ensures
            r@.len() == self.queues@.len(),
            forall|i: int| 0 <= i < r@.len() ==> r@[i]@ == self.queues@[i].name@,
    {
        let mut out: Vec<String> = Vec::new();
        let mut i: usize = 0;
        while i < self.queues.len()
            invariant
                i <= self.queues@.len(),
                out@.len() == i,
                forall|j: int| 0 <= j < i ==> out@[j]@ == self.queues@[j].name@,
            decreases self.queues@.len() - i,
        {
            out.push(self.queues[i].name.clone());
            i += 1;
        }
        out
    }
}

/// The success-case state change of a settings upsert on `name`: the queue
/// exists afterwards and carries settings `s`; its jobs, and every other
/// queue, are untouched.
pub open spec fn upsert_transition(
    pre: QueueStore,
    post: QueueStore,
    name: Seq<char>,
    s: InputModel,
) -> bool {
    &&& post.wf()
    &&& post.has_queue(name)
    &&& post.settings_of(name) == s
    &&& post.jobs_model(name) == (if pre.has_queue(name) {
        pre.jobs_model(name)
    } else {
        Seq::<JobModel>::empty()
    })
    &&& forall|q: Seq<char>| q != name ==> #[trigger] post.has_queue(q) == pre.has_queue(q)
    &&& forall|q: Seq<char>|
        q != name && pre.has_queue(q) ==> #[trigger] post.settings_of(q) == pre.settings_of(q)
            && post.jobs_model(q) == pre.jobs_model(q)
    &&& post.next_job_id == pre.next_job_id
    &&& post.fail_commits == pre.fail_commits
}

/// Idempotent queue upsert: a first upsert of a name with no queue behind it
/// reports `Created` (its store had no such queue); a second upsert of the
/// same name reports `Updated` (the queue then exists), replaces the settings
/// — which a subsequent settings read returns — and keeps the queued jobs.
pub proof fn lemma_upsert_idempotent(
    pre: QueueStore,
    mid: QueueStore,
    fin: QueueStore,
    name: Seq<char>,
    s1: InputModel,
    s2: InputModel,
)
    requires
        !pre.has_queue(name),
        upsert_transition(pre, mid, name, s1),
        upsert_transition(mid, fin, name, s2),
    ensures
        mid.has_queue(name),
        mid.settings_of(name) == s1,
        fin.settings_of(name) == s2,
        fin.jobs_model(name) == mid.jobs_model(name),
{
}

/// Frame facts when exactly the queue at index `i` changed and kept its name:
/// every lookup on every name is unaffected except the changed queue's own
/// settings and jobs.
pub proof fn lemma_update_frame(pre: QueueStore, post: QueueStore, i: int)
    requires
        pre.wf(),
        0 <= i < pre.queues@.len(),
        post.queues@.len() == pre.queues@.len(),
        forall|k: int|
            0 <= k < pre.queues@.len() ==> (#[trigger] post.queues@[k]).name@
                == pre.queues@[k].name@,
        forall|k: int| 0 <= k < pre.queues@.len() && k != i ==> post.queues@[k] == pre.queues@[k],
        pre.next_job_id <= post.next_job_id,
        entry_wf(post.queues@[i], post.next_job_id),
    ensures
        post.wf(),
        forall|q: Seq<char>| #[trigger] post.has_queue(q) == pre.has_queue(q),
        forall|q: Seq<char>|
            pre.has_queue(q) ==> #[trigger] post.index_of(q) == pre.index_of(q),
        forall|q: Seq<char>|
            q != pre.queues@[i].name@ && pre.has_queue(q) ==> #[trigger] post.settings_of(q)
                == pre.settings_of(q) && post.jobs_model(q) == pre.jobs_model(q),
{
    assert forall|k: int| 0 <= k < post.queues@.len() implies entry_wf(
        #[trigger] post.queues@[k],
        post.next_job_id,
    ) by {
        if k != i {
            assert(entry_wf(pre.queues@[k], pre.next_job_id));
        }
    }
    assert(post.wf());
    assert forall|q: Seq<char>| #[trigger] post.has_queue(q) == pre.has_queue(q) by {
        if pre.has_queue(q) {
            let k = choose|k: int|
                0 <= k < pre.queues@.len() && pre.queues@[k].name@ == q;
            assert(post.queues@[k].name@ == q);
        }
        if post.has_queue(q) {
            let k = choose|k: int|
                0 <= k < post.queues@.len() && post.queues@[k].name@ == q;
            assert(pre.queues@[k].name@ == q);
        }
    }
    assert forall|q: Seq<char>| pre.has_queue(q) implies #[trigger] post.index_of(q)
        == pre.index_of(q) by {
        let k = pre.index_of(q);
        assert(0 <= k < pre.queues@.len() && pre.queues@[k].name@ == q);
        post.lemma_index_is(q, k);
    }
    assert forall|q: Seq<char>|
        q != pre.queues@[i].name@ && pre.has_queue(q) implies #[trigger] post.settings_of(q)
        == pre.settings_of(q) && post.jobs_model(q) == pre.jobs_model(q) by {
        let k = pre.index_of(q);
        assert(0 <= k < pre.queues@.len() && pre.queues@[k].name@ == q);
        assert(k != i);
        assert(post.queues@[k] == pre.queues@[k]);
    }
}

/// Frame facts when the queue at index `i` was removed: that queue's name no
/// longer resolves, and every other queue is unaffected.
pub proof fn lemma_remove_frame(pre: QueueStore, post: QueueStore, i: int)
    requires
        pre.wf(),
        0 <= i < pre.queues@.len(),
        post.queues@ == pre.queues@.remove(i),
        post.next_job_id == pre.next_job_id,
    ensures
        post.wf(),
        !post.has_queue(pre.queues@[i].name@),
        forall|q: Seq<char>|
            q != pre.queues@[i].name@ ==> #[trigger] post.has_queue(q) == pre.has_queue(q),
        forall|q: Seq<char>|
            q != pre.queues@[i].name@ && pre.has_queue(q) ==> #[trigger] post.settings_of(q)
                == pre.settings_of(q) && post.jobs_model(q) == pre.jobs_model(q),
{
    let name = pre.queues@[i].name@;
    assert(post.queues@.len() == pre.queues@.len() - 1);
    assert forall|k: int| 0 <= k < post.queues@.len() implies (#[trigger] post.queues@[k])
        == pre.queues@[if k < i {
        k
    } else {
        k + 1
    }] by {}
    assert(post.wf());
    assert forall|q: Seq<char>| q != name implies (#[trigger] post.has_queue(q)
        == pre.has_queue(q)) by {
        if pre.has_queue(q) {
            let k = choose|k: int| 0 <= k < pre.queues@.len() && pre.queues@[k].name@ == q;
            assert(k != i);
            if k < i {
                assert(post.queues@[k].name@ == q);
            } else {
                assert(post.queues@[k - 1].name@ == q);
            }
        }
        if post.has_queue(q) {
            let k = choose|k: int| 0 <= k < post.queues@.len() && post.queues@[k].name@ == q;
            if k < i {
                assert(pre.queues@[k].name@ == q);
            } else {
                assert(pre.queues@[k + 1].name@ == q);
            }
        }
    }
    if post.has_queue(name) {
        let k = choose|k: int| 0 <= k < post.queues@.len() && post.queues@[k].name@ == name;
        if k < i {
            assert(pre.queues@[k].name@ == pre.queues@[i].name@);
            assert(false);
        } else {
            assert(pre.queues@[k + 1].name@ == pre.queues@[i].name@);
            assert(false);
        }
    }
    assert forall|q: Seq<char>|
        q != name && pre.has_queue(q) implies #[trigger] post.settings_of(q)
        == pre.settings_of(q) && post.jobs_model(q) == pre.jobs_model(q) by {
        let k = pre.index_of(q);
        assert(0 <= k < pre.queues@.len() && pre.queues@[k].name@ == q);
        assert(k != i);
        if k < i {
            assert(post.queues@[k] == pre.queues@[k]);
            post.lemma_index_is(q, k);
        } else {
            assert(post.queues@[k - 1] == pre.queues@[k]);
            post.lemma_index_is(q, k - 1);
        }
    }
}

/// Frame facts when a fresh queue was appended: its name now resolves to the
/// new entry, and every other queue is unaffected.
pub proof fn lemma_push_frame(pre: QueueStore, post: QueueStore, e: QueueEntry)
    requires
        pre.wf(),
        post.queues@ == pre.queues@.push(e),
        !pre.has_queue(e.name@),
        post.next_job_id == pre.next_job_id,
        entry_wf(e, post.next_job_id),
    ensures
        post.wf(),
        post.has_queue(e.name@),
        post.index_of(e.name@) == pre.queues@.len(),
        forall|q: Seq<char>| q != e.name@ ==> #[trigger] post.has_queue(q) == pre.has_queue(q),
        forall|q: Seq<char>|
            q != e.name@ && pre.has_queue(q) ==> #[trigger] post.settings_of(q)
                == pre.settings_of(q) && post.jobs_model(q) == pre.jobs_model(q),
{
    let n = pre.queues@.len() as int;
    assert forall|i: int, j: int|
        0 <= i < j < post.queues@.len() implies post.queues@[i].name@
        != post.queues@[j].name@ by {
        if j < n {
            assert(pre.queues@[i].name@ != pre.queues@[j].name@);
        } else {
            assert(post.queues@[j] == e);
            if post.queues@[i].name@ == e.name@ {
                assert(pre.queues@[i].name@ == e.name@);
                assert(pre.has_queue(e.name@));
            }
        }
    }
    assert(post.wf());
    assert(post.queues@[n].name@ == e.name@);
    post.lemma_index_is(e.name@, n);
    assert forall|q: Seq<char>|
        q != e.name@ implies #[trigger] post.has_queue(q) == pre.has_queue(q) by {
        if pre.has_queue(q) {
            let k = choose|k: int| 0 <= k < pre.queues@.len() && pre.queues@[k].name@ == q;
            assert(post.queues@[k].name@ == q);
        }
        if post.has_queue(q) {
            let k = choose|k: int| 0 <= k < post.queues@.len() && post.queues@[k].name@ == q;
            assert(k != n);
            assert(pre.queues@[k].name@ == q);
        }
    }
    assert forall|q: Seq<char>|
        q != e.name@ && pre.has_queue(q) implies #[trigger] post.settings_of(q)
        == pre.settings_of(q) && post.jobs_model(q) == pre.jobs_model(q) by {
        let k = pre.index_of(q);
        assert(0 <= k < pre.queues@.len() && pre.queues@[k].name@ == q);
        assert(post.queues@[k] == pre.queues@[k]);
        post.lemma_index_is(q, k);
    }
}

impl QueueStore {
    /// Creates the queue or replaces its settings. `Created` is reported
    /// exactly when no queue of that name existed; invalid settings are
    /// rejected with `BadRequest` and nothing is applied.
    pub fn create_or_update_queue(&mut self, name: &String, settings: &Settings) -> (r: Result<
        UpsertOutcome,
        ErrorKind,
    >)
        requires
            old(self).wf(),
        ensures
            final(self).wf(),
            !settings.spec_valid() ==> r == Err::<UpsertOutcome, ErrorKind>(ErrorKind::BadRequest)
                && *final(self) == *old(self),
            settings.spec_valid() ==> r == Ok::<UpsertOutcome, ErrorKind>(
                if old(self).has_queue(name@) {
                    UpsertOutcome::Updated
                } else {
                    UpsertOutcome::Created
                },
            ) && upsert_transition(*old(self), *final(self), name@, settings@),
    {
        if !settings.is_valid() {
            return Err(ErrorKind::BadRequest);
        }
        let ghost pre = *self;
        match self.find_queue(name) {
            Some(i) => {
                let entry = self.queues.remove(i);
                let replaced = QueueEntry {
                    name: entry.name,
                    settings: settings.clone(),
                    jobs: entry.jobs,
                };
                self.queues.insert(i, replaced);
                proof {
                    assert(self.queues@ =~= pre.queues@.update(i as int, self.queues@[i as int]));
                    lemma_update_frame(pre, *self, i as int);
                    self.lemma_index_is(name@, i as int);
                    assert(self.jobs_model(name@) =~= pre.jobs_model(name@));
                }
                Ok(UpsertOutcome::Updated)
            }
            None => {
                let fresh = QueueEntry {
                    name: name.clone(),
                    settings: settings.clone(),
                    jobs: Vec::new(),
                };
                self.queues.push(fresh);
                proof {
                    let n = pre.queues@.len() as int;
                    lemma_push_frame(pre, *self, self.queues@[n]);
                    assert(self.jobs_model(name@) =~= Seq::<JobModel>::empty());
                }
                Ok(UpsertOutcome::Created)
            }
        }
    }

    /// Removes the queue and its jobs; reports `NotFound`, unchanged, when no
    /// queue of that name exists.
    pub fn delete_queue(&mut self, name: &String) -> (r: Result<DeleteOutcome, ErrorKind>)
        requires
            old(self).wf(),
        ensures
            final(self).wf(),
            final(self).next_job_id == old(self).next_job_id,
            final(self).fail_commits == old(self).fail_commits,
            !old(self).has_queue(name@) ==> r == Ok::<DeleteOutcome, ErrorKind>(
                DeleteOutcome::NotFound,
            ) && *final(self) == *old(self),
            old(self).has_queue(name@) ==> r == Ok::<DeleteOutcome, ErrorKind>(
                DeleteOutcome::Deleted,
            ) && !final(self).has_queue(name@) && forall|q: Seq<char>|
                q != name@ ==> #[trigger] final(self).has_queue(q) == old(self).has_queue(q),
            old(self).has_queue(name@) ==> forall|q: Seq<char>|
                q != name@ && old(self).has_queue(q) ==> #[trigger] final(self).settings_of(q)
                    == old(self).settings_of(q) && final(self).jobs_model(q) == old(
                    self,
                ).jobs_model(q),
    {
        let ghost pre = *self;
        match self.find_queue(name) {
            Some(i) => {
                self.queues.remove(i);
                proof {
                    lemma_remove_frame(pre, *self, i as int);
                }
                Ok(DeleteOutcome::Deleted)
            }
            None => Ok(DeleteOutcome::NotFound),
        }
    }

    /// The settings of the named queue; `NoSuchQueue` exactly when it does
    /// not exist.
    pub fn queue_settings(&self, name: &String) -> (r: Result<Settings, ErrorKind>)
        requires
            self.wf(),
        ensures
            self.has_queue(name@) ==> (r matches Ok(s) && s@ == self.settings_of(name@)),
            !self.has_queue(name@) ==> r == Err::<Settings, ErrorKind>(ErrorKind::NoSuchQueue),
    {
        match self.find_queue(name) {
            Some(i) => Ok(self.queues[i].settings.clone()),
            None => Err(ErrorKind::NoSuchQueue),
        }
    }

    /// How many jobs are queued; `NoSuchQueue` exactly when the queue does
    /// not exist.
    pub fn queue_size(&self, name: &String) -> (r: Result<usize, ErrorKind>)
        requires
            self.wf(),
        ensures
            self.has_queue(name@) ==> r == Ok::<usize, ErrorKind>(
                self.jobs_model(name@).len() as usize,
            ),
            !self.has_queue(name@) ==> r == Err::<usize, ErrorKind>(ErrorKind::NoSuchQueue),
    {
        match self.find_queue(name) {
            Some(i) => Ok(self.queues[i].jobs.len()),
            None => Err(ErrorKind::NoSuchQueue),
        }
    }

    /// The identifiers of the queued jobs, in retrieval order; `NoSuchQueue`
    /// exactly when the queue does not exist.
    pub fn queue_job_ids(&self, name: &String) -> (r: Result<Vec<u64>, ErrorKind>)
        requires
            self.wf(),
        ensures
            self.has_queue(name@) ==> (r matches Ok(ids) && ids@.len() == self.jobs_model(
                name@,
            ).len() && forall|k: int|
                0 <= k < ids@.len() ==> ids@[k] == self.jobs_model(name@)[k].id),
            !self.has_queue(name@) ==> r == Err::<Vec<u64>, ErrorKind>(ErrorKind::NoSuchQueue),
    {
        match self.find_queue(name) {
            Some(i) => {
                let jobs = &self.queues[i].jobs;
                let mut ids: Vec<u64> = Vec::new();
                let mut k: usize = 0;
                while k < jobs.len()
                    invariant
                        k <= jobs@.len(),
                        ids@.len() == k,
                        forall|m: int| 0 <= m < k ==> ids@[m] == jobs@[m].id,
                    decreases jobs@.len() - k,
                {
                    ids.push(jobs[k].id);
                    k += 1;
                }
                Ok(ids)
            }
            None => Err(ErrorKind::NoSuchQueue),
        }
    }

    /// Commits a job: assigns the next identifier and appends the job to the
    /// named queue's tail. Fails with `NoSuchQueue` exactly when the queue
    /// does not exist, and with `Internal` while an injected backend outage
    /// is pending; a failed commit changes no queue.
    pub fn create_job(&mut self, name: &String, req: &JobRequest) -> (r: Result<u64, ErrorKind>)
        requires
            old(self).wf(),
            old(self).next_job_id < u64::MAX,
        ensures
            final(self).wf(),
            old(self).fail_commits > 0 ==> r == Err::<u64, ErrorKind>(ErrorKind::Internal)
                && final(self).queues == old(self).queues && final(self).next_job_id == old(
                self,
            ).next_job_id && final(self).fail_commits == old(self).fail_commits - 1,
            old(self).fail_commits == 0 && !old(self).has_queue(name@) ==> r == Err::<
                u64,
                ErrorKind,
            >(ErrorKind::NoSuchQueue) && *final(self) == *old(self),
            old(self).fail_commits == 0 && old(self).has_queue(name@) ==> {
                &&& r == Ok::<u64, ErrorKind>(old(self).next_job_id)
                &&& final(self).next_job_id == old(self).next_job_id + 1
                &&& final(self).fail_commits == 0
                &&& final(self).jobs_model(name@) == old(self).jobs_model(name@).push(
                    JobModel { id: old(self).next_job_id, input: req@ },
                )
                &&& final(self).settings_of(name@) == old(self).settings_of(name@)
                &&& forall|q: Seq<char>| #[trigger]
                    final(self).has_queue(q) == old(self).has_queue(q)
                &&& forall|q: Seq<char>|
                    q != name@ && old(self).has_queue(q) ==> #[trigger] final(self).settings_of(q)
                        == old(self).settings_of(q) && final(self).jobs_model(q) == old(
                        self,
                    ).jobs_model(q)
            },
    {
        if self.fail_commits > 0 {
            self.fail_commits = self.fail_commits - 1;
            return Err(ErrorKind::Internal);
        }
        let ghost pre = *self;
        match self.find_queue(name) {
            Some(i) => {
                let id = self.next_job_id;
                let input = match &req.input {
                    Some(v) => Some(v.clone()),
                    None => None,
                };
                let entry = self.queues.remove(i);
                let mut jobs = entry.jobs;
                jobs.push(Job { id, input });
                let replaced = QueueEntry { name: entry.name, settings: entry.settings, jobs };
                self.queues.insert(i, replaced);
                self.next_job_id = self.next_job_id + 1;
                proof {
                    assert(self.queues@ =~= pre.queues@.update(i as int, self.queues@[i as int]));
                    assert(entry_wf(pre.queues@[i as int], pre.next_job_id));
                    lemma_update_frame(pre, *self, i as int);
                    self.lemma_index_is(name@, i as int);
                    assert(self.jobs_model(name@) =~= pre.jobs_model(name@).push(
                        JobModel { id: pre.next_job_id, input: req@ },
                    ));
                }
                Ok(id)
            }
            None => Err(ErrorKind::NoSuchQueue),
        }
    }

    /// Takes the next available job: the head of the queue in the store's
    /// retrieval order, which this operation must not alter. An existing but
    /// empty queue yields no job and no change; a missing queue fails with
    /// `NoSuchQueue`.
    pub fn next_queued_job(&mut self, name: &String) -> (r: Result<Option<Job>, ErrorKind>)
        requires
            old(self).wf(),
        ensures
            final(self).wf(),
            final(self).next_job_id == old(self).next_job_id,
            final(self).fail_commits == old(self).fail_commits,
            !old(self).has_queue(name@) ==> r == Err::<Option<Job>, ErrorKind>(
                ErrorKind::NoSuchQueue,
            ) && *final(self) == *old(self),
            old(self).has_queue(name@) && old(self).jobs_model(name@).len() == 0 ==> r == Ok::<
                Option<Job>,
                ErrorKind,
            >(None) && *final(self) == *old(self),
            old(self).has_queue(name@) && old(self).jobs_model(name@).len() > 0 ==> {
                &&& (r matches Ok(taken) && taken matches Some(job) && job@ == old(
                    self,
                ).jobs_model(name@)[0])
                &&& final(self).jobs_model(name@) == old(self).jobs_model(name@).drop_first()
                &&& final(self).settings_of(name@) == old(self).settings_of(name@)
                &&& forall|q: Seq<char>| #[trigger]
                    final(self).has_queue(q) == old(self).has_queue(q)
                &&& forall|q: Seq<char>|
                    q != name@ && old(self).has_queue(q) ==> #[trigger] final(self).settings_of(q)
                        == old(self).settings_of(q) && final(self).jobs_model(q) == old(
                        self,
                    ).jobs_model(q)
            },
    {
        let ghost pre = *self;
        match self.find_queue(name) {
            Some(i) => {
                if self.queues[i].jobs.len() == 0 {
                    proof {
                        assert(pre.jobs_model(name@).len() == 0);
                    }
                    return Ok(None);
                }
                let entry = self.queues.remove(i);
                let mut jobs = entry.jobs;
                let job = jobs.remove(0);
                let replaced = QueueEntry { name: entry.name, settings: entry.settings, jobs };
                self.queues.insert(i, replaced);
                proof {
                    assert(self.queues@ =~= pre.queues@.update(i as int, self.queues@[i as int]));
                    assert(entry_wf(pre.queues@[i as int], pre.next_job_id));
                    lemma_update_frame(pre, *self, i as int);
                    self.lemma_index_is(name@, i as int);
                    assert(job@ == pre.jobs_model(name@)[0]);
                    assert(self.jobs_model(name@) =~= pre.jobs_model(name@).drop_first());
                }
                Ok(Some(job))
            }
            None => Err(ErrorKind::NoSuchQueue),
        }
    }
}

/// Whether a job with this identifier is queued.
pub open spec fn has_job(models: Seq<JobModel>, id: u64) -> bool {
    exists|k: int| 0 <= k < models.len() && models[k].id == id
}

/// The position of the queued job with this identifier.
pub open spec fn job_index(models: Seq<JobModel>, id: u64) -> int {
    choose|k: int| 0 <= k < models.len() && models[k].id == id
}

/// With strictly increasing identifiers, a matching position is the position
/// every lookup uses.
pub proof fn lemma_job_index_is(jobs: Seq<Job>, id: u64, k: int)
    requires
        forall|a: int, b: int| 0 <= a < b < jobs.len() ==> jobs[a].id < jobs[b].id,
        0 <= k < jobs.len(),
        jobs[k].id == id,
    ensures
        has_job(jobs_as_models(jobs), id),
        job_index(jobs_as_models(jobs), id) == k,
{
    let models = jobs_as_models(jobs);
    assert(models[k].id == id);
    assert(has_job(models, id));
    let m = job_index(models, id);
    assert(0 <= m < models.len() && models[m].id == id);
    if m < k {
        assert(jobs[m].id < jobs[k].id);
    } else if k < m {
        assert(jobs[k].id < jobs[m].id);
    }
}

impl QueueStore {
    /// Takes the queued job with the given identifier, if it is queued, and
    /// removes it; other jobs keep their order. A missing queue fails with
    /// `NoSuchQueue`; a missing job yields no job and no change.
    #[verifier::loop_isolation(false)]
    pub fn fetch_queued_job(&mut self, name: &String, id: u64) -> (r: Result<
        Option<Job>,
        ErrorKind,
    >)
        requires
            old(self).wf(),
        ensures
            final(self).wf(),
            final(self).next_job_id == old(self).next_job_id,
            final(self).fail_commits == old(self).fail_commits,
            !old(self).has_queue(name@) ==> r == Err::<Option<Job>, ErrorKind>(
                ErrorKind::NoSuchQueue,
            ) && *final(self) == *old(self),
            old(self).has_queue(name@) && !has_job(old(self).jobs_model(name@), id) ==> r == Ok::<
                Option<Job>,
                ErrorKind,
            >(None) && *final(self) == *old(self),
            old(self).has_queue(name@) && has_job(old(self).jobs_model(name@), id) ==> {
                &&& (r matches Ok(taken) && taken matches Some(job) && job@ == old(
                    self,
                ).jobs_model(name@)[job_index(old(self).jobs_model(name@), id)])
                &&& final(self).jobs_model(name@) == old(self).jobs_model(name@).remove(
                    job_index(old(self).jobs_model(name@), id),
                )
                &&& final(self).settings_of(name@) == old(self).settings_of(name@)
                &&& forall|q: Seq<char>| #[trigger]
                    final(self).has_queue(q) == old(self).has_queue(q)
                &&& forall|q: Seq<char>|
                    q != name@ && old(self).has_queue(q) ==> #[trigger] final(self).settings_of(q)
                        == old(self).settings_of(q) && final(self).jobs_model(q) == old(
                        self,
                    ).jobs_model(q)
            },
    {
        let ghost pre = *self;
        match self.find_queue(name) {
            Some(i) => {
                let mut k: usize = 0;
                let n = self.queues[i].jobs.len();
                while k < n
                    invariant
                        pre == *self,
                        self.wf(),
                        i < self.queues@.len(),
                        self.queues@[i as int].name@ == name@,
                        n == self.queues@[i as int].jobs@.len(),
                        k <= n,
                        forall|m: int| 0 <= m < k ==> self.queues@[i as int].jobs@[m].id != id,
                    decreases n - k,
                {
                    if self.queues[i].jobs[k].id == id {
                        proof {
                            self.lemma_index_is(name@, i as int);
                            lemma_job_index_is(self.queues@[i as int].jobs@, id, k as int);
                        }
                        let entry = self.queues.remove(i);
                        let mut jobs = entry.jobs;
                        let job = jobs.remove(k);
                        let replaced = QueueEntry {
                            name: entry.name,
                            settings: entry.settings,
                            jobs,
                        };
                        self.queues.insert(i, replaced);
                        proof {
                            assert(self.queues@ =~= pre.queues@.update(
                                i as int,
                                self.queues@[i as int],
                            ));
                            assert(entry_wf(pre.queues@[i as int], pre.next_job_id));
                            lemma_update_frame(pre, *self, i as int);
                            self.lemma_index_is(name@, i as int);
                            assert(job@ == pre.jobs_model(name@)[k as int]);
                            assert(self.jobs_model(name@) =~= pre.jobs_model(name@).remove(
                                k as int,
                            ));
                        }
                        return Ok(Some(job));
                    }
                    k += 1;
                }
                proof {
                    self.lemma_index_is(name@, i as int);
                    if has_job(pre.jobs_model(name@), id) {
                        let m = job_index(pre.jobs_model(name@), id);
                        assert(pre.queues@[i as int].jobs@[m].id == id);
                    }
                }
                Ok(None)
            }
            None => Err(ErrorKind::NoSuchQueue),
        }
    }
}

} // verus!
