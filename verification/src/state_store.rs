use crate::api::{JobRuntime, JobSpec};
use crate::clock::{now, Timestamp};
use crate::ids;
use crate::ids::JobId;
use std::collections::HashMap;
use vstd::prelude::*;

verus! {

broadcast use vstd::std_specs::hash::group_hash_axioms;

#[derive(Debug, PartialEq, Eq)]
pub enum StoreError {
    NotFound(JobId),
    Io(String),
    Serialization(String),
    InvalidSnapshotName(String),
}

/// What a store error says.
#[verifier::ext_equal]
pub enum StoreErrorView {
    NotFound(JobId),
    Io(Seq<char>),
    Serialization(Seq<char>),
    InvalidSnapshotName(Seq<char>),
}

impl StoreErrorView {
    /// The text shown for the error.
    pub open spec fn text(self) -> Seq<char> {
        match self {
            StoreErrorView::NotFound(job_id) => not_found_text(job_id),
            StoreErrorView::Io(cause) => "io error: "@ + cause,
            StoreErrorView::Serialization(cause) => "serialization error: "@ + cause,
            StoreErrorView::InvalidSnapshotName(name) => "invalid snapshot filename: "@ + name,
        }
    }
}

impl View for StoreError {
    type V = StoreErrorView;

    open spec fn view(&self) -> StoreErrorView {
        match self {
            StoreError::NotFound(job_id) => StoreErrorView::NotFound(*job_id),
            StoreError::Io(cause) => StoreErrorView::Io(cause@),
            StoreError::Serialization(cause) => StoreErrorView::Serialization(cause@),
            StoreError::InvalidSnapshotName(name) => StoreErrorView::InvalidSnapshotName(name@),
        }
    }
}

impl StoreError {
    pub fn message(&self) -> (r: String)
        ensures
            r@ == self@.text(),
    {
        match self {
            StoreError::NotFound(job_id) => {
                let mut r: String = "job ".to_string();
                r.append(ids::format_id(*job_id).as_str());
                r.append(" not found");
                r
            },
            StoreError::Io(cause) => {
                let mut r: String = "io error: ".to_string();
                r.append(cause.as_str());
                r
            },
            StoreError::Serialization(cause) => {
                let mut r: String = "serialization error: ".to_string();
                r.append(cause.as_str());
                r
            },
            StoreError::InvalidSnapshotName(name) => {
                let mut r: String = "invalid snapshot filename: ".to_string();
                r.append(name.as_str());
                r
            },
        }
    }
}

/// The text for a job that a store does not hold.
pub open spec fn not_found_text(job_id: JobId) -> Seq<char> {
    "job "@ + ids::id_text(job_id) + " not found"@
}

/// A job as stores keep it.
#[derive(Debug, PartialEq, Eq)]
pub struct StoredJob {
    pub spec: JobSpec,
    pub runtime: JobRuntime,
}

impl Clone for StoredJob {
    fn clone(&self) -> (r: Self)
        ensures
            r == *self,
    {
        StoredJob { spec: self.spec.clone(), runtime: self.runtime }
    }
}

/// The jobs of a store, by id.
pub type Jobs = Map<JobId, StoredJob>;

/// Each job is filed under its own id.
pub open spec fn keyed(jobs: Jobs) -> bool {
    forall|job_id: JobId| #[trigger]
        jobs.dom().contains(job_id) ==> jobs[job_id].runtime.job_id == job_id
}

/// `jobs` with a job put in, in place of an earlier one with the same id.
pub open spec fn with_job(jobs: Jobs, spec: JobSpec, runtime: JobRuntime) -> Jobs {
    jobs.insert(runtime.job_id, StoredJob { spec, runtime })
}

/// `jobs` with the runtime of one of them replaced.
pub open spec fn with_runtime(jobs: Jobs, runtime: JobRuntime) -> Jobs {
    with_job(jobs, jobs[runtime.job_id].spec, runtime)
}

/// `after` is `before` with the runtime of one job replaced by `runtime`, but for the time
/// of the update, which the store sets.
pub open spec fn runtime_replaced(before: Jobs, after: Jobs, runtime: JobRuntime) -> bool {
    after == with_runtime(
        before,
        JobRuntime { updated_at: after[runtime.job_id].runtime.updated_at, ..runtime },
    )
}

/// `after` is `before` with the runtime of one job replaced by `runtime`, at the time that
/// the clock of the store gave.
pub open spec fn runtime_updated(before: Jobs, after: Jobs, runtime: JobRuntime) -> bool {
    runtime_replaced(before, after, runtime)
        && after[runtime.job_id].runtime.updated_at.of_clock()
}

/// `listed` holds each of the jobs once, in some order.
pub open spec fn lists_jobs(listed: Seq<StoredJob>, jobs: Jobs) -> bool {
    exists|order: Seq<JobId>| #[trigger]
        enumerates(order, jobs.dom()) && listed == order.map_values(|job_id: JobId| jobs[job_id])
}

/// `order` holds each member of `members` once, and nothing else.
pub open spec fn enumerates(order: Seq<JobId>, members: Set<JobId>) -> bool {
    order.no_duplicates() && order.to_set() == members
}

pub open spec fn ascending(ids: Seq<JobId>) -> bool {
    forall|i: int, j: int| 0 <= i <= j < ids.len() ==> ids[i] <= ids[j]
}

/// Sorts with `slice::sort`, which keeps the elements and puts them in ascending order.
#[verifier::external_body]
pub(crate) fn sort_ids(ids: &mut Vec<JobId>)
    ensures
        ascending(final(ids)@),
        final(ids)@.to_multiset() == old(ids)@.to_multiset(),
{
    ids.sort();
}

/// A call of a store, with what is handed to it.
pub enum StoreCall {
    PutJob(JobSpec, JobRuntime),
    GetJob(JobId),
    UpdateRuntime(JobRuntime),
    ListJobs,
    SnapshotJob(JobId),
    LoadSnapshot(JobId),
    ListSnapshots,
}

/// The snapshots `after` are those `before`, but for that of one job, which may have been
/// taken anew from `jobs`.
pub open spec fn saved_or_kept(before: Jobs, after: Jobs, jobs: Jobs, job_id: JobId) -> bool {
    after == before || (jobs.dom().contains(job_id) && after == before.insert(
        job_id,
        jobs[job_id],
    ))
}

/// `after` is `before`, but for what is filed under one id.
pub open spec fn same_but_one(before: Jobs, after: Jobs, job_id: JobId) -> bool {
    after == before || (after.dom().contains(job_id) && after == before.insert(
        job_id,
        after[job_id],
    ))
}

/// The store `after` is `before`, but that it was asked to look something up.
pub open spec fn only_read<S: StateStore>(before: S, after: S, call: StoreCall) -> bool {
    &&& after.calls() == before.calls().push(call)
    &&& after.jobs() == before.jobs()
    &&& after.snapshots() == before.snapshots()
    &&& after.reliable() == before.reliable()
}

/// Where jobs are kept. A store may fail at any call with an error other than `NotFound`;
/// one that never does is reliable. Whether storing a job or its runtime takes a snapshot
/// of the job too is up to the store; `snapshot_job` always takes one.
///
/// The spec functions exist for proofs alone, and a store whose code is not verified leaves
/// them out. Their defaults say nothing of such a store: it is held to the contracts below
/// with ghosts of its own in their place, that is, with the jobs and the snapshots that it
/// holds, the calls that it was given, and the errors that it answers.
pub trait StateStore {
    /// The jobs that the store holds.
    open spec fn jobs(&self) -> Jobs {
        Map::empty()
    }

    /// The snapshots that the store holds, by the id of the job.
    open spec fn snapshots(&self) -> Jobs {
        Map::empty()
    }

    /// The calls that the store was given, in the order in which they came.
    open spec fn calls(&self) -> Seq<StoreCall> {
        Seq::empty()
    }

    /// Whether the store fails on nothing but jobs that it does not hold.
    open spec fn reliable(&self) -> bool {
        false
    }

    /// Whether the store answers a call with an error other than `NotFound`.
    open spec fn refuses(&self, call: StoreCall, error: StoreErrorView) -> bool {
        false
    }

    fn put_job(&mut self, spec: JobSpec, runtime: JobRuntime) -> (r: Result<(), StoreError>)
        ensures
            final(self).reliable() == old(self).reliable(),
            final(self).calls() == old(self).calls().push(StoreCall::PutJob(spec, runtime)),
            saved_or_kept(
                old(self).snapshots(),
                final(self).snapshots(),
                final(self).jobs(),
                runtime.job_id,
            ),
            match r {
                Ok(()) => final(self).jobs() == with_job(old(self).jobs(), spec, runtime),
                Err(e) => {
                    &&& !(e is NotFound)
                    &&& !old(self).reliable()
                    &&& old(self).refuses(StoreCall::PutJob(spec, runtime), e@)
                    &&& final(self).jobs() == old(self).jobs() || final(self).jobs() == with_job(
                        old(self).jobs(),
                        spec,
                        runtime,
                    )
                },
            },
    ;

    fn get_job(&mut self, job_id: JobId) -> (r: Result<StoredJob, StoreError>)
        ensures
            final(self).reliable() == old(self).reliable(),
            final(self).calls() == old(self).calls().push(StoreCall::GetJob(job_id)),
            final(self).snapshots() == old(self).snapshots(),
            final(self).jobs() == old(self).jobs(),
            match r {
                Ok(stored) => old(self).jobs().dom().contains(job_id) && stored
                    == old(self).jobs()[job_id],
                Err(StoreError::NotFound(missing)) => missing == job_id
                    && !old(self).jobs().dom().contains(job_id),
                Err(e) => !old(self).reliable() && old(self).refuses(
                    StoreCall::GetJob(job_id),
                    e@,
                ),
            },
    ;

    fn update_runtime(&mut self, runtime: JobRuntime) -> (r: Result<(), StoreError>)
        ensures
            final(self).reliable() == old(self).reliable(),
            final(self).calls() == old(self).calls().push(StoreCall::UpdateRuntime(runtime)),
            saved_or_kept(
                old(self).snapshots(),
                final(self).snapshots(),
                final(self).jobs(),
                runtime.job_id,
            ),
            match r {
                Ok(()) => old(self).jobs().dom().contains(runtime.job_id) && runtime_updated(
                    old(self).jobs(),
                    final(self).jobs(),
                    runtime,
                ),
                Err(StoreError::NotFound(missing)) => missing == runtime.job_id && !old(self).jobs()
                    .dom().contains(runtime.job_id) && final(self).jobs() == old(self).jobs(),
                Err(e) => {
                    &&& !old(self).reliable()
                    &&& old(self).refuses(StoreCall::UpdateRuntime(runtime), e@)
                    &&& final(self).jobs() == old(self).jobs() || (old(self).jobs().dom().contains(
                        runtime.job_id,
                    ) && runtime_updated(old(self).jobs(), final(self).jobs(), runtime))
                },
            },
    ;

    fn list_jobs(&mut self) -> (r: Result<Vec<StoredJob>, StoreError>)
        ensures
            final(self).reliable() == old(self).reliable(),
            final(self).calls() == old(self).calls().push(StoreCall::ListJobs),
            final(self).snapshots() == old(self).snapshots(),
            final(self).jobs() == old(self).jobs(),
            match r {
                Ok(listed) => lists_jobs(listed@, old(self).jobs()),
                Err(e) => !(e is NotFound) && !old(self).reliable() && old(self).refuses(
                    StoreCall::ListJobs,
                    e@,
                ),
            },
    ;

    fn snapshot_job(&mut self, job_id: JobId) -> (r: Result<(), StoreError>)
        ensures
            final(self).reliable() == old(self).reliable(),
            final(self).calls() == old(self).calls().push(StoreCall::SnapshotJob(job_id)),
            final(self).jobs() == old(self).jobs(),
            match r {
                Ok(()) => old(self).jobs().dom().contains(job_id) && final(self).snapshots()
                    == old(self).snapshots().insert(job_id, old(self).jobs()[job_id]),
                Err(StoreError::NotFound(missing)) => missing == job_id && !old(self).jobs().dom()
                    .contains(job_id) && final(self).snapshots() == old(self).snapshots(),
                Err(e) => {
                    &&& !old(self).reliable()
                    &&& old(self).refuses(StoreCall::SnapshotJob(job_id), e@)
                    &&& saved_or_kept(
                        old(self).snapshots(),
                        final(self).snapshots(),
                        old(self).jobs(),
                        job_id,
                    )
                },
            },
    ;

    fn load_snapshot(&mut self, job_id: JobId) -> (r: Result<StoredJob, StoreError>)
        ensures
            final(self).reliable() == old(self).reliable(),
            final(self).calls() == old(self).calls().push(StoreCall::LoadSnapshot(job_id)),
            final(self).snapshots() == old(self).snapshots(),
            match r {
                Ok(stored) => {
                    &&& old(self).snapshots().dom().contains(job_id)
                    &&& stored == old(self).snapshots()[job_id]
                    &&& final(self).jobs() == old(self).jobs().insert(job_id, stored)
                },
                Err(StoreError::NotFound(missing)) => {
                    &&& missing == job_id
                    &&& old(self).reliable() ==> !old(self).snapshots().dom().contains(job_id)
                    &&& final(self).jobs() == old(self).jobs()
                },
                Err(e) => {
                    &&& !old(self).reliable()
                    &&& old(self).refuses(StoreCall::LoadSnapshot(job_id), e@)
                    &&& final(self).jobs() == old(self).jobs()
                },
            },
    ;

    fn list_snapshots(&mut self) -> (r: Result<Vec<JobId>, StoreError>)
        ensures
            final(self).reliable() == old(self).reliable(),
            final(self).calls() == old(self).calls().push(StoreCall::ListSnapshots),
            final(self).snapshots() == old(self).snapshots(),
            final(self).jobs() == old(self).jobs(),
            match r {
                Ok(ids) => ascending(ids@) && ids@.to_set() == old(self).snapshots().dom(),
                Err(e) => !(e is NotFound) && !old(self).reliable() && old(self).refuses(
                    StoreCall::ListSnapshots,
                    e@,
                ),
            },
    ;
}

/// The last call of the store was answered with an error.
pub open spec fn last_call_refused<S: StateStore>(store: S, error: StoreErrorView) -> bool {
    exists|at: S| #[trigger]
        at.refuses(store.calls().last(), error) && at.calls() == store.calls().drop_last()
}

/// What touches the snapshot of one job, time and again, touches no other.
pub proof fn lemma_saves_touch_one(before: Jobs, mid: Jobs, after: Jobs, jobs: Jobs, job_id: JobId)
    requires
        same_but_one(before, mid, job_id),
        saved_or_kept(mid, after, jobs, job_id),
    ensures
        same_but_one(before, after, job_id),
{
    if after != before && after != mid {
        assert(after =~= before.insert(job_id, after[job_id]));
    }
}

/// A store that keeps its jobs in memory alone. The snapshot of a job is the job itself.
pub struct InMemoryStateStore {
    jobs: HashMap<JobId, StoredJob>,
    log: Ghost<Seq<StoreCall>>,
}

impl Default for InMemoryStateStore {
    fn default() -> (r: Self)
        ensures
            r.jobs() == Map::<JobId, StoredJob>::empty(),
            r.calls() == Seq::<StoreCall>::empty(),
    {
        InMemoryStateStore { jobs: HashMap::new(), log: Ghost(Seq::empty()) }
    }
}

impl InMemoryStateStore {
    fn record(&mut self, Ghost(call): Ghost<StoreCall>)
        ensures
            final(self).jobs() == old(self).jobs(),
            final(self).calls() == old(self).calls().push(call),
    {
        self.log = Ghost(self.log@.push(call));
    }

    /// Replaces the runtime of a job, with `instant` as the time of the update.
    pub fn update_runtime_at(&mut self, runtime: JobRuntime, instant: Timestamp) -> (r: Result<
        (),
        StoreError,
    >)
        ensures
            final(self).calls() == old(self).calls().push(StoreCall::UpdateRuntime(runtime)),
            match r {
                Ok(()) => old(self).jobs().dom().contains(runtime.job_id) && final(self).jobs()
                    == with_runtime(
                    old(self).jobs(),
                    JobRuntime { updated_at: instant, ..runtime },
                ),
                Err(e) => e == StoreError::NotFound(runtime.job_id) && !old(self).jobs().dom().contains(runtime.job_id) && final(self).jobs() == old(self).jobs(),
            },
    {
        self.record(Ghost(StoreCall::UpdateRuntime(runtime)));
        replace_runtime(&mut self.jobs, runtime, instant)
    }
}

pub(crate) fn replace_runtime(
    jobs: &mut HashMap<JobId, StoredJob>,
    runtime: JobRuntime,
    instant: Timestamp,
) -> (r: Result<(), StoreError>)
    ensures
        match r {
            Ok(()) => old(jobs)@.dom().contains(runtime.job_id) && final(jobs)@ == with_runtime(
                old(jobs)@,
                JobRuntime { updated_at: instant, ..runtime },
            ),
            Err(e) => e == StoreError::NotFound(runtime.job_id) && !old(jobs)@.dom().contains(
                runtime.job_id,
            ) && final(jobs)@ == old(jobs)@,
        },
{
    let mut runtime = runtime;
    runtime.updated_at = instant;
    match jobs.remove(&runtime.job_id) {
        Some(stored) => {
            jobs.insert(runtime.job_id, StoredJob { spec: stored.spec, runtime });
            assert(jobs@ =~= with_runtime(old(jobs)@, runtime));
            Ok(())
        },
        None => Err(StoreError::NotFound(runtime.job_id)),
    }
}

pub(crate) fn find_job(jobs: &HashMap<JobId, StoredJob>, job_id: JobId) -> (r: Result<
    StoredJob,
    StoreError,
>)
    ensures
        match r {
            Ok(stored) => jobs@.dom().contains(job_id) && stored == jobs@[job_id],
            Err(e) => e == StoreError::NotFound(job_id) && !jobs@.dom().contains(job_id),
        },
{
    match jobs.get(&job_id) {
        Some(stored) => Ok(stored.clone()),
        None => Err(StoreError::NotFound(job_id)),
    }
}

pub(crate) fn collect_ids(jobs: &HashMap<JobId, StoredJob>) -> (r: Vec<JobId>)
    ensures
        enumerates(r@, jobs@.dom()),
{
    let mut order: Vec<JobId> = Vec::new();
    let keys = jobs.keys();
    let ghost members = vstd::std_specs::iter::IteratorSpec::remaining(&keys);
    for job_id in it: keys
        invariant
            it.seq() == members,
            order@ == members.unref().take(it.index()),
    {
        order.push(*job_id);
        assert(order@ =~= members.unref().take(it.index() + 1));
    }
    assert(order@ =~= members.unref());
    order
}

pub(crate) fn collect_jobs(jobs: &HashMap<JobId, StoredJob>) -> (r: Vec<StoredJob>)
    ensures
        lists_jobs(r@, jobs@),
{
    let order = collect_ids(jobs);
    let mut listed: Vec<StoredJob> = Vec::new();
    let mut i: usize = 0;
    while i < order.len()
        invariant
            i <= order.len(),
            enumerates(order@, jobs@.dom()),
            listed@ == order@.take(i as int).map_values(|job_id: JobId| jobs@[job_id]),
        decreases order.len() - i,
    {
        let job_id: JobId = order[i];
        assert(order@.to_set().contains(job_id));
        if let Some(stored) = jobs.get(&job_id) {
            listed.push(stored.clone());
        }
        i = i + 1;
        assert(listed@ =~= order@.take(i as int).map_values(|job_id: JobId| jobs@[job_id]));
    }
    assert(order@.take(i as int) =~= order@);
    listed
}

impl StateStore for InMemoryStateStore {
    closed spec fn jobs(&self) -> Jobs {
        self.jobs@
    }

    open spec fn snapshots(&self) -> Jobs {
        self.jobs()
    }

    closed spec fn calls(&self) -> Seq<StoreCall> {
        self.log@
    }

    open spec fn reliable(&self) -> bool {
        true
    }

    fn put_job(&mut self, spec: JobSpec, runtime: JobRuntime) -> (r: Result<(), StoreError>) {
        self.record(Ghost(StoreCall::PutJob(spec, runtime)));
        self.jobs.insert(runtime.job_id, StoredJob { spec, runtime });
        Ok(())
    }

    fn get_job(&mut self, job_id: JobId) -> (r: Result<StoredJob, StoreError>) {
        self.record(Ghost(StoreCall::GetJob(job_id)));
        find_job(&self.jobs, job_id)
    }

    fn update_runtime(&mut self, runtime: JobRuntime) -> (r: Result<(), StoreError>) {
        self.update_runtime_at(runtime, now())
    }

    fn list_jobs(&mut self) -> (r: Result<Vec<StoredJob>, StoreError>) {
        self.record(Ghost(StoreCall::ListJobs));
        Ok(collect_jobs(&self.jobs))
    }

    fn snapshot_job(&mut self, job_id: JobId) -> (r: Result<(), StoreError>) {
        self.record(Ghost(StoreCall::SnapshotJob(job_id)));
        if self.jobs.contains_key(&job_id) {
            assert(self.jobs() =~= self.jobs().insert(job_id, self.jobs()[job_id]));
            Ok(())
        } else {
            Err(StoreError::NotFound(job_id))
        }
    }

    fn load_snapshot(&mut self, job_id: JobId) -> (r: Result<StoredJob, StoreError>)
        ensures
            final(self).jobs() == old(self).jobs(),
    {
        self.record(Ghost(StoreCall::LoadSnapshot(job_id)));
        let r = find_job(&self.jobs, job_id);
        proof {
            if r is Ok {
                assert(self.jobs() =~= self.jobs().insert(job_id, r->Ok_0));
            }
        }
        r
    }

    fn list_snapshots(&mut self) -> (r: Result<Vec<JobId>, StoreError>)
        ensures
            r matches Ok(ids) && enumerates(ids@, old(self).jobs().dom()),
    {
        self.record(Ghost(StoreCall::ListSnapshots));
        let mut order = collect_ids(&self.jobs);
        let ghost unsorted = order@;
        sort_ids(&mut order);
        proof {
            lemma_same_members(unsorted, order@);
        }
        Ok(order)
    }
}

/// Sequences with the same elements as often have the same members, and hold duplicates
/// only together.
proof fn lemma_same_members(a: Seq<JobId>, b: Seq<JobId>)
    requires
        a.to_multiset() == b.to_multiset(),
    ensures
        a.to_set() == b.to_set(),
        a.no_duplicates() ==> b.no_duplicates(),
{
    broadcast use vstd::seq_lib::group_to_multiset_ensures;

    assert forall|x: JobId| a.contains(x) == b.contains(x) by {
        assert(a.contains(x) <==> a.to_multiset().count(x) > 0);
        assert(b.contains(x) <==> b.to_multiset().count(x) > 0);
    }
    assert(a.to_set() =~= b.to_set());
    if a.no_duplicates() {
        a.lemma_multiset_has_no_duplicates();
        b.lemma_multiset_has_no_duplicates_conv();
    }
}

/// A job that was put in is found as it was put in, and no other job is touched.
pub proof fn law_put_job_is_found(jobs: Jobs, spec: JobSpec, runtime: JobRuntime, other: JobId)
    ensures
        with_job(jobs, spec, runtime).dom().contains(runtime.job_id),
        with_job(jobs, spec, runtime)[runtime.job_id] == (StoredJob { spec, runtime }),
        other != runtime.job_id ==> with_job(jobs, spec, runtime).dom().contains(other)
            == jobs.dom().contains(other) && with_job(jobs, spec, runtime)[other] == jobs[other],
{
}

/// Of two jobs put in under one id, the second remains.
pub proof fn law_put_job_overwrites(
    jobs: Jobs,
    spec: JobSpec,
    runtime: JobRuntime,
    later_spec: JobSpec,
    later_runtime: JobRuntime,
)
    requires
        runtime.job_id == later_runtime.job_id,
    ensures
        with_job(with_job(jobs, spec, runtime), later_spec, later_runtime) == with_job(
            jobs,
            later_spec,
            later_runtime,
        ),
{
    assert(with_job(with_job(jobs, spec, runtime), later_spec, later_runtime) =~= with_job(
        jobs,
        later_spec,
        later_runtime,
    ));
}

/// Of two jobs put into an empty store under one id, the second is found as it was put in,
/// and no other job is.
pub proof fn law_last_put_wins(
    spec: JobSpec,
    runtime: JobRuntime,
    later_spec: JobSpec,
    later_runtime: JobRuntime,
    other: JobId,
)
    requires
        runtime.job_id == later_runtime.job_id,
        other != runtime.job_id,
    ensures
        ({
            let jobs = with_job(
                with_job(Map::empty(), spec, runtime),
                later_spec,
                later_runtime,
            );
            &&& jobs.dom().contains(runtime.job_id)
            &&& jobs[runtime.job_id] == (StoredJob { spec: later_spec, runtime: later_runtime })
            &&& !jobs.dom().contains(other)
        }),
{
}

/// An update of a runtime changes nothing but the runtime of that job: no job is added or
/// lost, the specification of the job stays, and so do all other jobs.
pub proof fn law_update_changes_one_runtime(
    before: Jobs,
    after: Jobs,
    runtime: JobRuntime,
    other: JobId,
)
    requires
        before.dom().contains(runtime.job_id),
        runtime_replaced(before, after, runtime),
    ensures
        after.dom() == before.dom(),
        after[runtime.job_id].spec == before[runtime.job_id].spec,
        after[runtime.job_id].runtime.same_but_time(runtime),
        other != runtime.job_id && before.dom().contains(other) ==> after[other] == before[other],
{
    assert(after.dom() =~= before.dom());
}

/// Every operation of a store keeps each job filed under its own id.
pub proof fn law_operations_keep_jobs_keyed(
    jobs: Jobs,
    after: Jobs,
    spec: JobSpec,
    runtime: JobRuntime,
)
    requires
        keyed(jobs),
    ensures
        keyed(with_job(jobs, spec, runtime)),
        runtime_replaced(jobs, after, runtime) ==> keyed(after),
{
}

/// A list of the jobs holds as many entries as there are jobs, all with different ids, and
/// each job is in it.
pub proof fn law_list_holds_each_job_once(listed: Seq<StoredJob>, jobs: Jobs)
    requires
        keyed(jobs),
        lists_jobs(listed, jobs),
    ensures
        listed.len() == jobs.dom().len(),
        forall|job_id: JobId| #[trigger]
            jobs.dom().contains(job_id) ==> listed.contains(jobs[job_id]),
        forall|i: int|
            0 <= i < listed.len() ==> jobs.dom().contains((#[trigger] listed[i]).runtime.job_id)
                && listed[i] == jobs[listed[i].runtime.job_id],
        forall|i: int, j: int|
            0 <= i < j < listed.len() ==> (#[trigger] listed[i]).runtime.job_id != (
            #[trigger] listed[j]).runtime.job_id,
{
    let order = choose|order: Seq<JobId>| #[trigger]
        enumerates(order, jobs.dom()) && listed == order.map_values(|job_id: JobId| jobs[job_id]);
    order.unique_seq_to_set();
    assert forall|i: int| 0 <= i < order.len() implies jobs.dom().contains(#[trigger] order[i])
        && listed[i] == jobs[order[i]] by {
        assert(order.to_set().contains(order[i]));
    }
    assert forall|job_id: JobId| #[trigger] jobs.dom().contains(job_id) implies listed.contains(
        jobs[job_id],
    ) by {
        assert(order.to_set().contains(job_id));
        let i = choose|i: int| 0 <= i < order.len() && order[i] == job_id;
        assert(listed[i] == jobs[job_id]);
    }
    assert forall|i: int| 0 <= i < listed.len() implies jobs.dom().contains(
        (#[trigger] listed[i]).runtime.job_id,
    ) && listed[i] == jobs[listed[i].runtime.job_id] by {
        assert(jobs.dom().contains(order[i]));
    }
    assert forall|i: int, j: int| 0 <= i < j < listed.len() implies (
    #[trigger] listed[i]).runtime.job_id != (#[trigger] listed[j]).runtime.job_id by {
        assert(jobs.dom().contains(order[i]) && jobs.dom().contains(order[j]));
        assert(order[i] != order[j]);
    }
}

} // verus!
