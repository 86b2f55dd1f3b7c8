//! Laws on calls of stores, of the worker registry and of workers: what each one gives for
//! its arguments and what it leaves behind.
use crate::api::{JobEvent, JobRuntime, JobSpec};
use crate::clock::Timestamp;
use crate::file_store;
use crate::file_store::{
    DirEntry, DirListing, FileStateStore, NameMeaning, SnapshotFile, SnapshotRead, SnapshotWrite,
    WriteOutcome,
};
use crate::ids;
use crate::ids::JobId;
use crate::laws::requests::{cause_text, law_list_holds_each_worker_once};
use crate::laws::stores::{
    law_content_of_a_snapshot, law_meaning_of_a_file_name, law_snapshot_suffix,
};
use crate::lifecycle::LifecycleDecision;
use crate::registry::{WorkerRecord, WorkerRegistry, WorkerStatus};
use crate::scheduler::PlacementPlan;
use crate::state_store;
use crate::state_store::{
    InMemoryStateStore, StateStore, StoreCall, StoreError, StoreErrorView, StoredJob,
};
use crate::worker_client::{
    CommandContext, CommandResult, MockWorkerClient, SentCommand, WorkerClient, WorkerCommand,
    WorkerError,
};
use vstd::prelude::*;
use vstd::utf8::*;

verus! {

/// A store that takes a job files it under its id, in place of an earlier one, and touches no
/// other. A reliable store takes every job.
pub proof fn law_put_job_call<S: StateStore>(
    store: &mut S,
    spec: JobSpec,
    runtime: JobRuntime,
    r: Result<(), StoreError>,
)
    requires
        call_ensures(S::put_job, (store, spec, runtime), r),
    ensures
        old(store).reliable() ==> r is Ok,
        r is Ok ==> final(store).jobs() == old(store).jobs().insert(
            runtime.job_id,
            StoredJob { spec, runtime },
        ),
        r matches Err(e) ==> !(e is NotFound) && old(store).refuses(
            StoreCall::PutJob(spec, runtime),
            e@,
        ),
        final(store).calls() == old(store).calls().push(StoreCall::PutJob(spec, runtime)),
        forall|other: JobId|
            other != runtime.job_id && old(store).snapshots().dom().contains(other) ==> (
            #[trigger] final(store).snapshots()[other]) == old(store).snapshots()[other],
{
}

/// A store hands out the job that it holds under an id, and says so where it holds none. A
/// look-up changes nothing.
pub proof fn law_get_job_call<S: StateStore>(
    store: &mut S,
    job_id: JobId,
    r: Result<StoredJob, StoreError>,
)
    requires
        call_ensures(S::get_job, (store, job_id), r),
    ensures
        old(store).reliable() ==> (r is Ok <==> old(store).jobs().dom().contains(job_id)),
        match r {
            Ok(stored) => old(store).jobs().dom().contains(job_id) && stored
                == old(store).jobs()[job_id],
            Err(StoreError::NotFound(missing)) => missing == job_id
                && !old(store).jobs().dom().contains(job_id),
            Err(e) => old(store).refuses(StoreCall::GetJob(job_id), e@),
        },
        final(store).jobs() == old(store).jobs(),
        final(store).snapshots() == old(store).snapshots(),
        final(store).calls() == old(store).calls().push(StoreCall::GetJob(job_id)),
{
}

/// A job that was put in is found as it was put in.
pub proof fn law_put_then_get_calls<S: StateStore>(
    store: &mut S,
    spec: JobSpec,
    runtime: JobRuntime,
    later: &mut S,
    r: Result<StoredJob, StoreError>,
)
    requires
        call_ensures(S::put_job, (store, spec, runtime), Ok(())),
        call_ensures(S::get_job, (later, runtime.job_id), r),
        *old(later) == *final(store),
    ensures
        old(store).reliable() ==> r is Ok,
        r matches Ok(stored) ==> stored.spec == spec && stored.runtime == runtime,
        !(r matches Err(StoreError::NotFound(_))),
{
}

/// A store that takes a runtime gives the job all that it says but the time, and keeps its
/// specification and every other job. It says so where it does not hold the job.
pub proof fn law_update_runtime_call<S: StateStore>(
    store: &mut S,
    runtime: JobRuntime,
    r: Result<(), StoreError>,
)
    requires
        call_ensures(S::update_runtime, (store, runtime), r),
    ensures
        old(store).reliable() ==> (r is Ok <==> old(store).jobs().dom().contains(runtime.job_id)),
        match r {
            Ok(()) => {
                let stored = final(store).jobs()[runtime.job_id];
                &&& old(store).jobs().dom().contains(runtime.job_id)
                &&& final(store).jobs() == old(store).jobs().insert(runtime.job_id, stored)
                &&& stored.spec == old(store).jobs()[runtime.job_id].spec
                &&& stored.runtime.job_id == runtime.job_id
                &&& stored.runtime.state == runtime.state
                &&& stored.runtime.phase == runtime.phase
                &&& stored.runtime.cursor == runtime.cursor
                &&& stored.runtime.fence_token == runtime.fence_token
                &&& stored.runtime.updated_at.nanos < 1_000_000_000
            },
            Err(StoreError::NotFound(missing)) => {
                &&& missing == runtime.job_id
                &&& !old(store).jobs().dom().contains(missing)
                &&& final(store).jobs() == old(store).jobs()
            },
            Err(e) => old(store).refuses(StoreCall::UpdateRuntime(runtime), e@),
        },
        final(store).calls() == old(store).calls().push(StoreCall::UpdateRuntime(runtime)),
{
    if r is Ok {
        assert(final(store).jobs() =~= old(store).jobs().insert(
            runtime.job_id,
            final(store).jobs()[runtime.job_id],
        ));
    }
}

/// A store lists each job that it holds, once, and nothing else.
pub proof fn law_list_jobs_call<S: StateStore>(
    store: &mut S,
    r: Result<Vec<StoredJob>, StoreError>,
)
    requires
        call_ensures(S::list_jobs, (store,), r),
        forall|job_id: JobId| #[trigger]
            old(store).jobs().dom().contains(job_id) ==> old(store).jobs()[job_id].runtime.job_id
                == job_id,
    ensures
        old(store).reliable() ==> r is Ok,
        match r {
            Ok(listed) => {
                let jobs = old(store).jobs();
                &&& listed@.len() == jobs.dom().len()
                &&& forall|job_id: JobId| #[trigger]
                    jobs.dom().contains(job_id) ==> listed@.contains(jobs[job_id])
                &&& forall|i: int|
                    0 <= i < listed@.len() ==> jobs.dom().contains(
                        (#[trigger] listed@[i]).runtime.job_id,
                    ) && listed@[i] == jobs[listed@[i].runtime.job_id]
                &&& forall|i: int, j: int|
                    0 <= i < j < listed@.len() ==> (#[trigger] listed@[i]).runtime.job_id != (
                    #[trigger] listed@[j]).runtime.job_id
            },
            Err(e) => !(e is NotFound) && old(store).refuses(StoreCall::ListJobs, e@),
        },
        final(store).jobs() == old(store).jobs(),
        final(store).snapshots() == old(store).snapshots(),
        final(store).calls() == old(store).calls().push(StoreCall::ListJobs),
{
    if let Ok(listed) = r {
        state_store::law_list_holds_each_job_once(listed@, old(store).jobs());
    }
}

/// A snapshot of a job is the job as the store holds it. That of every other job stays.
pub proof fn law_snapshot_job_call<S: StateStore>(
    store: &mut S,
    job_id: JobId,
    r: Result<(), StoreError>,
)
    requires
        call_ensures(S::snapshot_job, (store, job_id), r),
    ensures
        old(store).reliable() ==> (r is Ok <==> old(store).jobs().dom().contains(job_id)),
        match r {
            Ok(()) => old(store).jobs().dom().contains(job_id) && final(store).snapshots()
                == old(store).snapshots().insert(job_id, old(store).jobs()[job_id]),
            Err(StoreError::NotFound(missing)) => missing == job_id
                && !old(store).jobs().dom().contains(job_id) && final(store).snapshots()
                == old(store).snapshots(),
            Err(e) => old(store).refuses(StoreCall::SnapshotJob(job_id), e@),
        },
        final(store).jobs() == old(store).jobs(),
        final(store).calls() == old(store).calls().push(StoreCall::SnapshotJob(job_id)),
{
}

/// A snapshot that is loaded puts the job back as it was when the snapshot was taken.
pub proof fn law_load_snapshot_call<S: StateStore>(
    store: &mut S,
    job_id: JobId,
    r: Result<StoredJob, StoreError>,
)
    requires
        call_ensures(S::load_snapshot, (store, job_id), r),
    ensures
        old(store).reliable() ==> (r is Ok <==> old(store).snapshots().dom().contains(job_id)),
        match r {
            Ok(stored) => old(store).snapshots().dom().contains(job_id) && stored
                == old(store).snapshots()[job_id] && final(store).jobs()
                == old(store).jobs().insert(job_id, stored),
            Err(StoreError::NotFound(missing)) => missing == job_id && final(store).jobs()
                == old(store).jobs(),
            Err(e) => old(store).refuses(StoreCall::LoadSnapshot(job_id), e@)
                && final(store).jobs() == old(store).jobs(),
        },
        final(store).snapshots() == old(store).snapshots(),
        final(store).calls() == old(store).calls().push(StoreCall::LoadSnapshot(job_id)),
{
}

/// A job whose snapshot was taken is loaded from it as it was then.
pub proof fn law_snapshot_then_load_calls<S: StateStore>(
    store: &mut S,
    job_id: JobId,
    later: &mut S,
    r: Result<StoredJob, StoreError>,
)
    requires
        call_ensures(S::snapshot_job, (store, job_id), Ok(())),
        call_ensures(S::load_snapshot, (later, job_id), r),
        old(later).snapshots() == final(store).snapshots(),
    ensures
        r matches Ok(stored) ==> stored == old(store).jobs()[job_id] && final(later).jobs()[job_id]
            == old(store).jobs()[job_id],
{
}

/// A store lists the ids of its snapshots from the smallest on.
pub proof fn law_list_snapshots_call<S: StateStore>(
    store: &mut S,
    r: Result<Vec<JobId>, StoreError>,
)
    requires
        call_ensures(S::list_snapshots, (store,), r),
    ensures
        old(store).reliable() ==> r is Ok,
        match r {
            Ok(listed) => {
                &&& forall|i: int, j: int|
                    0 <= i < j < listed@.len() ==> #[trigger] listed@[i] <= #[trigger] listed@[j]
                &&& forall|job_id: JobId|
                    listed@.contains(job_id) <==> #[trigger] old(
                        store,
                    ).snapshots().dom().contains(job_id)
            },
            Err(e) => !(e is NotFound) && old(store).refuses(StoreCall::ListSnapshots, e@),
        },
        final(store).jobs() == old(store).jobs(),
        final(store).snapshots() == old(store).snapshots(),
        final(store).calls() == old(store).calls().push(StoreCall::ListSnapshots),
{
    if let Ok(listed) = r {
        assert forall|job_id: JobId| listed@.contains(job_id) <==> #[trigger] old(
            store,
        ).snapshots().dom().contains(job_id) by {
            assert(listed@.to_set().contains(job_id) <==> listed@.contains(job_id));
        }
    }
}

/// A store in memory begins empty.
pub proof fn law_memory_store_begins_empty_call(r: InMemoryStateStore)
    requires
        call_ensures(InMemoryStateStore::default, (), r),
    ensures
        r.jobs().dom() == Set::<JobId>::empty(),
        r.calls().len() == 0,
{
}

/// A store in memory takes a runtime with the time that is given.
pub proof fn law_memory_update_at_call(
    store: &mut InMemoryStateStore,
    runtime: JobRuntime,
    instant: Timestamp,
    r: Result<(), StoreError>,
)
    requires
        call_ensures(InMemoryStateStore::update_runtime_at, (store, runtime, instant), r),
    ensures
        r is Ok <==> old(store).jobs().dom().contains(runtime.job_id),
        match r {
            Ok(()) => final(store).jobs() == old(store).jobs().insert(
                runtime.job_id,
                StoredJob {
                    spec: old(store).jobs()[runtime.job_id].spec,
                    runtime: JobRuntime { updated_at: instant, ..runtime },
                },
            ),
            Err(e) => e == StoreError::NotFound(runtime.job_id) && final(store).jobs()
                == old(store).jobs(),
        },
{
}

/// A failure of a store is told by its kind and its cause.
pub proof fn law_store_message_call(error: StoreError, r: String)
    requires
        call_ensures(StoreError::message, (&error,), r),
    ensures
        r@ == cause_text(error@),
{
}

/// A file is taken for the snapshot of the job whose id its name says, passed over where its
/// name does not end as that of a snapshot, and else refused.
pub proof fn law_snapshot_id_call(entry: DirEntry, r: Result<Option<JobId>, StoreError>)
    requires
        call_ensures(DirEntry::snapshot_id, (&entry,), r),
    ensures
        ({
            let name = entry.name@;
            let n = name.len();
            let suffixed = n >= 6 && name[n - 5] == 46 && name[n - 4] == 106 && name[n - 3] == 115
                && name[n - 2] == 111 && name[n - 1] == 110;
            let stem = name.take(n - 5);
            match r {
                Ok(None) => !suffixed,
                Ok(Some(job_id)) => suffixed && valid_utf8(stem) && ids::denotes_id(
                    decode_utf8(stem),
                    job_id,
                ),
                Err(StoreError::InvalidSnapshotName(shown)) => suffixed && if valid_utf8(stem) {
                    &&& forall|id: JobId| !ids::denotes_id(decode_utf8(stem), id)
                    &&& shown@ == decode_utf8(stem)
                } else {
                    shown@ == entry.path@
                },
                Err(_) => false,
            }
        }),
{
    law_meaning_of_a_file_name(entry);
    law_snapshot_suffix(entry.name@);
    assert(r matches Ok(None) ==> entry.meaning() is Other);
}

/// A write that went wrong is told as a failure of the kind that it was.
pub proof fn law_write_outcome_call(outcome: WriteOutcome, r: Result<(), StoreError>)
    requires
        call_ensures(WriteOutcome::into_result, (outcome,), r),
    ensures
        match (outcome, r) {
            (WriteOutcome::Written, Ok(())) => true,
            (WriteOutcome::NotEncoded(cause), Err(StoreError::Serialization(shown))) => shown@
                == cause@,
            (WriteOutcome::NotWritten(cause), Err(StoreError::Io(shown))) => shown@ == cause@,
            _ => false,
        },
{
    if let Err(e) = r {
        match e {
            StoreError::NotFound(_) => {},
            StoreError::Io(_) => {},
            StoreError::Serialization(_) => {},
            StoreError::InvalidSnapshotName(_) => {},
        }
    }
}

/// The snapshot of a job lies under its id, in a file of its own.
pub proof fn law_snapshot_path_call(store: FileStateStore, job_id: JobId, r: String)
    requires
        call_ensures(FileStateStore::snapshot_path, (&store, job_id), r),
    ensures
        r@ == ids::id_text(job_id) + ".json"@,
{
}

/// What persists a job: its file, the file that is written first, and the job itself.
pub open spec fn persists(write: SnapshotWrite, job_id: JobId, job: StoredJob) -> bool {
    &&& write.file_name@ == ids::id_text(job_id) + ".json"@
    &&& write.temporary_name@ == ids::id_text(job_id) + ".tmp"@
    &&& write.job == job
}

/// A store on disk persists a job that it holds as it is.
pub proof fn law_persist_calls(
    store: FileStateStore,
    job_id: JobId,
    persisted: Result<SnapshotWrite, StoreError>,
    snapshot: Result<SnapshotWrite, StoreError>,
    found: Result<StoredJob, StoreError>,
)
    requires
        call_ensures(FileStateStore::persist_job, (&store, job_id), persisted),
        call_ensures(FileStateStore::snapshot_job, (&store, job_id), snapshot),
        call_ensures(FileStateStore::get_job, (&store, job_id), found),
    ensures
        persisted is Ok <==> store.jobs().dom().contains(job_id),
        snapshot is Ok <==> store.jobs().dom().contains(job_id),
        found is Ok <==> store.jobs().dom().contains(job_id),
        persisted matches Ok(write) ==> persists(write, job_id, store.jobs()[job_id]),
        snapshot matches Ok(write) ==> persists(write, job_id, store.jobs()[job_id]),
        found matches Ok(job) ==> job == store.jobs()[job_id],
        persisted matches Err(e) ==> e == StoreError::NotFound(job_id),
        snapshot matches Err(e) ==> e == StoreError::NotFound(job_id),
        found matches Err(e) ==> e == StoreError::NotFound(job_id),
{
}

/// A store on disk files a job that is put in under its id, and persists it.
pub proof fn law_file_put_job_call(
    store: &mut FileStateStore,
    spec: JobSpec,
    runtime: JobRuntime,
    r: Result<SnapshotWrite, StoreError>,
)
    requires
        call_ensures(FileStateStore::put_job, (store, spec, runtime), r),
    ensures
        final(store).jobs() == old(store).jobs().insert(
            runtime.job_id,
            StoredJob { spec, runtime },
        ),
        final(store).dir() == old(store).dir(),
        r is Ok,
        persists(r->Ok_0, runtime.job_id, (StoredJob { spec, runtime })),
{
}

/// A store on disk gives a job its new runtime, with the time that is given or that of the
/// clock, and persists it.
pub proof fn law_file_update_calls(
    store: &mut FileStateStore,
    runtime: JobRuntime,
    instant: Timestamp,
    r: Result<SnapshotWrite, StoreError>,
)
    requires
        call_ensures(FileStateStore::update_runtime_at, (store, runtime, instant), r)
            || call_ensures(FileStateStore::update_runtime, (store, runtime), r),
    ensures
        r is Ok <==> old(store).jobs().dom().contains(runtime.job_id),
        final(store).dir() == old(store).dir(),
        match r {
            Ok(write) => {
                let stored = final(store).jobs()[runtime.job_id];
                &&& final(store).jobs() == old(store).jobs().insert(runtime.job_id, stored)
                &&& stored.spec == old(store).jobs()[runtime.job_id].spec
                &&& stored.runtime.job_id == runtime.job_id
                &&& stored.runtime.state == runtime.state
                &&& stored.runtime.phase == runtime.phase
                &&& stored.runtime.cursor == runtime.cursor
                &&& stored.runtime.fence_token == runtime.fence_token
                &&& stored.runtime.updated_at == instant
                    || stored.runtime.updated_at.nanos < 1_000_000_000
                &&& persists(write, runtime.job_id, stored)
            },
            Err(e) => e == StoreError::NotFound(runtime.job_id) && final(store).jobs()
                == old(store).jobs(),
        },
{
    if r is Ok {
        assert(final(store).jobs() =~= old(store).jobs().insert(
            runtime.job_id,
            final(store).jobs()[runtime.job_id],
        ));
    }
}

/// Where the time of an update is given, the job has that time.
pub proof fn law_file_update_at_call(
    store: &mut FileStateStore,
    runtime: JobRuntime,
    instant: Timestamp,
    write: SnapshotWrite,
)
    requires
        call_ensures(FileStateStore::update_runtime_at, (store, runtime, instant), Ok(write)),
    ensures
        final(store).jobs()[runtime.job_id].runtime.updated_at == instant,
{
}

/// A snapshot that is loaded from disk puts its job in, under the id that was asked for. A
/// file that is not there, cannot be read, holds no job or holds another job puts nothing in.
pub proof fn law_file_load_snapshot_call(
    store: &mut FileStateStore,
    job_id: JobId,
    read: Option<&SnapshotRead>,
    r: Result<StoredJob, StoreError>,
)
    requires
        call_ensures(FileStateStore::load_snapshot, (store, job_id, read), r),
    ensures
        final(store).dir() == old(store).dir(),
        r matches Ok(stored) ==> final(store).jobs() == old(store).jobs().insert(job_id, stored),
        r is Err ==> final(store).jobs() == old(store).jobs(),
        match read {
            None => r == Err::<StoredJob, StoreError>(StoreError::NotFound(job_id)),
            Some(SnapshotRead::Unreadable(cause)) => r matches Err(e) && e@
                == StoreErrorView::Io(cause@),
            Some(SnapshotRead::Malformed(cause)) => r matches Err(e) && e@
                == StoreErrorView::Serialization(cause@),
            Some(SnapshotRead::Parsed(stored)) => if stored.runtime.job_id == job_id {
                r == Ok::<StoredJob, StoreError>(*stored)
            } else {
                r matches Err(e) && e@ == StoreErrorView::Serialization(
                    "snapshot id mismatch: "@ + "requested"@ + " "@ + ids::id_text(job_id)
                        + ", payload "@ + ids::id_text(stored.runtime.job_id),
                )
            },
        },
{
    if let Some(read) = read {
        law_content_of_a_snapshot("requested"@, job_id, *read);
    }
}

/// A directory with a name that no snapshot has, or that could not be read to its end, is not
/// listed. Any other gives the ids of its snapshots, as often as they lie there, from the
/// smallest on.
pub proof fn law_file_list_snapshots_call(
    store: FileStateStore,
    listing: DirListing,
    r: Result<Vec<JobId>, StoreError>,
)
    requires
        call_ensures(FileStateStore::list_snapshots, (&store, &listing), r),
    ensures
        (exists|i: int|
            0 <= i < listing.entries@.len() && (#[trigger] listing.entries@[i]).meaning()
                is Invalid) ==> r matches Err(StoreError::InvalidSnapshotName(_)),
        (forall|i: int|
            0 <= i < listing.entries@.len() ==> !((#[trigger] listing.entries@[i]).meaning()
                is Invalid)) ==> match (listing.failure, r) {
            (Some(cause), Err(StoreError::Io(shown))) => shown@ == cause@,
            (None, Ok(listed)) => {
                &&& forall|i: int, j: int|
                    0 <= i < j < listed@.len() ==> #[trigger] listed@[i] <= #[trigger] listed@[j]
                &&& forall|job_id: JobId| #[trigger]
                    listed@.contains(job_id) <==> exists|i: int|
                        0 <= i < listing.entries@.len() && (
                        #[trigger] listing.entries@[i]).meaning() == NameMeaning::Snapshot(job_id)
            },
            _ => false,
        },
{
    broadcast use vstd::seq_lib::group_to_multiset_ensures;

    lemma_listed_ids(listing.entries@);
    if let Err(e) = r {
        match e {
            StoreError::NotFound(_) => {},
            StoreError::Io(_) => {},
            StoreError::Serialization(_) => {},
            StoreError::InvalidSnapshotName(_) => {},
        }
    }
    if let Ok(listed) = r {
        let found = file_store::listed_ids(listing.entries@)->Ok_0;
        assert forall|job_id: JobId| #[trigger] listed@.contains(job_id) <==> found.contains(
            job_id,
        ) by {
            assert(listed@.contains(job_id) <==> listed@.to_multiset().count(job_id) > 0);
            assert(found.contains(job_id) <==> found.to_multiset().count(job_id) > 0);
        }
    }
}

proof fn lemma_listed_ids(entries: Seq<DirEntry>)
    ensures
        file_store::listed_ids(entries) is Err <==> exists|i: int|
            0 <= i < entries.len() && (#[trigger] entries[i]).meaning() is Invalid,
        file_store::listed_ids(entries) matches Ok(found) ==> forall|job_id: JobId| #[trigger]
            found.contains(job_id) <==> exists|i: int|
                0 <= i < entries.len() && (#[trigger] entries[i]).meaning()
                    == NameMeaning::Snapshot(job_id),
    decreases entries.len(),
{
    if entries.len() > 0 {
        let earlier = entries.drop_last();
        let last = entries.len() - 1;
        lemma_listed_ids(earlier);
        if exists|i: int| 0 <= i < entries.len() && (#[trigger] entries[i]).meaning() is Invalid {
            let i = choose|i: int|
                0 <= i < entries.len() && (#[trigger] entries[i]).meaning() is Invalid;
            if i < last {
                assert(earlier[i].meaning() is Invalid);
            }
        }
        if file_store::listed_ids(entries) is Err {
            if file_store::listed_ids(earlier) is Err {
                let i = choose|i: int|
                    0 <= i < earlier.len() && (#[trigger] earlier[i]).meaning() is Invalid;
                assert(entries[i].meaning() is Invalid);
            } else {
                assert(entries[last].meaning() is Invalid);
            }
        } else {
            let found = file_store::listed_ids(entries)->Ok_0;
            let past = file_store::listed_ids(earlier)->Ok_0;
            assert forall|job_id: JobId| #[trigger] found.contains(job_id) <==> exists|i: int|
                0 <= i < entries.len() && (#[trigger] entries[i]).meaning()
                    == NameMeaning::Snapshot(job_id) by {
                assert(past.contains(job_id) <==> exists|i: int|
                    0 <= i < earlier.len() && (#[trigger] earlier[i]).meaning()
                        == NameMeaning::Snapshot(job_id));
                if found.contains(job_id) {
                    let at = choose|at: int| 0 <= at < found.len() && found[at] == job_id;
                    if at < past.len() {
                        assert(past[at] == job_id);
                        let i = choose|i: int|
                            0 <= i < earlier.len() && (#[trigger] earlier[i]).meaning()
                                == NameMeaning::Snapshot(job_id);
                        assert(entries[i] == earlier[i]);
                    } else {
                        assert(entries[last].meaning() == NameMeaning::Snapshot(job_id));
                    }
                }
                if exists|i: int|
                    0 <= i < entries.len() && (#[trigger] entries[i]).meaning()
                        == NameMeaning::Snapshot(job_id) {
                    let i = choose|i: int|
                        0 <= i < entries.len() && (#[trigger] entries[i]).meaning()
                            == NameMeaning::Snapshot(job_id);
                    if i < last {
                        assert(earlier[i].meaning() == NameMeaning::Snapshot(job_id));
                        let at = choose|at: int| 0 <= at < past.len() && past[at] == job_id;
                        assert(found[at] == job_id);
                    } else {
                        assert(found[found.len() - 1] == job_id);
                    }
                }
            }
        }
    }
}

/// A store on disk begins with the jobs that the snapshots in its directory give, or does not
/// begin.
pub proof fn law_file_store_new_call(
    snapshot_dir: String,
    files: &Vec<SnapshotFile>,
    failure: Option<String>,
    r: Result<FileStateStore, StoreError>,
)
    requires
        call_ensures(FileStateStore::new, (snapshot_dir, files, failure), r),
    ensures
        failure is Some ==> r is Err,
        file_store::restored_jobs(files@) is Err ==> r is Err,
        failure is None && file_store::restored_jobs(files@) is Ok ==> r is Ok,
        r matches Err(e) ==> e@ == match file_store::restored_jobs(files@) {
            Err(shown) => shown,
            Ok(_) => StoreErrorView::Io(failure->0@),
        },
        r matches Ok(store) ==> {
            &&& store.dir() == snapshot_dir@
            &&& store.jobs() == file_store::with_all(
                Map::empty(),
                file_store::restored_jobs(files@)->Ok_0,
            )
        },
        r is Ok && files@.len() == 0 ==> r->Ok_0.jobs() == Map::<JobId, StoredJob>::empty(),
{
}

/// A store on disk that restores puts in the jobs that the snapshots give, all or none.
pub proof fn law_file_restore_all_call(
    store: &mut FileStateStore,
    files: &Vec<SnapshotFile>,
    failure: Option<String>,
    r: Result<(), StoreError>,
)
    requires
        call_ensures(FileStateStore::restore_all, (store, files, failure), r),
    ensures
        final(store).dir() == old(store).dir(),
        r is Err ==> final(store).jobs() == old(store).jobs(),
        r is Ok <==> failure is None && file_store::restored_jobs(files@) is Ok,
        r is Ok ==> final(store).jobs() == file_store::with_all(
            old(store).jobs(),
            file_store::restored_jobs(files@)->Ok_0,
        ),
        r is Err ==> r->Err_0@ == match file_store::restored_jobs(files@) {
            Err(shown) => shown,
            Ok(_) => StoreErrorView::Io(failure->0@),
        },
{
}

/// A store on disk lists each job that it holds, once, and names its directory.
pub proof fn law_file_list_jobs_calls(store: FileStateStore, listed: Vec<StoredJob>, dir: &str)
    requires
        call_ensures(FileStateStore::list_jobs, (&store,), listed),
        call_ensures(FileStateStore::snapshot_dir, (&store,), dir),
        forall|job_id: JobId| #[trigger]
            store.jobs().dom().contains(job_id) ==> store.jobs()[job_id].runtime.job_id == job_id,
    ensures
        dir@ == store.dir(),
        listed@.len() == store.jobs().dom().len(),
        forall|job_id: JobId| #[trigger]
            store.jobs().dom().contains(job_id) ==> listed@.contains(store.jobs()[job_id]),
        forall|i: int|
            0 <= i < listed@.len() ==> store.jobs().dom().contains(
                (#[trigger] listed@[i]).runtime.job_id,
            ) && listed@[i] == store.jobs()[listed@[i].runtime.job_id],
{
    state_store::law_list_holds_each_job_once(listed@, store.jobs());
}

/// A copy is the same as what it was made of.
pub proof fn law_clone_calls(
    spec: JobSpec,
    other_spec: JobSpec,
    job: StoredJob,
    other_job: StoredJob,
    event: JobEvent,
    other_event: JobEvent,
    record: WorkerRecord,
    other_record: WorkerRecord,
    result: CommandResult,
    other_result: CommandResult,
)
    ensures
        call_ensures(JobSpec::clone, (&spec,), other_spec) ==> other_spec == spec,
        call_ensures(StoredJob::clone, (&job,), other_job) ==> other_job == job,
        call_ensures(JobEvent::clone, (&event,), other_event) ==> other_event == event,
        call_ensures(WorkerRecord::clone, (&record,), other_record) ==> other_record == record,
        call_ensures(CommandResult::clone, (&result,), other_result) ==> other_result == result,
{
}

/// A copy of a placement gives out the same GPUs, and one of a decision takes the same steps.
pub proof fn law_plan_clone_calls(
    placement: PlacementPlan,
    other_placement: PlacementPlan,
    decision: LifecycleDecision,
    other_decision: LifecycleDecision,
)
    ensures
        call_ensures(PlacementPlan::clone, (&placement,), other_placement) ==> {
            &&& other_placement.total_gpus == placement.total_gpus
            &&& other_placement.actor_gpu_indices@ == placement.actor_gpu_indices@
            &&& other_placement.critic_gpu_indices@ == placement.critic_gpu_indices@
            &&& other_placement.rollout_gpu_indices@ == placement.rollout_gpu_indices@
        },
        call_ensures(LifecycleDecision::clone, (&decision,), other_decision) ==> other_decision@
            == decision@,
{
}

/// A worker that is filed is known by its record, in place of an earlier one, and no other
/// worker is touched.
pub proof fn law_registry_file_call(registry: &mut WorkerRegistry, record: WorkerRecord, r: ())
    requires
        call_ensures(WorkerRegistry::file, (registry, record), r),
    ensures
        final(registry)@.dom() == old(registry)@.dom().insert(record.worker_id@),
        final(registry)@[record.worker_id@].worker_id == record.worker_id@,
        final(registry)@[record.worker_id@].status == record.status,
        final(registry)@[record.worker_id@].updated_at == record.updated_at,
        forall|other: Seq<char>|
            other != record.worker_id@ && old(registry)@.dom().contains(other) ==> (
            #[trigger] final(registry)@[other]) == old(registry)@[other],
{
    assert(final(registry)@.dom() =~= old(registry)@.dom().insert(record.worker_id@));
}

/// A known worker gets the status and the time that it is marked with. An unknown one stays
/// unknown. No other worker is touched.
pub proof fn law_registry_mark_call(
    registry: &mut WorkerRegistry,
    worker_id: String,
    status: WorkerStatus,
    instant: Timestamp,
    r: Option<WorkerRecord>,
)
    requires
        call_ensures(WorkerRegistry::mark, (registry, &worker_id, status, instant), r),
    ensures
        r is Some <==> old(registry)@.dom().contains(worker_id@),
        final(registry)@.dom() == old(registry)@.dom(),
        match r {
            Some(record) => {
                &&& record.worker_id@ == worker_id@
                &&& record.status == status
                &&& record.updated_at == instant
                &&& final(registry)@[worker_id@].worker_id == worker_id@
                &&& final(registry)@[worker_id@].status == status
                &&& final(registry)@[worker_id@].updated_at == instant
            },
            None => final(registry)@ == old(registry)@,
        },
        forall|other: Seq<char>|
            other != worker_id@ && old(registry)@.dom().contains(other) ==> (
            #[trigger] final(registry)@[other]) == old(registry)@[other],
{
    assert(final(registry)@.dom() =~= old(registry)@.dom());
}

/// A new registry knows no worker. A list tells each worker that is known, once, as it is
/// known.
pub proof fn law_registry_list_calls(
    fresh: WorkerRegistry,
    registry: WorkerRegistry,
    listed: Vec<WorkerRecord>,
)
    requires
        call_ensures(WorkerRegistry::new, (), fresh),
        call_ensures(WorkerRegistry::list, (&registry,), listed),
    ensures
        fresh@.dom() == Set::<Seq<char>>::empty(),
        forall|i: int|
            0 <= i < listed@.len() ==> registry@.dom().contains((#[trigger] listed@[i]).worker_id@)
                && registry@[listed@[i].worker_id@].status == listed@[i].status
                && registry@[listed@[i].worker_id@].updated_at == listed@[i].updated_at,
        forall|id: Seq<char>| #[trigger]
            registry@.dom().contains(id) ==> exists|i: int|
                0 <= i < listed@.len() && (#[trigger] listed@[i]).worker_id@ == id,
        forall|i: int, j: int|
            0 <= i < listed@.len() && 0 <= j < listed@.len() && i != j ==> (
            #[trigger] listed@[i]).worker_id@ != (#[trigger] listed@[j]).worker_id@,
{
    law_list_holds_each_worker_once(listed@, registry@);
}

/// A client without workers answers each request at once, by the name of the request.
pub open spec fn answered(
    r: Result<CommandResult, WorkerError>,
    name: Seq<char>,
) -> bool {
    r matches Ok(result) && result.status is Succeeded && result.message@ == name
        && result.timestamp.nanos < 1_000_000_000
}

/// Each request to a client without workers succeeds and is answered by its own name.
pub proof fn law_mock_client_calls(
    client: &mut MockWorkerClient,
    ctx: CommandContext,
    r: Result<CommandResult, WorkerError>,
)
    ensures
        call_ensures(MockWorkerClient::init, (client, ctx), r) ==> answered(r, "init"@)
            && final(client).sent() == old(client).sent().push(
            SentCommand { command: WorkerCommand::Init, context: ctx },
        ),
        call_ensures(MockWorkerClient::generate, (client, ctx), r) ==> answered(r, "generate"@)
            && final(client).sent() == old(client).sent().push(
            SentCommand { command: WorkerCommand::Generate, context: ctx },
        ),
        call_ensures(MockWorkerClient::train_step, (client, ctx), r) ==> answered(r, "train_step"@)
            && final(client).sent() == old(client).sent().push(
            SentCommand { command: WorkerCommand::TrainStep, context: ctx },
        ),
        call_ensures(MockWorkerClient::update_weights, (client, ctx), r) ==> answered(
            r,
            "update_weights"@,
        ) && final(client).sent() == old(client).sent().push(
            SentCommand { command: WorkerCommand::UpdateWeights, context: ctx },
        ),
        call_ensures(MockWorkerClient::eval, (client, ctx), r) ==> answered(r, "eval"@)
            && final(client).sent() == old(client).sent().push(
            SentCommand { command: WorkerCommand::Eval, context: ctx },
        ),
        call_ensures(MockWorkerClient::save_checkpoint, (client, ctx), r) ==> answered(
            r,
            "save_checkpoint"@,
        ) && final(client).sent() == old(client).sent().push(
            SentCommand { command: WorkerCommand::SaveCheckpoint, context: ctx },
        ),
        call_ensures(MockWorkerClient::health, (client,), r) ==> answered(r, "health"@)
            && final(client).sent() == old(client).sent(),
{
}

} // verus!
