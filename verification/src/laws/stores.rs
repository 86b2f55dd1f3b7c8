//! Laws on stores: the jobs and snapshots that they hold, and the files that snapshots lie in.
use crate::api::JobRuntime;
use crate::clock::Timestamp;
use crate::file_store;
use crate::file_store::{DirEntry, NameMeaning, SnapshotFile, SnapshotRead, SnapshotWrite};
use crate::ids;
use crate::ids::JobId;
use crate::state_store;
use crate::state_store::{
    InMemoryStateStore, Jobs, StateStore, StoreCall, StoreError, StoreErrorView, StoredJob,
};
use vstd::prelude::*;
use vstd::utf8::*;

verus! {

/// The clock gives no more nanoseconds than a second holds.
pub proof fn law_clock_nanoseconds(instant: Timestamp)
    ensures
        instant.of_clock() <==> instant.nanos <= 999_999_999,
{
}

/// An update gives a job all that the new runtime says but the time, which the store takes
/// from its clock. The specification of the job, and every other job, stays.
pub proof fn law_update_takes_the_runtime(before: Jobs, after: Jobs, runtime: JobRuntime)
    requires
        before.dom().contains(runtime.job_id),
        state_store::runtime_updated(before, after, runtime),
    ensures
        ({
            let stored = after[runtime.job_id].runtime;
            &&& stored.job_id == runtime.job_id
            &&& stored.state == runtime.state
            &&& stored.phase == runtime.phase
            &&& stored.cursor == runtime.cursor
            &&& stored.fence_token == runtime.fence_token
            &&& stored.updated_at.nanos < 1_000_000_000
            &&& after[runtime.job_id].spec == before[runtime.job_id].spec
        }),
        forall|other: JobId| #[trigger]
            after.dom().contains(other) == before.dom().contains(other),
        forall|other: JobId|
            other != runtime.job_id && before.dom().contains(other) ==> #[trigger] after[other]
                == before[other],
{
}

/// Where the time of an update is given, the job has the new runtime, and that time.
pub proof fn law_update_at_an_instant(jobs: Jobs, runtime: JobRuntime, instant: Timestamp)
    requires
        jobs.dom().contains(runtime.job_id),
    ensures
        ({
            let after = state_store::with_runtime(
                jobs,
                JobRuntime { updated_at: instant, ..runtime },
            );
            let stored = after[runtime.job_id];
            &&& after == jobs.insert(runtime.job_id, stored)
            &&& stored.spec == jobs[runtime.job_id].spec
            &&& stored.runtime.job_id == runtime.job_id
            &&& stored.runtime.state == runtime.state
            &&& stored.runtime.phase == runtime.phase
            &&& stored.runtime.cursor == runtime.cursor
            &&& stored.runtime.fence_token == runtime.fence_token
            &&& stored.runtime.updated_at == instant
        }),
{
}

/// Jobs are keyed where none lies under the id of another.
pub proof fn law_keyed_jobs(jobs: Jobs)
    ensures
        state_store::keyed(jobs) <==> forall|job_id: JobId| #[trigger]
            jobs.dom().contains(job_id) ==> jobs[job_id].runtime.job_id == job_id,
{
}

/// An enumeration holds every member at one place, and nothing else.
pub proof fn law_enumeration(order: Seq<JobId>, members: Set<JobId>)
    requires
        state_store::enumerates(order, members),
    ensures
        forall|id: JobId| #[trigger] members.contains(id) <==> order.contains(id),
        forall|i: int, j: int|
            0 <= i < j < order.len() ==> #[trigger] order[i] != #[trigger] order[j],
        order.len() == members.len(),
{
    order.unique_seq_to_set();
    assert forall|id: JobId| #[trigger] members.contains(id) <==> order.contains(id) by {
        assert(order.to_set().contains(id) <==> order.contains(id));
    }
}

/// Ids are listed from the smallest on.
pub proof fn law_ascending_ids(ids: Seq<JobId>, i: int, j: int)
    requires
        state_store::ascending(ids),
        0 <= i < j < ids.len(),
    ensures
        ids[i] <= ids[j],
{
}

/// A call that may save a job leaves the snapshots of all other jobs alone. That of the job
/// is then the one from before or the job as the store holds it.
pub proof fn law_saving_touches_one_snapshot(
    before: Jobs,
    after: Jobs,
    jobs: Jobs,
    job_id: JobId,
    other: JobId,
)
    requires
        state_store::saved_or_kept(before, after, jobs, job_id),
        other != job_id,
    ensures
        after.dom().contains(other) == before.dom().contains(other),
        after[other] == before[other],
        before.dom().contains(job_id) ==> after.dom().contains(job_id),
        after.dom().contains(job_id) ==> before.dom().contains(job_id) && after[job_id]
            == before[job_id] || jobs.dom().contains(job_id) && after[job_id] == jobs[job_id],
{
}

/// What is the same but for one job is the same for every other, and loses nothing.
pub proof fn law_same_but_one(before: Jobs, after: Jobs, job_id: JobId, other: JobId)
    requires
        state_store::same_but_one(before, after, job_id),
        other != job_id,
    ensures
        after.dom().contains(other) == before.dom().contains(other),
        after[other] == before[other],
        before.dom().contains(job_id) ==> after.dom().contains(job_id),
{
}

/// A look-up is noted, and leaves jobs, snapshots and reliability as they were.
pub proof fn law_look_up_changes_nothing<S: StateStore>(before: S, after: S, call: StoreCall)
    ensures
        state_store::only_read(before, after, call) <==> {
            &&& after.calls() == before.calls().push(call)
            &&& after.jobs() == before.jobs()
            &&& after.snapshots() == before.snapshots()
            &&& after.reliable() == before.reliable()
        },
{
}

/// A store in memory never fails, and the snapshot of each of its jobs is the job.
pub proof fn law_memory_store_snapshots_are_its_jobs(store: InMemoryStateStore)
    ensures
        store.reliable(),
        store.snapshots() == store.jobs(),
{
}

/// Each failure of a store is told with its cause behind its kind.
pub proof fn law_store_error_texts(error: StoreError)
    ensures
        match error {
            StoreError::NotFound(job_id) => error@.text() == "job "@ + ids::id_text(job_id)
                + " not found"@,
            StoreError::Io(cause) => error@.text() == "io error: "@ + cause@,
            StoreError::Serialization(cause) => error@.text() == "serialization error: "@ + cause@,
            StoreError::InvalidSnapshotName(name) => error@.text()
                == "invalid snapshot filename: "@ + name@,
        },
{
}

/// A snapshot file is named by the id of its job and `.json`, and its temporary file by the
/// id and `.tmp`.
pub proof fn law_snapshot_file_names(job_id: JobId)
    ensures
        file_store::snapshot_name(job_id).len() == 41,
        file_store::snapshot_name(job_id).take(36) == ids::id_text(job_id),
        file_store::snapshot_name(job_id).skip(36) == seq!['.', 'j', 's', 'o', 'n'],
        file_store::temporary_name(job_id).len() == 40,
        file_store::temporary_name(job_id).take(36) == ids::id_text(job_id),
        file_store::temporary_name(job_id).skip(36) == seq!['.', 't', 'm', 'p'],
{
    reveal_strlit(".json");
    reveal_strlit(".tmp");
    ids::lemma_id_text_ascii(job_id);
    assert(file_store::snapshot_name(job_id).take(36) =~= ids::id_text(job_id));
    assert(file_store::snapshot_name(job_id).skip(36) =~= seq!['.', 'j', 's', 'o', 'n']);
    assert(file_store::temporary_name(job_id).take(36) =~= ids::id_text(job_id));
    assert(file_store::temporary_name(job_id).skip(36) =~= seq!['.', 't', 'm', 'p']);
}

/// A write of a snapshot names the two files of the job, and holds the job itself.
pub proof fn law_snapshot_write(write: SnapshotWrite, job_id: JobId, job: StoredJob)
    ensures
        write.writes(job_id, job) <==> {
            &&& write.file_name@ == ids::id_text(job_id) + ".json"@
            &&& write.temporary_name@ == ids::id_text(job_id) + ".tmp"@
            &&& write.job == job
        },
{
}

/// A name ends in the bytes of `.json`, with something before them, exactly where it is that
/// of a snapshot file.
pub proof fn law_snapshot_suffix(name: Seq<u8>)
    ensures
        file_store::is_snapshot_name(name) <==> {
            let n = name.len();
            &&& n >= 6
            &&& name[n - 5] == 46
            &&& name[n - 4] == 106
            &&& name[n - 3] == 115
            &&& name[n - 2] == 111
            &&& name[n - 1] == 110
        },
{
    let n = name.len() as int;
    if n >= 6 {
        let tail = name.subrange(n - 5, n);
        assert(tail[0] == name[n - 5] && tail[1] == name[n - 4] && tail[2] == name[n - 3]
            && tail[3] == name[n - 2] && tail[4] == name[n - 1]);
        let suffix = file_store::suffix_bytes();
        assert(suffix[0] == 46 && suffix[1] == 106 && suffix[2] == 115 && suffix[3] == 111
            && suffix[4] == 110);
        if name[n - 5] == 46 && name[n - 4] == 106 && name[n - 3] == 115 && name[n - 2] == 111
            && name[n - 1] == 110 {
            assert(tail =~= suffix);
        }
    }
}

/// A file without the suffix is passed over. One whose name stands, before the suffix, for
/// an id is the snapshot of that job. Any other is invalid, and shown by that part of its
/// name, or by its path where that part is no text.
pub proof fn law_meaning_of_a_file_name(entry: DirEntry)
    ensures
        ({
            let name = entry.name@;
            let stem = name.take(name.len() - 5);
            match entry.meaning() {
                NameMeaning::Other => !file_store::is_snapshot_name(name),
                NameMeaning::Snapshot(job_id) => {
                    &&& file_store::is_snapshot_name(name)
                    &&& valid_utf8(stem)
                    &&& ids::denotes_id(decode_utf8(stem), job_id)
                },
                NameMeaning::Invalid(shown) => {
                    &&& file_store::is_snapshot_name(name)
                    &&& if valid_utf8(stem) {
                        &&& forall|id: JobId| !ids::denotes_id(decode_utf8(stem), id)
                        &&& shown == decode_utf8(stem)
                    } else {
                        shown == entry.path@
                    }
                },
            }
        }),
{
    let stem = entry.name@.take(entry.name@.len() - 5);
    assert(file_store::name_stem(entry.name@) == stem);
}

/// A snapshot that could not be read, or holds no job, fails with its cause. One that holds
/// another job than it should fails too, and says which. Any other gives its job.
pub proof fn law_content_of_a_snapshot(origin: Seq<char>, job_id: JobId, read: SnapshotRead)
    ensures
        match (read, file_store::snapshot_content(origin, job_id, read)) {
            (SnapshotRead::Unreadable(cause), Err(StoreErrorView::Io(shown))) => shown == cause@,
            (
                SnapshotRead::Malformed(cause),
                Err(StoreErrorView::Serialization(shown)),
            ) => shown == cause@,
            (SnapshotRead::Parsed(stored), Ok(job)) => job == stored && stored.runtime.job_id
                == job_id,
            (SnapshotRead::Parsed(stored), Err(StoreErrorView::Serialization(shown))) => {
                &&& stored.runtime.job_id != job_id
                &&& shown == "snapshot id mismatch: "@ + origin + " "@ + ids::id_text(job_id)
                    + ", payload "@ + ids::id_text(stored.runtime.job_id)
            },
            _ => false,
        },
{
}

/// Listing one file more adds the id of its job at the end where the file is a snapshot, and
/// nothing where it is none. An invalid name fails the listing, unless an earlier one did,
/// whose failure stands.
pub proof fn law_listing_one_more_file(entries: Seq<DirEntry>, entry: DirEntry)
    ensures
        file_store::listed_ids(Seq::<DirEntry>::empty()) matches Ok(none) && none.len() == 0,
        match (file_store::listed_ids(entries), entry.meaning()) {
            (Err(earlier), _) => file_store::listed_ids(entries.push(entry)) matches Err(shown)
                && shown == earlier,
            (Ok(found), NameMeaning::Other) => file_store::listed_ids(
                entries.push(entry),
            ) matches Ok(more) && more == found,
            (Ok(found), NameMeaning::Snapshot(job_id)) => file_store::listed_ids(
                entries.push(entry),
            ) matches Ok(more) && more == found.push(job_id),
            (Ok(_), NameMeaning::Invalid(name)) => file_store::listed_ids(
                entries.push(entry),
            ) matches Err(shown) && shown == name,
        },
{
    assert(entries.push(entry).drop_last() =~= entries);
}

/// Restoring one file more adds the job that its snapshot gives at the end, and nothing where
/// the file is no snapshot. An invalid name, and a snapshot that gives no job, fail it, unless
/// an earlier file did, whose failure stands.
pub proof fn law_restoring_one_more_file(files: Seq<SnapshotFile>, file: SnapshotFile)
    ensures
        file_store::restored_jobs(Seq::<SnapshotFile>::empty()) matches Ok(none) && none.len()
            == 0,
        match (file_store::restored_jobs(files), file.entry.meaning()) {
            (Err(earlier), _) => file_store::restored_jobs(files.push(file)) matches Err(shown)
                && shown == earlier,
            (Ok(loaded), NameMeaning::Other) => file_store::restored_jobs(
                files.push(file),
            ) matches Ok(more) && more == loaded,
            (Ok(_), NameMeaning::Invalid(name)) => file_store::restored_jobs(
                files.push(file),
            ) matches Err(shown) && shown == StoreErrorView::InvalidSnapshotName(name),
            (Ok(loaded), NameMeaning::Snapshot(job_id)) => match file_store::snapshot_content(
                "filename"@,
                job_id,
                file.read,
            ) {
                Ok(stored) => file_store::restored_jobs(files.push(file)) matches Ok(more) && more
                    == loaded.push(stored),
                Err(cause) => file_store::restored_jobs(files.push(file)) matches Err(shown)
                    && shown == cause,
            },
        },
{
    assert(files.push(file).drop_last() =~= files);
}

/// Of jobs that are put in one after the other each takes its place by its id, so that the
/// last of several under one id remains.
pub proof fn law_putting_in_one_more_job(jobs: Jobs, added: Seq<StoredJob>, job: StoredJob)
    ensures
        file_store::with_all(jobs, Seq::<StoredJob>::empty()) == jobs,
        file_store::with_all(jobs, added.push(job)) == file_store::with_all(jobs, added).insert(
            job.runtime.job_id,
            job,
        ),
{
    assert(added.push(job).drop_last() =~= added);
}

} // verus!
