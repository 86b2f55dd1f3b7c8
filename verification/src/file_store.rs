use crate::api::{JobRuntime, JobSpec};
use crate::clock::{now, Timestamp};
use crate::ids;
use crate::ids::JobId;
use crate::state_store;
use crate::state_store::{
    collect_jobs, find_job, replace_runtime, sort_ids, Jobs, StoreError, StoreErrorView, StoredJob,
};
use crate::text;
use std::collections::HashMap;
use vstd::prelude::*;
use vstd::slice::slice_subrange;
use vstd::utf8::*;

verus! {

broadcast use vstd::std_specs::hash::group_hash_axioms;

/// The name of the file that holds the snapshot of a job.
pub open spec fn snapshot_name(job_id: JobId) -> Seq<char> {
    ids::id_text(job_id) + ".json"@
}

/// The name of the file that a snapshot is written to before it takes its place.
pub open spec fn temporary_name(job_id: JobId) -> Seq<char> {
    ids::id_text(job_id) + ".tmp"@
}

/// The suffix of snapshot files, in bytes.
pub open spec fn suffix_bytes() -> Seq<u8> {
    seq![0x2eu8, 0x6au8, 0x73u8, 0x6fu8, 0x6eu8]
}

/// A file is a snapshot file when its extension is `json`. A name that consists of the
/// suffix alone has no extension.
pub open spec fn is_snapshot_name(name: Seq<u8>) -> bool {
    name.len() > 5 && name.subrange(name.len() - 5, name.len() as int) == suffix_bytes()
}

/// The name of a snapshot file without its suffix.
pub open spec fn name_stem(name: Seq<u8>) -> Seq<u8> {
    name.take(name.len() - 5)
}

/// A file of the snapshot directory: the bytes of its name, and its path as it is displayed.
#[derive(Debug, PartialEq, Eq)]
pub struct DirEntry {
    pub name: Vec<u8>,
    pub path: String,
}

/// What the name of a file says: nothing about jobs, the id of the job whose snapshot the
/// file holds, or something that no snapshot is named.
#[verifier::ext_equal]
pub enum NameMeaning {
    Other,
    Snapshot(JobId),
    Invalid(Seq<char>),
}

impl DirEntry {
    pub open spec fn meaning(&self) -> NameMeaning {
        if !is_snapshot_name(self.name@) {
            NameMeaning::Other
        } else if !valid_utf8(name_stem(self.name@)) {
            NameMeaning::Invalid(self.path@)
        } else {
            let stem = decode_utf8(name_stem(self.name@));
            match ids::denoted_id(stem) {
                Some(job_id) => NameMeaning::Snapshot(job_id),
                None => NameMeaning::Invalid(stem),
            }
        }
    }

    /// The id of the job whose snapshot the file holds, or `None` for a file that is no
    /// snapshot.
    pub fn snapshot_id(&self) -> (r: Result<Option<JobId>, StoreError>)
        ensures
            match self.meaning() {
                NameMeaning::Other => r matches Ok(found) && found is None,
                NameMeaning::Snapshot(job_id) => r matches Ok(found) && found == Some(job_id),
                NameMeaning::Invalid(shown) => r matches Err(e)
                    && e@ == StoreErrorView::InvalidSnapshotName(shown),
            },
    {
        if !has_snapshot_suffix(&self.name) {
            return Ok(None);
        }
        let stem_bytes = slice_subrange(self.name.as_slice(), 0, self.name.len() - 5);
        assert(stem_bytes@ =~= name_stem(self.name@));
        match text::utf8_text(stem_bytes) {
            None => Err(StoreError::InvalidSnapshotName(self.path.clone())),
            Some(stem) => match ids::parse_id(stem) {
                None => Err(StoreError::InvalidSnapshotName(stem.to_string())),
                Some(job_id) => {
                    proof {
                        ids::law_denoted_id(stem@, job_id);
                    }
                    Ok(Some(job_id))
                },
            },
        }
    }
}

fn has_snapshot_suffix(name: &Vec<u8>) -> (r: bool)
    ensures
        r == is_snapshot_name(name@),
{
    let len: usize = name.len();
    if len <= 5 {
        return false;
    }
    let r: bool = name[len - 5] == 0x2e && name[len - 4] == 0x6a && name[len - 3] == 0x73
        && name[len - 2] == 0x6f && name[len - 1] == 0x6e;
    proof {
        let tail = name@.subrange(len - 5, len as int);
        if r {
            assert(tail =~= suffix_bytes());
        } else if tail == suffix_bytes() {
            assert(tail[0] == 0x2e && tail[1] == 0x6a && tail[2] == 0x73 && tail[3] == 0x6f
                && tail[4] == 0x6e);
        }
    }
    r
}

/// The files of the snapshot directory, as far as it could be read: `failure` says why
/// reading it stopped, where it did.
#[derive(Debug, PartialEq, Eq)]
pub struct DirListing {
    pub entries: Vec<DirEntry>,
    pub failure: Option<String>,
}

/// The ids of the snapshots among `entries`, in their order, or the first name that is
/// invalid.
pub open spec fn listed_ids(entries: Seq<DirEntry>) -> Result<Seq<JobId>, Seq<char>>
    decreases entries.len(),
{
    if entries.len() == 0 {
        Ok(Seq::empty())
    } else {
        match listed_ids(entries.drop_last()) {
            Err(shown) => Err(shown),
            Ok(found) => match entries.last().meaning() {
                NameMeaning::Other => Ok(found),
                NameMeaning::Snapshot(job_id) => Ok(found.push(job_id)),
                NameMeaning::Invalid(shown) => Err(shown),
            },
        }
    }
}

proof fn lemma_listing_stops_at_invalid_name(entries: Seq<DirEntry>, k: int)
    requires
        0 <= k <= entries.len(),
        listed_ids(entries.take(k)) is Err,
    ensures
        listed_ids(entries) == listed_ids(entries.take(k)),
    decreases entries.len(),
{
    if k == entries.len() {
        assert(entries.take(k) =~= entries);
    } else {
        assert(entries.drop_last().take(k) =~= entries.take(k));
        lemma_listing_stops_at_invalid_name(entries.drop_last(), k);
    }
}

/// What reading a snapshot file gave: it could not be read, its content is no snapshot, or
/// the job that it holds.
#[derive(Debug, PartialEq, Eq)]
pub enum SnapshotRead {
    Unreadable(String),
    Malformed(String),
    Parsed(StoredJob),
}

/// A file of the snapshot directory with what reading it gave, which is not looked at where
/// the file is no snapshot.
#[derive(Debug, PartialEq, Eq)]
pub struct SnapshotFile {
    pub entry: DirEntry,
    pub read: SnapshotRead,
}

/// The text for a snapshot that holds another job than its name, or the request for it,
/// says.
pub open spec fn mismatch_text(origin: Seq<char>, job_id: JobId, payload: JobId) -> Seq<char> {
    "snapshot id mismatch: "@ + origin + " "@ + ids::id_text(job_id) + ", payload "@
        + ids::id_text(payload)
}

/// The job that a snapshot of `job_id` gives, or why it gives none.
pub open spec fn snapshot_content(origin: Seq<char>, job_id: JobId, read: SnapshotRead) -> Result<
    StoredJob,
    StoreErrorView,
> {
    match read {
        SnapshotRead::Unreadable(cause) => Err(StoreErrorView::Io(cause@)),
        SnapshotRead::Malformed(cause) => Err(StoreErrorView::Serialization(cause@)),
        SnapshotRead::Parsed(stored) => if stored.runtime.job_id == job_id {
            Ok(stored)
        } else {
            Err(
                StoreErrorView::Serialization(
                    mismatch_text(origin, job_id, stored.runtime.job_id),
                ),
            )
        },
    }
}

fn check_snapshot(origin: &str, job_id: JobId, read: &SnapshotRead) -> (r: Result<
    StoredJob,
    StoreError,
>)
    ensures
        match snapshot_content(origin@, job_id, *read) {
            Ok(stored) => r == Ok::<StoredJob, StoreError>(stored),
            Err(shown) => r matches Err(e) && e@ == shown,
        },
{
    match read {
        SnapshotRead::Unreadable(cause) => Err(StoreError::Io(cause.clone())),
        SnapshotRead::Malformed(cause) => Err(StoreError::Serialization(cause.clone())),
        SnapshotRead::Parsed(stored) => {
            if stored.runtime.job_id != job_id {
                let mut cause: String = "snapshot id mismatch: ".to_string();
                cause.append(origin);
                cause.append(" ");
                cause.append(ids::format_id(job_id).as_str());
                cause.append(", payload ");
                cause.append(ids::format_id(stored.runtime.job_id).as_str());
                return Err(StoreError::Serialization(cause));
            }
            Ok(stored.clone())
        },
    }
}

/// The jobs that the snapshots among `files` hold, in their order, or the first error.
pub open spec fn restored_jobs(files: Seq<SnapshotFile>) -> Result<Seq<StoredJob>, StoreErrorView>
    decreases files.len(),
{
    if files.len() == 0 {
        Ok(Seq::empty())
    } else {
        match restored_jobs(files.drop_last()) {
            Err(shown) => Err(shown),
            Ok(loaded) => match files.last().entry.meaning() {
                NameMeaning::Other => Ok(loaded),
                NameMeaning::Invalid(shown) => Err(StoreErrorView::InvalidSnapshotName(shown)),
                NameMeaning::Snapshot(job_id) => match snapshot_content(
                    "filename"@,
                    job_id,
                    files.last().read,
                ) {
                    Err(shown) => Err(shown),
                    Ok(stored) => Ok(loaded.push(stored)),
                },
            },
        }
    }
}

proof fn lemma_restore_stops_at_error(files: Seq<SnapshotFile>, k: int)
    requires
        0 <= k <= files.len(),
        restored_jobs(files.take(k)) is Err,
    ensures
        restored_jobs(files) == restored_jobs(files.take(k)),
    decreases files.len(),
{
    if k == files.len() {
        assert(files.take(k) =~= files);
    } else {
        assert(files.drop_last().take(k) =~= files.take(k));
        lemma_restore_stops_at_error(files.drop_last(), k);
    }
}

/// `jobs` with each of `added` put in, one after the other.
pub open spec fn with_all(jobs: Jobs, added: Seq<StoredJob>) -> Jobs
    decreases added.len(),
{
    if added.len() == 0 {
        jobs
    } else {
        state_store::with_job(
            with_all(jobs, added.drop_last()),
            added.last().spec,
            added.last().runtime,
        )
    }
}

/// A snapshot to be written: first to the temporary file, which then takes the place of the
/// snapshot file. Both lie in the snapshot directory.
#[derive(Debug, PartialEq, Eq)]
pub struct SnapshotWrite {
    pub temporary_name: String,
    pub file_name: String,
    pub job: StoredJob,
}

impl SnapshotWrite {
    /// Whether this writes `job` as the snapshot of `job_id`.
    pub open spec fn writes(&self, job_id: JobId, job: StoredJob) -> bool {
        &&& self.file_name@ == snapshot_name(job_id)
        &&& self.temporary_name@ == temporary_name(job_id)
        &&& self.job == job
    }
}

/// How writing a snapshot ended.
#[derive(Debug, PartialEq, Eq)]
pub enum WriteOutcome {
    Written,
    NotEncoded(String),
    NotWritten(String),
}

impl WriteOutcome {
    /// The outcome, as the result of the operation that asked for the write.
    pub fn into_result(self) -> (r: Result<(), StoreError>)
        ensures
            match self {
                WriteOutcome::Written => r is Ok,
                WriteOutcome::NotEncoded(cause) => r matches Err(e)
                    && e@ == StoreErrorView::Serialization(cause@),
                WriteOutcome::NotWritten(cause) => r matches Err(e)
                    && e@ == StoreErrorView::Io(cause@),
            },
    {
        match self {
            WriteOutcome::Written => Ok(()),
            WriteOutcome::NotEncoded(cause) => Err(StoreError::Serialization(cause)),
            WriteOutcome::NotWritten(cause) => Err(StoreError::Io(cause)),
        }
    }
}

/// A store that keeps its jobs in memory and a snapshot of each in a directory. It decides
/// what is to be written and what to make of what was read; reading and writing files is
/// left to its user.
#[derive(Debug)]
pub struct FileStateStore {
    jobs: HashMap<JobId, StoredJob>,
    snapshot_dir: String,
}

impl FileStateStore {
    /// The jobs that the store holds.
    pub closed spec fn jobs(&self) -> Jobs {
        self.jobs@
    }

    /// The snapshot directory.
    pub closed spec fn dir(&self) -> Seq<char> {
        self.snapshot_dir@
    }

    /// A store with the jobs whose snapshots lie in the snapshot directory. `failure` says
    /// why reading the directory stopped, where it did.
    pub fn new(
        snapshot_dir: String,
        files: &Vec<SnapshotFile>,
        failure: Option<String>,
    ) -> (r: Result<Self, StoreError>)
        ensures
            match restored_jobs(files@) {
                Err(shown) => r matches Err(e) && e@ == shown,
                Ok(loaded) => match failure {
                    Some(cause) => r matches Err(e) && e@ == StoreErrorView::Io(cause@),
                    None => r matches Ok(store) && store.jobs() == with_all(Map::empty(), loaded)
                        && store.dir() == snapshot_dir@,
                },
            },
    {
        let mut store = FileStateStore { jobs: HashMap::new(), snapshot_dir };
        match store.restore_all(files, failure) {
            Ok(()) => Ok(store),
            Err(e) => Err(e),
        }
    }

    pub fn snapshot_dir(&self) -> (r: &str)
        ensures
            r@ == self.dir(),
    {
        self.snapshot_dir.as_str()
    }

    /// The name of the snapshot file of a job, within the snapshot directory.
    pub fn snapshot_path(&self, job_id: JobId) -> (r: String)
        ensures
            r@ == snapshot_name(job_id),
    {
        let mut name: String = ids::format_id(job_id);
        name.append(".json");
        name
    }

    /// The write that persists a job.
    pub fn persist_job(&self, job_id: JobId) -> (r: Result<SnapshotWrite, StoreError>)
        ensures
            match r {
                Ok(write) => self.jobs().dom().contains(job_id) && write.writes(
                    job_id,
                    self.jobs()[job_id],
                ),
                Err(e) => e == StoreError::NotFound(job_id) && !self.jobs().dom().contains(job_id),
            },
    {
        match self.get_job(job_id) {
            Err(e) => Err(e),
            Ok(job) => {
                let file_name = self.snapshot_path(job_id);
                let mut temporary_name: String = ids::format_id(job_id);
                temporary_name.append(".tmp");
                Ok(SnapshotWrite { temporary_name, file_name, job })
            },
        }
    }

    /// Restores the jobs whose snapshots lie in the snapshot directory, or none of them
    /// where one cannot be restored. `failure` says why reading the directory stopped, where
    /// it did.
    pub fn restore_all(&mut self, files: &Vec<SnapshotFile>, failure: Option<String>) -> (r: Result<
        (),
        StoreError,
    >)
        ensures
            final(self).dir() == old(self).dir(),
            match restored_jobs(files@) {
                Err(shown) => (r matches Err(e) && e@ == shown) && final(self).jobs() == old(self).jobs(),
                Ok(loaded) => match failure {
                    Some(cause) => (r matches Err(e) && e@ == StoreErrorView::Io(cause@)) && final(self).jobs() == old(self).jobs(),
                    None => r is Ok && final(self).jobs() == with_all(old(self).jobs(), loaded),
                },
            },
    {
        let mut loaded: Vec<StoredJob> = Vec::new();
        let mut i: usize = 0;
        while i < files.len()
            invariant
                i <= files.len(),
                *self == *old(self),
                restored_jobs(files@.take(i as int)) == Ok::<Seq<StoredJob>, StoreErrorView>(
                    loaded@,
                ),
            decreases files.len() - i,
        {
            let file = &files[i];
            let ghost upto = files@.take(i + 1);
            assert(upto.drop_last() =~= files@.take(i as int));
            assert(upto.last() == *file);
            proof {
                if restored_jobs(upto) is Err {
                    lemma_restore_stops_at_error(files@, i + 1);
                }
            }
            match file.entry.snapshot_id() {
                Err(e) => {
                    return Err(e);
                },
                Ok(None) => {},
                Ok(Some(job_id)) => {
                    match check_snapshot("filename", job_id, &file.read) {
                        Err(e) => {
                            return Err(e);
                        },
                        Ok(stored) => {
                            loaded.push(stored);
                        },
                    }
                },
            }
            i = i + 1;
        }
        assert(files@.take(i as int) =~= files@);
        if let Some(cause) = failure {
            return Err(StoreError::Io(cause));
        }
        let mut k: usize = 0;
        while k < loaded.len()
            invariant
                k <= loaded.len(),
                self.dir() == old(self).dir(),
                self.jobs() == with_all(old(self).jobs(), loaded@.take(k as int)),
            decreases loaded.len() - k,
        {
            let stored = loaded[k].clone();
            self.jobs.insert(stored.runtime.job_id, stored);
            assert(loaded@.take(k + 1).drop_last() =~= loaded@.take(k as int));
            k = k + 1;
        }
        assert(loaded@.take(k as int) =~= loaded@);
        Ok(())
    }

    /// Puts a job in, and gives the write that persists it.
    pub fn put_job(&mut self, spec: JobSpec, runtime: JobRuntime) -> (r: Result<
        SnapshotWrite,
        StoreError,
    >)
        ensures
            final(self).dir() == old(self).dir(),
            final(self).jobs() == state_store::with_job(old(self).jobs(), spec, runtime),
            r matches Ok(write) && write.writes(runtime.job_id, StoredJob { spec, runtime }),
    {
        let job_id: JobId = runtime.job_id;
        self.jobs.insert(job_id, StoredJob { spec, runtime });
        self.persist_job(job_id)
    }

    pub fn get_job(&self, job_id: JobId) -> (r: Result<StoredJob, StoreError>)
        ensures
            match r {
                Ok(stored) => self.jobs().dom().contains(job_id) && stored == self.jobs()[job_id],
                Err(e) => e == StoreError::NotFound(job_id) && !self.jobs().dom().contains(job_id),
            },
    {
        find_job(&self.jobs, job_id)
    }

    /// Replaces the runtime of a job, with `instant` as the time of the update, and gives
    /// the write that persists the job.
    pub fn update_runtime_at(&mut self, runtime: JobRuntime, instant: Timestamp) -> (r: Result<
        SnapshotWrite,
        StoreError,
    >)
        ensures
            final(self).dir() == old(self).dir(),
            match r {
                Ok(write) => old(self).jobs().dom().contains(runtime.job_id) && final(self).jobs()
                    == state_store::with_runtime(
                    old(self).jobs(),
                    JobRuntime { updated_at: instant, ..runtime },
                ) && write.writes(runtime.job_id, final(self).jobs()[runtime.job_id]),
                Err(e) => e == StoreError::NotFound(runtime.job_id) && !old(self).jobs().dom().contains(runtime.job_id) && final(self).jobs() == old(self).jobs(),
            },
    {
        match replace_runtime(&mut self.jobs, runtime, instant) {
            Err(e) => Err(e),
            Ok(()) => self.persist_job(runtime.job_id),
        }
    }

    /// Replaces the runtime of a job, with the present as the time of the update, and gives
    /// the write that persists the job.
    pub fn update_runtime(&mut self, runtime: JobRuntime) -> (r: Result<SnapshotWrite, StoreError>)
        ensures
            final(self).dir() == old(self).dir(),
            match r {
                Ok(write) => old(self).jobs().dom().contains(runtime.job_id)
                    && state_store::runtime_updated(
                    old(self).jobs(),
                    final(self).jobs(),
                    runtime,
                ) && write.writes(runtime.job_id, final(self).jobs()[runtime.job_id]),
                Err(e) => e == StoreError::NotFound(runtime.job_id) && !old(self).jobs().dom().contains(runtime.job_id) && final(self).jobs() == old(self).jobs(),
            },
    {
        self.update_runtime_at(runtime, now())
    }

    pub fn list_jobs(&self) -> (r: Vec<StoredJob>)
        ensures
            state_store::lists_jobs(r@, self.jobs()),
    {
        collect_jobs(&self.jobs)
    }

    /// The write that persists a job as it is.
    pub fn snapshot_job(&self, job_id: JobId) -> (r: Result<SnapshotWrite, StoreError>)
        ensures
            match r {
                Ok(write) => self.jobs().dom().contains(job_id) && write.writes(
                    job_id,
                    self.jobs()[job_id],
                ),
                Err(e) => e == StoreError::NotFound(job_id) && !self.jobs().dom().contains(job_id),
            },
    {
        self.persist_job(job_id)
    }

    /// Puts the job in that the snapshot of `job_id` holds, by what reading the snapshot
    /// file gave, or by `None` where there is no such file.
    pub fn load_snapshot(&mut self, job_id: JobId, read: Option<&SnapshotRead>) -> (r: Result<
        StoredJob,
        StoreError,
    >)
        ensures
            final(self).dir() == old(self).dir(),
            match read {
                None => r == Err::<StoredJob, StoreError>(StoreError::NotFound(job_id)) && final(self).jobs() == old(self).jobs(),
                Some(read) => match snapshot_content("requested"@, job_id, *read) {
                    Ok(stored) => r == Ok::<StoredJob, StoreError>(stored) && final(self).jobs()
                        == old(self).jobs().insert(job_id, stored),
                    Err(shown) => (r matches Err(e) && e@ == shown) && final(self).jobs()
                        == old(self).jobs(),
                },
            },
    {
        let read = match read {
            Some(read) => read,
            None => {
                return Err(StoreError::NotFound(job_id));
            },
        };
        match check_snapshot("requested", job_id, read) {
            Err(e) => Err(e),
            Ok(stored) => {
                self.jobs.insert(job_id, stored.clone());
                Ok(stored)
            },
        }
    }

    /// The ids of the snapshots in the snapshot directory, in ascending order.
    pub fn list_snapshots(&self, listing: &DirListing) -> (r: Result<Vec<JobId>, StoreError>)
        ensures
            match listed_ids(listing.entries@) {
                Err(shown) => r matches Err(e) && e@ == StoreErrorView::InvalidSnapshotName(shown),
                Ok(found) => match listing.failure {
                    Some(cause) => r matches Err(e) && e@ == StoreErrorView::Io(cause@),
                    None => r matches Ok(sorted) && state_store::ascending(sorted@)
                        && sorted@.to_multiset() == found.to_multiset(),
                },
            },
    {
        let mut found: Vec<JobId> = Vec::new();
        let mut i: usize = 0;
        while i < listing.entries.len()
            invariant
                i <= listing.entries.len(),
                listed_ids(listing.entries@.take(i as int)) == Ok::<Seq<JobId>, Seq<char>>(found@),
            decreases listing.entries.len() - i,
        {
            let ghost upto = listing.entries@.take(i + 1);
            assert(upto.drop_last() =~= listing.entries@.take(i as int));
            assert(upto.last() == listing.entries[i as int]);
            proof {
                if listed_ids(upto) is Err {
                    lemma_listing_stops_at_invalid_name(listing.entries@, i + 1);
                }
            }
            match listing.entries[i].snapshot_id() {
                Err(e) => {
                    return Err(e);
                },
                Ok(None) => {},
                Ok(Some(job_id)) => {
                    found.push(job_id);
                },
            }
            i = i + 1;
        }
        assert(listing.entries@.take(i as int) =~= listing.entries@);
        if let Some(cause) = &listing.failure {
            return Err(StoreError::Io(cause.clone()));
        }
        sort_ids(&mut found);
        Ok(found)
    }
}

/// The bytes of the name of a snapshot file, as the file system keeps them.
pub open spec fn snapshot_name_bytes(job_id: JobId) -> Seq<u8> {
    encode_utf8(snapshot_name(job_id))
}

proof fn lemma_name_bytes(job_id: JobId, suffix: Seq<char>)
    requires
        is_ascii_chars(suffix),
    ensures
        ({
            let bytes = encode_utf8(ids::id_text(job_id) + suffix);
            &&& bytes.len() == 36 + suffix.len()
            &&& bytes.take(36) == encode_utf8(ids::id_text(job_id))
            &&& bytes.skip(36) == Seq::new(suffix.len(), |i: int| suffix[i] as u8)
        }),
{
    let id_text = ids::id_text(job_id);
    ids::lemma_id_text_ascii(job_id);
    is_ascii_chars_concat(id_text + suffix, id_text, suffix);
    is_ascii_chars_encode_utf8(id_text + suffix);
    is_ascii_chars_encode_utf8(id_text);
    let bytes = encode_utf8(id_text + suffix);
    assert(bytes.take(36) =~= encode_utf8(id_text));
    assert(bytes.skip(36) =~= Seq::new(suffix.len(), |i: int| suffix[i] as u8));
}

/// The name under which the snapshot of a job is written is read back as that of the
/// snapshot of the same job.
pub proof fn law_snapshot_name_is_read_back(job_id: JobId, entry: DirEntry)
    requires
        entry.name@ == snapshot_name_bytes(job_id),
    ensures
        entry.meaning() == NameMeaning::Snapshot(job_id),
{
    reveal_strlit(".json");
    let bytes = entry.name@;
    lemma_name_bytes(job_id, ".json"@);
    assert(bytes.subrange(bytes.len() - 5, bytes.len() as int) =~= bytes.skip(36));
    assert(bytes.skip(36) =~= suffix_bytes());
    assert(name_stem(bytes) =~= encode_utf8(ids::id_text(job_id)));
    encode_utf8_valid_utf8(ids::id_text(job_id));
    encode_utf8_decode_utf8(ids::id_text(job_id));
    ids::law_canonical_text_denotes_its_id(job_id);
    ids::law_denoted_id(ids::id_text(job_id), job_id);
}

/// The snapshots of different jobs have different names.
pub proof fn law_snapshot_names_differ(a: JobId, b: JobId)
    requires
        snapshot_name(a) == snapshot_name(b),
    ensures
        a == b,
{
    ids::lemma_id_text_ascii(a);
    ids::lemma_id_text_ascii(b);
    assert(ids::id_text(a) =~= snapshot_name(a).take(36));
    assert(ids::id_text(b) =~= snapshot_name(b).take(36));
    ids::law_canonical_text_denotes_its_id(a);
    ids::law_canonical_text_denotes_its_id(b);
    ids::law_text_denotes_one_id(ids::id_text(a), a, b);
}

/// A temporary file that was left behind is not taken for a snapshot.
pub proof fn law_temporary_file_is_no_snapshot(job_id: JobId, entry: DirEntry)
    requires
        entry.name@ == encode_utf8(temporary_name(job_id)),
    ensures
        entry.meaning() == NameMeaning::Other,
{
    reveal_strlit(".tmp");
    let bytes = entry.name@;
    lemma_name_bytes(job_id, ".tmp"@);
    let tail = bytes.subrange(bytes.len() - 5, bytes.len() as int);
    assert(tail[4] == bytes.skip(36)[3]);
}

/// The file is the snapshot of one of `jobs`, and holds the job as it is in `jobs`.
pub open spec fn holds_snapshot(file: SnapshotFile, job_id: JobId, jobs: Jobs) -> bool {
    &&& jobs.dom().contains(job_id)
    &&& file.entry.meaning() == NameMeaning::Snapshot(job_id)
    &&& file.read == SnapshotRead::Parsed(jobs[job_id])
}

/// The directory holds, besides files that are no snapshots, the snapshots of `jobs`, each
/// holding the job as it is in `jobs`.
pub open spec fn directory_holds(files: Seq<SnapshotFile>, jobs: Jobs) -> bool {
    &&& forall|i: int|
        0 <= i < files.len() ==> match (#[trigger] files[i]).entry.meaning() {
            NameMeaning::Other => true,
            NameMeaning::Snapshot(job_id) => holds_snapshot(files[i], job_id, jobs),
            NameMeaning::Invalid(_) => false,
        }
    &&& forall|job_id: JobId| #[trigger]
        jobs.dom().contains(job_id) ==> exists|i: int|
            0 <= i < files.len() && holds_snapshot(#[trigger] files[i], job_id, jobs)
}

/// No two files have the same name.
pub open spec fn names_differ(files: Seq<SnapshotFile>) -> bool {
    forall|i: int, j: int|
        0 <= i < j < files.len() ==> (#[trigger] files[i]).entry.name@ != (
        #[trigger] files[j]).entry.name@
}

/// No job lies under two spellings of its id.
pub open spec fn one_file_per_job(files: Seq<SnapshotFile>) -> bool {
    forall|i: int, j: int|
        0 <= i < j < files.len() && (#[trigger] files[i]).entry.meaning() is Snapshot
            ==> files[i].entry.meaning() != (#[trigger] files[j]).entry.meaning()
}

/// All of `some` are among `jobs`, and the same there.
spec fn agrees_with(some: Jobs, jobs: Jobs) -> bool {
    forall|job_id: JobId| #[trigger]
        some.dom().contains(job_id) ==> jobs.dom().contains(job_id) && some[job_id] == jobs[job_id]
}

proof fn lemma_restored_prefix(files: Seq<SnapshotFile>, jobs: Jobs, k: int)
    requires
        0 <= k <= files.len(),
        state_store::keyed(jobs),
        directory_holds(files, jobs),
    ensures
        restored_jobs(files.take(k)) matches Ok(loaded) && {
            let back = with_all(Map::empty(), loaded);
            &&& agrees_with(back, jobs)
            &&& forall|i: int, job_id: JobId|
                0 <= i < k && holds_snapshot(#[trigger] files[i], job_id, jobs)
                    ==> #[trigger] back.dom().contains(job_id)
        },
    decreases k,
{
    if k > 0 {
        lemma_restored_prefix(files, jobs, k - 1);
        let file = files[k - 1];
        assert(files.take(k).drop_last() =~= files.take(k - 1));
        assert(files.take(k).last() == file);
        let before = restored_jobs(files.take(k - 1))->Ok_0;
        let back_before = with_all(Map::empty(), before);
        if let NameMeaning::Snapshot(job_id) = file.entry.meaning() {
            assert(holds_snapshot(file, job_id, jobs));
            let stored = jobs[job_id];
            assert(stored.runtime.job_id == job_id);
            assert(restored_jobs(files.take(k)) == Ok::<Seq<StoredJob>, StoreErrorView>(
                before.push(stored),
            ));
            let back = with_all(Map::empty(), before.push(stored));
            assert(before.push(stored).drop_last() =~= before);
            assert(back =~= back_before.insert(job_id, stored));
            assert(agrees_with(back, jobs));
            assert forall|i: int, id: JobId|
                0 <= i < k && holds_snapshot(
                    #[trigger] files[i],
                    id,
                    jobs,
                ) implies #[trigger] back.dom().contains(id) by {
                if i < k - 1 {
                    assert(back_before.dom().contains(id));
                }
            }
        }
    } else {
        assert(files.take(0).len() == 0);
    }
}

/// Recovery: from a directory that holds the snapshots of some jobs, a store restores these
/// jobs, each as it was.
pub proof fn law_restore_recovers_jobs(files: Seq<SnapshotFile>, jobs: Jobs)
    requires
        state_store::keyed(jobs),
        directory_holds(files, jobs),
    ensures
        restored_jobs(files) matches Ok(loaded) && with_all(Map::empty(), loaded) == jobs,
{
    lemma_restored_prefix(files, jobs, files.len() as int);
    assert(files.take(files.len() as int) =~= files);
    let back = with_all(Map::empty(), restored_jobs(files)->Ok_0);
    assert forall|job_id: JobId| jobs.dom().contains(job_id) implies back.dom().contains(
        job_id,
    ) by {
        let i = choose|i: int|
            0 <= i < files.len() && holds_snapshot(#[trigger] files[i], job_id, jobs);
        assert(holds_snapshot(files[i], job_id, jobs));
    }
    assert(back.dom() =~= jobs.dom());
    assert forall|job_id: JobId| #[trigger] back.dom().contains(job_id) implies back[job_id]
        == jobs[job_id] by {}
    assert(back =~= jobs);
}

/// A directory that can be restored, and in which no job lies under two spellings of its id,
/// holds the snapshots of the jobs that are restored from it.
pub proof fn law_restored_directory_holds_its_jobs(files: Seq<SnapshotFile>)
    requires
        restored_jobs(files) is Ok,
        one_file_per_job(files),
    ensures
        directory_holds(files, with_all(Map::empty(), restored_jobs(files)->Ok_0)),
        state_store::keyed(with_all(Map::empty(), restored_jobs(files)->Ok_0)),
    decreases files.len(),
{
    let back = with_all(Map::empty(), restored_jobs(files)->Ok_0);
    if files.len() > 0 {
        let earlier = files.drop_last();
        let last = files.last();
        assert(one_file_per_job(earlier)) by {
            assert forall|i: int, j: int|
                0 <= i < j < earlier.len() && (
                #[trigger] earlier[i]).entry.meaning() is Snapshot implies earlier[i].entry.meaning()
                != (#[trigger] earlier[j]).entry.meaning() by {
                assert(files[i] == earlier[i] && files[j] == earlier[j]);
            }
        }
        law_restored_directory_holds_its_jobs(earlier);
        let loaded = restored_jobs(earlier)->Ok_0;
        let held = with_all(Map::empty(), loaded);
        if let NameMeaning::Snapshot(job_id) = last.entry.meaning() {
            let stored = snapshot_content("filename"@, job_id, last.read)->Ok_0;
            assert(loaded.push(stored).drop_last() =~= loaded);
            assert(back =~= held.insert(job_id, stored));
            assert(holds_snapshot(files[files.len() - 1], job_id, back));
        } else {
            assert(back == held);
        }
        assert forall|i: int| 0 <= i < files.len() implies match (
        #[trigger] files[i]).entry.meaning() {
            NameMeaning::Other => true,
            NameMeaning::Snapshot(job_id) => holds_snapshot(files[i], job_id, back),
            NameMeaning::Invalid(_) => false,
        } by {
            if i < earlier.len() {
                assert(earlier[i] == files[i]);
                assert(files[i].entry.meaning() is Snapshot ==> files[i].entry.meaning()
                    != files[files.len() - 1].entry.meaning());
            }
        }
        assert forall|job_id: JobId| #[trigger] back.dom().contains(job_id) implies exists|i: int|
            0 <= i < files.len() && holds_snapshot(#[trigger] files[i], job_id, back) by {
            if last.entry.meaning() == NameMeaning::Snapshot(job_id) {
                assert(holds_snapshot(files[files.len() - 1], job_id, back));
            } else {
                assert(held.dom().contains(job_id));
                let i = choose|i: int|
                    0 <= i < earlier.len() && holds_snapshot(#[trigger] earlier[i], job_id, held);
                assert(files[i] == earlier[i]);
                assert(holds_snapshot(files[i], job_id, back));
            }
        }
    }
}

/// The directory `after` is `before` with `write` carried out: the snapshot file holds the
/// job written, and all other files are as before, but that a temporary file that was left
/// behind may have gone.
pub open spec fn directory_after_write(
    before: Seq<SnapshotFile>,
    after: Seq<SnapshotFile>,
    write: SnapshotWrite,
) -> bool {
    let name = encode_utf8(write.file_name@);
    &&& exists|i: int| 0 <= i < after.len() && (#[trigger] after[i]).entry.name@ == name
    &&& forall|i: int|
        0 <= i < after.len() ==> if (#[trigger] after[i]).entry.name@ == name {
            after[i].read == SnapshotRead::Parsed(write.job)
        } else {
            before.contains(after[i])
        }
    &&& forall|i: int|
        0 <= i < before.len() && (#[trigger] before[i]).entry.name@ != name
            && before[i].entry.name@ != encode_utf8(write.temporary_name@) ==> after.contains(
            before[i],
        )
    &&& names_differ(after)
}

/// A write keeps the directory in step with the store: where it held the snapshots of
/// `jobs`, it holds those of `jobs` with the written job put in, unless the job lies there
/// under another spelling of its id too.
pub proof fn law_write_keeps_directory_in_step(
    before: Seq<SnapshotFile>,
    after: Seq<SnapshotFile>,
    write: SnapshotWrite,
    jobs: Jobs,
    job_id: JobId,
    job: StoredJob,
)
    requires
        directory_holds(before, jobs),
        write.writes(job_id, job),
        directory_after_write(before, after, write),
        one_file_per_job(after),
    ensures
        directory_holds(after, jobs.insert(job_id, job)),
{
    let now_jobs = jobs.insert(job_id, job);
    let name = snapshot_name_bytes(job_id);
    let at = choose|i: int| 0 <= i < after.len() && (#[trigger] after[i]).entry.name@ == name;
    law_snapshot_name_is_read_back(job_id, after[at].entry);
    assert(holds_snapshot(after[at], job_id, now_jobs));
    assert forall|i: int| 0 <= i < after.len() implies match (
    #[trigger] after[i]).entry.meaning() {
        NameMeaning::Other => true,
        NameMeaning::Snapshot(id) => holds_snapshot(after[i], id, now_jobs),
        NameMeaning::Invalid(_) => false,
    } by {
        if i != at {
            if i < at {
                assert(after[i].entry.name@ != after[at].entry.name@);
                assert(after[i].entry.meaning() is Snapshot ==> after[i].entry.meaning()
                    != after[at].entry.meaning());
            } else {
                assert(after[at].entry.name@ != after[i].entry.name@);
                assert(after[at].entry.meaning() != after[i].entry.meaning());
            }
            let k = choose|k: int| 0 <= k < before.len() && before[k] == after[i];
            assert(before[k] == after[i]);
        }
    }
    assert forall|id: JobId| #[trigger] now_jobs.dom().contains(id) implies exists|i: int|
        0 <= i < after.len() && holds_snapshot(#[trigger] after[i], id, now_jobs) by {
        if id == job_id {
            assert(holds_snapshot(after[at], id, now_jobs));
        } else {
            assert(jobs.dom().contains(id));
            let k = choose|k: int|
                0 <= k < before.len() && holds_snapshot(#[trigger] before[k], id, jobs);
            if before[k].entry.name@ == name {
                law_snapshot_name_is_read_back(job_id, before[k].entry);
            }
            if before[k].entry.name@ == encode_utf8(temporary_name(job_id)) {
                law_temporary_file_is_no_snapshot(job_id, before[k].entry);
            }
            let i = choose|i: int| 0 <= i < after.len() && after[i] == before[k];
            assert(holds_snapshot(after[i], id, now_jobs));
        }
    }
}

/// A write takes no snapshot file away: where no job lies under two spellings after it, none did
/// before.
proof fn lemma_write_keeps_spellings(
    before: Seq<SnapshotFile>,
    after: Seq<SnapshotFile>,
    write: SnapshotWrite,
    job_id: JobId,
    job: StoredJob,
)
    requires
        names_differ(before),
        write.writes(job_id, job),
        directory_after_write(before, after, write),
        one_file_per_job(after),
    ensures
        one_file_per_job(before),
{
    assert forall|i: int, j: int|
        0 <= i < j < before.len() && (
        #[trigger] before[i]).entry.meaning() is Snapshot implies before[i].entry.meaning() != (
    #[trigger] before[j]).entry.meaning() by {
        if before[i].entry.meaning() == before[j].entry.meaning() {
            assert(before[i].entry.name@ != before[j].entry.name@);
            let a = lemma_name_stays(before, after, write, job_id, job, i);
            let b = lemma_name_stays(before, after, write, job_id, job, j);
            assert(after[a].entry.meaning() == before[i].entry.meaning());
            assert(after[b].entry.meaning() == before[j].entry.meaning());
            if a < b {
                assert(after[a].entry.meaning() != after[b].entry.meaning());
            } else {
                assert(after[b].entry.meaning() != after[a].entry.meaning());
            }
        }
    }
}

proof fn lemma_name_stays(
    before: Seq<SnapshotFile>,
    after: Seq<SnapshotFile>,
    write: SnapshotWrite,
    job_id: JobId,
    job: StoredJob,
    i: int,
) -> (at: int)
    requires
        0 <= i < before.len(),
        before[i].entry.meaning() is Snapshot,
        write.writes(job_id, job),
        directory_after_write(before, after, write),
    ensures
        0 <= at < after.len(),
        after[at].entry.name@ == before[i].entry.name@,
{
    let name = encode_utf8(write.file_name@);
    if before[i].entry.name@ == name {
        choose|k: int| 0 <= k < after.len() && (#[trigger] after[k]).entry.name@ == name
    } else {
        if before[i].entry.name@ == encode_utf8(temporary_name(job_id)) {
            law_temporary_file_is_no_snapshot(job_id, before[i].entry);
        }
        assert(after.contains(before[i]));
        choose|k: int| 0 <= k < after.len() && after[k] == before[i]
    }
}

/// A job was put in, and `write` persists it.
pub open spec fn put_persisted(before: Jobs, after: Jobs, write: SnapshotWrite) -> bool {
    exists|spec: JobSpec, runtime: JobRuntime| #[trigger]
        state_store::with_job(before, spec, runtime) == after && write.writes(
            runtime.job_id,
            StoredJob { spec, runtime },
        )
}

/// The runtime of a job was replaced, and `write` persists the job.
pub open spec fn update_persisted(before: Jobs, after: Jobs, write: SnapshotWrite) -> bool {
    exists|runtime: JobRuntime|
        before.dom().contains(runtime.job_id) && #[trigger] state_store::runtime_replaced(
            before,
            after,
            runtime,
        ) && write.writes(runtime.job_id, after[runtime.job_id])
}

/// A run of a store: the jobs that it held before and after each of its operations, the
/// writes that these asked for, and the directory before and after each write. Each
/// operation puts a job in or replaces a runtime, and nothing else writes to the directory.
pub open spec fn is_store_run(
    directories: Seq<Seq<SnapshotFile>>,
    jobs: Seq<Jobs>,
    writes: Seq<SnapshotWrite>,
) -> bool {
    &&& directories.len() == writes.len() + 1
    &&& jobs.len() == writes.len() + 1
    &&& forall|i: int|
        0 <= i < writes.len() ==> {
            &&& put_persisted(jobs[i], jobs[i + 1], #[trigger] writes[i]) || update_persisted(
                jobs[i],
                jobs[i + 1],
                writes[i],
            )
            &&& directory_after_write(directories[i], directories[i + 1], writes[i])
        }
}

proof fn lemma_run_keeps_directory_in_step(
    directories: Seq<Seq<SnapshotFile>>,
    jobs: Seq<Jobs>,
    writes: Seq<SnapshotWrite>,
)
    requires
        is_store_run(directories, jobs, writes),
        names_differ(directories[0]),
        restored_jobs(directories[0]) matches Ok(loaded) && jobs[0] == with_all(
            Map::empty(),
            loaded,
        ),
        one_file_per_job(directories.last()),
    ensures
        directory_holds(directories.last(), jobs.last()),
        state_store::keyed(jobs.last()),
    decreases writes.len(),
{
    let n = writes.len() as int;
    if n == 0 {
        law_restored_directory_holds_its_jobs(directories[0]);
    } else {
        let before = directories[n - 1];
        let after = directories[n];
        let write = writes[n - 1];
        assert(directory_after_write(before, after, write));
        if n > 1 {
            assert(directory_after_write(directories[n - 2], before, writes[n - 2]));
        }
        let held = jobs[n - 1];
        let job = if put_persisted(held, jobs[n], write) {
            let (spec, runtime) = choose|spec: JobSpec, runtime: JobRuntime| #[trigger]
                state_store::with_job(held, spec, runtime) == jobs[n] && write.writes(
                    runtime.job_id,
                    StoredJob { spec, runtime },
                );
            StoredJob { spec, runtime }
        } else {
            let runtime = choose|runtime: JobRuntime|
                held.dom().contains(runtime.job_id) && #[trigger] state_store::runtime_replaced(
                    held,
                    jobs[n],
                    runtime,
                ) && write.writes(runtime.job_id, jobs[n][runtime.job_id]);
            jobs[n][runtime.job_id]
        };
        lemma_write_keeps_spellings(before, after, write, job.runtime.job_id, job);
        let fewer = writes.drop_last();
        assert forall|i: int| 0 <= i < fewer.len() implies {
            &&& put_persisted(
                jobs.drop_last()[i],
                jobs.drop_last()[i + 1],
                #[trigger] fewer[i],
            ) || update_persisted(jobs.drop_last()[i], jobs.drop_last()[i + 1], fewer[i])
            &&& directory_after_write(
                directories.drop_last()[i],
                directories.drop_last()[i + 1],
                fewer[i],
            )
        } by {
            assert(fewer[i] == writes[i]);
        }
        lemma_run_keeps_directory_in_step(directories.drop_last(), jobs.drop_last(), fewer);
        law_write_keeps_directory_in_step(before, after, write, held, job.runtime.job_id, job);
    }
}

/// What a store persists survives a restart: after any run of a store that began with what
/// could be restored from its directory, a new store restores from the directory exactly
/// the jobs that the old one holds, each with its specification and its whole runtime. This
/// does not hold where a job lies in the directory under two spellings of its id: the store
/// writes one of the files, and which of them is restored last is up to the file system.
pub proof fn law_persisted_jobs_survive_restart(
    directories: Seq<Seq<SnapshotFile>>,
    jobs: Seq<Jobs>,
    writes: Seq<SnapshotWrite>,
)
    requires
        is_store_run(directories, jobs, writes),
        names_differ(directories[0]),
        restored_jobs(directories[0]) matches Ok(loaded) && jobs[0] == with_all(
            Map::empty(),
            loaded,
        ),
        one_file_per_job(directories.last()),
    ensures
        restored_jobs(directories.last()) matches Ok(loaded) && with_all(Map::empty(), loaded)
            == jobs.last(),
{
    lemma_run_keeps_directory_in_step(directories, jobs, writes);
    law_restore_recovers_jobs(directories.last(), jobs.last());
}

proof fn lemma_listed_prefix(files: Seq<SnapshotFile>, jobs: Jobs, k: int)
    requires
        0 <= k <= files.len(),
        directory_holds(files, jobs),
        one_file_per_job(files),
    ensures
        listed_ids(files.take(k).map_values(|file: SnapshotFile| file.entry)) matches Ok(found) && {
            &&& found.no_duplicates()
            &&& forall|job_id: JobId| #[trigger]
                found.contains(job_id) ==> exists|i: int|
                    0 <= i < k && holds_snapshot(#[trigger] files[i], job_id, jobs)
            &&& forall|i: int, job_id: JobId|
                0 <= i < k && holds_snapshot(#[trigger] files[i], job_id, jobs)
                    ==> #[trigger] found.contains(job_id)
        },
    decreases k,
{
    let entries = files.take(k).map_values(|file: SnapshotFile| file.entry);
    if k > 0 {
        lemma_listed_prefix(files, jobs, k - 1);
        let file = files[k - 1];
        let earlier = files.take(k - 1).map_values(|file: SnapshotFile| file.entry);
        assert(entries.drop_last() =~= earlier);
        assert(entries.last() == file.entry);
        let found = listed_ids(earlier)->Ok_0;
        if let NameMeaning::Snapshot(id) = file.entry.meaning() {
            assert(holds_snapshot(file, id, jobs));
            let more = found.push(id);
            if found.contains(id) {
                let i = choose|i: int|
                    0 <= i < k - 1 && holds_snapshot(#[trigger] files[i], id, jobs);
                assert(files[i].entry.meaning() != files[k - 1].entry.meaning());
            }
            assert forall|job_id: JobId| #[trigger] more.contains(job_id) implies exists|i: int|
                0 <= i < k && holds_snapshot(#[trigger] files[i], job_id, jobs) by {
                if found.contains(job_id) {
                    let i = choose|i: int|
                        0 <= i < k - 1 && holds_snapshot(#[trigger] files[i], job_id, jobs);
                    assert(holds_snapshot(files[i], job_id, jobs));
                } else {
                    assert(holds_snapshot(files[k - 1], job_id, jobs));
                }
            }
            assert forall|i: int, job_id: JobId|
                0 <= i < k && holds_snapshot(
                    #[trigger] files[i],
                    job_id,
                    jobs,
                ) implies #[trigger] more.contains(job_id) by {
                if i < k - 1 {
                    assert(found.contains(job_id));
                    let at = choose|at: int| 0 <= at < found.len() && found[at] == job_id;
                    assert(more[at] == job_id);
                } else {
                    assert(more[found.len() as int] == job_id);
                }
            }
        }
    } else {
        assert(entries.len() == 0);
    }
}

/// Listing a directory that holds the snapshots of some jobs, none of them under two
/// spellings of its id, gives the id of each of them once.
pub proof fn law_listing_gives_each_snapshot(files: Seq<SnapshotFile>, jobs: Jobs)
    requires
        directory_holds(files, jobs),
        one_file_per_job(files),
    ensures
        listed_ids(files.map_values(|file: SnapshotFile| file.entry)) matches Ok(found)
            && state_store::enumerates(found, jobs.dom()),
{
    lemma_listed_prefix(files, jobs, files.len() as int);
    assert(files.take(files.len() as int) =~= files);
    let found = listed_ids(files.map_values(|file: SnapshotFile| file.entry))->Ok_0;
    assert forall|job_id: JobId| found.contains(job_id) == jobs.dom().contains(job_id) by {
        if found.contains(job_id) {
            let i = choose|i: int|
                0 <= i < files.len() && holds_snapshot(#[trigger] files[i], job_id, jobs);
            assert(holds_snapshot(files[i], job_id, jobs));
        }
        if jobs.dom().contains(job_id) {
            let i = choose|i: int|
                0 <= i < files.len() && holds_snapshot(#[trigger] files[i], job_id, jobs);
            assert(holds_snapshot(files[i], job_id, jobs));
        }
    }
    assert(found.to_set() =~= jobs.dom());
}

/// Restoring and loading snapshots keep each job filed under its own id.
pub proof fn law_restoring_keeps_jobs_keyed(
    jobs: Jobs,
    added: Seq<StoredJob>,
    origin: Seq<char>,
    job_id: JobId,
    read: SnapshotRead,
)
    requires
        state_store::keyed(jobs),
    ensures
        state_store::keyed(with_all(jobs, added)),
        snapshot_content(origin, job_id, read) matches Ok(stored) ==> state_store::keyed(
            jobs.insert(job_id, stored),
        ),
    decreases added.len(),
{
    if added.len() > 0 {
        law_restoring_keeps_jobs_keyed(jobs, added.drop_last(), origin, job_id, read);
    }
}

} // verus!
