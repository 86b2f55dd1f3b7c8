use miles_control::api::{
    DatasetConfig, EvalConfig, FaultToleranceConfig, JobMode, JobRuntime, JobSpec, JobState,
    LoopPhase, ResourcePlan, RolloutConfig, SaveConfig, TrainBackend, TrainConfig,
};
use miles_control::clock::Timestamp;
use miles_control::file_store::{
    DirEntry, DirListing, FileStateStore, SnapshotFile, SnapshotRead, SnapshotWrite, WriteOutcome,
};
use miles_control::ids::JobId;
use miles_control::lifecycle::JobAction;
use miles_control::registry::{WorkerRecord, WorkerStatus};
use miles_control::server::{ApiError, ApiState, CreateJobResponse, JobMetrics};
use miles_control::state_store::{InMemoryStateStore, StateStore, StoreError, StoredJob};
use std::cell::RefCell;
use std::collections::BTreeMap;
use std::rc::Rc;

fn sample_spec() -> JobSpec {
    JobSpec {
        job_name: "api-job".to_string(),
        mode: JobMode::Sync,
        backend: TrainBackend::Fsdp,
        resource_plan: ResourcePlan {
            actor_num_nodes: 1,
            actor_num_gpus_per_node: 1,
            critic_num_nodes: None,
            critic_num_gpus_per_node: None,
            rollout_num_gpus: 1,
            rollout_num_gpus_per_engine: 1,
            num_gpus_per_node: 8,
            colocate: false,
        },
        dataset_config: DatasetConfig {
            prompt_data: "/tmp/prompts.jsonl".to_string(),
            input_key: "prompt".to_string(),
            label_key: "label".to_string(),
        },
        rollout_config: RolloutConfig {
            batch_size: 4,
            n_samples_per_prompt: 2,
            max_response_len: Some(128),
        },
        train_config: TrainConfig {
            global_batch_size: 8,
            num_rollout: 3,
            update_weights_interval: 1,
        },
        eval_config: EvalConfig {
            eval_interval: Some(2),
        },
        save_config: SaveConfig {
            save_interval: Some(2),
            output_dir: Some("/tmp/out".to_string()),
        },
        fault_tolerance_config: FaultToleranceConfig {
            enabled: true,
            max_retries: 2,
            retry_backoff_ms: 100,
        },
    }
}

/// A directory, by file name, and how many more writes it takes.
#[derive(Default)]
struct Directory {
    files: BTreeMap<String, StoredJob>,
    writes_left: Option<usize>,
}

/// A file store on a directory in memory, which outlives it.
struct DirectoryStore {
    core: FileStateStore,
    directory: Rc<RefCell<Directory>>,
}

impl DirectoryStore {
    fn open(directory: &Rc<RefCell<Directory>>) -> DirectoryStore {
        let files = directory
            .borrow()
            .files
            .iter()
            .map(|(name, job)| SnapshotFile {
                entry: DirEntry {
                    name: name.clone().into_bytes(),
                    path: name.clone(),
                },
                read: SnapshotRead::Parsed(job.clone()),
            })
            .collect();
        let core = FileStateStore::new("memory".to_string(), &files, None).expect("restored");
        DirectoryStore {
            core,
            directory: directory.clone(),
        }
    }

    fn carry_out(
        &mut self,
        write: Result<SnapshotWrite, StoreError>,
    ) -> Result<(), StoreError> {
        let write = write?;
        let mut directory = self.directory.borrow_mut();
        if let Some(left) = directory.writes_left {
            if left == 0 {
                return WriteOutcome::NotWritten("full".to_string()).into_result();
            }
            directory.writes_left = Some(left - 1);
        }
        directory.files.insert(write.file_name, write.job);
        WriteOutcome::Written.into_result()
    }
}

impl StateStore for DirectoryStore {
    fn put_job(&mut self, spec: JobSpec, runtime: JobRuntime) -> Result<(), StoreError> {
        let write = self.core.put_job(spec, runtime);
        self.carry_out(write)
    }
    fn get_job(&mut self, job_id: JobId) -> Result<StoredJob, StoreError> {
        self.core.get_job(job_id)
    }
    fn update_runtime(&mut self, runtime: JobRuntime) -> Result<(), StoreError> {
        let write = self.core.update_runtime(runtime);
        self.carry_out(write)
    }
    fn list_jobs(&mut self) -> Result<Vec<StoredJob>, StoreError> {
        Ok(self.core.list_jobs())
    }
    fn snapshot_job(&mut self, job_id: JobId) -> Result<(), StoreError> {
        let write = self.core.snapshot_job(job_id);
        self.carry_out(write)
    }
    fn load_snapshot(&mut self, job_id: JobId) -> Result<StoredJob, StoreError> {
        let name = self.core.snapshot_path(job_id);
        let read = match self.directory.borrow().files.get(&name) {
            Some(job) => Some(SnapshotRead::Parsed(job.clone())),
            None => None,
        };
        self.core.load_snapshot(job_id, read.as_ref())
    }
    fn list_snapshots(&mut self) -> Result<Vec<JobId>, StoreError> {
        let entries = self
            .directory
            .borrow()
            .files
            .keys()
            .map(|name| DirEntry {
                name: name.clone().into_bytes(),
                path: name.clone(),
            })
            .collect();
        self.core.list_snapshots(&DirListing {
            entries,
            failure: None,
        })
    }
}

/// A store that takes a snapshot only when it is asked to, and notes what it is asked.
#[derive(Default)]
struct Noted {
    jobs: BTreeMap<JobId, StoredJob>,
    snapshots: BTreeMap<JobId, StoredJob>,
    asked: Vec<&'static str>,
}

struct NotedStore(Rc<RefCell<Noted>>);

impl StateStore for NotedStore {
    fn put_job(&mut self, spec: JobSpec, runtime: JobRuntime) -> Result<(), StoreError> {
        let mut noted = self.0.borrow_mut();
        noted.asked.push("put");
        noted
            .jobs
            .insert(runtime.job_id, StoredJob { spec, runtime });
        Ok(())
    }
    fn get_job(&mut self, job_id: JobId) -> Result<StoredJob, StoreError> {
        let mut noted = self.0.borrow_mut();
        noted.asked.push("get");
        match noted.jobs.get(&job_id) {
            Some(job) => Ok(job.clone()),
            None => Err(StoreError::NotFound(job_id)),
        }
    }
    fn update_runtime(&mut self, runtime: JobRuntime) -> Result<(), StoreError> {
        let mut noted = self.0.borrow_mut();
        noted.asked.push("update");
        match noted.jobs.get_mut(&runtime.job_id) {
            Some(job) => {
                job.runtime = runtime;
                Ok(())
            }
            None => Err(StoreError::NotFound(runtime.job_id)),
        }
    }
    fn list_jobs(&mut self) -> Result<Vec<StoredJob>, StoreError> {
        let mut noted = self.0.borrow_mut();
        noted.asked.push("jobs");
        Ok(noted.jobs.values().cloned().collect())
    }
    fn snapshot_job(&mut self, job_id: JobId) -> Result<(), StoreError> {
        let mut noted = self.0.borrow_mut();
        noted.asked.push("snapshot");
        match noted.jobs.get(&job_id).cloned() {
            Some(job) => {
                noted.snapshots.insert(job_id, job);
                Ok(())
            }
            None => Err(StoreError::NotFound(job_id)),
        }
    }
    fn load_snapshot(&mut self, job_id: JobId) -> Result<StoredJob, StoreError> {
        let mut noted = self.0.borrow_mut();
        noted.asked.push("load");
        match noted.snapshots.get(&job_id).cloned() {
            Some(job) => {
                noted.jobs.insert(job_id, job.clone());
                Ok(job)
            }
            None => Err(StoreError::NotFound(job_id)),
        }
    }
    fn list_snapshots(&mut self) -> Result<Vec<JobId>, StoreError> {
        let mut noted = self.0.borrow_mut();
        noted.asked.push("list");
        Ok(noted.snapshots.keys().copied().collect())
    }
}

fn in_memory() -> ApiState<InMemoryStateStore> {
    ApiState::new(InMemoryStateStore::default()).expect("state")
}

fn create<S: StateStore>(state: &mut ApiState<S>) -> JobId {
    let (status, created) = state.create_job(sample_spec()).expect("create");
    assert_eq!(status, 201);
    created.job_id
}

fn error(status: u16, error_code: &'static str, message: &str) -> ApiError {
    ApiError {
        status,
        error_code,
        message: message.to_string(),
    }
}

#[test]
fn create_start_stop_and_read_state() {
    let directory = Rc::new(RefCell::new(Directory::default()));
    let mut state = ApiState::new(DirectoryStore::open(&directory)).expect("state");
    let job_id = create(&mut state);

    state.start_job(job_id).expect("start");
    state.stop_job(job_id).expect("stop");

    let read = state.get_job_state(job_id).expect("state");
    assert_eq!(read.job_id, job_id);
    assert_eq!(read.runtime.state, JobState::Stopped);

    let events = state.get_job_events(job_id).expect("events").events;
    assert!(events.len() >= 3);
    let messages: Vec<&str> = events.iter().map(|event| event.message.as_str()).collect();
    assert_eq!(
        messages,
        vec![
            "job created",
            "job starting",
            "job running",
            "job stopping",
            "job stopped",
        ]
    );
    assert!(events.iter().all(|event| event.job_id == job_id));

    let metrics = state.get_job_metrics(job_id).expect("metrics").metrics;
    assert_eq!(metrics.action_invocations_total, 2);
    assert_eq!(metrics.transitions_total, 4);
    assert_eq!(metrics.noop_actions_total, 0);
}

#[test]
fn start_and_stop_are_idempotent() {
    let directory = Rc::new(RefCell::new(Directory::default()));
    let mut state = ApiState::new(DirectoryStore::open(&directory)).expect("state");
    let job_id = create(&mut state);

    let start_one = state.start_job(job_id).expect("start one");
    assert_eq!(start_one.status, "updated");
    let start_two = state.start_job(job_id).expect("start two");
    assert_eq!(start_two.status, "noop");
    let stop_one = state.stop_job(job_id).expect("stop one");
    assert_eq!(stop_one.status, "updated");
    let stop_two = state.stop_job(job_id).expect("stop two");
    assert_eq!(stop_two.status, "noop");
    assert_eq!(stop_two.message, "job already stopping or stopped");
}

#[test]
fn state_recovers_after_server_restart_from_snapshots() {
    let directory = Rc::new(RefCell::new(Directory::default()));
    let mut state = ApiState::new(DirectoryStore::open(&directory)).expect("state");
    let job_id = create(&mut state);
    state.start_job(job_id).expect("start");
    state.stop_job(job_id).expect("stop");
    let before = state.get_job_state(job_id).expect("state");
    drop(state);

    let mut again = ApiState::new(DirectoryStore::open(&directory)).expect("state");
    let read = again.get_job_state(job_id).expect("state after restart");
    assert_eq!(read.runtime.state, JobState::Stopped);
    assert_eq!(read, before);
    let events = again.get_job_events(job_id).expect("events").events;
    assert_eq!(events.len(), 1);
    assert_eq!(events[0].message, "job restored from snapshot");
    assert_eq!(events[0].state, JobState::Stopped);
    assert_eq!(events[0].phase, LoopPhase::Cleanup);
    assert_eq!(
        again.get_job_metrics(job_id).expect("metrics").metrics,
        JobMetrics::default()
    );
    let restarted = again.start_job(job_id).expect("start after restart");
    assert_eq!(restarted.state, JobState::Running);
    assert_eq!(
        again.get_job_state(job_id).expect("state").runtime.fence_token,
        6
    );
}

#[test]
fn created_jobs_are_as_asked_for() {
    let mut state = in_memory();
    let instant = Timestamp { secs: 50, nanos: 60 };
    let (status, created) = state
        .create_job_as(sample_spec(), 12, instant)
        .expect("create");
    assert_eq!(status, 201);
    assert_eq!(
        created,
        CreateJobResponse {
            job_id: 12,
            runtime: JobRuntime::created(12, &sample_spec(), instant),
        }
    );
    assert_eq!(
        state.get_job_state(12).expect("state").runtime,
        created.runtime
    );
    assert_eq!(
        state.get_job_metrics(12).expect("metrics").metrics,
        JobMetrics::default()
    );
}

#[test]
fn two_jobs_get_two_ids() {
    let mut state = in_memory();
    let first = create(&mut state);
    let second = create(&mut state);
    assert_ne!(first, second);
    state.start_job(first).expect("start");
    let untouched = state.get_job_state(second).expect("state").runtime;
    assert_eq!(untouched.state, JobState::Created);
    assert_eq!(state.get_job_events(second).expect("events").events.len(), 1);
    assert_eq!(
        state.get_job_metrics(second).expect("metrics").metrics,
        JobMetrics::default()
    );
}

#[test]
fn invalid_specs_are_bad_requests() {
    let mut state = in_memory();
    let mut spec = sample_spec();
    spec.dataset_config.prompt_data = "\t".to_string();
    assert_eq!(
        state.create_job(spec),
        Err(error(400, "bad_request", "prompt_data must not be empty"))
    );
}

#[test]
fn actions_on_unknown_jobs_are_not_found() {
    let mut state = in_memory();
    let missing = error(
        404,
        "not_found",
        "job 00000000-0000-0000-0000-0000000000ff not found",
    );
    assert_eq!(state.start_job(255), Err(missing));
    let missing = |e: ApiError| (e.status, e.error_code);
    assert_eq!(
        state.get_job_state(255).map_err(missing),
        Err((404, "not_found"))
    );
    assert_eq!(
        state.get_job_events(255).map_err(missing),
        Err((404, "not_found"))
    );
    assert_eq!(
        state.get_job_metrics(255).map_err(missing),
        Err((404, "not_found"))
    );
    assert_eq!(state.has_room_for(255, JobAction::Stop), Ok(true));
}

#[test]
fn refused_actions_are_conflicts_and_are_counted() {
    let mut state = in_memory();
    let job_id = create(&mut state);
    assert_eq!(
        state.pause_job(job_id),
        Err(error(
            409,
            "invalid_transition",
            "action pause is invalid from state Created"
        ))
    );
    assert_eq!(
        state.resume_job(job_id).expect_err("resume").message,
        "action resume is invalid from state Created"
    );
    assert_eq!(
        state.get_job_state(job_id).expect("state").runtime.state,
        JobState::Created
    );
    assert_eq!(state.get_job_events(job_id).expect("events").events.len(), 1);
    assert_eq!(
        state.get_job_metrics(job_id).expect("metrics").metrics,
        JobMetrics {
            action_invocations_total: 2,
            transitions_total: 0,
            noop_actions_total: 0,
        }
    );
}

#[test]
fn pause_and_resume_lead_back_to_running() {
    let mut state = in_memory();
    let job_id = create(&mut state);
    state.start_job(job_id).expect("start");
    let paused = state.pause_job(job_id).expect("pause");
    assert_eq!(paused.state, JobState::Paused);
    assert_eq!(paused.phase, LoopPhase::PrepareRollout);
    assert_eq!(paused.status, "updated");
    assert_eq!(paused.message, "pause applied");
    assert_eq!(paused.job_id, job_id);
    let resumed = state
        .apply_lifecycle_action(job_id, JobAction::Resume)
        .expect("resume");
    assert_eq!(resumed.state, JobState::Running);
    assert_eq!(resumed.message, "resume applied");
    assert_eq!(
        state.get_job_metrics(job_id).expect("metrics").metrics,
        JobMetrics {
            action_invocations_total: 3,
            transitions_total: 4,
            noop_actions_total: 0,
        }
    );
    assert_eq!(state.has_room_for(job_id, JobAction::Stop), Ok(true));
}

#[test]
fn full_fence_tokens_leave_no_room() {
    let mut store = InMemoryStateStore::default();
    let mut runtime = JobRuntime::created(3, &sample_spec(), Timestamp { secs: 0, nanos: 0 });
    runtime.fence_token = u64::MAX - 1;
    store.put_job(sample_spec(), runtime).expect("put");
    let mut state = ApiState::new(store).expect("state");
    assert_eq!(state.has_room_for(3, JobAction::Start), Ok(false));
    assert_eq!(state.has_room_for(3, JobAction::Pause), Ok(true));
}

#[test]
fn failing_store_breaks_an_action_off() {
    let directory = Rc::new(RefCell::new(Directory::default()));
    let mut state = ApiState::new(DirectoryStore::open(&directory)).expect("state");
    let job_id = create(&mut state);
    directory.borrow_mut().writes_left = Some(1);
    assert_eq!(
        state.start_job(job_id),
        Err(error(500, "internal_error", "io error: full"))
    );
    let messages: Vec<String> = state
        .get_job_events(job_id)
        .expect("events")
        .events
        .into_iter()
        .map(|event| event.message)
        .collect();
    assert_eq!(messages, vec!["job created", "job starting"]);
    assert_eq!(
        state.get_job_metrics(job_id).expect("metrics").metrics,
        JobMetrics {
            action_invocations_total: 1,
            transitions_total: 1,
            noop_actions_total: 0,
        }
    );
    assert_eq!(
        state.create_job(sample_spec()),
        Err(error(500, "internal_error", "io error: full"))
    );
}

#[test]
fn store_is_asked_for_each_thing_once() {
    let noted = Rc::new(RefCell::new(Noted::default()));
    let asked = || std::mem::take(&mut noted.borrow_mut().asked);
    let persisted = |job_id: JobId| {
        let noted = noted.borrow();
        noted.snapshots.get(&job_id) == noted.jobs.get(&job_id)
    };
    let mut state = ApiState::new(NotedStore(noted.clone())).expect("state");
    assert_eq!(asked(), vec!["jobs"]);

    let mut invalid = sample_spec();
    invalid.job_name = String::new();
    state.create_job(invalid).expect_err("invalid");
    assert_eq!(asked(), Vec::<&str>::new());

    let job_id = create(&mut state);
    assert_eq!(asked(), vec!["put", "snapshot"]);
    assert!(persisted(job_id));

    state.pause_job(job_id).expect_err("refused");
    state.stop_job(job_id + 1).expect_err("unknown");
    assert_eq!(asked(), vec!["get", "get"]);

    state.start_job(job_id).expect("start");
    assert_eq!(asked(), vec!["get", "update", "update", "snapshot"]);
    assert!(persisted(job_id));

    state.start_job(job_id).expect("start again");
    assert_eq!(asked(), vec!["get"]);
    assert!(persisted(job_id));

    state.pause_job(job_id).expect("pause");
    assert_eq!(asked(), vec!["get", "update", "snapshot"]);
    assert!(persisted(job_id));

    state.register_worker(None);
    assert_eq!(asked(), Vec::<&str>::new());
    state.get_job_state(job_id).expect("state");
    state.get_job_events(job_id).expect("events");
    state.get_job_metrics(job_id + 1).expect_err("unknown");
    assert_eq!(asked(), vec!["get", "get", "get"]);
}

#[test]
fn errors_of_the_store_are_mapped() {
    assert_eq!(
        ApiError::from_store(StoreError::NotFound(1)),
        error(
            404,
            "not_found",
            "job 00000000-0000-0000-0000-000000000001 not found"
        )
    );
    assert_eq!(
        ApiError::from_store(StoreError::Serialization("eof".to_string())),
        error(500, "internal_error", "serialization error: eof")
    );
}

#[test]
fn workers_register_beat_and_drain() {
    let mut state = in_memory();
    assert_eq!(state.list_workers(), Vec::new());
    let named = state.register_worker(Some("gpu-1".to_string()));
    assert_eq!(named.worker_id, "gpu-1");
    assert_eq!(named.status, WorkerStatus::Healthy);
    let unnamed = state.register_worker(None);
    let id = unnamed.worker_id.strip_prefix("worker-").expect("prefix");
    assert_eq!(
        uuid::Uuid::parse_str(id).expect("uuid").to_string(),
        id.to_string()
    );

    let drained = state.worker_drain("gpu-1".to_string()).expect("drain");
    assert_eq!(drained.status, WorkerStatus::Draining);
    assert!(drained.updated_at >= named.updated_at);
    let mut listed = state.list_workers();
    listed.sort_by_key(|record| record.worker_id.clone());
    assert_eq!(listed, vec![drained, unnamed]);
    let beating = state.worker_heartbeat("gpu-1".to_string()).expect("beat");
    assert_eq!(beating.status, WorkerStatus::Healthy);

    let missing = error(404, "not_found", "worker gpu-2 not found");
    assert_eq!(state.worker_heartbeat("gpu-2".to_string()), Err(missing));
    let missing = error(404, "not_found", "worker gpu-2 not found");
    assert_eq!(state.worker_drain("gpu-2".to_string()), Err(missing));
    assert_eq!(state.list_workers().len(), 2);
}

#[test]
fn registering_again_replaces_the_record() {
    let mut state = in_memory();
    let early = Timestamp { secs: 1, nanos: 0 };
    let late = Timestamp { secs: 2, nanos: 0 };
    state.register_worker_at("w".to_string(), early);
    state
        .mark_worker_at("w".to_string(), WorkerStatus::Draining, early)
        .expect("known");
    let record = state.register_worker_at("w".to_string(), late);
    assert_eq!(
        record,
        WorkerRecord {
            worker_id: "w".to_string(),
            status: WorkerStatus::Healthy,
            updated_at: late,
        }
    );
    assert_eq!(state.list_workers(), vec![record]);
}

#[test]
fn snapshots_of_a_directory_are_listed_and_loaded() {
    let directory = Rc::new(RefCell::new(Directory::default()));
    let mut state = ApiState::new(DirectoryStore::open(&directory)).expect("state");
    let mut ids = vec![create(&mut state), create(&mut state), create(&mut state)];
    ids.sort();
    let mut store = DirectoryStore::open(&directory);
    assert_eq!(store.list_snapshots(), Ok(ids.clone()));
    let loaded = store.load_snapshot(ids[1]).expect("loaded");
    assert_eq!(
        loaded.runtime,
        state.get_job_state(ids[1]).expect("state").runtime
    );
    assert_eq!(store.load_snapshot(1), Err(StoreError::NotFound(1)));
}
