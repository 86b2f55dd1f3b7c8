use chrono::Utc;
use miles_control::api::{
    DatasetConfig, EvalConfig, FaultToleranceConfig, JobMode, JobRuntime, JobSpec, JobState,
    LoopPhase, ResourcePlan, RolloutConfig, RolloutCursor, SaveConfig, TrainBackend, TrainConfig,
};
use miles_control::clock::Timestamp;
use miles_control::ids::JobId;
use miles_control::state_store::{InMemoryStateStore, StateStore, StoreError, StoredJob};
use uuid::Uuid;

fn sample_spec() -> JobSpec {
    JobSpec {
        job_name: "job".to_string(),
        mode: JobMode::Sync,
        backend: TrainBackend::Fsdp,
        resource_plan: ResourcePlan {
            actor_num_nodes: 1,
            actor_num_gpus_per_node: 1,
            critic_num_nodes: None,
            critic_num_gpus_per_node: None,
            rollout_num_gpus: 1,
            rollout_num_gpus_per_engine: 1,
            num_gpus_per_node: 8,
            colocate: false,
        },
        dataset_config: DatasetConfig {
            prompt_data: "x".to_string(),
            input_key: "prompt".to_string(),
            label_key: "label".to_string(),
        },
        rollout_config: RolloutConfig {
            batch_size: 1,
            n_samples_per_prompt: 1,
            max_response_len: None,
        },
        train_config: TrainConfig {
            global_batch_size: 1,
            num_rollout: 1,
            update_weights_interval: 1,
        },
        eval_config: EvalConfig {
            eval_interval: None,
        },
        save_config: SaveConfig {
            save_interval: None,
            output_dir: None,
        },
        fault_tolerance_config: FaultToleranceConfig {
            enabled: false,
            max_retries: 0,
            retry_backoff_ms: 0,
        },
    }
}

fn present() -> Timestamp {
    let instant = Utc::now();
    Timestamp {
        secs: instant.timestamp(),
        nanos: instant.timestamp_subsec_nanos(),
    }
}

fn random_id() -> JobId {
    Uuid::new_v4().as_u128()
}

fn runtime(job_id: JobId) -> JobRuntime {
    JobRuntime {
        job_id,
        state: JobState::Created,
        phase: LoopPhase::Init,
        cursor: RolloutCursor {
            current_rollout_id: 0,
            total_rollouts: 1,
        },
        fence_token: 0,
        updated_at: present(),
    }
}

#[test]
fn put_and_get_job() {
    let mut store = InMemoryStateStore::default();
    let job_id = random_id();

    store
        .put_job(sample_spec(), runtime(job_id))
        .expect("put should succeed");
    let stored = store.get_job(job_id).expect("job should exist");
    assert_eq!(stored.runtime.job_id, job_id);
    assert_eq!(stored.runtime.state, JobState::Created);
}

#[test]
fn get_unknown_job_returns_not_found() {
    let mut store = InMemoryStateStore::default();
    let missing = random_id();
    let err = store.get_job(missing).expect_err("missing job should fail");
    assert_eq!(err, StoreError::NotFound(missing));
}

#[test]
fn update_unknown_job_returns_not_found() {
    let mut store = InMemoryStateStore::default();
    let missing = random_id();
    let mut changed_runtime = runtime(missing);
    changed_runtime.state = JobState::Running;
    changed_runtime.phase = LoopPhase::Train;
    changed_runtime.fence_token = 3;

    let err = store
        .update_runtime(changed_runtime)
        .expect_err("missing update should fail");
    assert_eq!(err, StoreError::NotFound(missing));
    assert_eq!(store.list_jobs(), Ok(Vec::new()));
}

#[test]
fn put_with_same_job_id_overwrites_previous_value() {
    let mut store = InMemoryStateStore::default();
    let job_id = random_id();
    store
        .put_job(sample_spec(), runtime(job_id))
        .expect("first put succeeds");

    let mut updated = runtime(job_id);
    updated.state = JobState::Running;
    updated.phase = LoopPhase::Train;
    updated.fence_token = 8;

    store
        .put_job(sample_spec(), updated.clone())
        .expect("overwrite put succeeds");

    let stored = store.get_job(job_id).expect("job should exist");
    assert_eq!(stored.runtime.state, JobState::Running);
    assert_eq!(stored.runtime.phase, LoopPhase::Train);
    assert_eq!(stored.runtime.fence_token, 8);
    assert_eq!(store.list_jobs().expect("list").len(), 1);
}

#[test]
fn update_runtime_changes_state_phase_and_refreshes_timestamp() {
    let mut store = InMemoryStateStore::default();
    let job_id = random_id();
    let mut initial = runtime(job_id);
    let before_update = initial.updated_at;

    store
        .put_job(sample_spec(), initial.clone())
        .expect("put succeeds");

    initial.state = JobState::Running;
    initial.phase = LoopPhase::Generate;
    initial.fence_token = 4;

    store
        .update_runtime(initial.clone())
        .expect("update succeeds");

    let stored = store.get_job(job_id).expect("job should exist");
    assert_eq!(stored.runtime.state, JobState::Running);
    assert_eq!(stored.runtime.phase, LoopPhase::Generate);
    assert_eq!(stored.runtime.fence_token, 4);
    assert!(stored.runtime.updated_at >= before_update);
}

#[test]
fn list_jobs_returns_all_inserted_jobs() {
    let mut store = InMemoryStateStore::default();
    let id1 = random_id();
    let id2 = random_id();

    for id in [id1, id2] {
        store
            .put_job(sample_spec(), runtime(id))
            .expect("put succeeds");
    }

    let jobs = store.list_jobs().expect("list succeeds");
    assert_eq!(jobs.len(), 2);
    let ids = jobs
        .into_iter()
        .map(|j| j.runtime.job_id)
        .collect::<Vec<_>>();
    assert!(ids.contains(&id1));
    assert!(ids.contains(&id2));
}

#[test]
fn update_at_an_instant_keeps_spec_and_other_jobs() {
    let mut store = InMemoryStateStore::default();
    store.put_job(sample_spec(), runtime(1)).expect("put");
    store.put_job(sample_spec(), runtime(2)).expect("put");
    let other = store.get_job(2).expect("other job");

    let mut moved = runtime(1);
    moved.state = JobState::Paused;
    let instant = Timestamp { secs: 5, nanos: 6 };
    store.update_runtime_at(moved, instant).expect("update");

    moved.updated_at = instant;
    assert_eq!(
        store.get_job(1),
        Ok(StoredJob {
            spec: sample_spec(),
            runtime: moved,
        })
    );
    assert_eq!(store.get_job(2), Ok(other));
}

#[test]
fn updates_take_the_present_as_their_time() {
    let mut store = InMemoryStateStore::default();
    let mut old = runtime(3);
    old.updated_at = Timestamp { secs: 0, nanos: 0 };
    store.put_job(sample_spec(), old).expect("put");
    let before = present();
    store.update_runtime(old).expect("update");
    let at = store.get_job(3).expect("job").runtime.updated_at;
    assert!(before <= at && at <= present());
    assert!(at.nanos < 1_000_000_000);
}

#[test]
fn snapshots_in_memory_are_the_jobs() {
    let mut store = InMemoryStateStore::default();
    for id in [u128::MAX, 7, 1 << 100, 0] {
        store.put_job(sample_spec(), runtime(id)).expect("put");
    }
    assert_eq!(
        store.list_snapshots(),
        Ok(vec![0, 7, 1 << 100, u128::MAX])
    );
    assert_eq!(store.snapshot_job(7), Ok(()));
    assert_eq!(store.snapshot_job(8), Err(StoreError::NotFound(8)));
    assert_eq!(store.load_snapshot(7), store.get_job(7));
    assert_eq!(store.load_snapshot(8), Err(StoreError::NotFound(8)));
}

#[test]
fn store_errors_have_their_texts() {
    let id = 0x0123_4567_89ab_cdef_0123_4567_89ab_cdef_u128;
    assert_eq!(
        StoreError::NotFound(id).message(),
        "job 01234567-89ab-cdef-0123-456789abcdef not found"
    );
    let cause = "disk full".to_string();
    assert_eq!(StoreError::Io(cause.clone()).message(), "io error: disk full");
    assert_eq!(
        StoreError::Serialization(cause.clone()).message(),
        "serialization error: disk full"
    );
    assert_eq!(
        StoreError::InvalidSnapshotName(cause).message(),
        "invalid snapshot filename: disk full"
    );
}
