use chrono::Utc;
use miles_control::api::{
    DatasetConfig, EvalConfig, FaultToleranceConfig, JobMode, JobRuntime, JobSpec, JobState,
    LoopPhase, ResourcePlan, RolloutConfig, RolloutCursor, SaveConfig, TrainBackend, TrainConfig,
};
use miles_control::clock::Timestamp;
use miles_control::orchestrator::{
    command_context, should_run_periodic_action, transition, TransitionRecord,
};
use miles_control::state_store::{InMemoryStateStore, StateStore, StoreError};
use uuid::Uuid;

fn sample_spec() -> JobSpec {
    JobSpec {
        job_name: "test-job".to_string(),
        mode: JobMode::Sync,
        backend: TrainBackend::Fsdp,
        resource_plan: ResourcePlan {
            actor_num_nodes: 1,
            actor_num_gpus_per_node: 1,
            critic_num_nodes: None,
            critic_num_gpus_per_node: None,
            rollout_num_gpus: 1,
            rollout_num_gpus_per_engine: 1,
            num_gpus_per_node: 8,
            colocate: false,
        },
        dataset_config: DatasetConfig {
            prompt_data: "/tmp/p.jsonl".to_string(),
            input_key: "prompt".to_string(),
            label_key: "label".to_string(),
        },
        rollout_config: RolloutConfig {
            batch_size: 2,
            n_samples_per_prompt: 2,
            max_response_len: Some(256),
        },
        train_config: TrainConfig {
            global_batch_size: 4,
            num_rollout: 3,
            update_weights_interval: 1,
        },
        eval_config: EvalConfig {
            eval_interval: Some(2),
        },
        save_config: SaveConfig {
            save_interval: Some(2),
            output_dir: Some("/tmp/out".to_string()),
        },
        fault_tolerance_config: FaultToleranceConfig {
            enabled: true,
            max_retries: 2,
            retry_backoff_ms: 100,
        },
    }
}

fn present() -> Timestamp {
    let instant = Utc::now();
    Timestamp {
        secs: instant.timestamp(),
        nanos: instant.timestamp_subsec_nanos(),
    }
}

#[test]
fn periodic_action_boundary_matrix() {
    assert!(!should_run_periodic_action(0, None));
    assert!(!should_run_periodic_action(0, Some(0)));
    assert!(should_run_periodic_action(0, Some(1)));
    assert!(!should_run_periodic_action(0, Some(3)));
    assert!(should_run_periodic_action(2, Some(3)));
}

#[test]
fn command_context_has_defaults_and_non_nil_ids() {
    let job_id = Uuid::new_v4().as_u128();
    let ctx = command_context(job_id, 42);
    assert_eq!(ctx.job_id, job_id);
    assert_eq!(ctx.attempt_id, 1);
    assert_eq!(ctx.deadline_ms, 30_042);
    assert_ne!(ctx.request_id, Uuid::nil().as_u128());
}

#[test]
fn request_ids_are_random_uuids() {
    let first = command_context(1, 0).request_id;
    let second = command_context(1, 0).request_id;
    assert_ne!(first, second);
    for id in [first, second] {
        assert_eq!(Uuid::from_u128(id).get_version_num(), 4);
        assert_eq!((id / 0x1000_0000_0000_0000_0000) % 16, 4);
        assert_eq!((id / 0x4000_0000_0000_0000) % 4, 2);
    }
}

#[test]
fn transition_updates_runtime_and_persists_state() {
    let mut store = InMemoryStateStore::default();
    let spec = sample_spec();
    let mut runtime = JobRuntime {
        job_id: Uuid::new_v4().as_u128(),
        state: JobState::Created,
        phase: LoopPhase::Init,
        cursor: RolloutCursor {
            current_rollout_id: 0,
            total_rollouts: 3,
        },
        fence_token: 10,
        updated_at: present(),
    };
    let old_ts = runtime.updated_at;
    store.put_job(spec, runtime.clone()).expect("insert runtime");

    let record = transition(
        &mut store,
        &mut runtime,
        JobState::Running,
        LoopPhase::Generate,
        "go",
    )
    .expect("transition");

    assert_eq!(runtime.state, JobState::Running);
    assert_eq!(runtime.phase, LoopPhase::Generate);
    assert_eq!(runtime.fence_token, 11);
    assert!(runtime.updated_at >= old_ts);

    let stored = store.get_job(runtime.job_id).expect("stored runtime");
    assert_eq!(stored.runtime.state, JobState::Running);
    assert_eq!(stored.runtime.phase, LoopPhase::Generate);
    assert_eq!(stored.runtime.fence_token, 11);

    assert_eq!(
        record,
        TransitionRecord {
            job_id: runtime.job_id,
            state: JobState::Running,
            phase: LoopPhase::Generate,
            rollout_id: 0,
            fence: 11,
            message: "go".to_string(),
        }
    );
}

#[test]
fn transition_of_unknown_job_moves_the_runtime_alone() {
    let mut store = InMemoryStateStore::default();
    let mut runtime = JobRuntime::created(77, &sample_spec(), present());
    let err = transition(
        &mut store,
        &mut runtime,
        JobState::Starting,
        LoopPhase::Init,
        "job starting",
    )
    .expect_err("unknown job");
    assert_eq!(err, StoreError::NotFound(77));
    assert_eq!(runtime.state, JobState::Starting);
    assert_eq!(runtime.fence_token, 1);
    assert_eq!(store.list_jobs(), Ok(Vec::new()));
}

#[test]
fn moves_take_a_new_fence_token() {
    let mut runtime = JobRuntime::created(5, &sample_spec(), Timestamp { secs: 1, nanos: 1 });
    let instant = Timestamp { secs: 2, nanos: 0 };
    runtime.move_to(JobState::Running, LoopPhase::Train, instant);
    assert_eq!(runtime.fence_token, 1);
    assert_eq!(runtime.updated_at, instant);
    assert_eq!(runtime.cursor.total_rollouts, 3);
}

#[test]
fn periodic_actions_are_due_once_per_interval() {
    for interval in [1_u32, 2, 3, 7, 10] {
        let due = (0..100)
            .filter(|rollout| should_run_periodic_action(*rollout, Some(interval)))
            .count();
        assert_eq!(due as u32, 100 / interval);
    }
    assert!(should_run_periodic_action(u32::MAX - 1, Some(u32::MAX)));
    assert!(!should_run_periodic_action(u32::MAX, Some(0)));
    assert!(!should_run_periodic_action(u32::MAX, None));
}
