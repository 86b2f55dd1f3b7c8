use miles_control::api::{
    DatasetConfig, EvalConfig, FaultToleranceConfig, JobMode, JobRuntime, JobSpec, JobState,
    LoopPhase, ResourcePlan, RolloutConfig, SaveConfig, TrainBackend, TrainConfig, ValidationError,
};
use miles_control::clock::Timestamp;
use miles_control::ids::JobId;
use miles_control::run::{run_job, run_job_with, RunError};
use miles_control::state_store::{InMemoryStateStore, StateStore, StoreError, StoredJob};
use miles_control::worker_client::{
    CommandContext, CommandResult, CommandStatus, MockWorkerClient, WorkerClient, WorkerError,
};

fn sample_spec() -> JobSpec {
    JobSpec {
        job_name: "test-job".to_string(),
        mode: JobMode::Sync,
        backend: TrainBackend::Fsdp,
        resource_plan: ResourcePlan {
            actor_num_nodes: 1,
            actor_num_gpus_per_node: 1,
            critic_num_nodes: None,
            critic_num_gpus_per_node: None,
            rollout_num_gpus: 1,
            rollout_num_gpus_per_engine: 1,
            num_gpus_per_node: 8,
            colocate: false,
        },
        dataset_config: DatasetConfig {
            prompt_data: "/tmp/p.jsonl".to_string(),
            input_key: "prompt".to_string(),
            label_key: "label".to_string(),
        },
        rollout_config: RolloutConfig {
            batch_size: 2,
            n_samples_per_prompt: 2,
            max_response_len: Some(256),
        },
        train_config: TrainConfig {
            global_batch_size: 4,
            num_rollout: 3,
            update_weights_interval: 1,
        },
        eval_config: EvalConfig {
            eval_interval: Some(2),
        },
        save_config: SaveConfig {
            save_interval: Some(2),
            output_dir: Some("/tmp/out".to_string()),
        },
        fault_tolerance_config: FaultToleranceConfig {
            enabled: true,
            max_retries: 2,
            retry_backoff_ms: 100,
        },
    }
}

const START: Timestamp = Timestamp { secs: 1, nanos: 0 };

/// Answers until a number of commands was sent, and keeps what was sent.
struct Worker {
    patience: usize,
    sent: Vec<(&'static str, CommandContext)>,
}

impl Worker {
    fn answer(
        &mut self,
        name: &'static str,
        ctx: CommandContext,
    ) -> Result<CommandResult, WorkerError> {
        self.sent.push((name, ctx));
        if self.sent.len() > self.patience {
            return Err(WorkerError {
                message: "gone".to_string(),
            });
        }
        Ok(CommandResult {
            status: CommandStatus::Succeeded,
            message: String::new(),
            timestamp: START,
        })
    }
}

impl WorkerClient for Worker {
    fn init(&mut self, ctx: CommandContext) -> Result<CommandResult, WorkerError> {
        self.answer("init", ctx)
    }
    fn generate(&mut self, ctx: CommandContext) -> Result<CommandResult, WorkerError> {
        self.answer("generate", ctx)
    }
    fn train_step(&mut self, ctx: CommandContext) -> Result<CommandResult, WorkerError> {
        self.answer("train", ctx)
    }
    fn update_weights(&mut self, ctx: CommandContext) -> Result<CommandResult, WorkerError> {
        self.answer("update", ctx)
    }
    fn eval(&mut self, ctx: CommandContext) -> Result<CommandResult, WorkerError> {
        self.answer("eval", ctx)
    }
    fn save_checkpoint(&mut self, ctx: CommandContext) -> Result<CommandResult, WorkerError> {
        self.answer("save", ctx)
    }
    fn health(&mut self) -> Result<CommandResult, WorkerError> {
        Err(WorkerError {
            message: "gone".to_string(),
        })
    }
}

/// A store in memory that takes a number of updates and fails then.
struct Flaky {
    inner: InMemoryStateStore,
    updates_left: usize,
}

impl StateStore for Flaky {
    fn put_job(&mut self, spec: JobSpec, runtime: JobRuntime) -> Result<(), StoreError> {
        self.inner.put_job(spec, runtime)
    }
    fn get_job(&mut self, job_id: JobId) -> Result<StoredJob, StoreError> {
        self.inner.get_job(job_id)
    }
    fn update_runtime(&mut self, runtime: JobRuntime) -> Result<(), StoreError> {
        if self.updates_left == 0 {
            return Err(StoreError::Io("full".to_string()));
        }
        self.updates_left -= 1;
        self.inner.update_runtime(runtime)
    }
    fn list_jobs(&mut self) -> Result<Vec<StoredJob>, StoreError> {
        self.inner.list_jobs()
    }
    fn snapshot_job(&mut self, job_id: JobId) -> Result<(), StoreError> {
        self.inner.snapshot_job(job_id)
    }
    fn load_snapshot(&mut self, job_id: JobId) -> Result<StoredJob, StoreError> {
        self.inner.load_snapshot(job_id)
    }
    fn list_snapshots(&mut self) -> Result<Vec<JobId>, StoreError> {
        self.inner.list_snapshots()
    }
}

fn expected_messages() -> Vec<&'static str> {
    vec![
        "job starting",
        "initial weight update",
        "generate",
        "train",
        "update weights",
        "generate",
        "train",
        "update weights",
        "eval",
        "save",
        "generate",
        "train",
        "update weights",
        "cleanup",
        "job stopped",
    ]
}

#[test]
fn run_makes_the_steps_of_every_rollout() {
    let report = run_job(&sample_spec()).expect("run");
    let messages: Vec<&str> = report.log.iter().map(|r| r.message.as_str()).collect();
    assert_eq!(messages, expected_messages());
    let fences: Vec<u64> = report.log.iter().map(|r| r.fence).collect();
    assert_eq!(fences, (1..=15).collect::<Vec<u64>>());
    let rollouts: Vec<u32> = report.log.iter().map(|r| r.rollout_id).collect();
    assert_eq!(rollouts, vec![0, 0, 0, 0, 0, 1, 1, 1, 1, 1, 2, 2, 2, 2, 2]);
    assert_eq!(report.log[0].state, JobState::Starting);
    assert_eq!(report.log[0].phase, LoopPhase::Init);
    assert_eq!(report.log[1].phase, LoopPhase::UpdateWeights);
    assert_eq!(report.log[8].phase, LoopPhase::Eval);
    assert_eq!(report.log[9].phase, LoopPhase::Save);
    assert!(report.log[1..13]
        .iter()
        .all(|r| r.state == JobState::Running));
    assert_eq!(report.log[13].state, JobState::Stopping);
    assert_eq!(report.runtime.state, JobState::Stopped);
    assert_eq!(report.runtime.phase, LoopPhase::Cleanup);
    assert_eq!(report.runtime.fence_token, 15);
    assert_eq!(report.runtime.cursor.current_rollout_id, 2);
    assert_eq!(report.runtime.cursor.total_rollouts, 3);
    assert_ne!(report.runtime.job_id, 0);
    assert!(report.log.iter().all(|r| r.job_id == report.runtime.job_id));
}

#[test]
fn run_sends_each_command_with_its_deadline() {
    let mut store = InMemoryStateStore::default();
    let mut worker = Worker {
        patience: usize::MAX,
        sent: Vec::new(),
    };
    let mut log = Vec::new();
    let runtime = run_job_with(
        &mut store,
        &mut worker,
        &sample_spec(),
        44,
        START,
        &mut log,
    )
    .expect("run");
    let names: Vec<&str> = worker.sent.iter().map(|(name, _)| *name).collect();
    assert_eq!(
        names,
        vec![
            "init", "update", "generate", "train", "update", "generate", "train", "update",
            "eval", "save", "generate", "train", "update",
        ]
    );
    for (i, (_, ctx)) in worker.sent.iter().enumerate() {
        assert_eq!(ctx.job_id, 44);
        assert_eq!(ctx.attempt_id, 1);
        assert_eq!(ctx.deadline_ms, 30_001 + i as u64);
        assert_ne!(ctx.request_id, 0);
    }
    let stored = store.get_job(44).expect("stored");
    assert_eq!(stored.spec, sample_spec());
    assert_eq!(stored.runtime.state, runtime.state);
    assert_eq!(stored.runtime.fence_token, 15);
}

#[test]
fn failing_worker_ends_the_run_with_its_step() {
    let contexts = [
        "worker init failed",
        "initial update_weights failed",
        "generate failed",
        "train step failed",
        "update_weights failed",
        "generate failed",
        "train step failed",
        "update_weights failed",
        "eval failed",
        "save checkpoint failed",
        "generate failed",
        "train step failed",
        "update_weights failed",
    ];
    for (patience, expected) in contexts.into_iter().enumerate() {
        let mut store = InMemoryStateStore::default();
        let mut worker = Worker {
            patience,
            sent: Vec::new(),
        };
        let mut log = Vec::new();
        let error = run_job_with(
            &mut store,
            &mut worker,
            &sample_spec(),
            44,
            START,
            &mut log,
        )
        .expect_err("worker fails");
        assert_eq!(error.message(), expected);
        assert_eq!(
            error,
            RunError::Worker {
                context: expected,
                error: WorkerError {
                    message: "gone".to_string(),
                },
            }
        );
        assert_eq!(worker.sent.len(), patience + 1);
        let messages: Vec<&str> = log.iter().map(|r| r.message.as_str()).collect();
        assert_eq!(messages, expected_messages()[..patience + 1]);
        let stored = store.get_job(44).expect("stored");
        assert_eq!(stored.runtime.fence_token, patience as u64 + 1);
    }
}

#[test]
fn invalid_job_is_not_run() {
    let mut spec = sample_spec();
    spec.train_config.num_rollout = 0;
    let error = run_job(&spec).expect_err("invalid");
    assert_eq!(
        error,
        RunError::Invalid(ValidationError::InvalidTrainConfig)
    );
    assert_eq!(error.message(), "jobspec validation failed");

    let mut store = InMemoryStateStore::default();
    let mut client = MockWorkerClient::default();
    let mut log = Vec::new();
    let result = run_job_with(&mut store, &mut client, &spec, 1, START, &mut log);
    assert!(result.is_err());
    assert!(log.is_empty());
    assert_eq!(store.list_jobs(), Ok(Vec::new()));
}

#[test]
fn failing_store_ends_the_run_before_the_command() {
    for updates_left in 0..15 {
        let mut store = Flaky {
            inner: InMemoryStateStore::default(),
            updates_left,
        };
        let mut worker = Worker {
            patience: usize::MAX,
            sent: Vec::new(),
        };
        let mut log = Vec::new();
        let error = run_job_with(
            &mut store,
            &mut worker,
            &sample_spec(),
            44,
            START,
            &mut log,
        )
        .expect_err("store fails");
        assert_eq!(error, RunError::Store(StoreError::Io("full".to_string())));
        assert_eq!(error.message(), "io error: full");
        assert_eq!(log.len(), updates_left);
        assert_eq!(worker.sent.len(), updates_left.min(13));
    }
}

#[test]
fn length_of_a_run_follows_from_its_intervals() {
    for (rollouts, eval, save) in [
        (1_u32, None, None),
        (7, Some(1), Some(0)),
        (12, Some(5), Some(4)),
        (20, Some(30), Some(7)),
    ] {
        let mut spec = sample_spec();
        spec.train_config.num_rollout = rollouts;
        spec.eval_config.eval_interval = eval;
        spec.save_config.save_interval = save;
        let due = |interval: Option<u32>| match interval {
            Some(i) if i > 0 => rollouts / i,
            _ => 0,
        };
        let report = run_job(&spec).expect("run");
        let expected = 4 + 3 * rollouts + due(eval) + due(save);
        assert_eq!(report.log.len() as u32, expected);
        assert_eq!(report.runtime.fence_token, u64::from(expected));
    }
}
