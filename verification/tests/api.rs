use miles_control::api::{
    DatasetConfig, EvalConfig, FaultToleranceConfig, JobMode, JobRuntime, JobSpec, JobState,
    LoopPhase, ResourcePlan, RolloutConfig, RolloutCursor, SaveConfig, TrainBackend, TrainConfig,
    ValidationError,
};
use miles_control::clock::Timestamp;
use miles_control::text::blank;

fn valid_spec() -> JobSpec {
    JobSpec {
        job_name: "smoke".to_string(),
        mode: JobMode::Sync,
        backend: TrainBackend::Fsdp,
        resource_plan: ResourcePlan {
            actor_num_nodes: 1,
            actor_num_gpus_per_node: 2,
            critic_num_nodes: None,
            critic_num_gpus_per_node: None,
            rollout_num_gpus: 2,
            rollout_num_gpus_per_engine: 1,
            num_gpus_per_node: 8,
            colocate: false,
        },
        dataset_config: DatasetConfig {
            prompt_data: "/tmp/prompts.jsonl".to_string(),
            input_key: "prompt".to_string(),
            label_key: "label".to_string(),
        },
        rollout_config: RolloutConfig {
            batch_size: 16,
            n_samples_per_prompt: 8,
            max_response_len: Some(2048),
        },
        train_config: TrainConfig {
            global_batch_size: 128,
            num_rollout: 100,
            update_weights_interval: 1,
        },
        eval_config: EvalConfig {
            eval_interval: Some(10),
        },
        save_config: SaveConfig {
            save_interval: Some(20),
            output_dir: Some("/tmp/out".to_string()),
        },
        fault_tolerance_config: FaultToleranceConfig {
            enabled: true,
            max_retries: 3,
            retry_backoff_ms: 250,
        },
    }
}

#[test]
fn valid_spec_passes() {
    let spec = valid_spec();
    assert_eq!(spec.validate(), Ok(()));
}

#[test]
fn empty_job_name_fails() {
    let mut spec = valid_spec();
    spec.job_name = "   ".to_string();
    assert_eq!(spec.validate(), Err(ValidationError::EmptyJobName));
}

#[test]
fn zero_actor_resources_fail() {
    let mut spec = valid_spec();
    spec.resource_plan.actor_num_nodes = 0;
    assert_eq!(spec.validate(), Err(ValidationError::InvalidActorResources));
}

#[test]
fn zero_rollout_resources_fail() {
    let mut spec = valid_spec();
    spec.resource_plan.rollout_num_gpus_per_engine = 0;
    assert_eq!(
        spec.validate(),
        Err(ValidationError::InvalidRolloutResources)
    );
}

#[test]
fn invalid_rollout_partition_fails() {
    let mut spec = valid_spec();
    spec.resource_plan.rollout_num_gpus = 3;
    spec.resource_plan.rollout_num_gpus_per_engine = 2;
    assert_eq!(
        spec.validate(),
        Err(ValidationError::InvalidRolloutPartition)
    );
}

#[test]
fn invalid_rollout_config_fails() {
    let mut spec = valid_spec();
    spec.rollout_config.n_samples_per_prompt = 0;
    assert_eq!(spec.validate(), Err(ValidationError::InvalidRolloutConfig));
}

#[test]
fn invalid_train_config_fails() {
    let mut spec = valid_spec();
    spec.train_config.update_weights_interval = 0;
    assert_eq!(spec.validate(), Err(ValidationError::InvalidTrainConfig));
}

#[test]
fn empty_prompt_data_fails() {
    let mut spec = valid_spec();
    spec.dataset_config.prompt_data = " ".to_string();
    assert_eq!(spec.validate(), Err(ValidationError::EmptyPromptData));
}

#[test]
fn colocate_requires_matching_rollout_gpu_count() {
    let mut spec = valid_spec();
    spec.resource_plan.colocate = true;
    spec.resource_plan.rollout_num_gpus = 1;
    assert_eq!(
        spec.validate(),
        Err(ValidationError::ColocateRolloutMismatch)
    );
}

#[test]
fn colocate_with_matching_rollout_gpu_count_passes() {
    let mut spec = valid_spec();
    spec.resource_plan.colocate = true;
    spec.resource_plan.rollout_num_gpus =
        spec.resource_plan.actor_num_nodes * spec.resource_plan.actor_num_gpus_per_node;
    assert_eq!(spec.validate(), Ok(()));
}

#[test]
fn colocate_product_beyond_32_bits_is_a_mismatch() {
    let mut spec = valid_spec();
    spec.resource_plan.colocate = true;
    spec.resource_plan.actor_num_nodes = 65_537;
    spec.resource_plan.actor_num_gpus_per_node = 65_536;
    spec.resource_plan.rollout_num_gpus = 65_536;
    assert_eq!(
        spec.validate(),
        Err(ValidationError::ColocateRolloutMismatch)
    );
    spec.resource_plan.colocate = false;
    assert_eq!(spec.validate(), Ok(()));
}

#[test]
fn first_broken_rule_is_reported() {
    let mut spec = valid_spec();
    spec.resource_plan.colocate = true;
    spec.resource_plan.rollout_num_gpus = 4;
    assert_eq!(
        spec.validate(),
        Err(ValidationError::ColocateRolloutMismatch)
    );
    spec.dataset_config.prompt_data = String::new();
    assert_eq!(spec.validate(), Err(ValidationError::EmptyPromptData));
    spec.train_config.num_rollout = 0;
    assert_eq!(spec.validate(), Err(ValidationError::InvalidTrainConfig));
    spec.rollout_config.batch_size = 0;
    assert_eq!(spec.validate(), Err(ValidationError::InvalidRolloutConfig));
    spec.resource_plan.rollout_num_gpus_per_engine = 3;
    assert_eq!(
        spec.validate(),
        Err(ValidationError::InvalidRolloutPartition)
    );
    spec.resource_plan.rollout_num_gpus = 0;
    assert_eq!(
        spec.validate(),
        Err(ValidationError::InvalidRolloutResources)
    );
    spec.resource_plan.actor_num_gpus_per_node = 0;
    assert_eq!(spec.validate(), Err(ValidationError::InvalidActorResources));
    spec.job_name = "\u{3000}\t\n".to_string();
    assert_eq!(spec.validate(), Err(ValidationError::EmptyJobName));
}

#[test]
fn validation_errors_have_their_texts() {
    let texts = [
        (ValidationError::EmptyJobName, "job_name must not be empty"),
        (
            ValidationError::InvalidActorResources,
            "actor_num_nodes and actor_num_gpus_per_node must be > 0",
        ),
        (
            ValidationError::InvalidRolloutResources,
            "rollout_num_gpus and rollout_num_gpus_per_engine must be > 0",
        ),
        (
            ValidationError::InvalidRolloutPartition,
            "rollout_num_gpus must be divisible by rollout_num_gpus_per_engine",
        ),
        (
            ValidationError::InvalidTrainConfig,
            "global_batch_size, num_rollout, and update_weights_interval must be > 0",
        ),
        (
            ValidationError::InvalidRolloutConfig,
            "rollout batch_size and n_samples_per_prompt must be > 0",
        ),
        (ValidationError::EmptyPromptData, "prompt_data must not be empty"),
        (
            ValidationError::ColocateRolloutMismatch,
            "in colocate mode, rollout_num_gpus must equal actor_num_nodes * actor_num_gpus_per_node",
        ),
    ];
    for (error, text) in texts {
        assert_eq!(error.message(), text);
    }
}

#[test]
fn white_space_is_blank_and_nothing_else_is() {
    let white = |code: u32| {
        (0x09..=0x0d).contains(&code)
            || (0x2000..=0x200a).contains(&code)
            || [
                0x20, 0x85, 0xa0, 0x1680, 0x2028, 0x2029, 0x202f, 0x205f, 0x3000,
            ]
            .contains(&code)
    };
    for code in 0..=0x10_ffff_u32 {
        if let Some(c) = char::from_u32(code) {
            assert_eq!(blank(&c.to_string()), white(code), "code point {code:x}");
        }
    }
    assert!(blank(""));
    assert!(!blank("  x  "));
}

#[test]
fn clones_keep_every_field() {
    let spec = valid_spec();
    assert_eq!(spec.clone(), spec);
}

#[test]
fn created_runtime_has_done_nothing() {
    let instant = Timestamp { secs: 17, nanos: 4 };
    let runtime = JobRuntime::created(9, &valid_spec(), instant);
    assert_eq!(
        runtime,
        JobRuntime {
            job_id: 9,
            state: JobState::Created,
            phase: LoopPhase::Init,
            cursor: RolloutCursor {
                current_rollout_id: 0,
                total_rollouts: 100,
            },
            fence_token: 0,
            updated_at: instant,
        }
    );
}

#[test]
fn state_names_are_those_of_the_states() {
    for state in [
        JobState::Created,
        JobState::Starting,
        JobState::Running,
        JobState::Paused,
        JobState::Stopping,
        JobState::Stopped,
        JobState::Failed,
    ] {
        assert_eq!(state.name(), format!("{state:?}"));
    }
}
