use miles_control::api::{
    DatasetConfig, EvalConfig, FaultToleranceConfig, JobMode, JobSpec, ResourcePlan,
    RolloutConfig, SaveConfig, TrainBackend, TrainConfig, ValidationError,
};
use miles_control::scheduler::{
    build_placement_plan, place_job, placement_fits, PlacementError, SchedulerError,
};

fn base_plan() -> ResourcePlan {
    ResourcePlan {
        actor_num_nodes: 1,
        actor_num_gpus_per_node: 2,
        critic_num_nodes: Some(1),
        critic_num_gpus_per_node: Some(1),
        rollout_num_gpus: 2,
        rollout_num_gpus_per_engine: 1,
        num_gpus_per_node: 8,
        colocate: false,
    }
}

fn spec_with(resource_plan: ResourcePlan) -> JobSpec {
    JobSpec {
        job_name: "placed".to_string(),
        mode: JobMode::Async,
        backend: TrainBackend::Megatron,
        resource_plan,
        dataset_config: DatasetConfig {
            prompt_data: "x".to_string(),
            input_key: "prompt".to_string(),
            label_key: "label".to_string(),
        },
        rollout_config: RolloutConfig {
            batch_size: 1,
            n_samples_per_prompt: 1,
            max_response_len: None,
        },
        train_config: TrainConfig {
            global_batch_size: 1,
            num_rollout: 1,
            update_weights_interval: 1,
        },
        eval_config: EvalConfig {
            eval_interval: None,
        },
        save_config: SaveConfig {
            save_interval: None,
            output_dir: None,
        },
        fault_tolerance_config: FaultToleranceConfig {
            enabled: false,
            max_retries: 0,
            retry_backoff_ms: 0,
        },
    }
}

#[test]
fn disaggregated_splits_actor_critic_rollout() {
    let plan = base_plan();
    let p = build_placement_plan(&plan, true).expect("placement should build");
    assert_eq!(p.total_gpus, 5);
    assert_eq!(p.actor_gpu_indices, vec![0, 1]);
    assert_eq!(p.critic_gpu_indices, vec![2]);
    assert_eq!(p.rollout_gpu_indices, vec![3, 4]);
}

#[test]
fn colocate_reuses_actor_gpus_for_rollout() {
    let mut plan = base_plan();
    plan.colocate = true;
    plan.rollout_num_gpus = 2;
    let p = build_placement_plan(&plan, false).expect("placement should build");
    assert_eq!(p.total_gpus, 2);
    assert_eq!(p.actor_gpu_indices, vec![0, 1]);
    assert_eq!(p.rollout_gpu_indices, vec![0, 1]);
}

#[test]
fn no_critic_produces_empty_critic_indices() {
    let plan = base_plan();
    let p = build_placement_plan(&plan, false).expect("placement should build");
    assert_eq!(p.critic_gpu_indices, Vec::<u32>::new());
    assert_eq!(p.total_gpus, 4);
    assert_eq!(p.rollout_gpu_indices, vec![2, 3]);
}

#[test]
fn colocate_with_critic_keeps_rollout_on_actor_indices() {
    let mut plan = base_plan();
    plan.colocate = true;
    plan.rollout_num_gpus = 2;
    let p = build_placement_plan(&plan, true).expect("placement should build");
    assert_eq!(p.total_gpus, 3);
    assert_eq!(p.actor_gpu_indices, vec![0, 1]);
    assert_eq!(p.critic_gpu_indices, vec![2]);
    assert_eq!(p.rollout_gpu_indices, vec![0, 1]);
}

#[test]
fn invalid_plan_rejects_zero_resource_fields() {
    for update in [
        ("actor_num_nodes", 0_u32, 2_u32, 1_u32, 8_u32),
        ("actor_num_gpus_per_node", 1_u32, 0_u32, 1_u32, 8_u32),
        ("rollout_num_gpus_per_engine", 1_u32, 2_u32, 0_u32, 8_u32),
        ("num_gpus_per_node", 1_u32, 2_u32, 1_u32, 0_u32),
    ] {
        let mut plan = base_plan();
        plan.actor_num_nodes = update.1;
        plan.actor_num_gpus_per_node = update.2;
        plan.rollout_num_gpus_per_engine = update.3;
        plan.num_gpus_per_node = update.4;
        let err = build_placement_plan(&plan, false).expect_err("plan should be invalid");
        assert_eq!(err, SchedulerError::InvalidPlan, "case {}", update.0);
    }
}

#[test]
fn deterministic_index_invariants_hold_for_multiple_shapes() {
    let cases = vec![
        ResourcePlan {
            actor_num_nodes: 1,
            actor_num_gpus_per_node: 1,
            critic_num_nodes: None,
            critic_num_gpus_per_node: None,
            rollout_num_gpus: 1,
            rollout_num_gpus_per_engine: 1,
            num_gpus_per_node: 8,
            colocate: false,
        },
        ResourcePlan {
            actor_num_nodes: 2,
            actor_num_gpus_per_node: 2,
            critic_num_nodes: Some(1),
            critic_num_gpus_per_node: Some(2),
            rollout_num_gpus: 4,
            rollout_num_gpus_per_engine: 2,
            num_gpus_per_node: 8,
            colocate: false,
        },
    ];

    for plan in cases {
        let placement = build_placement_plan(&plan, plan.critic_num_nodes.is_some())
            .expect("valid placement");
        assert_eq!(
            placement.actor_gpu_indices,
            (0..(plan.actor_num_nodes * plan.actor_num_gpus_per_node)).collect::<Vec<_>>()
        );
        if !plan.colocate {
            if let (Some(critic_nodes), Some(critic_gpus)) =
                (plan.critic_num_nodes, plan.critic_num_gpus_per_node)
            {
                let expected_start = plan.actor_num_nodes * plan.actor_num_gpus_per_node;
                let expected_len = critic_nodes * critic_gpus;
                assert_eq!(placement.critic_gpu_indices.len() as u32, expected_len);
                if expected_len > 0 {
                    assert_eq!(placement.critic_gpu_indices[0], expected_start);
                }
            }
            assert_eq!(
                placement.rollout_gpu_indices.len() as u32,
                plan.rollout_num_gpus
            );
        }
    }
}

#[test]
fn half_given_critic_gets_nothing() {
    let mut plan = base_plan();
    plan.critic_num_gpus_per_node = None;
    let p = build_placement_plan(&plan, true).expect("placement should build");
    assert_eq!(p.total_gpus, 4);
    assert_eq!(p.critic_gpu_indices, Vec::<u32>::new());
    assert_eq!(p.rollout_gpu_indices, vec![2, 3]);
}

#[test]
fn separate_placement_gives_out_each_gpu_once() {
    let mut plan = base_plan();
    plan.actor_num_nodes = 3;
    plan.critic_num_nodes = Some(2);
    plan.critic_num_gpus_per_node = Some(2);
    plan.rollout_num_gpus = 5;
    let p = build_placement_plan(&plan, true).expect("placement should build");
    assert_eq!(p.total_gpus, 15);
    let mut all = p.actor_gpu_indices.clone();
    all.extend(&p.critic_gpu_indices);
    all.extend(&p.rollout_gpu_indices);
    assert_eq!(all, (0..15).collect::<Vec<u32>>());
    assert_eq!(p.clone(), p);
}

#[test]
fn placement_is_the_same_every_time() {
    let mut plan = base_plan();
    for colocate in [false, true] {
        plan.colocate = colocate;
        for use_critic in [false, true] {
            assert_eq!(
                build_placement_plan(&plan, use_critic),
                build_placement_plan(&plan, use_critic)
            );
        }
    }
}

#[test]
fn placement_fits_up_to_the_largest_count() {
    let mut plan = base_plan();
    plan.actor_num_nodes = 65_535;
    plan.actor_num_gpus_per_node = 65_537;
    plan.rollout_num_gpus = 0;
    assert!(placement_fits(&plan, false));
    assert!(!placement_fits(&plan, true));
    plan.rollout_num_gpus = 1;
    assert!(!placement_fits(&plan, false));
    plan.colocate = true;
    assert!(placement_fits(&plan, false));
    plan.actor_num_nodes = u32::MAX;
    plan.actor_num_gpus_per_node = u32::MAX;
    assert!(!placement_fits(&plan, false));
}

#[test]
fn scheduler_errors_have_their_texts() {
    assert_eq!(
        SchedulerError::InvalidPlan.message(),
        "resource plan values must be positive"
    );
    assert_eq!(
        SchedulerError::RolloutOutOfRange.message(),
        "rollout gpus exceed total allocated gpus"
    );
    assert_eq!(
        SchedulerError::CriticOutOfRange.message(),
        "critic gpus exceed total allocated gpus"
    );
}

#[test]
fn jobs_are_validated_before_they_are_placed() {
    let placed = place_job(&spec_with(base_plan()), true).expect("placed");
    assert_eq!(placed.total_gpus, 5);
    assert_eq!(placed.rollout_gpu_indices, vec![3, 4]);

    let mut plan = base_plan();
    plan.num_gpus_per_node = 0;
    let unplaceable = place_job(&spec_with(plan), true).expect_err("no GPUs per node");
    assert_eq!(
        unplaceable,
        PlacementError::Unplaceable(SchedulerError::InvalidPlan)
    );
    assert_eq!(unplaceable.message(), "resource plan values must be positive");

    plan.rollout_num_gpus = 0;
    let invalid = place_job(&spec_with(plan), true).expect_err("no rollout GPUs");
    assert_eq!(
        invalid,
        PlacementError::Invalid(ValidationError::InvalidRolloutResources)
    );
    assert_eq!(invalid.message(), "jobspec validation failed");
}
