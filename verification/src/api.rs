use crate::clock::Timestamp;
use crate::ids::JobId;
use crate::text;
use vstd::prelude::*;

verus! {

/// How rollout and training of a job interleave.
#[derive(Debug, Clone, Copy, PartialEq, Eq, Structural)]
pub enum JobMode {
    Sync,
    Async,
}

/// The training framework that a job runs on.
#[derive(Debug, Clone, Copy, PartialEq, Eq, Structural)]
pub enum TrainBackend {
    Fsdp,
    Megatron,
}

/// The GPUs that a job asks for.
#[derive(Debug, Clone, Copy, PartialEq, Eq, Structural)]
pub struct ResourcePlan {
    pub actor_num_nodes: u32,
    pub actor_num_gpus_per_node: u32,
    pub critic_num_nodes: Option<u32>,
    pub critic_num_gpus_per_node: Option<u32>,
    pub rollout_num_gpus: u32,
    pub rollout_num_gpus_per_engine: u32,
    pub num_gpus_per_node: u32,
    pub colocate: bool,
}

#[derive(Debug, PartialEq, Eq)]
pub struct DatasetConfig {
    pub prompt_data: String,
    pub input_key: String,
    pub label_key: String,
}

#[derive(Debug, Clone, Copy, PartialEq, Eq, Structural)]
pub struct RolloutConfig {
    pub batch_size: u32,
    pub n_samples_per_prompt: u32,
    pub max_response_len: Option<u32>,
}

#[derive(Debug, Clone, Copy, PartialEq, Eq, Structural)]
pub struct TrainConfig {
    pub global_batch_size: u32,
    pub num_rollout: u32,
    pub update_weights_interval: u32,
}

#[derive(Debug, Clone, Copy, PartialEq, Eq, Structural)]
pub struct EvalConfig {
    pub eval_interval: Option<u32>,
}

#[derive(Debug, PartialEq, Eq)]
pub struct SaveConfig {
    pub save_interval: Option<u32>,
    pub output_dir: Option<String>,
}

#[derive(Debug, Clone, Copy, PartialEq, Eq, Structural)]
pub struct FaultToleranceConfig {
    pub enabled: bool,
    pub max_retries: u32,
    pub retry_backoff_ms: u64,
}

/// What a training job is asked to do.
#[derive(Debug, PartialEq, Eq)]
pub struct JobSpec {
    pub job_name: String,
    pub mode: JobMode,
    pub backend: TrainBackend,
    pub resource_plan: ResourcePlan,
    pub dataset_config: DatasetConfig,
    pub rollout_config: RolloutConfig,
    pub train_config: TrainConfig,
    pub eval_config: EvalConfig,
    pub save_config: SaveConfig,
    pub fault_tolerance_config: FaultToleranceConfig,
}

impl Clone for DatasetConfig {
    fn clone(&self) -> (r: Self)
        ensures
            r == *self,
    {
        DatasetConfig {
            prompt_data: self.prompt_data.clone(),
            input_key: self.input_key.clone(),
            label_key: self.label_key.clone(),
        }
    }
}

impl Clone for SaveConfig {
    fn clone(&self) -> (r: Self)
        ensures
            r == *self,
    {
        SaveConfig {
            save_interval: self.save_interval,
            output_dir: match &self.output_dir {
                Some(dir) => Some(dir.clone()),
                None => None,
            },
        }
    }
}

impl Clone for JobSpec {
    fn clone(&self) -> (r: Self)
        ensures
            r == *self,
    {
        JobSpec {
            job_name: self.job_name.clone(),
            mode: self.mode,
            backend: self.backend,
            resource_plan: self.resource_plan,
            dataset_config: self.dataset_config.clone(),
            rollout_config: self.rollout_config,
            train_config: self.train_config,
            eval_config: self.eval_config,
            save_config: self.save_config.clone(),
            fault_tolerance_config: self.fault_tolerance_config,
        }
    }
}

/// Why a job specification is refused.
#[derive(Debug, Clone, Copy, PartialEq, Eq, Structural)]
pub enum ValidationError {
    EmptyJobName,
    InvalidActorResources,
    InvalidRolloutResources,
    InvalidRolloutPartition,
    InvalidTrainConfig,
    InvalidRolloutConfig,
    EmptyPromptData,
    ColocateRolloutMismatch,
}

impl ValidationError {
    /// The text shown for this error.
    pub open spec fn text(self) -> Seq<char> {
        match self {
            ValidationError::EmptyJobName => "job_name must not be empty"@,
            ValidationError::InvalidActorResources =>
                "actor_num_nodes and actor_num_gpus_per_node must be > 0"@,
            ValidationError::InvalidRolloutResources =>
                "rollout_num_gpus and rollout_num_gpus_per_engine must be > 0"@,
            ValidationError::InvalidRolloutPartition =>
                "rollout_num_gpus must be divisible by rollout_num_gpus_per_engine"@,
            ValidationError::InvalidTrainConfig =>
                "global_batch_size, num_rollout, and update_weights_interval must be > 0"@,
            ValidationError::InvalidRolloutConfig =>
                "rollout batch_size and n_samples_per_prompt must be > 0"@,
            ValidationError::EmptyPromptData => "prompt_data must not be empty"@,
            ValidationError::ColocateRolloutMismatch =>
                "in colocate mode, rollout_num_gpus must equal actor_num_nodes * actor_num_gpus_per_node"@,
        }
    }

    pub fn message(&self) -> (r: String)
        ensures
            r@ == self.text(),
    {
        let text: &str = match self {
            ValidationError::EmptyJobName => "job_name must not be empty",
            ValidationError::InvalidActorResources =>
                "actor_num_nodes and actor_num_gpus_per_node must be > 0",
            ValidationError::InvalidRolloutResources =>
                "rollout_num_gpus and rollout_num_gpus_per_engine must be > 0",
            ValidationError::InvalidRolloutPartition =>
                "rollout_num_gpus must be divisible by rollout_num_gpus_per_engine",
            ValidationError::InvalidTrainConfig =>
                "global_batch_size, num_rollout, and update_weights_interval must be > 0",
            ValidationError::InvalidRolloutConfig =>
                "rollout batch_size and n_samples_per_prompt must be > 0",
            ValidationError::EmptyPromptData => "prompt_data must not be empty",
            ValidationError::ColocateRolloutMismatch =>
                "in colocate mode, rollout_num_gpus must equal actor_num_nodes * actor_num_gpus_per_node",
        };
        text.to_string()
    }
}

impl ResourcePlan {
    /// The number of GPUs that the actor asks for.
    pub open spec fn actor_gpus(&self) -> nat {
        self.actor_num_nodes as nat * self.actor_num_gpus_per_node as nat
    }
}

impl JobSpec {
    /// Whether the specification breaks a rule.
    pub open spec fn breaks(&self, rule: ValidationError) -> bool {
        match rule {
            ValidationError::EmptyJobName => text::is_blank(self.job_name@),
            ValidationError::InvalidActorResources => self.resource_plan.actor_num_nodes == 0
                || self.resource_plan.actor_num_gpus_per_node == 0,
            ValidationError::InvalidRolloutResources => self.resource_plan.rollout_num_gpus == 0
                || self.resource_plan.rollout_num_gpus_per_engine == 0,
            ValidationError::InvalidRolloutPartition =>
                self.resource_plan.rollout_num_gpus_per_engine > 0
                && self.resource_plan.rollout_num_gpus
                    % self.resource_plan.rollout_num_gpus_per_engine != 0,
            ValidationError::InvalidRolloutConfig => self.rollout_config.batch_size == 0
                || self.rollout_config.n_samples_per_prompt == 0,
            ValidationError::InvalidTrainConfig => self.train_config.global_batch_size == 0
                || self.train_config.num_rollout == 0
                || self.train_config.update_weights_interval == 0,
            ValidationError::EmptyPromptData => text::is_blank(self.dataset_config.prompt_data@),
            ValidationError::ColocateRolloutMismatch => self.resource_plan.colocate
                && self.resource_plan.rollout_num_gpus as nat != self.resource_plan.actor_gpus(),
        }
    }

    /// A specification is valid when it breaks no rule.
    pub open spec fn valid(&self) -> bool {
        forall|rule: ValidationError| !self.breaks(rule)
    }

    /// Of the rules that the specification breaks, `rule` is the first.
    pub open spec fn breaks_first(&self, rule: ValidationError) -> bool {
        &&& self.breaks(rule)
        &&& forall|other: ValidationError| #[trigger]
            rule_rank(other) < rule_rank(rule) ==> !self.breaks(other)
    }

    /// Reports the first broken rule, in this order: job name, actor resources, rollout
    /// resources, rollout partition, rollout configuration, training configuration,
    /// prompt data, colocation.
    pub fn validate(&self) -> (r: Result<(), ValidationError>)
        ensures
            r is Ok <==> self.valid(),
            r matches Err(rule) ==> self.breaks_first(rule),
    {
        if text::blank(self.job_name.as_str()) {
            assert(self.breaks(ValidationError::EmptyJobName));
            return Err(ValidationError::EmptyJobName);
        }
        let plan = &self.resource_plan;
        if plan.actor_num_nodes == 0 || plan.actor_num_gpus_per_node == 0 {
            assert(self.breaks(ValidationError::InvalidActorResources));
            return Err(ValidationError::InvalidActorResources);
        }
        if plan.rollout_num_gpus == 0 || plan.rollout_num_gpus_per_engine == 0 {
            assert(self.breaks(ValidationError::InvalidRolloutResources));
            return Err(ValidationError::InvalidRolloutResources);
        }
        if plan.rollout_num_gpus % plan.rollout_num_gpus_per_engine != 0 {
            assert(self.breaks(ValidationError::InvalidRolloutPartition));
            return Err(ValidationError::InvalidRolloutPartition);
        }
        if self.rollout_config.batch_size == 0 || self.rollout_config.n_samples_per_prompt == 0 {
            assert(self.breaks(ValidationError::InvalidRolloutConfig));
            return Err(ValidationError::InvalidRolloutConfig);
        }
        if self.train_config.global_batch_size == 0 || self.train_config.num_rollout == 0
            || self.train_config.update_weights_interval == 0 {
            assert(self.breaks(ValidationError::InvalidTrainConfig));
            return Err(ValidationError::InvalidTrainConfig);
        }
        if text::blank(self.dataset_config.prompt_data.as_str()) {
            assert(self.breaks(ValidationError::EmptyPromptData));
            return Err(ValidationError::EmptyPromptData);
        }
        if plan.colocate {
            let matches: bool = match plan.actor_num_nodes.checked_mul(
                plan.actor_num_gpus_per_node,
            ) {
                Some(actor_gpus) => plan.rollout_num_gpus == actor_gpus,
                None => false,
            };
            if !matches {
                assert(self.breaks(ValidationError::ColocateRolloutMismatch));
                return Err(ValidationError::ColocateRolloutMismatch);
            }
        }
        Ok(())
    }
}

/// The place of a rule in the order in which validation reports broken rules.
pub open spec fn rule_rank(rule: ValidationError) -> int {
    match rule {
        ValidationError::EmptyJobName => 0,
        ValidationError::InvalidActorResources => 1,
        ValidationError::InvalidRolloutResources => 2,
        ValidationError::InvalidRolloutPartition => 3,
        ValidationError::InvalidRolloutConfig => 4,
        ValidationError::InvalidTrainConfig => 5,
        ValidationError::EmptyPromptData => 6,
        ValidationError::ColocateRolloutMismatch => 7,
    }
}

/// The lifecycle state of a job.
#[derive(Debug, Clone, Copy, PartialEq, Eq, Structural)]
pub enum JobState {
    Created,
    Starting,
    Running,
    Paused,
    Stopping,
    Stopped,
    Failed,
}

impl JobState {
    /// The name of the state.
    pub open spec fn text(self) -> Seq<char> {
        match self {
            JobState::Created => "Created"@,
            JobState::Starting => "Starting"@,
            JobState::Running => "Running"@,
            JobState::Paused => "Paused"@,
            JobState::Stopping => "Stopping"@,
            JobState::Stopped => "Stopped"@,
            JobState::Failed => "Failed"@,
        }
    }

    pub fn name(&self) -> (r: &'static str)
        ensures
            r@ == self.text(),
    {
        match self {
            JobState::Created => "Created",
            JobState::Starting => "Starting",
            JobState::Running => "Running",
            JobState::Paused => "Paused",
            JobState::Stopping => "Stopping",
            JobState::Stopped => "Stopped",
            JobState::Failed => "Failed",
        }
    }
}

/// Where in the training loop a job stands.
#[derive(Debug, Clone, Copy, PartialEq, Eq, Structural)]
pub enum LoopPhase {
    Init,
    PrepareRollout,
    Generate,
    Train,
    UpdateWeights,
    Eval,
    Save,
    Cleanup,
}

#[derive(Debug, Clone, Copy, PartialEq, Eq, Structural)]
pub struct RolloutCursor {
    pub current_rollout_id: u32,
    pub total_rollouts: u32,
}

/// The progress of a job.
#[derive(Debug, Clone, Copy, PartialEq, Eq, Structural)]
pub struct JobRuntime {
    pub job_id: JobId,
    pub state: JobState,
    pub phase: LoopPhase,
    pub cursor: RolloutCursor,
    pub fence_token: u64,
    pub updated_at: Timestamp,
}

impl JobRuntime {
    /// The runtime of a job that was created at `instant` and has done nothing yet.
    pub open spec fn fresh(job_id: JobId, spec: JobSpec, instant: Timestamp) -> JobRuntime {
        JobRuntime {
            job_id,
            state: JobState::Created,
            phase: LoopPhase::Init,
            cursor: RolloutCursor {
                current_rollout_id: 0,
                total_rollouts: spec.train_config.num_rollout,
            },
            fence_token: 0,
            updated_at: instant,
        }
    }

    pub fn created(job_id: JobId, spec: &JobSpec, instant: Timestamp) -> (r: JobRuntime)
        ensures
            r == JobRuntime::fresh(job_id, *spec, instant),
    {
        JobRuntime {
            job_id,
            state: JobState::Created,
            phase: LoopPhase::Init,
            cursor: RolloutCursor {
                current_rollout_id: 0,
                total_rollouts: spec.train_config.num_rollout,
            },
            fence_token: 0,
            updated_at: instant,
        }
    }

    /// Whether this is `other`, but for the time of the last update.
    pub open spec fn same_but_time(self, other: JobRuntime) -> bool {
        self == JobRuntime { updated_at: self.updated_at, ..other }
    }
}

/// One entry of a job's event log.
#[derive(Debug, PartialEq, Eq)]
pub struct JobEvent {
    pub job_id: JobId,
    pub phase: LoopPhase,
    pub state: JobState,
    pub message: String,
    pub timestamp: Timestamp,
}

/// What an event says.
#[verifier::ext_equal]
pub struct EventView {
    pub job_id: JobId,
    pub phase: LoopPhase,
    pub state: JobState,
    pub message: Seq<char>,
    pub timestamp: Timestamp,
}

impl View for JobEvent {
    type V = EventView;

    open spec fn view(&self) -> EventView {
        EventView {
            job_id: self.job_id,
            phase: self.phase,
            state: self.state,
            message: self.message@,
            timestamp: self.timestamp,
        }
    }
}

impl Clone for JobEvent {
    fn clone(&self) -> (r: Self)
        ensures
            r == *self,
    {
        JobEvent {
            job_id: self.job_id,
            phase: self.phase,
            state: self.state,
            message: self.message.clone(),
            timestamp: self.timestamp,
        }
    }
}

} // verus!
