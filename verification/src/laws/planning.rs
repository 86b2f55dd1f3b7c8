//! Laws on job specifications, placement, the lifecycle and transitions.
use crate::api;
use crate::api::{
    JobEvent, JobRuntime, JobSpec, JobState, LoopPhase, ResourcePlan, TrainConfig, ValidationError,
};
use crate::clock::Timestamp;
use crate::ids::JobId;
use crate::lifecycle;
use crate::lifecycle::{JobAction, LifecycleDecision, LifecycleError};
use crate::orchestrator;
use crate::orchestrator::TransitionRecord;
use crate::scheduler::{PlacementError, PlacementPlan, SchedulerError};
use crate::text;
use vstd::prelude::*;

verus! {

/// Text is blank exactly when each of its characters is one of the 25 code points of white
/// space.
pub proof fn law_blank_text_is_white_space(s: Seq<char>)
    ensures
        text::is_blank(s) <==> forall|i: int|
            0 <= i < s.len() ==> {
                let code = (#[trigger] s[i]) as u32;
                ||| 9 <= code <= 13
                ||| code == 32
                ||| code == 133
                ||| code == 160
                ||| code == 5760
                ||| 8192 <= code <= 8202
                ||| code == 8232
                ||| code == 8233
                ||| code == 8239
                ||| code == 8287
                ||| code == 12288
            },
{
}

/// A job whose name and prompt data are not blank, whose counts are positive, whose rollout
/// GPUs can be dealt out to engines, and which asks, where it is colocated, for as many
/// rollout GPUs as the actor has.
pub open spec fn acceptable(spec: JobSpec) -> bool {
    let plan = spec.resource_plan;
    &&& !text::is_blank(spec.job_name@)
    &&& !text::is_blank(spec.dataset_config.prompt_data@)
    &&& plan.actor_num_nodes > 0
    &&& plan.actor_num_gpus_per_node > 0
    &&& plan.rollout_num_gpus > 0
    &&& plan.rollout_num_gpus_per_engine > 0
    &&& plan.rollout_num_gpus % plan.rollout_num_gpus_per_engine == 0
    &&& spec.rollout_config.batch_size > 0
    &&& spec.rollout_config.n_samples_per_prompt > 0
    &&& spec.train_config.global_batch_size > 0
    &&& spec.train_config.num_rollout > 0
    &&& spec.train_config.update_weights_interval > 0
    &&& plan.colocate ==> plan.rollout_num_gpus == plan.actor_num_nodes
        * plan.actor_num_gpus_per_node
}

/// What is wrong with a job where a rule is reported: the rule is broken, and what is looked
/// at before it is right.
pub open spec fn at_fault(spec: JobSpec, rule: ValidationError) -> bool {
    let plan = spec.resource_plan;
    let named = !text::is_blank(spec.job_name@);
    let actor = plan.actor_num_nodes > 0 && plan.actor_num_gpus_per_node > 0;
    let rollout = plan.rollout_num_gpus > 0 && plan.rollout_num_gpus_per_engine > 0;
    let dealt = rollout && plan.rollout_num_gpus % plan.rollout_num_gpus_per_engine == 0;
    let sampled = spec.rollout_config.batch_size > 0 && spec.rollout_config.n_samples_per_prompt
        > 0;
    let trained = spec.train_config.global_batch_size > 0 && spec.train_config.num_rollout > 0
        && spec.train_config.update_weights_interval > 0;
    let prompted = !text::is_blank(spec.dataset_config.prompt_data@);
    match rule {
        ValidationError::EmptyJobName => !named,
        ValidationError::InvalidActorResources => named && !actor,
        ValidationError::InvalidRolloutResources => named && actor && !rollout,
        ValidationError::InvalidRolloutPartition => named && actor && rollout && !dealt,
        ValidationError::InvalidRolloutConfig => named && actor && dealt && !sampled,
        ValidationError::InvalidTrainConfig => named && actor && dealt && sampled && !trained,
        ValidationError::EmptyPromptData => named && actor && dealt && sampled && trained
            && !prompted,
        ValidationError::ColocateRolloutMismatch => named && actor && dealt && sampled && trained
            && prompted && plan.colocate && plan.rollout_num_gpus != plan.actor_num_nodes
            * plan.actor_num_gpus_per_node,
    }
}

/// The number of GPUs that the critic gets: its nodes times the GPUs of each, where it is used
/// and both are given, however many GPUs a node of the cluster holds.
pub open spec fn critic_share(plan: ResourcePlan, use_critic: bool) -> int {
    match (use_critic, plan.critic_num_nodes, plan.critic_num_gpus_per_node) {
        (true, Some(nodes), Some(gpus)) => nodes * gpus,
        _ => 0,
    }
}

/// The number of GPUs of a job: the actor's, the critic's, and the rollout GPUs unless the
/// engines share the actor's.
pub open spec fn gpus_of(plan: ResourcePlan, use_critic: bool) -> int {
    plan.actor_num_nodes * plan.actor_num_gpus_per_node + critic_share(plan, use_critic) + (
    if plan.colocate {
        0int
    } else {
        plan.rollout_num_gpus as int
    })
}

/// The actor's GPUs are the first ones, the critic's follow, and the engines' come after
/// those, or are the actor's own.
pub open spec fn placed(placement: PlacementPlan, plan: ResourcePlan, use_critic: bool) -> bool {
    let actor = plan.actor_num_nodes * plan.actor_num_gpus_per_node;
    let critic = critic_share(plan, use_critic);
    let actor_indices = placement.actor_gpu_indices@;
    let critic_indices = placement.critic_gpu_indices@;
    let rollout_indices = placement.rollout_gpu_indices@;
    &&& placement.total_gpus == gpus_of(plan, use_critic)
    &&& actor_indices.len() == actor
    &&& critic_indices.len() == critic
    &&& forall|i: int| 0 <= i < actor_indices.len() ==> #[trigger] actor_indices[i] == i
    &&& forall|i: int| 0 <= i < critic_indices.len() ==> #[trigger] critic_indices[i] == actor + i
    &&& if plan.colocate {
        rollout_indices == actor_indices
    } else {
        &&& rollout_indices.len() == plan.rollout_num_gpus
        &&& forall|i: int|
            0 <= i < rollout_indices.len() ==> #[trigger] rollout_indices[i] == actor + critic + i
    }
}

/// A specification is accepted exactly when its name and its prompt data are not blank, all
/// counts that it must give are positive, the rollout GPUs can be dealt out to engines, and
/// a colocated job asks for as many rollout GPUs as the actor has.
pub proof fn law_accepted_specification(spec: JobSpec)
    ensures
        spec.valid() <==> acceptable(spec),
{
    if !spec.valid() {
        let rule = choose|rule: ValidationError| spec.breaks(rule);
        assert(spec.breaks(rule));
    } else {
        assert(!spec.breaks(ValidationError::EmptyJobName));
        assert(!spec.breaks(ValidationError::InvalidActorResources));
        assert(!spec.breaks(ValidationError::InvalidRolloutResources));
        assert(!spec.breaks(ValidationError::InvalidRolloutPartition));
        assert(!spec.breaks(ValidationError::InvalidRolloutConfig));
        assert(!spec.breaks(ValidationError::InvalidTrainConfig));
        assert(!spec.breaks(ValidationError::EmptyPromptData));
        assert(!spec.breaks(ValidationError::ColocateRolloutMismatch));
    }
}

/// The error of a refused specification names what is wrong with it, and what is checked
/// before that is right.
pub proof fn law_reported_fault(spec: JobSpec, rule: ValidationError)
    requires
        spec.breaks_first(rule),
    ensures
        at_fault(spec, rule),
{
    lemma_earlier_rules_hold(spec, rule);
}

proof fn lemma_earlier_rules_hold(spec: JobSpec, rule: ValidationError)
    requires
        spec.breaks_first(rule),
    ensures
        spec.breaks(rule),
        rule !is EmptyJobName ==> !spec.breaks(ValidationError::EmptyJobName),
        api::rule_rank(rule) > 1 ==> !spec.breaks(ValidationError::InvalidActorResources),
        api::rule_rank(rule) > 2 ==> !spec.breaks(ValidationError::InvalidRolloutResources),
        api::rule_rank(rule) > 3 ==> !spec.breaks(ValidationError::InvalidRolloutPartition),
        api::rule_rank(rule) > 4 ==> !spec.breaks(ValidationError::InvalidRolloutConfig),
        api::rule_rank(rule) > 5 ==> !spec.breaks(ValidationError::InvalidTrainConfig),
        api::rule_rank(rule) > 6 ==> !spec.breaks(ValidationError::EmptyPromptData),
{
    assert(api::rule_rank(ValidationError::EmptyJobName) == 0);
    assert(api::rule_rank(ValidationError::InvalidActorResources) == 1);
    assert(api::rule_rank(ValidationError::InvalidRolloutResources) == 2);
    assert(api::rule_rank(ValidationError::InvalidRolloutPartition) == 3);
    assert(api::rule_rank(ValidationError::InvalidRolloutConfig) == 4);
    assert(api::rule_rank(ValidationError::InvalidTrainConfig) == 5);
    assert(api::rule_rank(ValidationError::EmptyPromptData) == 6);
}

/// What is said of a refused job names the fields at fault.
pub proof fn law_fault_texts(rule: ValidationError)
    ensures
        rule.text() == match rule {
            ValidationError::EmptyJobName => "job_name must not be empty"@,
            ValidationError::InvalidActorResources =>
                "actor_num_nodes and actor_num_gpus_per_node must be > 0"@,
            ValidationError::InvalidRolloutResources =>
                "rollout_num_gpus and rollout_num_gpus_per_engine must be > 0"@,
            ValidationError::InvalidRolloutPartition =>
                "rollout_num_gpus must be divisible by rollout_num_gpus_per_engine"@,
            ValidationError::InvalidRolloutConfig =>
                "rollout batch_size and n_samples_per_prompt must be > 0"@,
            ValidationError::InvalidTrainConfig =>
                "global_batch_size, num_rollout, and update_weights_interval must be > 0"@,
            ValidationError::EmptyPromptData => "prompt_data must not be empty"@,
            ValidationError::ColocateRolloutMismatch =>
                "in colocate mode, rollout_num_gpus must equal actor_num_nodes * actor_num_gpus_per_node"@,
        },
{
}

/// What is said of a job that is not placed tells whether its specification or its counts
/// of GPUs stand in the way.
pub proof fn law_placement_texts(error: PlacementError)
    ensures
        error.text() == match error {
            PlacementError::Invalid(_) => "jobspec validation failed"@,
            PlacementError::Unplaceable(SchedulerError::InvalidPlan) =>
                "resource plan values must be positive"@,
            PlacementError::Unplaceable(SchedulerError::RolloutOutOfRange) =>
                "rollout gpus exceed total allocated gpus"@,
            PlacementError::Unplaceable(SchedulerError::CriticOutOfRange) =>
                "critic gpus exceed total allocated gpus"@,
        },
{
}

/// A positive interval between weight updates is as good as any other: changing it to
/// another positive one changes neither whether a job is accepted nor what is reported.
pub proof fn law_any_positive_update_interval_serves(a: JobSpec, b: JobSpec)
    requires
        a.train_config.update_weights_interval > 0,
        b.train_config.update_weights_interval > 0,
        b == (JobSpec {
            train_config: TrainConfig {
                update_weights_interval: b.train_config.update_weights_interval,
                ..a.train_config
            },
            ..a
        }),
    ensures
        a.valid() == b.valid(),
        forall|rule: ValidationError| a.breaks_first(rule) == b.breaks_first(rule),
{
    assert(forall|rule: ValidationError| a.breaks(rule) == b.breaks(rule));
    law_accepted_specification(a);
    law_accepted_specification(b);
}

/// Only the name, the GPUs of actor and rollout, the sizes, the counts and the prompt data
/// of a job decide whether it is accepted: two jobs that agree on these fare alike, whatever
/// their mode, backend, critic, nodes, keys, evaluation, saving and retries are.
pub proof fn law_other_fields_do_not_matter(a: JobSpec, b: JobSpec)
    requires
        a.job_name@ == b.job_name@,
        a.dataset_config.prompt_data@ == b.dataset_config.prompt_data@,
        a.resource_plan.actor_num_nodes == b.resource_plan.actor_num_nodes,
        a.resource_plan.actor_num_gpus_per_node == b.resource_plan.actor_num_gpus_per_node,
        a.resource_plan.rollout_num_gpus == b.resource_plan.rollout_num_gpus,
        a.resource_plan.rollout_num_gpus_per_engine == b.resource_plan.rollout_num_gpus_per_engine,
        a.resource_plan.colocate == b.resource_plan.colocate,
        a.rollout_config.batch_size == b.rollout_config.batch_size,
        a.rollout_config.n_samples_per_prompt == b.rollout_config.n_samples_per_prompt,
        a.train_config == b.train_config,
    ensures
        a.valid() == b.valid(),
        forall|rule: ValidationError| a.breaks_first(rule) == b.breaks_first(rule),
{
    assert(forall|rule: ValidationError| a.breaks(rule) == b.breaks(rule));
    law_accepted_specification(a);
    law_accepted_specification(b);
}

/// A new job has been created, stands before its first phase, has all its rollouts ahead of
/// it and has made no transition.
pub proof fn law_new_job_has_done_nothing(job_id: JobId, spec: JobSpec, instant: Timestamp)
    ensures
        ({
            let runtime = JobRuntime::fresh(job_id, spec, instant);
            &&& runtime.job_id == job_id
            &&& runtime.state is Created
            &&& runtime.phase is Init
            &&& runtime.cursor.current_rollout_id == 0
            &&& runtime.cursor.total_rollouts == spec.train_config.num_rollout
            &&& runtime.fence_token == 0
            &&& runtime.updated_at == instant
        }),
{
}

/// Two runtimes that differ in the time of the last update at most agree on all the rest.
pub proof fn law_same_but_time(a: JobRuntime, b: JobRuntime)
    ensures
        a.same_but_time(b) <==> a.job_id == b.job_id && a.state == b.state && a.phase == b.phase
            && a.cursor == b.cursor && a.fence_token == b.fence_token,
{
}

/// An event's view tells all that the event holds.
pub proof fn law_event_is_told_in_full(event: JobEvent)
    ensures
        event@.job_id == event.job_id,
        event@.phase == event.phase,
        event@.state == event.state,
        event@.message == event.message@,
        event@.timestamp == event.timestamp,
{
}

/// A plan can be placed only where actor nodes, GPUs per actor node, GPUs per engine and
/// GPUs per node are all positive.
pub proof fn law_placement_needs_positive_counts(plan: ResourcePlan)
    ensures
        plan.positive() <==> plan.actor_num_nodes > 0 && plan.actor_num_gpus_per_node > 0
            && plan.rollout_num_gpus_per_engine > 0 && plan.num_gpus_per_node > 0,
{
}

/// A job has as many GPUs as its parts ask for: actor nodes times GPUs per actor node,
/// critic nodes times GPUs per critic node where the critic is used and both are given, and
/// the rollout GPUs unless the engines share the actor's.
pub proof fn law_gpus_of_a_job(plan: ResourcePlan, use_critic: bool)
    ensures
        plan.total_gpus(use_critic) == gpus_of(plan, use_critic),
{
}

/// The actor's GPUs are the first ones, `nodes * gpus` of them. The critic's follow,
/// `nodes * gpus` of them where the critic is used, however many GPUs a node of the cluster
/// holds. The engines' come after those, or are the actor's own.
pub proof fn law_placement_in_numbers(
    placement: PlacementPlan,
    plan: ResourcePlan,
    use_critic: bool,
)
    requires
        placement.places(plan, use_critic),
    ensures
        placed(placement, plan, use_critic),
{
}

/// Neither the GPUs that a node holds nor those that an engine takes move a placement.
pub proof fn law_node_and_engine_sizes_do_not_move_placement(
    a: PlacementPlan,
    b: PlacementPlan,
    plan: ResourcePlan,
    num_gpus_per_node: u32,
    rollout_num_gpus_per_engine: u32,
    use_critic: bool,
)
    requires
        a.places(plan, use_critic),
        b.places(
            ResourcePlan { num_gpus_per_node, rollout_num_gpus_per_engine, ..plan },
            use_critic,
        ),
    ensures
        a.total_gpus == b.total_gpus,
        a.actor_gpu_indices@ == b.actor_gpu_indices@,
        a.critic_gpu_indices@ == b.critic_gpu_indices@,
        a.rollout_gpu_indices@ == b.rollout_gpu_indices@,
{
}

/// Start is refused to a job that is stopping or has failed. Pause and resume are refused to
/// a job that is neither running nor paused. Stop is refused to none.
pub proof fn law_refused_actions(state: JobState)
    ensures
        lifecycle::admits(state, JobAction::Start) <==> state is Created || state is Starting
            || state is Running || state is Paused || state is Stopped,
        lifecycle::admits(state, JobAction::Pause) <==> state is Running || state is Paused,
        lifecycle::admits(state, JobAction::Resume) <==> state is Running || state is Paused,
        lifecycle::admits(state, JobAction::Stop),
{
}

/// Start moves a created or a stopped job, through the starting state, to the running state.
/// It leaves a job that is starting, running or paused as it is.
pub proof fn law_start_runs_what_does_not_run(state: JobState, plan: LifecycleDecision)
    requires
        lifecycle::admits(state, JobAction::Start),
        plan@ == lifecycle::decision(state, JobAction::Start),
    ensures
        match plan {
            LifecycleDecision::Noop(message) => {
                &&& state is Starting || state is Running || state is Paused
                &&& message@ == "job already started"@
                &&& lifecycle::state_after(state, JobAction::Start) == state
            },
            LifecycleDecision::Apply(steps) => {
                &&& state is Created || state is Stopped
                &&& steps@.len() == 2
                &&& steps@[0].state is Starting
                &&& steps@[0].phase is Init
                &&& steps@[0].message@ == "job starting"@
                &&& steps@[1].state is Running
                &&& steps@[1].phase is PrepareRollout
                &&& steps@[1].message@ == "job running"@
                &&& lifecycle::state_after(state, JobAction::Start) is Running
            },
        },
{
    lemma_steps_of(plan);
}

/// Pause moves a running job to the paused state, in one step, and leaves a paused job as it
/// is.
pub proof fn law_pause_pauses_what_runs(state: JobState, plan: LifecycleDecision)
    requires
        lifecycle::admits(state, JobAction::Pause),
        plan@ == lifecycle::decision(state, JobAction::Pause),
    ensures
        match plan {
            LifecycleDecision::Noop(message) => {
                &&& state is Paused
                &&& message@ == "job already paused"@
                &&& lifecycle::state_after(state, JobAction::Pause) == state
            },
            LifecycleDecision::Apply(steps) => {
                &&& state is Running
                &&& steps@.len() == 1
                &&& steps@[0].state is Paused
                &&& steps@[0].phase is PrepareRollout
                &&& steps@[0].message@ == "job paused"@
                &&& lifecycle::state_after(state, JobAction::Pause) is Paused
            },
        },
{
    lemma_steps_of(plan);
}

/// Resume moves a paused job to the running state, in one step, and leaves a running job as
/// it is.
pub proof fn law_resume_runs_what_is_paused(state: JobState, plan: LifecycleDecision)
    requires
        lifecycle::admits(state, JobAction::Resume),
        plan@ == lifecycle::decision(state, JobAction::Resume),
    ensures
        match plan {
            LifecycleDecision::Noop(message) => {
                &&& state is Running
                &&& message@ == "job already running"@
                &&& lifecycle::state_after(state, JobAction::Resume) == state
            },
            LifecycleDecision::Apply(steps) => {
                &&& state is Paused
                &&& steps@.len() == 1
                &&& steps@[0].state is Running
                &&& steps@[0].phase is PrepareRollout
                &&& steps@[0].message@ == "job resumed"@
                &&& lifecycle::state_after(state, JobAction::Resume) is Running
            },
        },
{
    lemma_steps_of(plan);
}

/// Stop moves a job, through the stopping state, to the stopped state. It leaves a job that
/// is stopping or stopped as it is.
pub proof fn law_stop_stops_what_has_not_stopped(state: JobState, plan: LifecycleDecision)
    requires
        lifecycle::admits(state, JobAction::Stop),
        plan@ == lifecycle::decision(state, JobAction::Stop),
    ensures
        match plan {
            LifecycleDecision::Noop(message) => {
                &&& state is Stopping || state is Stopped
                &&& message@ == "job already stopping or stopped"@
                &&& lifecycle::state_after(state, JobAction::Stop) == state
            },
            LifecycleDecision::Apply(steps) => {
                &&& !(state is Stopping || state is Stopped)
                &&& steps@.len() == 2
                &&& steps@[0].state is Stopping
                &&& steps@[0].phase is Cleanup
                &&& steps@[0].message@ == "job stopping"@
                &&& steps@[1].state is Stopped
                &&& steps@[1].phase is Cleanup
                &&& steps@[1].message@ == "job stopped"@
                &&& lifecycle::state_after(state, JobAction::Stop) is Stopped
            },
        },
{
    lemma_steps_of(plan);
}

proof fn lemma_steps_of(plan: LifecycleDecision)
    ensures
        plan is Noop <==> plan@ is Noop,
        plan matches LifecycleDecision::Apply(steps) ==> {
            &&& plan@->Apply_0.len() == steps@.len()
            &&& forall|i: int|
                0 <= i < steps@.len() ==> {
                    &&& (#[trigger] steps@[i]).state == plan@->Apply_0[i].state
                    &&& steps@[i].phase == plan@->Apply_0[i].phase
                    &&& steps@[i].message@ == plan@->Apply_0[i].message
                }
        },
{
}

/// A paused job leaves that state through resume and stop alone.
pub proof fn law_paused_job_leaves_by_resume_or_stop(action: JobAction)
    requires
        lifecycle::admits(JobState::Paused, action),
        !(lifecycle::state_after(JobState::Paused, action) is Paused),
    ensures
        action is Resume && lifecycle::state_after(JobState::Paused, action) is Running || action
            is Stop && lifecycle::state_after(JobState::Paused, action) is Stopped,
{
}

/// A failed job admits stop alone.
pub proof fn law_failed_job_can_only_be_stopped(action: JobAction)
    ensures
        lifecycle::admits(JobState::Failed, action) <==> action is Stop,
{
}

/// The text of a refused action names the action, then the state that refuses it.
pub proof fn law_refusal_names_action_and_state(error: LifecycleError)
    ensures
        error matches LifecycleError::InvalidTransition { state, action } ==> error.text()
            == "action "@ + action@ + " is invalid from state "@ + (match state {
            JobState::Created => "Created"@,
            JobState::Starting => "Starting"@,
            JobState::Running => "Running"@,
            JobState::Paused => "Paused"@,
            JobState::Stopping => "Stopping"@,
            JobState::Stopped => "Stopped"@,
            JobState::Failed => "Failed"@,
        }),
{
}

/// Each action is known by its lower-case name.
pub proof fn law_action_names()
    ensures
        JobAction::Start.text() == "start"@,
        JobAction::Pause.text() == "pause"@,
        JobAction::Resume.text() == "resume"@,
        JobAction::Stop.text() == "stop"@,
{
}

/// A periodic action is due exactly after those rollouts whose number, counted from one, is
/// a multiple of its interval. An interval of zero, or none, makes it never due.
pub proof fn law_periodic_action_is_due_on_multiples(rollout_id: nat, interval: Option<u32>)
    ensures
        orchestrator::is_due(rollout_id, interval) <==> exists|times: nat|
            interval is Some && interval->0 > 0 && rollout_id + 1 == #[trigger] (times
                * interval->0),
{
    if let Some(i) = interval {
        if i > 0 {
            let d = i as int;
            let n = rollout_id as int + 1;
            vstd::arithmetic::div_mod::lemma_fundamental_div_mod(n, d);
            if orchestrator::is_due(rollout_id, interval) {
                let times = (n / d) as nat;
                vstd::arithmetic::div_mod::lemma_div_pos_is_pos(n, d);
                vstd::arithmetic::mul::lemma_mul_is_commutative(n / d, d);
                assert(rollout_id + 1 == times * interval->0);
            }
            if exists|times: nat| rollout_id + 1 == #[trigger] (times * interval->0) {
                let times = choose|times: nat|
                    rollout_id + 1 == #[trigger] (times * interval->0);
                vstd::arithmetic::div_mod::lemma_mod_multiples_basic(times as int, d);
            }
        }
    }
}

/// A transition sets the state, the phase and the time, raises the fence token by one, and
/// leaves the job and its rollouts alone.
pub proof fn law_transition_changes_what_it_names(
    runtime: JobRuntime,
    state: JobState,
    phase: LoopPhase,
    instant: Timestamp,
)
    requires
        runtime.fence_token < u64::MAX,
    ensures
        ({
            let after = runtime.moved(state, phase, instant);
            &&& after.state == state
            &&& after.phase == phase
            &&& after.updated_at == instant
            &&& after.fence_token == runtime.fence_token + 1
            &&& after.job_id == runtime.job_id
            &&& after.cursor.current_rollout_id == runtime.cursor.current_rollout_id
            &&& after.cursor.total_rollouts == runtime.cursor.total_rollouts
        }),
{
}

/// The record of a transition tells where the job stands after it.
pub proof fn law_record_tells_the_transition(
    record: TransitionRecord,
    runtime: JobRuntime,
    message: Seq<char>,
)
    requires
        record@ == orchestrator::record_of(runtime, message),
    ensures
        record.job_id == runtime.job_id,
        record.state == runtime.state,
        record.phase == runtime.phase,
        record.rollout_id == runtime.cursor.current_rollout_id,
        record.fence == runtime.fence_token,
        record.message@ == message,
{
}

} // verus!
