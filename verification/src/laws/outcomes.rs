//! Laws on calls that plan, decide and run: what each one gives for its arguments.
use crate::api::{
    JobRuntime, JobSpec, JobState, LoopPhase, ResourcePlan, ValidationError,
};
use crate::clock::Timestamp;
use crate::ids;
use crate::ids::JobId;
use crate::laws::planning::{
    acceptable, at_fault, gpus_of, law_accepted_specification, law_blank_text_is_white_space,
    law_periodic_action_is_due_on_multiples, law_reported_fault, placed,
};
use crate::laws::requests::{arrived, cause_text, forbidden, path};
use crate::laws::running::{
    ends_interval, law_commands_of_a_run, law_length_of_a_run, law_log_of_a_run,
    law_records_tell_the_steps, law_rollout_generates_trains_and_updates,
    law_run_closes_with_cleanup, law_run_opens_with_init_and_weights, law_store_calls_of_a_run,
    law_whole_run_makes_all_steps, rollout_start, whole_intervals,
};
use crate::lifecycle::{plan_action, JobAction, LifecycleDecision, LifecycleError};
use crate::orchestrator;
use crate::orchestrator::{
    command_context, should_run_periodic_action, transition, TransitionRecord,
};
use crate::run;
use crate::run::{run_job, run_job_with, RunError, RunReport, RunStart};
use crate::scheduler::{
    build_placement_plan, place_job, placement_fits, PlacementError, PlacementPlan, SchedulerError,
};
use crate::state_store::{StateStore, StoreCall, StoreError};
use crate::text;
use crate::worker_client::{CommandContext, SentCommand, WorkerClient, WorkerCommand};
use vstd::prelude::*;

verus! {

/// Text is found blank exactly where it holds nothing but the 25 characters of white space.
pub proof fn law_blank_call(s: &str, r: bool)
    requires
        call_ensures(text::blank, (s,), r),
    ensures
        r <==> forall|i: int|
            0 <= i < s@.len() ==> {
                let code = (#[trigger] s@[i]) as u32;
                ||| 9 <= code <= 13
                ||| code == 32
                ||| code == 133
                ||| code == 160
                ||| code == 5760
                ||| 8192 <= code <= 8202
                ||| code == 8232
                ||| code == 8233
                ||| code == 8239
                ||| code == 8287
                ||| code == 12288
            },
{
    law_blank_text_is_white_space(s@);
}

/// Validation accepts the acceptable jobs and reports the first fault of any other.
pub proof fn law_validate_call(spec: JobSpec, r: Result<(), ValidationError>)
    requires
        call_ensures(JobSpec::validate, (&spec,), r),
    ensures
        r is Ok <==> acceptable(spec),
        r matches Err(rule) ==> at_fault(spec, rule),
{
    law_accepted_specification(spec);
    if let Err(rule) = r {
        law_reported_fault(spec, rule);
    }
}

/// What was accepted stays accepted where the interval between weight updates is raised.
pub proof fn law_raised_update_interval_stays_accepted(
    a: JobSpec,
    b: JobSpec,
    first: Result<(), ValidationError>,
    second: Result<(), ValidationError>,
)
    requires
        call_ensures(JobSpec::validate, (&a,), first),
        call_ensures(JobSpec::validate, (&b,), second),
        first is Ok,
        b.train_config.update_weights_interval >= a.train_config.update_weights_interval,
        b.train_config.global_batch_size == a.train_config.global_batch_size,
        b.train_config.num_rollout == a.train_config.num_rollout,
        b.job_name == a.job_name,
        b.resource_plan == a.resource_plan,
        b.dataset_config == a.dataset_config,
        b.rollout_config == a.rollout_config,
    ensures
        second is Ok,
{
    law_validate_call(a, first);
    law_validate_call(b, second);
}

/// A new runtime is that of a job that has done nothing.
pub proof fn law_created_call(job_id: JobId, spec: JobSpec, instant: Timestamp, r: JobRuntime)
    requires
        call_ensures(JobRuntime::created, (job_id, &spec, instant), r),
    ensures
        r.job_id == job_id,
        r.state is Created,
        r.phase is Init,
        r.cursor.current_rollout_id == 0,
        r.cursor.total_rollouts == spec.train_config.num_rollout,
        r.fence_token == 0,
        r.updated_at == instant,
{
}

/// A job that is refused is told which fields are at fault.
pub proof fn law_fault_message_call(rule: ValidationError, r: String)
    requires
        call_ensures(ValidationError::message, (&rule,), r),
    ensures
        r@ == match rule {
            ValidationError::EmptyJobName => "job_name must not be empty"@,
            ValidationError::InvalidActorResources =>
                "actor_num_nodes and actor_num_gpus_per_node must be > 0"@,
            ValidationError::InvalidRolloutResources =>
                "rollout_num_gpus and rollout_num_gpus_per_engine must be > 0"@,
            ValidationError::InvalidRolloutPartition =>
                "rollout_num_gpus must be divisible by rollout_num_gpus_per_engine"@,
            ValidationError::InvalidRolloutConfig =>
                "rollout batch_size and n_samples_per_prompt must be > 0"@,
            ValidationError::InvalidTrainConfig =>
                "global_batch_size, num_rollout, and update_weights_interval must be > 0"@,
            ValidationError::EmptyPromptData => "prompt_data must not be empty"@,
            ValidationError::ColocateRolloutMismatch =>
                "in colocate mode, rollout_num_gpus must equal actor_num_nodes * actor_num_gpus_per_node"@,
        },
{
}

/// Each state is shown by its own name.
pub proof fn law_state_name_call(state: JobState, r: &'static str)
    requires
        call_ensures(JobState::name, (&state,), r),
    ensures
        r@ == match state {
            JobState::Created => "Created"@,
            JobState::Starting => "Starting"@,
            JobState::Running => "Running"@,
            JobState::Paused => "Paused"@,
            JobState::Stopping => "Stopping"@,
            JobState::Stopped => "Stopped"@,
            JobState::Failed => "Failed"@,
        },
{
}

/// Each action is shown by its own name.
pub proof fn law_action_name_call(action: JobAction, r: &'static str)
    requires
        call_ensures(JobAction::as_str, (&action,), r),
    ensures
        r@ == match action {
            JobAction::Start => "start"@,
            JobAction::Pause => "pause"@,
            JobAction::Resume => "resume"@,
            JobAction::Stop => "stop"@,
        },
{
}

/// A plan is found positive where all that a placement needs is, and found to fit where all
/// its GPUs can be counted in 32 bits.
pub proof fn law_placement_tests_calls(
    plan: ResourcePlan,
    use_critic: bool,
    positive: bool,
    fits: bool,
)
    requires
        call_ensures(ResourcePlan::is_positive, (&plan,), positive),
        call_ensures(placement_fits, (&plan, use_critic), fits),
    ensures
        positive <==> plan.actor_num_nodes > 0 && plan.actor_num_gpus_per_node > 0
            && plan.rollout_num_gpus_per_engine > 0 && plan.num_gpus_per_node > 0,
        fits <==> gpus_of(plan, use_critic) < 0x1_0000_0000,
{
}

/// A placement gives each part of a job its GPUs, or fails where a count is not positive.
pub proof fn law_build_placement_plan_call(
    plan: ResourcePlan,
    use_critic: bool,
    r: Result<PlacementPlan, SchedulerError>,
)
    requires
        call_requires(build_placement_plan, (&plan, use_critic)),
        call_ensures(build_placement_plan, (&plan, use_critic), r),
    ensures
        r is Ok <==> plan.actor_num_nodes > 0 && plan.actor_num_gpus_per_node > 0
            && plan.rollout_num_gpus_per_engine > 0 && plan.num_gpus_per_node > 0,
        r matches Ok(placement) ==> placed(placement, plan, use_critic),
        r matches Err(e) ==> e is InvalidPlan,
{
}

/// A job is placed where it is acceptable and its counts are positive. A job that is not
/// acceptable is refused for its first fault, and any other for its counts.
pub proof fn law_place_job_call(
    spec: JobSpec,
    use_critic: bool,
    r: Result<PlacementPlan, PlacementError>,
)
    requires
        call_ensures(place_job, (&spec, use_critic), r),
    ensures
        match r {
            Ok(placement) => acceptable(spec) && spec.resource_plan.num_gpus_per_node > 0
                && placed(placement, spec.resource_plan, use_critic),
            Err(PlacementError::Invalid(rule)) => at_fault(spec, rule),
            Err(PlacementError::Unplaceable(e)) => acceptable(spec)
                && spec.resource_plan.num_gpus_per_node == 0 && e is InvalidPlan,
        },
{
    law_accepted_specification(spec);
    if let Err(PlacementError::Invalid(rule)) = r {
        law_reported_fault(spec, rule);
    }
}

/// A plan that is not carried out is told why.
pub proof fn law_placement_message_calls(
    e: SchedulerError,
    shown: String,
    error: PlacementError,
    told: String,
)
    requires
        call_ensures(SchedulerError::message, (&e,), shown),
        call_ensures(PlacementError::message, (&error,), told),
    ensures
        shown@ == match e {
            SchedulerError::InvalidPlan => "resource plan values must be positive"@,
            SchedulerError::RolloutOutOfRange => "rollout gpus exceed total allocated gpus"@,
            SchedulerError::CriticOutOfRange => "critic gpus exceed total allocated gpus"@,
        },
        error is Invalid ==> told@ == "jobspec validation failed"@,
        error == PlacementError::Unplaceable(e) ==> told@ == shown@,
{
}

/// An action is planned as a refusal where the state of the job forbids it, as nothing to do
/// where the job is where the action leads, and else as the steps that lead there.
pub proof fn law_plan_action_call(
    state: JobState,
    action: JobAction,
    r: Result<LifecycleDecision, LifecycleError>,
)
    requires
        call_ensures(plan_action, (state, action), r),
    ensures
        match r {
            Err(LifecycleError::InvalidTransition { state: from, action: name }) => {
                &&& forbidden(state, action)
                &&& from == state
                &&& name@ == match action {
                    JobAction::Start => "start"@,
                    JobAction::Pause => "pause"@,
                    JobAction::Resume => "resume"@,
                    JobAction::Stop => "stop"@,
                }
            },
            Ok(LifecycleDecision::Noop(message)) => {
                &&& !forbidden(state, action)
                &&& arrived(state, action)
                &&& message@ == match action {
                    JobAction::Start => "job already started"@,
                    JobAction::Pause => "job already paused"@,
                    JobAction::Resume => "job already running"@,
                    JobAction::Stop => "job already stopping or stopped"@,
                }
            },
            Ok(LifecycleDecision::Apply(steps)) => {
                &&& !forbidden(state, action)
                &&& !arrived(state, action)
                &&& steps@.len() == path(action).len()
                &&& forall|i: int|
                    0 <= i < steps@.len() ==> (#[trigger] steps@[i]).state == path(action)[i].state
                        && steps@[i].phase == path(action)[i].phase && steps@[i].message@
                        == path(action)[i].message
            },
        },
{
    if let Ok(LifecycleDecision::Apply(steps)) = r {
        let views = r->Ok_0@->Apply_0;
        assert(views.len() == steps@.len());
        assert(forall|i: int| 0 <= i < steps@.len() ==> #[trigger] steps@[i]@ == views[i]);
        assert(views =~= path(action));
    }
}

/// A refused action is told by its name and the state that refuses it.
pub proof fn law_refusal_message_call(error: LifecycleError, r: String)
    requires
        call_ensures(LifecycleError::message, (&error,), r),
    ensures
        error matches LifecycleError::InvalidTransition { state, action } ==> r@ == "action "@
            + action@ + " is invalid from state "@ + state.text(),
{
}

/// The context of a command names the job, is a first attempt under an id of its own, and has
/// a deadline of 30 seconds and as many milliseconds as the fence token says.
pub proof fn law_command_context_call(job_id: JobId, fence_token: u64, r: CommandContext)
    requires
        call_ensures(command_context, (job_id, fence_token), r),
    ensures
        r.job_id == job_id,
        r.attempt_id == 1,
        r.deadline_ms == 30_000 + fence_token,
        r.request_id != 0,
{
}

/// A periodic action runs after every rollout whose number is a multiple of its interval.
pub proof fn law_should_run_periodic_action_call(rollout_id: u32, interval: Option<u32>, r: bool)
    requires
        call_ensures(should_run_periodic_action, (rollout_id, interval), r),
    ensures
        r <==> exists|times: nat|
            interval is Some && interval->0 > 0 && rollout_id as nat + 1 == #[trigger] (times
                * interval->0),
{
    law_periodic_action_is_due_on_multiples(rollout_id as nat, interval);
}

/// A move sets what it names, takes one fence token, and keeps the job and its rollouts.
pub proof fn law_move_to_call(
    runtime: &mut JobRuntime,
    state: JobState,
    phase: LoopPhase,
    instant: Timestamp,
    r: (),
)
    requires
        call_ensures(JobRuntime::move_to, (runtime, state, phase, instant), r),
        old(runtime).fence_token < u64::MAX,
    ensures
        final(runtime).state == state,
        final(runtime).phase == phase,
        final(runtime).updated_at == instant,
        final(runtime).fence_token == old(runtime).fence_token + 1,
        final(runtime).job_id == old(runtime).job_id,
        final(runtime).cursor == old(runtime).cursor,
{
}

/// A transition moves the job, hands its runtime to the store, once, and records where it
/// stands. It fails where the store does not hold the job, or refuses.
pub proof fn law_transition_call<S: StateStore>(
    store: &mut S,
    runtime: &mut JobRuntime,
    state: JobState,
    phase: LoopPhase,
    message: &str,
    r: Result<TransitionRecord, StoreError>,
)
    requires
        call_ensures(transition::<S>, (store, runtime, state, phase, message), r),
        old(runtime).fence_token < u64::MAX,
    ensures
        final(runtime).state == state,
        final(runtime).phase == phase,
        final(runtime).fence_token == old(runtime).fence_token + 1,
        final(runtime).job_id == old(runtime).job_id,
        final(runtime).cursor == old(runtime).cursor,
        final(store).calls() == old(store).calls().push(StoreCall::UpdateRuntime(*final(runtime))),
        old(store).reliable() ==> (r is Ok <==> old(store).jobs().dom().contains(
            old(runtime).job_id,
        )),
        match r {
            Ok(record) => {
                let job_id = old(runtime).job_id;
                let before = old(store).jobs()[job_id];
                let after = final(store).jobs()[job_id];
                &&& record.job_id == job_id
                &&& record.state == state
                &&& record.phase == phase
                &&& record.rollout_id == old(runtime).cursor.current_rollout_id
                &&& record.fence == old(runtime).fence_token + 1
                &&& record.message@ == message@
                &&& old(store).jobs().dom().contains(job_id)
                &&& final(store).jobs() == old(store).jobs().insert(job_id, after)
                &&& after.spec == before.spec
                &&& after.runtime.job_id == job_id
                &&& after.runtime.state == state
                &&& after.runtime.phase == phase
                &&& after.runtime.cursor == old(runtime).cursor
                &&& after.runtime.fence_token == old(runtime).fence_token + 1
            },
            Err(StoreError::NotFound(missing)) => {
                &&& missing == old(runtime).job_id
                &&& !old(store).jobs().dom().contains(missing)
                &&& final(store).jobs() == old(store).jobs()
            },
            Err(e) => old(store).refuses(StoreCall::UpdateRuntime(*final(runtime)), e@),
        },
{
    broadcast use vstd::map::group_map_axioms;

    if r is Ok {
        let job_id = old(runtime).job_id;
        assert(final(store).jobs() =~= old(store).jobs().insert(
            job_id,
            final(store).jobs()[job_id],
        ));
    }
}

/// What a run leaves in a log: one record for each step, as the rollouts, and the intervals
/// between evaluations and checkpoints, call for.
pub open spec fn logs_run(log: Seq<TransitionRecord>, spec: JobSpec, job_id: JobId) -> bool {
    let rollouts = spec.train_config.num_rollout;
    let end = 2 + 3 * rollouts + whole_intervals(rollouts as nat, spec.eval_config.eval_interval)
        + whole_intervals(rollouts as nat, spec.save_config.save_interval);
    &&& log.len() == end + 2
    &&& forall|i: int|
        0 <= i < log.len() ==> (#[trigger] log[i]).job_id == job_id && log[i].fence == i + 1
    &&& told(log[0], JobState::Starting, LoopPhase::Init, 0, "job starting"@)
    &&& told(log[1], JobState::Running, LoopPhase::UpdateWeights, 0, "initial weight update"@)
    &&& forall|rollout_id: u32|
        rollout_id < rollouts ==> #[trigger] logs_rollout(log, spec, rollout_id)
    &&& told(log[end], JobState::Stopping, LoopPhase::Cleanup, rollouts - 1, "cleanup"@)
    &&& told(log[end + 1], JobState::Stopped, LoopPhase::Cleanup, rollouts - 1, "job stopped"@)
}

/// A record tells a state and a phase, in a rollout, with a message.
pub open spec fn told(
    record: TransitionRecord,
    state: JobState,
    phase: LoopPhase,
    rollout_id: int,
    message: Seq<char>,
) -> bool {
    &&& record.state == state
    &&& record.phase == phase
    &&& record.rollout_id == rollout_id
    &&& record.message@ == message
}

/// A rollout is logged as generation, training and a weight update, in this order, then an
/// evaluation and a checkpoint where it ends their intervals.
pub open spec fn logs_rollout(log: Seq<TransitionRecord>, spec: JobSpec, rollout_id: u32) -> bool {
    let at = rollout_start(spec, rollout_id);
    let evaluates = ends_interval(rollout_id, spec.eval_config.eval_interval);
    let saves = ends_interval(rollout_id, spec.save_config.save_interval);
    let save_at = if evaluates {
        at + 4
    } else {
        at + 3
    };
    let running = JobState::Running;
    &&& told(log[at], running, LoopPhase::Generate, rollout_id as int, "generate"@)
    &&& told(log[at + 1], running, LoopPhase::Train, rollout_id as int, "train"@)
    &&& told(log[at + 2], running, LoopPhase::UpdateWeights, rollout_id as int, "update weights"@)
    &&& evaluates ==> told(log[at + 3], running, LoopPhase::Eval, rollout_id as int, "eval"@)
    &&& saves ==> told(log[save_at], running, LoopPhase::Save, rollout_id as int, "save"@)
}

proof fn lemma_records_log_the_run(log: Seq<TransitionRecord>, spec: JobSpec, job_id: JobId)
    requires
        spec.valid(),
        run::log_view(log) == run::records_of(run::run_steps(spec), job_id),
    ensures
        logs_run(log, spec, job_id),
{
    let steps = run::run_steps(spec);
    law_length_of_a_run(spec);
    law_records_tell_the_steps(log, steps, job_id);
    law_run_opens_with_init_and_weights(spec);
    law_run_closes_with_cleanup(spec);
    assert forall|rollout_id: u32|
        rollout_id < spec.train_config.num_rollout implies #[trigger] logs_rollout(
        log,
        spec,
        rollout_id,
    ) by {
        law_rollout_generates_trains_and_updates(spec, rollout_id);
        let at = rollout_start(spec, rollout_id);
        assert(steps[at].rollout_id == rollout_id);
        assert(steps[at + 1].rollout_id == rollout_id);
        assert(steps[at + 2].rollout_id == rollout_id);
        if ends_interval(rollout_id, spec.eval_config.eval_interval) {
            assert(steps[at + 3].rollout_id == rollout_id);
            if ends_interval(rollout_id, spec.save_config.save_interval) {
                assert(steps[at + 4].rollout_id == rollout_id);
            }
        } else if ends_interval(rollout_id, spec.save_config.save_interval) {
            assert(steps[at + 3].rollout_id == rollout_id);
        }
    }
}

/// A run of a job for which nothing is done comes to its end exactly where the job is
/// acceptable, and is logged in full. The job is stopped then, after its last rollout.
pub proof fn law_run_job_call(spec: JobSpec, r: Result<RunReport, RunError>)
    requires
        call_ensures(run_job, (&spec,), r),
    ensures
        r is Ok <==> acceptable(spec),
        match r {
            Ok(report) => {
                &&& logs_run(report.log@, spec, report.runtime.job_id)
                &&& report.runtime.job_id != 0
                &&& report.runtime.state is Stopped
                &&& report.runtime.phase is Cleanup
                &&& report.runtime.cursor.current_rollout_id == spec.train_config.num_rollout - 1
                &&& report.runtime.cursor.total_rollouts == spec.train_config.num_rollout
                &&& report.runtime.fence_token == report.log@.len()
            },
            Err(RunError::Invalid(rule)) => at_fault(spec, rule),
            Err(_) => false,
        },
{
    law_accepted_specification(spec);
    match r {
        Ok(report) => {
            ids::law_random_id_is_not_nil(report.runtime.job_id);
            lemma_records_log_the_run(report.log@, spec, report.runtime.job_id);
            law_length_of_a_run(spec);
            law_records_tell_the_steps(
                report.log@,
                run::run_steps(spec),
                report.runtime.job_id,
            );
        },
        Err(RunError::Invalid(rule)) => {
            law_reported_fault(spec, rule);
            assert(!spec.valid()) by {
                assert(spec.breaks(rule));
            }
        },
        Err(_) => {},
    }
}

/// What a run sends to the workers: one command for each step but the last two, as the
/// rollouts and the intervals call for.
pub open spec fn sends_run(sent: Seq<SentCommand>, spec: JobSpec, job_id: JobId) -> bool {
    let rollouts = spec.train_config.num_rollout;
    &&& sent.len() == 2 + 3 * rollouts + whole_intervals(
        rollouts as nat,
        spec.eval_config.eval_interval,
    ) + whole_intervals(rollouts as nat, spec.save_config.save_interval)
    &&& forall|i: int|
        0 <= i < sent.len() ==> {
            &&& (#[trigger] sent[i]).context.job_id == job_id
            &&& sent[i].context.attempt_id == 1
            &&& sent[i].context.deadline_ms == 30_001 + i
            &&& sent[i].context.request_id != 0
        }
    &&& sent[0].command is Init
    &&& sent[1].command is UpdateWeights
    &&& forall|rollout_id: u32|
        rollout_id < rollouts ==> #[trigger] sends_rollout(sent, spec, rollout_id)
}

/// In a rollout the workers are told to generate, to train and to update their weights, in
/// this order, then to evaluate and to save where the rollout ends those intervals.
pub open spec fn sends_rollout(sent: Seq<SentCommand>, spec: JobSpec, rollout_id: u32) -> bool {
    let at = rollout_start(spec, rollout_id);
    let evaluates = ends_interval(rollout_id, spec.eval_config.eval_interval);
    let saves = ends_interval(rollout_id, spec.save_config.save_interval);
    &&& sent[at].command is Generate
    &&& sent[at + 1].command is TrainStep
    &&& sent[at + 2].command is UpdateWeights
    &&& evaluates ==> sent[at + 3].command is Eval
    &&& saves ==> sent[if evaluates {
        at + 4
    } else {
        at + 3
    }].command is SaveCheckpoint
}

/// The store was asked to put the new job in and then to take its runtime after each of the
/// transitions in `log`.
pub open spec fn asks_run(
    calls: Seq<StoreCall>,
    log: Seq<TransitionRecord>,
    spec: JobSpec,
    job_id: JobId,
    instant: Timestamp,
) -> bool {
    &&& calls.len() == log.len() + 1
    &&& calls[0] is PutJob
    &&& calls[0]->PutJob_0 == spec
    &&& calls[0]->PutJob_1.job_id == job_id
    &&& calls[0]->PutJob_1.state is Created
    &&& calls[0]->PutJob_1.phase is Init
    &&& calls[0]->PutJob_1.cursor.current_rollout_id == 0
    &&& calls[0]->PutJob_1.cursor.total_rollouts == spec.train_config.num_rollout
    &&& calls[0]->PutJob_1.fence_token == 0
    &&& calls[0]->PutJob_1.updated_at == instant
    &&& forall|i: int|
        0 <= i < log.len() ==> {
            let runtime = calls[i + 1]->UpdateRuntime_0;
            &&& calls[i + 1] is UpdateRuntime
            &&& runtime.job_id == job_id
            &&& runtime.state == (#[trigger] log[i]).state
            &&& runtime.phase == log[i].phase
            &&& runtime.cursor.current_rollout_id == log[i].rollout_id
            &&& runtime.cursor.total_rollouts == spec.train_config.num_rollout
            &&& runtime.fence_token == i + 1
        }
}

proof fn lemma_log_and_calls_of_whole_run(
    start: RunStart,
    log: Seq<TransitionRecord>,
    sent: Seq<SentCommand>,
    calls: Seq<StoreCall>,
)
    requires
        start.spec.valid(),
        start.made(log, sent, run::run_steps(start.spec)),
        start.asked(calls, run::run_steps(start.spec)),
    ensures
        log.len() >= start.log.len(),
        forall|i: int| 0 <= i < start.log.len() ==> (#[trigger] log[i])@ == start.log[i]@,
        logs_run(log.skip(start.log.len() as int), start.spec, start.job_id),
        calls.len() >= start.calls.len(),
        calls.take(start.calls.len() as int) == start.calls,
        asks_run(
            calls.skip(start.calls.len() as int),
            log.skip(start.log.len() as int),
            start.spec,
            start.job_id,
            start.instant,
        ),
{
    let steps = run::run_steps(start.spec);
    let first = start.log.len() as int;
    let added = log.skip(first);
    law_length_of_a_run(start.spec);
    law_whole_run_makes_all_steps(start, log, sent);
    law_log_of_a_run(start, log, sent, steps.len() as int);
    assert(run::log_view(added) =~= run::records_of(steps, start.job_id)) by {
        assert forall|i: int| 0 <= i < steps.len() implies #[trigger] run::log_view(added)[i]
            == run::records_of(steps, start.job_id)[i] by {
            let record = log[first + i];
            assert(added[i] == record);
            assert(record.state == steps[i].state);
            assert(run::log_view(added)[i] =~= run::records_of(steps, start.job_id)[i]);
        }
    }
    lemma_records_log_the_run(added, start.spec, start.job_id);
    law_store_calls_of_a_run(start, calls, steps);
    let begun = start.calls.len() as int;
    let asked = calls.skip(begun);
    assert(calls.take(begun) =~= start.calls);
    assert(asked[0] == calls[begun]);
    assert forall|i: int| 0 <= i < added.len() implies {
        let runtime = asked[i + 1]->UpdateRuntime_0;
        &&& asked[i + 1] is UpdateRuntime
        &&& runtime.job_id == start.job_id
        &&& runtime.state == (#[trigger] added[i]).state
        &&& runtime.phase == added[i].phase
        &&& runtime.cursor.current_rollout_id == added[i].rollout_id
        &&& runtime.cursor.total_rollouts == start.spec.train_config.num_rollout
        &&& runtime.fence_token == i + 1
    } by {
        assert(asked[i + 1] == calls[begun + 1 + i]);
        assert(added[i] == log[first + i]);
        assert(log[first + i].state == steps[i].state);
    }
}

proof fn lemma_commands_of_whole_run(
    start: RunStart,
    log: Seq<TransitionRecord>,
    sent: Seq<SentCommand>,
)
    requires
        start.spec.valid(),
        start.made(log, sent, run::run_steps(start.spec)),
    ensures
        sent.len() >= start.sent.len(),
        sent.take(start.sent.len() as int) == start.sent,
        sends_run(sent.skip(start.sent.len() as int), start.spec, start.job_id),
{
    let spec = start.spec;
    let steps = run::run_steps(spec);
    let first = start.sent.len() as int;
    let added = sent.skip(first);
    law_length_of_a_run(spec);
    law_whole_run_makes_all_steps(start, log, sent);
    law_commands_of_a_run(start, log, sent, steps.len() as int);
    law_run_opens_with_init_and_weights(spec);
    law_run_closes_with_cleanup(spec);
    assert(sent.take(first) =~= start.sent);
    assert forall|i: int| 0 <= i < added.len() implies {
        &&& (#[trigger] added[i]).context.job_id == start.job_id
        &&& added[i].context.attempt_id == 1
        &&& added[i].context.deadline_ms == 30_001 + i
        &&& added[i].context.request_id != 0
        &&& steps[i].command == Some(added[i].command)
    } by {
        assert(added[i] == sent[first + i]);
        assert(steps[i].command == Some(sent[first + i].command));
    }
    assert(steps[0].command == Some(added[0].command));
    assert(steps[1].command == Some(added[1].command));
    assert forall|rollout_id: u32|
        rollout_id < spec.train_config.num_rollout implies #[trigger] sends_rollout(
        added,
        spec,
        rollout_id,
    ) by {
        law_rollout_generates_trains_and_updates(spec, rollout_id);
        let at = rollout_start(spec, rollout_id);
        assert(steps[at].command == Some(added[at].command));
        assert(steps[at + 1].command == Some(added[at + 1].command));
        assert(steps[at + 2].command == Some(added[at + 2].command));
        if ends_interval(rollout_id, spec.eval_config.eval_interval) {
            assert(steps[at + 3].command == Some(added[at + 3].command));
            if ends_interval(rollout_id, spec.save_config.save_interval) {
                assert(steps[at + 4].command == Some(added[at + 4].command));
            }
        } else if ends_interval(rollout_id, spec.save_config.save_interval) {
            assert(steps[at + 3].command == Some(added[at + 3].command));
        }
    }
}

/// A run that comes to its end leaves the job stopped after its last rollout, and has logged,
/// ordered and stored each step, in turn, and nothing else. No other job is touched.
pub proof fn law_completed_run_call<S: StateStore, C: WorkerClient>(
    store: &mut S,
    client: &mut C,
    spec: JobSpec,
    job_id: JobId,
    instant: Timestamp,
    log: &mut Vec<TransitionRecord>,
    runtime: JobRuntime,
)
    requires
        call_ensures(
            run_job_with::<S, C>,
            (store, client, &spec, job_id, instant, log),
            Ok(runtime),
        ),
    ensures
        acceptable(spec),
        runtime.job_id == job_id,
        runtime.state is Stopped,
        runtime.phase is Cleanup,
        runtime.cursor.current_rollout_id == spec.train_config.num_rollout - 1,
        runtime.cursor.total_rollouts == spec.train_config.num_rollout,
        runtime.fence_token == final(log)@.len() - old(log)@.len(),
        final(log)@.len() >= old(log)@.len(),
        forall|i: int| 0 <= i < old(log)@.len() ==> (#[trigger] final(log)@[i])@ == old(log)@[i]@,
        logs_run(final(log)@.skip(old(log)@.len() as int), spec, job_id),
        final(client).sent().take(old(client).sent().len() as int) == old(client).sent(),
        sends_run(final(client).sent().skip(old(client).sent().len() as int), spec, job_id),
        final(store).calls().take(old(store).calls().len() as int) == old(store).calls(),
        asks_run(
            final(store).calls().skip(old(store).calls().len() as int),
            final(log)@.skip(old(log)@.len() as int),
            spec,
            job_id,
            instant,
        ),
        final(store).jobs().dom() == old(store).jobs().dom().insert(job_id),
        final(store).jobs()[job_id].spec == spec,
        final(store).jobs()[job_id].runtime.job_id == job_id,
        final(store).jobs()[job_id].runtime.state is Stopped,
        final(store).jobs()[job_id].runtime.phase is Cleanup,
        final(store).jobs()[job_id].runtime.cursor == runtime.cursor,
        final(store).jobs()[job_id].runtime.fence_token == runtime.fence_token,
        forall|other: JobId|
            other != job_id && old(store).jobs().dom().contains(other) ==> (
            #[trigger] final(store).jobs()[other]) == old(store).jobs()[other],
{
    let start = RunStart {
        job_id,
        spec,
        instant,
        jobs: old(store).jobs(),
        snapshots: old(store).snapshots(),
        calls: old(store).calls(),
        log: old(log)@,
        sent: old(client).sent(),
    };
    law_accepted_specification(spec);
    law_length_of_a_run(spec);
    lemma_log_and_calls_of_whole_run(
        start,
        final(log)@,
        final(client).sent(),
        final(store).calls(),
    );
    lemma_commands_of_whole_run(start, final(log)@, final(client).sent());
    assert(final(store).jobs().dom() =~= old(store).jobs().dom().insert(job_id));
}

/// What is said of a run where the workers fail on a command.
pub open spec fn names_failure(command: WorkerCommand, context: Seq<char>) -> bool {
    match command {
        WorkerCommand::Init => context == "worker init failed"@,
        WorkerCommand::Generate => context == "generate failed"@,
        WorkerCommand::TrainStep => context == "train step failed"@,
        WorkerCommand::UpdateWeights => context == "update_weights failed"@ || context
            == "initial update_weights failed"@,
        WorkerCommand::Eval => context == "eval failed"@,
        WorkerCommand::SaveCheckpoint => context == "save checkpoint failed"@,
    }
}

/// A job that is not acceptable is not run: nothing is stored, ordered or logged. A run that
/// breaks off in the store asked it for no more than the step that it failed at, and one that
/// breaks off at the workers has logged one record for each command sent and says which
/// command they failed on. Neither touches another job.
pub proof fn law_failed_run_call<S: StateStore, C: WorkerClient>(
    store: &mut S,
    client: &mut C,
    spec: JobSpec,
    job_id: JobId,
    instant: Timestamp,
    log: &mut Vec<TransitionRecord>,
    error: RunError,
)
    requires
        call_ensures(
            run_job_with::<S, C>,
            (store, client, &spec, job_id, instant, log),
            Err(error),
        ),
    ensures
        match error {
            RunError::Invalid(rule) => {
                &&& !acceptable(spec)
                &&& at_fault(spec, rule)
                &&& *final(store) == *old(store)
                &&& *final(client) == *old(client)
                &&& final(log)@ == old(log)@
            },
            RunError::Store(e) => {
                let steps = final(log)@.len() - old(log)@.len();
                let sent = final(client).sent().len() - old(client).sent().len();
                let asked = final(store).calls().len() - old(store).calls().len();
                &&& acceptable(spec)
                &&& !old(store).reliable()
                &&& !(e is NotFound)
                &&& asked == 1 && steps == 0 && sent == 0 || asked == steps + 2 && steps - 2
                    <= sent <= steps
                &&& final(store).calls()[old(store).calls().len() as int] is PutJob
                &&& forall|other: JobId|
                    other != job_id && old(store).jobs().dom().contains(other) ==> (
                    #[trigger] final(store).jobs()[other]) == old(store).jobs()[other]
            },
            RunError::Worker { context, .. } => {
                let sent = final(client).sent();
                &&& final(store).calls().len() - old(store).calls().len() == final(log)@.len()
                    - old(log)@.len() + 1
                &&& final(store).jobs().dom() == old(store).jobs().dom().insert(job_id)
                &&& final(store).jobs()[job_id].spec == spec
                &&& forall|other: JobId|
                    other != job_id && old(store).jobs().dom().contains(other) ==> (
                    #[trigger] final(store).jobs()[other]) == old(store).jobs()[other]
                &&& acceptable(spec)
                &&& !old(client).reliable()
                &&& sent.len() > old(client).sent().len()
                &&& final(log)@.len() - old(log)@.len() == sent.len() - old(client).sent().len()
                &&& names_failure(sent.last().command, context@)
                &&& context@ == "initial update_weights failed"@ ==> sent.len()
                    == old(client).sent().len() + 2
            },
        },
{
    let start = RunStart {
        job_id,
        spec,
        instant,
        jobs: old(store).jobs(),
        snapshots: old(store).snapshots(),
        calls: old(store).calls(),
        log: old(log)@,
        sent: old(client).sent(),
    };
    law_accepted_specification(spec);
    match error {
        RunError::Invalid(rule) => {
            law_reported_fault(spec, rule);
            assert(spec.breaks(rule));
        },
        RunError::Store(e) => {
            let steps = run::run_steps(spec);
            let first = old(store).calls().len() as int;
            if final(store).calls() == start.calls.push(start.put_call()) && start.stopped_after(
                final(log)@,
                final(client).sent(),
                0,
            ) {
                law_log_of_a_run(start, final(log)@, final(client).sent(), 0);
                law_commands_of_a_run(start, final(log)@, final(client).sent(), 0);
                law_run_closes_with_cleanup(spec);
            } else {
                let k = choose|k: int|
                    k < steps.len() && #[trigger] start.stopped_after(
                        final(log)@,
                        final(client).sent(),
                        k,
                    ) && start.asked(final(store).calls(), steps.take(k + 1));
                law_log_of_a_run(start, final(log)@, final(client).sent(), k);
                law_commands_of_a_run(start, final(log)@, final(client).sent(), k);
                assert(steps.take(k + 1).len() == k + 1);
            }
        },
        RunError::Worker { context, .. } => {
            let steps = run::run_steps(spec);
            assert(final(store).jobs().dom() =~= old(store).jobs().dom().insert(job_id));
            let k = choose|k: int|
                0 < k && #[trigger] start.stopped_after(final(log)@, final(client).sent(), k)
                    && start.asked(final(store).calls(), steps.take(k))
                    && steps[k - 1].command is Some && context@ == steps[k - 1].failure;
            law_log_of_a_run(start, final(log)@, final(client).sent(), k);
            law_commands_of_a_run(start, final(log)@, final(client).sent(), k);
            lemma_step_names_its_failure(spec, k - 1);
            assert(steps[k - 1].command is Some);
            law_run_closes_with_cleanup(spec);
            assert(k <= steps.len() - 2);
        },
    }
}

proof fn lemma_step_names_its_failure(spec: JobSpec, i: int)
    requires
        spec.valid(),
        0 <= i < run::run_steps(spec).len(),
        run::run_steps(spec)[i].command is Some,
    ensures
        names_failure(run::run_steps(spec)[i].command->0, run::run_steps(spec)[i].failure),
        run::run_steps(spec)[i].failure == "initial update_weights failed"@ ==> i == 1,
{
    law_run_opens_with_init_and_weights(spec);
    law_run_closes_with_cleanup(spec);
    reveal_strlit("worker init failed");
    reveal_strlit("initial update_weights failed");
    reveal_strlit("generate failed");
    reveal_strlit("train step failed");
    reveal_strlit("update_weights failed");
    reveal_strlit("eval failed");
    reveal_strlit("save checkpoint failed");
    let initial = "initial update_weights failed"@.len();
    assert("worker init failed"@.len() < initial);
    assert("generate failed"@.len() < initial);
    assert("train step failed"@.len() < initial);
    assert("update_weights failed"@.len() < initial);
    assert("eval failed"@.len() < initial);
    assert("save checkpoint failed"@.len() < initial);
    if i >= 2 {
        lemma_step_in_rollout(spec, i, spec.train_config.num_rollout);
    }
}

proof fn lemma_step_in_rollout(spec: JobSpec, i: int, rollouts: u32)
    requires
        spec.valid(),
        0 < rollouts <= spec.train_config.num_rollout,
        2 <= i,
        if rollouts == spec.train_config.num_rollout {
            i < run::run_steps(spec).len() - 2
        } else {
            i < rollout_start(spec, rollouts)
        },
    ensures
        ({
            let step = run::run_steps(spec)[i];
            ||| step.command == Some(WorkerCommand::Generate) && step.failure
                == "generate failed"@
            ||| step.command == Some(WorkerCommand::TrainStep) && step.failure
                == "train step failed"@
            ||| step.command == Some(WorkerCommand::UpdateWeights) && step.failure
                == "update_weights failed"@
            ||| step.command == Some(WorkerCommand::Eval) && step.failure == "eval failed"@
            ||| step.command == Some(WorkerCommand::SaveCheckpoint) && step.failure
                == "save checkpoint failed"@
        }),
    decreases rollouts,
{
    let last = (rollouts - 1) as u32;
    law_rollout_generates_trains_and_updates(spec, last);
    let at = rollout_start(spec, last);
    if i < at {
        if last > 0 {
            lemma_step_in_rollout(spec, i, last);
        } else {
            assert(at == 2) by {
                orchestrator::law_periodic_action_is_due_once_per_interval(
                    0,
                    spec.eval_config.eval_interval,
                );
                orchestrator::law_periodic_action_is_due_once_per_interval(
                    0,
                    spec.save_config.save_interval,
                );
            }
        }
    } else {
        assert(i <= at + 4);
    }
}

/// Every job may be validated and run, every action planned in every state, every plan tested,
/// and every plan placed whose GPUs can be counted in 32 bits.
pub proof fn law_allowed_calls(
    spec: JobSpec,
    state: JobState,
    action: JobAction,
    plan: ResourcePlan,
    use_critic: bool,
)
    ensures
        call_requires(JobSpec::validate, (&spec,)),
        call_requires(run_job, (&spec,)),
        call_requires(plan_action, (state, action)),
        call_requires(placement_fits, (&plan, use_critic)),
        gpus_of(plan, use_critic) < 0x1_0000_0000 ==> call_requires(
            build_placement_plan,
            (&plan, use_critic),
        ),
        gpus_of(spec.resource_plan, use_critic) < 0x1_0000_0000 ==> call_requires(
            place_job,
            (&spec, use_critic),
        ),
{
}

/// A periodic action may be asked for after every rollout but the last that can be counted, and a
/// command may be timed as long as its deadline can be counted.
pub proof fn law_allowed_steps(
    rollout_id: u32,
    interval: Option<u32>,
    job_id: JobId,
    fence_token: u64,
)
    ensures
        rollout_id < u32::MAX ==> call_requires(should_run_periodic_action, (rollout_id, interval)),
        fence_token <= u64::MAX - 30_000 ==> call_requires(command_context, (job_id, fence_token)),
{
}

/// A failed run is told by its cause.
pub proof fn law_run_message_call(error: RunError, r: String)
    requires
        call_ensures(RunError::message, (&error,), r),
    ensures
        match error {
            RunError::Invalid(_) => r@ == "jobspec validation failed"@,
            RunError::Store(cause) => r@ == cause_text(cause@),
            RunError::Worker { context, .. } => r@ == context@,
        },
{
}

} // verus!
