//! Laws on the steps, the records, the commands and the store calls of a run.
use crate::api::{JobSpec, ValidationError};
use crate::ids;
use crate::ids::JobId;
use crate::orchestrator;
use crate::orchestrator::TransitionRecord;
use crate::run;
use crate::run::{RunError, RunStart, RunStep};
use crate::state_store::{Jobs, StoreCall, StoreError};
use crate::worker_client::{SentCommand, WorkerCommand};
use vstd::prelude::*;

verus! {

/// How many whole intervals a number of rollouts holds.
pub open spec fn whole_intervals(rollouts: nat, interval: Option<u32>) -> nat {
    match interval {
        Some(i) if i > 0 => rollouts / (i as nat),
        _ => 0,
    }
}

/// Whether a rollout is the last of a whole interval.
pub open spec fn ends_interval(rollout_id: u32, interval: Option<u32>) -> bool {
    interval matches Some(i) && i > 0 && (rollout_id + 1) % (i as int) == 0
}

/// The place of the first step of a rollout in the run.
pub open spec fn rollout_start(spec: JobSpec, rollout_id: u32) -> int {
    2 + 3 * rollout_id + whole_intervals(rollout_id as nat, spec.eval_config.eval_interval)
        + whole_intervals(rollout_id as nat, spec.save_config.save_interval)
}

/// A run of a job, of whatever mode, has two steps before its rollouts, three in each rollout,
/// one for each whole interval between evaluations and between checkpoints, and two at its
/// end.
pub proof fn law_length_of_a_run(spec: JobSpec)
    requires
        spec.valid(),
    ensures
        run::run_steps(spec).len() == 4 + 3 * spec.train_config.num_rollout + whole_intervals(
            spec.train_config.num_rollout as nat,
            spec.eval_config.eval_interval,
        ) + whole_intervals(
            spec.train_config.num_rollout as nat,
            spec.save_config.save_interval,
        ),
        run::run_steps(spec).len() <= 4 + 5 * spec.train_config.num_rollout,
{
    let rollouts = spec.train_config.num_rollout as nat;
    run::lemma_counts_through(spec, rollouts);
    run::lemma_through_is_prefix(spec, 0, rollouts);
    orchestrator::law_periodic_action_is_due_once_per_interval(
        rollouts,
        spec.eval_config.eval_interval,
    );
    orchestrator::law_periodic_action_is_due_once_per_interval(
        rollouts,
        spec.save_config.save_interval,
    );
}

/// A run starts the job, with an order to initialise, and then brings the weights out, both
/// in the first rollout.
pub proof fn law_run_opens_with_init_and_weights(spec: JobSpec)
    requires
        spec.valid(),
    ensures
        ({
            let steps = run::run_steps(spec);
            &&& steps.len() >= 2
            &&& steps[0].state is Starting
            &&& steps[0].phase is Init
            &&& steps[0].rollout_id == 0
            &&& steps[0].message == "job starting"@
            &&& steps[0].command == Some(WorkerCommand::Init)
            &&& steps[0].failure == "worker init failed"@
            &&& steps[1].state is Running
            &&& steps[1].phase is UpdateWeights
            &&& steps[1].rollout_id == 0
            &&& steps[1].message == "initial weight update"@
            &&& steps[1].command == Some(WorkerCommand::UpdateWeights)
            &&& steps[1].failure == "initial update_weights failed"@
        }),
{
    let rollouts = spec.train_config.num_rollout as nat;
    run::lemma_through_is_prefix(spec, 0, rollouts);
    let through = run::steps_through(spec, rollouts);
    assert(through.take(2)[0] == run::opening_steps()[0]);
    assert(through.take(2)[1] == run::opening_steps()[1]);
    assert(run::run_steps(spec)[0] == through[0]);
    assert(run::run_steps(spec)[1] == through[1]);
}

/// In each rollout of a run the workers generate, then train, then get the new weights, in
/// this order, whatever the mode of the job. Where the rollout ends an interval between
/// evaluations an evaluation follows, and where it ends one between checkpoints a checkpoint
/// comes last. The next rollout starts right behind.
pub proof fn law_rollout_generates_trains_and_updates(spec: JobSpec, rollout_id: u32)
    requires
        spec.valid(),
        rollout_id < spec.train_config.num_rollout,
    ensures
        ({
            let steps = run::run_steps(spec);
            let at = rollout_start(spec, rollout_id);
            let evaluates = ends_interval(rollout_id, spec.eval_config.eval_interval);
            let saves = ends_interval(rollout_id, spec.save_config.save_interval);
            let save_at = if evaluates {
                at + 4
            } else {
                at + 3
            };
            let end = if saves {
                save_at + 1
            } else {
                save_at
            };
            &&& 2 <= at
            &&& end <= steps.len() - 2
            &&& rollout_id + 1 < spec.train_config.num_rollout ==> rollout_start(
                spec,
                (rollout_id + 1) as u32,
            ) == end
            &&& rollout_id + 1 == spec.train_config.num_rollout ==> steps.len() - 2 == end
            &&& forall|i: int|
                at <= i < end ==> (#[trigger] steps[i]).rollout_id == rollout_id
                    && steps[i].state is Running
            &&& steps[at].phase is Generate
            &&& steps[at].command == Some(WorkerCommand::Generate)
            &&& steps[at].message == "generate"@
            &&& steps[at].failure == "generate failed"@
            &&& steps[at + 1].phase is Train
            &&& steps[at + 1].command == Some(WorkerCommand::TrainStep)
            &&& steps[at + 1].message == "train"@
            &&& steps[at + 1].failure == "train step failed"@
            &&& steps[at + 2].phase is UpdateWeights
            &&& steps[at + 2].command == Some(WorkerCommand::UpdateWeights)
            &&& steps[at + 2].message == "update weights"@
            &&& steps[at + 2].failure == "update_weights failed"@
            &&& evaluates ==> {
                &&& steps[at + 3].phase is Eval
                &&& steps[at + 3].command == Some(WorkerCommand::Eval)
                &&& steps[at + 3].message == "eval"@
                &&& steps[at + 3].failure == "eval failed"@
            }
            &&& saves ==> {
                &&& steps[save_at].phase is Save
                &&& steps[save_at].command == Some(WorkerCommand::SaveCheckpoint)
                &&& steps[save_at].message == "save"@
                &&& steps[save_at].failure == "save checkpoint failed"@
            }
        }),
{
    let eval = spec.eval_config.eval_interval;
    let save = spec.save_config.save_interval;
    let next = (rollout_id + 1) as nat;
    let all = spec.train_config.num_rollout as nat;
    let at = rollout_start(spec, rollout_id);
    let steps = run::run_steps(spec);
    let own = run::rollout_steps(spec, rollout_id);
    run::lemma_rollout_in_script(spec, rollout_id);
    run::lemma_counts_through(spec, rollout_id as nat);
    run::lemma_counts_through(spec, next);
    orchestrator::law_periodic_action_is_due_once_per_interval(rollout_id as nat, eval);
    orchestrator::law_periodic_action_is_due_once_per_interval(rollout_id as nat, save);
    orchestrator::law_periodic_action_is_due_once_per_interval(next, eval);
    orchestrator::law_periodic_action_is_due_once_per_interval(next, save);
    assert(run::steps_through(spec, rollout_id as nat).len() == at);
    assert(orchestrator::is_due(rollout_id as nat, eval) == ends_interval(rollout_id, eval));
    assert(orchestrator::is_due(rollout_id as nat, save) == ends_interval(rollout_id, save));
    assert(steps[at] == own[0]);
    assert(steps[at + 1] == own[1]);
    assert(steps[at + 2] == own[2]);
    if own.len() > 3 {
        assert(steps[at + 3] == own[3]);
    }
    if own.len() > 4 {
        assert(steps[at + 4] == own[4]);
    }
    assert forall|i: int| at <= i < at + own.len() implies (#[trigger] steps[i]).rollout_id
        == rollout_id && steps[i].state is Running by {
        assert(steps[i] == own[i - at]);
    }
    assert(steps.len() == run::steps_through(spec, all).len() + 2);
}

/// A run ends with a cleanup of the stopping job and then stops it, without orders to the
/// workers, both in the last rollout.
pub proof fn law_run_closes_with_cleanup(spec: JobSpec)
    requires
        spec.valid(),
    ensures
        ({
            let steps = run::run_steps(spec);
            let at = steps.len() - 2;
            &&& at >= 2
            &&& steps[at].state is Stopping
            &&& steps[at].phase is Cleanup
            &&& steps[at].rollout_id + 1 == spec.train_config.num_rollout
            &&& steps[at].message == "cleanup"@
            &&& steps[at].command is None
            &&& steps[at + 1].state is Stopped
            &&& steps[at + 1].phase is Cleanup
            &&& steps[at + 1].rollout_id + 1 == spec.train_config.num_rollout
            &&& steps[at + 1].message == "job stopped"@
            &&& steps[at + 1].command is None
        }),
{
    assert(!spec.breaks(ValidationError::InvalidTrainConfig));
    run::lemma_through_is_prefix(spec, 0, spec.train_config.num_rollout as nat);
    let closing = run::closing_steps((spec.train_config.num_rollout - 1) as u32);
    let steps = run::run_steps(spec);
    assert(steps[steps.len() - 2] == closing[0]);
    assert(steps[steps.len() - 1] == closing[1]);
}

/// The number of rollouts and the two intervals decide what a run does: jobs that agree on
/// these run alike, in whatever mode, on whatever backend and GPUs.
pub proof fn law_rollouts_and_intervals_decide_a_run(a: JobSpec, b: JobSpec)
    requires
        a.train_config.num_rollout == b.train_config.num_rollout,
        a.eval_config.eval_interval == b.eval_config.eval_interval,
        a.save_config.save_interval == b.save_config.save_interval,
    ensures
        run::run_steps(a) == run::run_steps(b),
{
    lemma_same_steps_through(a, b, a.train_config.num_rollout as nat);
}

proof fn lemma_same_steps_through(a: JobSpec, b: JobSpec, rollouts: nat)
    requires
        a.eval_config.eval_interval == b.eval_config.eval_interval,
        a.save_config.save_interval == b.save_config.save_interval,
    ensures
        run::steps_through(a, rollouts) == run::steps_through(b, rollouts),
    decreases rollouts,
{
    if rollouts > 0 {
        lemma_same_steps_through(a, b, (rollouts - 1) as nat);
    }
}

/// All steps of a run but the last two order something of the workers.
proof fn lemma_steps_with_orders(spec: JobSpec)
    requires
        spec.valid(),
    ensures
        ({
            let steps = run::run_steps(spec);
            &&& steps.len() >= 4
            &&& forall|i: int|
                0 <= i < steps.len() ==> ((#[trigger] steps[i]).command is Some <==> i
                    < steps.len() - 2)
        }),
{
    let rollouts = spec.train_config.num_rollout as nat;
    run::lemma_through_is_prefix(spec, 0, rollouts);
    law_run_closes_with_cleanup(spec);
    lemma_orders_through(spec, rollouts);
    let steps = run::run_steps(spec);
    let through = run::steps_through(spec, rollouts);
    assert forall|i: int| 0 <= i < steps.len() implies ((#[trigger] steps[i]).command is Some <==> i
        < steps.len() - 2) by {
        if i < steps.len() - 2 {
            assert(steps[i] == through[i]);
        } else {
            assert(i == steps.len() - 2 || i == steps.len() - 1);
        }
    }
}

proof fn lemma_orders_through(spec: JobSpec, rollouts: nat)
    ensures
        forall|i: int|
            0 <= i < run::steps_through(spec, rollouts).len() ==> (
            #[trigger] run::steps_through(spec, rollouts)[i]).command is Some,
    decreases rollouts,
{
    if rollouts > 0 {
        lemma_orders_through(spec, (rollouts - 1) as nat);
        let earlier = run::steps_through(spec, (rollouts - 1) as nat);
        let own = run::rollout_steps(spec, (rollouts - 1) as u32);
        let through = run::steps_through(spec, rollouts);
        assert forall|i: int| 0 <= i < through.len() implies (#[trigger] through[i]).command
            is Some by {
            if i < earlier.len() {
                assert(through[i] == earlier[i]);
            } else {
                assert(through[i] == own[i - earlier.len()]);
            }
        }
    }
}

/// Where the first `k` steps of a run were made, the workers got one command for each of
/// them that is not one of the two closing steps: that of the step, with a deadline of 30
/// seconds and as many milliseconds on top as steps were made.
proof fn lemma_commands_of_first_steps(spec: JobSpec, k: int)
    requires
        spec.valid(),
        0 <= k <= run::run_steps(spec).len(),
    ensures
        ({
            let steps = run::run_steps(spec);
            let commands = run::commands_of(steps.take(k));
            &&& commands.len() == if k <= steps.len() - 2 {
                k
            } else {
                steps.len() - 2
            }
            &&& forall|i: int|
                0 <= i < commands.len() ==> Some((#[trigger] commands[i]).command)
                    == steps[i].command && commands[i].deadline_ms == 30_001 + i
        }),
    decreases k,
{
    let steps = run::run_steps(spec);
    lemma_steps_with_orders(spec);
    if k > 0 {
        lemma_commands_of_first_steps(spec, k - 1);
        assert(steps.take(k).drop_last() =~= steps.take(k - 1));
        assert(steps.take(k).last() == steps[k - 1]);
    }
}

/// The records that steps leave in a log tell each step in turn, under the id of the job,
/// with fence tokens that count from one.
pub proof fn law_records_tell_the_steps(
    log: Seq<TransitionRecord>,
    steps: Seq<RunStep>,
    job_id: JobId,
)
    requires
        run::log_view(log) == run::records_of(steps, job_id),
        steps.len() <= u64::MAX,
    ensures
        log.len() == steps.len(),
        forall|i: int|
            0 <= i < log.len() ==> {
                &&& (#[trigger] log[i]).job_id == job_id
                &&& log[i].state == steps[i].state
                &&& log[i].phase == steps[i].phase
                &&& log[i].rollout_id == steps[i].rollout_id
                &&& log[i].fence == i + 1
                &&& log[i].message@ == steps[i].message
            },
{
    assert(run::log_view(log).len() == log.len());
    assert forall|i: int| 0 <= i < log.len() implies {
        &&& (#[trigger] log[i]).job_id == job_id
        &&& log[i].state == steps[i].state
        &&& log[i].phase == steps[i].phase
        &&& log[i].rollout_id == steps[i].rollout_id
        &&& log[i].fence == i + 1
        &&& log[i].message@ == steps[i].message
    } by {
        assert(run::log_view(log)[i] == log[i]@);
        assert(run::records_of(steps, job_id)[i] == log[i]@);
    }
}

/// A run that made the first `k` steps has added `k` records to the log, which tell these
/// steps, and no other, and kept those that were there.
pub proof fn law_log_of_a_run(
    start: RunStart,
    log: Seq<TransitionRecord>,
    sent: Seq<SentCommand>,
    k: int,
)
    requires
        start.spec.valid(),
        start.stopped_after(log, sent, k),
    ensures
        ({
            let steps = run::run_steps(start.spec);
            let first = start.log.len();
            &&& 0 <= k <= steps.len()
            &&& log.len() == first + k
            &&& forall|i: int| 0 <= i < first ==> (#[trigger] log[i])@ == start.log[i]@
            &&& forall|i: int|
                0 <= i < k ==> {
                    let record = log[first + i];
                    &&& record.job_id == start.job_id
                    &&& record.state == (#[trigger] steps[i]).state
                    &&& record.phase == steps[i].phase
                    &&& record.rollout_id == steps[i].rollout_id
                    &&& record.fence == i + 1
                    &&& record.message@ == steps[i].message
                }
        }),
{
    let steps = run::run_steps(start.spec);
    let first = start.log.len();
    let made = steps.take(k);
    law_length_of_a_run(start.spec);
    assert(run::log_view(log).len() == log.len());
    assert(run::log_view(start.log).len() == first);
    assert(run::records_of(made, start.job_id).len() == k);
    assert forall|i: int| 0 <= i < first implies (#[trigger] log[i])@ == start.log[i]@ by {
        assert(run::log_view(log)[i] == log[i]@);
        assert(run::log_view(start.log)[i] == start.log[i]@);
    }
    assert forall|i: int| 0 <= i < k implies {
        let record = log[first + i];
        &&& record.job_id == start.job_id
        &&& record.state == (#[trigger] steps[i]).state
        &&& record.phase == steps[i].phase
        &&& record.rollout_id == steps[i].rollout_id
        &&& record.fence == i + 1
        &&& record.message@ == steps[i].message
    } by {
        assert(run::log_view(log)[first + i] == log[first + i]@);
        assert(run::records_of(made, start.job_id)[i] == log[first + i]@);
        assert(made[i] == steps[i]);
    }
}

/// A run that made the first `k` steps has sent the command of each of them in turn, and no
/// other, behind those that were sent before: for its job, at the first attempt, under a
/// request id that is not nil, with a deadline of 30 seconds and one millisecond more for
/// each step so far.
pub proof fn law_commands_of_a_run(
    start: RunStart,
    log: Seq<TransitionRecord>,
    sent: Seq<SentCommand>,
    k: int,
)
    requires
        start.spec.valid(),
        start.stopped_after(log, sent, k),
    ensures
        ({
            let steps = run::run_steps(start.spec);
            let first = start.sent.len();
            let orders = if k <= steps.len() - 2 {
                k
            } else {
                steps.len() - 2
            };
            &&& sent.len() == first + orders
            &&& forall|i: int| 0 <= i < first ==> #[trigger] sent[i] == start.sent[i]
            &&& forall|i: int|
                0 <= i < orders ==> {
                    let order = sent[first + i];
                    &&& (#[trigger] steps[i]).command == Some(order.command)
                    &&& order.context.job_id == start.job_id
                    &&& order.context.attempt_id == 1
                    &&& order.context.deadline_ms == 30_001 + i
                    &&& order.context.request_id != 0
                }
        }),
{
    let steps = run::run_steps(start.spec);
    let first = start.sent.len();
    let commands = run::commands_of(steps.take(k));
    lemma_commands_of_first_steps(start.spec, k);
    assert forall|i: int| 0 <= i < first implies #[trigger] sent[i] == start.sent[i] by {
        assert(sent.take(first as int)[i] == sent[i]);
    }
    assert forall|i: int| 0 <= i < commands.len() implies {
        let order = sent[first + i];
        &&& (#[trigger] steps[i]).command == Some(order.command)
        &&& order.context.job_id == start.job_id
        &&& order.context.attempt_id == 1
        &&& order.context.deadline_ms == 30_001 + i
        &&& order.context.request_id != 0
    } by {
        assert(run::carries(sent[first + i], start.job_id, commands[i]));
        ids::law_random_id_is_not_nil(sent[first + i].context.request_id);
    }
}

/// What a run that came to its end has made is what one has made that stopped after all of
/// its steps.
pub proof fn law_whole_run_makes_all_steps(
    start: RunStart,
    log: Seq<TransitionRecord>,
    sent: Seq<SentCommand>,
)
    ensures
        start.made(log, sent, run::run_steps(start.spec)) <==> start.stopped_after(
            log,
            sent,
            run::run_steps(start.spec).len() as int,
        ),
{
    let steps = run::run_steps(start.spec);
    assert(steps.take(steps.len() as int) =~= steps);
}

/// A run asks the store to put in the new job, as it was created, and then to take its
/// runtime after each step, once and in turn, and asks nothing else.
pub proof fn law_store_calls_of_a_run(start: RunStart, calls: Seq<StoreCall>, steps: Seq<RunStep>)
    requires
        start.asked(calls, steps),
        steps.len() <= u64::MAX,
    ensures
        ({
            let first = start.calls.len();
            &&& calls.len() == first + 1 + steps.len()
            &&& forall|i: int| 0 <= i < first ==> #[trigger] calls[i] == start.calls[i]
            &&& calls[first as int] matches StoreCall::PutJob(spec, runtime) && {
                &&& spec == start.spec
                &&& runtime.job_id == start.job_id
                &&& runtime.state is Created
                &&& runtime.phase is Init
                &&& runtime.cursor.current_rollout_id == 0
                &&& runtime.cursor.total_rollouts == start.spec.train_config.num_rollout
                &&& runtime.fence_token == 0
                &&& runtime.updated_at == start.instant
            }
            &&& forall|i: int|
                0 <= i < steps.len() ==> {
                    let step = #[trigger] steps[i];
                    calls[first + 1 + i] matches StoreCall::UpdateRuntime(runtime) && {
                        &&& runtime.job_id == start.job_id
                        &&& runtime.state == step.state
                        &&& runtime.phase == step.phase
                        &&& runtime.cursor.current_rollout_id == step.rollout_id
                        &&& runtime.cursor.total_rollouts == start.spec.train_config.num_rollout
                        &&& runtime.fence_token == i + 1
                        &&& runtime.updated_at.nanos < 1_000_000_000
                    }
                }
        }),
{
    let first = start.calls.len();
    assert forall|i: int| 0 <= i < first implies #[trigger] calls[i] == start.calls[i] by {
        assert(calls.take(first as int)[i] == calls[i]);
    }
    assert forall|i: int| 0 <= i < steps.len() implies {
        let step = #[trigger] steps[i];
        calls[first + 1 + i] matches StoreCall::UpdateRuntime(runtime) && {
            &&& runtime.job_id == start.job_id
            &&& runtime.state == step.state
            &&& runtime.phase == step.phase
            &&& runtime.cursor.current_rollout_id == step.rollout_id
            &&& runtime.cursor.total_rollouts == start.spec.train_config.num_rollout
            &&& runtime.fence_token == i + 1
            &&& runtime.updated_at.nanos < 1_000_000_000
        }
    } by {
        assert(start.hands_over(calls[first + 1 + i], steps[i], i));
    }
}

/// A run leaves its job in the store, with the specification that it was asked to run, and
/// no other job is added, lost or changed.
pub proof fn law_run_touches_its_job_alone(start: RunStart, jobs: Jobs, other: JobId)
    requires
        start.stored(jobs),
        other != start.job_id,
    ensures
        jobs.dom().contains(start.job_id),
        jobs[start.job_id].spec == start.spec,
        jobs[start.job_id].runtime.job_id == start.job_id,
        jobs.dom().contains(other) == start.jobs.dom().contains(other),
        start.jobs.dom().contains(other) ==> jobs[other] == start.jobs[other],
{
}

/// The text of a failed run is that of the failed store, or says which order failed, or that
/// the job was refused.
pub proof fn law_run_error_texts(error: RunError)
    ensures
        match error {
            RunError::Invalid(_) => error.text() == "jobspec validation failed"@,
            RunError::Store(StoreError::Io(cause)) => error.text() == "io error: "@ + cause@,
            RunError::Store(StoreError::Serialization(cause)) => error.text()
                == "serialization error: "@ + cause@,
            RunError::Store(StoreError::InvalidSnapshotName(name)) => error.text()
                == "invalid snapshot filename: "@ + name@,
            RunError::Store(StoreError::NotFound(job_id)) => error.text() == "job "@
                + ids::id_text(job_id) + " not found"@,
            RunError::Worker { context, .. } => error.text() == context@,
        },
{
}

} // verus!
