use crate::api::{JobRuntime, JobSpec, JobState, LoopPhase, RolloutCursor, ValidationError};
use crate::clock::{now, Timestamp};
use crate::ids;
use crate::ids::JobId;
use crate::orchestrator;
use crate::orchestrator::{
    command_context, should_run_periodic_action, transition, RecordView, TransitionRecord,
};
use crate::state_store;
use crate::state_store::{InMemoryStateStore, Jobs, StateStore, StoreCall, StoreError};
use crate::worker_client;
use crate::worker_client::{
    CommandContext, CommandResult, MockWorkerClient, SentCommand, WorkerClient, WorkerCommand,
    WorkerError,
};
use vstd::prelude::*;

verus! {

/// One step of a run: the transition that the job makes, the rollout that it makes it in,
/// and the command that the workers then get, with what is reported where they fail on it.
#[verifier::ext_equal]
pub struct RunStep {
    pub state: JobState,
    pub phase: LoopPhase,
    pub rollout_id: u32,
    pub message: Seq<char>,
    pub command: Option<WorkerCommand>,
    pub failure: Seq<char>,
}

/// The steps before the first rollout.
pub open spec fn opening_steps() -> Seq<RunStep> {
    seq![
        RunStep {
            state: JobState::Starting,
            phase: LoopPhase::Init,
            rollout_id: 0,
            message: "job starting"@,
            command: Some(WorkerCommand::Init),
            failure: "worker init failed"@,
        },
        RunStep {
            state: JobState::Running,
            phase: LoopPhase::UpdateWeights,
            rollout_id: 0,
            message: "initial weight update"@,
            command: Some(WorkerCommand::UpdateWeights),
            failure: "initial update_weights failed"@,
        },
    ]
}

pub open spec fn generate_step(rollout_id: u32) -> RunStep {
    RunStep {
        state: JobState::Running,
        phase: LoopPhase::Generate,
        rollout_id,
        message: "generate"@,
        command: Some(WorkerCommand::Generate),
        failure: "generate failed"@,
    }
}

pub open spec fn train_step(rollout_id: u32) -> RunStep {
    RunStep {
        state: JobState::Running,
        phase: LoopPhase::Train,
        rollout_id,
        message: "train"@,
        command: Some(WorkerCommand::TrainStep),
        failure: "train step failed"@,
    }
}

pub open spec fn update_step(rollout_id: u32) -> RunStep {
    RunStep {
        state: JobState::Running,
        phase: LoopPhase::UpdateWeights,
        rollout_id,
        message: "update weights"@,
        command: Some(WorkerCommand::UpdateWeights),
        failure: "update_weights failed"@,
    }
}

pub open spec fn eval_step(rollout_id: u32) -> RunStep {
    RunStep {
        state: JobState::Running,
        phase: LoopPhase::Eval,
        rollout_id,
        message: "eval"@,
        command: Some(WorkerCommand::Eval),
        failure: "eval failed"@,
    }
}

pub open spec fn save_step(rollout_id: u32) -> RunStep {
    RunStep {
        state: JobState::Running,
        phase: LoopPhase::Save,
        rollout_id,
        message: "save"@,
        command: Some(WorkerCommand::SaveCheckpoint),
        failure: "save checkpoint failed"@,
    }
}

/// The steps of a rollout: generation, training and a weight update, then an evaluation and
/// a checkpoint where these are due.
pub open spec fn rollout_steps(spec: JobSpec, rollout_id: u32) -> Seq<RunStep> {
    seq![generate_step(rollout_id), train_step(rollout_id), update_step(rollout_id)]
        + if orchestrator::is_due(rollout_id as nat, spec.eval_config.eval_interval) {
        seq![eval_step(rollout_id)]
    } else {
        Seq::empty()
    } + if orchestrator::is_due(rollout_id as nat, spec.save_config.save_interval) {
        seq![save_step(rollout_id)]
    } else {
        Seq::empty()
    }
}

/// The steps up to the end of a number of rollouts.
pub open spec fn steps_through(spec: JobSpec, rollouts: nat) -> Seq<RunStep>
    decreases rollouts,
{
    if rollouts == 0 {
        opening_steps()
    } else {
        steps_through(spec, (rollouts - 1) as nat) + rollout_steps(spec, (rollouts - 1) as u32)
    }
}

/// The steps after the last rollout.
pub open spec fn closing_steps(last_rollout: u32) -> Seq<RunStep> {
    seq![
        RunStep {
            state: JobState::Stopping,
            phase: LoopPhase::Cleanup,
            rollout_id: last_rollout,
            message: "cleanup"@,
            command: None,
            failure: Seq::empty(),
        },
        RunStep {
            state: JobState::Stopped,
            phase: LoopPhase::Cleanup,
            rollout_id: last_rollout,
            message: "job stopped"@,
            command: None,
            failure: Seq::empty(),
        },
    ]
}

/// The steps of a whole run of a valid job.
pub open spec fn run_steps(spec: JobSpec) -> Seq<RunStep> {
    steps_through(spec, spec.train_config.num_rollout as nat) + closing_steps(
        (spec.train_config.num_rollout - 1) as u32,
    )
}

/// The records of the transitions that `steps` make from the start of a job on.
pub open spec fn records_of(steps: Seq<RunStep>, job_id: JobId) -> Seq<RecordView> {
    Seq::new(
        steps.len(),
        |i: int|
            RecordView {
                job_id,
                state: steps[i].state,
                phase: steps[i].phase,
                rollout_id: steps[i].rollout_id,
                fence: (i + 1) as u64,
                message: steps[i].message,
            },
    )
}

/// A command with its deadline.
pub struct TimedCommand {
    pub command: WorkerCommand,
    pub deadline_ms: nat,
}

/// The commands of `steps`, taken from the start of a job on.
pub open spec fn commands_of(steps: Seq<RunStep>) -> Seq<TimedCommand>
    decreases steps.len(),
{
    if steps.len() == 0 {
        Seq::empty()
    } else {
        let earlier = commands_of(steps.drop_last());
        match steps.last().command {
            Some(command) => earlier.push(
                TimedCommand { command, deadline_ms: 30_000 + steps.len() },
            ),
            None => earlier,
        }
    }
}

/// The command was sent for the job, at the first attempt, with the deadline that is due.
pub open spec fn carries(sent: SentCommand, job_id: JobId, command: TimedCommand) -> bool {
    &&& sent.command == command.command
    &&& sent.context.job_id == job_id
    &&& sent.context.attempt_id == 1
    &&& sent.context.deadline_ms == command.deadline_ms
    &&& ids::is_random_id(sent.context.request_id)
}

/// The contents of the log.
pub open spec fn log_view(log: Seq<TransitionRecord>) -> Seq<RecordView> {
    log.map_values(|record: TransitionRecord| record@)
}

/// What a run found when it began.
pub struct RunStart {
    pub job_id: JobId,
    pub spec: JobSpec,
    pub instant: Timestamp,
    pub jobs: Jobs,
    pub snapshots: Jobs,
    pub calls: Seq<StoreCall>,
    pub log: Seq<TransitionRecord>,
    pub sent: Seq<SentCommand>,
}

impl RunStart {
    /// Exactly `steps` were made: each has its record in the log, and the commands of them
    /// were sent in their order, and no others.
    pub open spec fn made(
        self,
        log: Seq<TransitionRecord>,
        sent: Seq<SentCommand>,
        steps: Seq<RunStep>,
    ) -> bool {
        let commands = commands_of(steps);
        &&& log_view(log) == log_view(self.log) + records_of(steps, self.job_id)
        &&& sent.len() == self.sent.len() + commands.len()
        &&& sent.take(self.sent.len() as int) == self.sent
        &&& forall|i: int|
            0 <= i < commands.len() ==> carries(
                sent[self.sent.len() + i],
                self.job_id,
                #[trigger] commands[i],
            )
    }

    /// The call that puts the job in.
    pub open spec fn put_call(self) -> StoreCall {
        StoreCall::PutJob(self.spec, JobRuntime::fresh(self.job_id, self.spec, self.instant))
    }

    /// The call hands the runtime to the store that the job has after its step number `i`.
    pub open spec fn hands_over(self, call: StoreCall, step: RunStep, i: int) -> bool {
        call matches StoreCall::UpdateRuntime(runtime) && runtime == (JobRuntime {
            job_id: self.job_id,
            state: step.state,
            phase: step.phase,
            cursor: RolloutCursor {
                current_rollout_id: step.rollout_id,
                total_rollouts: self.spec.train_config.num_rollout,
            },
            fence_token: (i + 1) as u64,
            updated_at: runtime.updated_at,
        }) && runtime.updated_at.of_clock()
    }

    /// The store was asked to put the job in and then, once for each of `steps`, to take its
    /// new runtime, and for nothing else.
    pub open spec fn asked(self, calls: Seq<StoreCall>, steps: Seq<RunStep>) -> bool {
        let first = self.calls.len() as int;
        &&& calls.len() == first + 1 + steps.len()
        &&& calls.take(first) == self.calls
        &&& calls[first] == self.put_call()
        &&& forall|i: int|
            0 <= i < steps.len() ==> self.hands_over(calls[first + 1 + i], #[trigger] steps[i], i)
    }

    /// The store holds the job of the run, and all other jobs as before.
    pub open spec fn stored(self, jobs: Jobs) -> bool {
        &&& jobs == state_store::with_job(self.jobs, self.spec, jobs[self.job_id].runtime)
        &&& jobs[self.job_id].runtime.job_id == self.job_id
    }

    /// The run has made the first steps of its script, as many as its fence token says.
    spec fn under_way<S: StateStore>(
        self,
        store: S,
        log: Seq<TransitionRecord>,
        sent: Seq<SentCommand>,
        runtime: JobRuntime,
    ) -> bool {
        &&& self.stored(store.jobs())
        &&& state_store::same_but_one(self.snapshots, store.snapshots(), self.job_id)
        &&& self.asked(store.calls(), run_steps(self.spec).take(runtime.fence_token as int))
        &&& runtime.job_id == self.job_id
        &&& runtime.cursor.total_rollouts == self.spec.train_config.num_rollout
        &&& runtime.fence_token <= run_steps(self.spec).len()
        &&& self.made(log, sent, run_steps(self.spec).take(runtime.fence_token as int))
    }

    /// The run stopped after the first `k` steps of its script.
    pub open spec fn stopped_after(
        self,
        log: Seq<TransitionRecord>,
        sent: Seq<SentCommand>,
        k: int,
    ) -> bool {
        0 <= k <= run_steps(self.spec).len() && self.made(log, sent, run_steps(self.spec).take(k))
    }
}

/// Why a run ended early.
#[derive(Debug, PartialEq, Eq)]
pub enum RunError {
    Invalid(ValidationError),
    Store(StoreError),
    Worker { context: &'static str, error: WorkerError },
}

impl RunError {
    /// The text shown for this error.
    pub open spec fn text(self) -> Seq<char> {
        match self {
            RunError::Invalid(_) => "jobspec validation failed"@,
            RunError::Store(error) => error@.text(),
            RunError::Worker { context, .. } => context@,
        }
    }

    pub fn message(&self) -> (r: String)
        ensures
            r@ == self.text(),
    {
        match self {
            RunError::Invalid(_) => "jobspec validation failed".to_string(),
            RunError::Store(error) => error.message(),
            RunError::Worker { context, .. } => (*context).to_string(),
        }
    }
}

proof fn lemma_update_keeps_stored(start: RunStart, before: Jobs, after: Jobs, runtime: JobRuntime)
    requires
        start.stored(before),
        runtime.job_id == start.job_id,
        after == before || state_store::runtime_updated(before, after, runtime),
    ensures
        start.stored(after),
{
    assert(after =~= state_store::with_job(start.jobs, start.spec, after[start.job_id].runtime));
}

struct PlannedStep {
    state: JobState,
    phase: LoopPhase,
    message: &'static str,
    command: Option<WorkerCommand>,
    failure: &'static str,
}

impl PlannedStep {
    spec fn within(self, rollout_id: u32) -> RunStep {
        RunStep {
            state: self.state,
            phase: self.phase,
            rollout_id,
            message: self.message@,
            command: self.command,
            failure: self.failure@,
        }
    }
}

fn send_command<C: WorkerClient>(client: &mut C, command: WorkerCommand, ctx: CommandContext) -> (r:
    Result<CommandResult, WorkerError>)
    ensures
        final(client).sent() == old(client).sent().push(SentCommand { command, context: ctx }),
        final(client).reliable() == old(client).reliable(),
        r matches Err(e) ==> !old(client).reliable() && old(client).refuses(
            SentCommand { command, context: ctx },
            e.message@,
        ),
{
    match command {
        WorkerCommand::Init => client.init(ctx),
        WorkerCommand::Generate => client.generate(ctx),
        WorkerCommand::TrainStep => client.train_step(ctx),
        WorkerCommand::UpdateWeights => client.update_weights(ctx),
        WorkerCommand::Eval => client.eval(ctx),
        WorkerCommand::SaveCheckpoint => client.save_checkpoint(ctx),
    }
}

/// Makes the next step of the script.
fn run_step<S: StateStore, C: WorkerClient>(
    store: &mut S,
    client: &mut C,
    runtime: &mut JobRuntime,
    log: &mut Vec<TransitionRecord>,
    step: PlannedStep,
    Ghost(start): Ghost<RunStart>,
) -> (r: Result<(), RunError>)
    requires
        start.under_way(*old(store), old(log)@, old(client).sent(), *old(runtime)),
        old(runtime).fence_token < run_steps(start.spec).len(),
        run_steps(start.spec).len() + 30_000 <= u64::MAX,
        run_steps(start.spec)[old(runtime).fence_token as int] == step.within(
            old(runtime).cursor.current_rollout_id,
        ),
    ensures
        final(store).reliable() == old(store).reliable(),
        final(client).reliable() == old(client).reliable(),
        *final(runtime) == old(runtime).moved(
            step.state,
            step.phase,
            final(runtime).updated_at,
        ),
        final(runtime).updated_at.of_clock(),
        start.stored(final(store).jobs()),
        state_store::same_but_one(start.snapshots, final(store).snapshots(), start.job_id),
        start.asked(
            final(store).calls(),
            run_steps(start.spec).take(old(runtime).fence_token + 1),
        ),
        match r {
            Ok(()) => {
                let stored = final(store).jobs()[start.job_id].runtime;
                &&& start.under_way(*final(store), final(log)@, final(client).sent(), *final(runtime))
                &&& stored.same_but_time(*final(runtime))
                &&& stored.updated_at.of_clock()
            },
            Err(RunError::Invalid(_)) => false,
            Err(RunError::Store(e)) => {
                &&& !(e is NotFound)
                &&& !old(store).reliable()
                &&& state_store::last_call_refused(*final(store), e@)
                &&& start.stopped_after(
                    final(log)@,
                    final(client).sent(),
                    old(runtime).fence_token as int,
                )
            },
            Err(RunError::Worker { context, error }) => {
                &&& !old(client).reliable()
                &&& worker_client::last_command_refused(*final(client), error.message@)
                &&& step.command is Some
                &&& context@ == step.failure@
                &&& start.stopped_after(
                    final(log)@,
                    final(client).sent(),
                    old(runtime).fence_token + 1,
                )
            },
        },
{
    let ghost script = run_steps(start.spec);
    let ghost k = runtime.fence_token as int;
    let ghost done = script.take(k);
    proof {
        assert(script.take(k + 1) =~= done.push(script[k]));
        assert(done.push(script[k]).drop_last() =~= done);
        assert(store.jobs().dom().contains(start.job_id));
    }
    let outcome = transition(store, runtime, step.state, step.phase, step.message);
    proof {
        lemma_update_keeps_stored(start, old(store).jobs(), store.jobs(), *runtime);
        state_store::lemma_saves_touch_one(
            start.snapshots,
            old(store).snapshots(),
            store.snapshots(),
            store.jobs(),
            start.job_id,
        );
        let first = start.calls.len() as int;
        let call = StoreCall::UpdateRuntime(*runtime);
        assert(store.calls().take(first) =~= old(store).calls().take(first));
        assert(store.calls().drop_last() =~= old(store).calls());
        assert(start.hands_over(call, script[k], k));
        assert forall|i: int| 0 <= i < k + 1 implies start.hands_over(
            store.calls()[first + 1 + i],
            #[trigger] script.take(k + 1)[i],
            i,
        ) by {
            if i < k {
                assert(done[i] == script[i]);
            }
        }
    }
    match outcome {
        Err(e) => {
            assert(old(store).refuses(store.calls().last(), e@));
            return Err(RunError::Store(e));
        },
        Ok(record) => {
            log.push(record);
        },
    }
    proof {
        assert(log_view(log@) =~= log_view(old(log)@).push(log@.last()@));
        assert(records_of(done.push(script[k]), start.job_id) =~= records_of(
            done,
            start.job_id,
        ).push(log@.last()@));
        assert(log_view(log@) =~= log_view(start.log) + records_of(
            done.push(script[k]),
            start.job_id,
        ));
    }
    match step.command {
        None => {},
        Some(command) => {
            let ctx = command_context(runtime.job_id, runtime.fence_token);
            let answer = send_command(client, command, ctx);
            proof {
                assert(client.sent().drop_last() =~= old(client).sent());
                assert(client.sent().take(start.sent.len() as int) =~= old(client).sent().take(
                    start.sent.len() as int,
                ));
            }
            if let Err(error) = answer {
                assert(old(client).refuses(client.sent().last(), error.message@));
                return Err(RunError::Worker { context: step.failure, error });
            }
        },
    }
    Ok(())
}

pub(crate) proof fn lemma_through_is_prefix(spec: JobSpec, rollouts: nat, all: nat)
    requires
        rollouts <= all,
    ensures
        2 <= steps_through(spec, rollouts).len() <= steps_through(spec, all).len() <= 2 + 5 * all,
        steps_through(spec, all).take(steps_through(spec, rollouts).len() as int) == steps_through(
            spec,
            rollouts,
        ),
    decreases all,
{
    let now_steps = steps_through(spec, rollouts);
    let all_steps = steps_through(spec, all);
    if all > rollouts {
        lemma_through_is_prefix(spec, rollouts, (all - 1) as nat);
        assert(all_steps.take(now_steps.len() as int) =~= steps_through(
            spec,
            (all - 1) as nat,
        ).take(now_steps.len() as int));
    } else {
        if all > 0 {
            lemma_through_is_prefix(spec, (all - 1) as nat, (all - 1) as nat);
        }
        assert(all_steps.take(now_steps.len() as int) =~= now_steps);
    }
}

/// The steps of a rollout stand in the script of the run behind those of the rollouts
/// before it.
pub(crate) proof fn lemma_rollout_in_script(spec: JobSpec, rollout_id: u32)
    requires
        rollout_id < spec.train_config.num_rollout,
    ensures
        ({
            let script = run_steps(spec);
            let first = steps_through(spec, rollout_id as nat).len();
            let steps = rollout_steps(spec, rollout_id);
            &&& first + steps.len() == steps_through(spec, (rollout_id + 1) as nat).len()
            &&& first + steps.len() <= script.len() - 2
            &&& forall|i: int| 0 <= i < steps.len() ==> script[first + i] == #[trigger] steps[i]
        }),
{
    let all = spec.train_config.num_rollout as nat;
    let next = (rollout_id + 1) as nat;
    lemma_through_is_prefix(spec, next, all);
    let through = steps_through(spec, next);
    let first = steps_through(spec, rollout_id as nat).len();
    let steps = rollout_steps(spec, rollout_id);
    assert(through == steps_through(spec, rollout_id as nat) + steps);
    assert forall|i: int| 0 <= i < steps.len() implies run_steps(spec)[first + i]
        == #[trigger] steps[i] by {
        assert(run_steps(spec)[first + i] == steps_through(spec, all)[first + i]);
        assert(steps_through(spec, all).take(through.len() as int)[first + i] == through[first
            + i]);
    }
}

/// Runs a job from its creation under `job_id` at `instant` to its end, and appends a record
/// of each transition to `log`.
pub fn run_job_with<S: StateStore, C: WorkerClient>(
    store: &mut S,
    client: &mut C,
    spec: &JobSpec,
    job_id: JobId,
    instant: Timestamp,
    log: &mut Vec<TransitionRecord>,
) -> (r: Result<JobRuntime, RunError>)
    ensures
        final(store).reliable() == old(store).reliable(),
        final(client).reliable() == old(client).reliable(),
        state_store::same_but_one(old(store).snapshots(), final(store).snapshots(), job_id),
        ({
            let start = RunStart {
                job_id,
                spec: *spec,
                instant,
                jobs: old(store).jobs(),
                snapshots: old(store).snapshots(),
                calls: old(store).calls(),
                log: old(log)@,
                sent: old(client).sent(),
            };
            match r {
                Ok(runtime) => {
                    &&& spec.valid()
                    &&& start.made(final(log)@, final(client).sent(), run_steps(*spec))
                    &&& start.asked(final(store).calls(), run_steps(*spec))
                    &&& start.stored(final(store).jobs())
                    &&& final(store).jobs()[job_id].runtime.same_but_time(runtime)
                    &&& final(store).jobs()[job_id].runtime.updated_at.of_clock()
                    &&& runtime.updated_at.of_clock()
                    &&& runtime == JobRuntime {
                        job_id,
                        state: JobState::Stopped,
                        phase: LoopPhase::Cleanup,
                        cursor: RolloutCursor {
                            current_rollout_id: (spec.train_config.num_rollout - 1) as u32,
                            total_rollouts: spec.train_config.num_rollout,
                        },
                        fence_token: run_steps(*spec).len() as u64,
                        updated_at: runtime.updated_at,
                    }
                },
                Err(RunError::Invalid(rule)) => {
                    &&& spec.breaks_first(rule)
                    &&& *final(store) == *old(store)
                    &&& *final(client) == *old(client)
                    &&& final(log)@ == old(log)@
                },
                Err(RunError::Store(e)) => {
                    &&& spec.valid()
                    &&& !old(store).reliable()
                    &&& !(e is NotFound)
                    &&& state_store::last_call_refused(*final(store), e@)
                    &&& {
                        ||| {
                            &&& final(store).calls() == start.calls.push(start.put_call())
                            &&& final(store).jobs() == old(store).jobs() || start.stored(
                                final(store).jobs(),
                            )
                            &&& start.stopped_after(final(log)@, final(client).sent(), 0)
                        }
                        ||| {
                            &&& start.stored(final(store).jobs())
                            &&& exists|k: int|
                                k < run_steps(*spec).len() && #[trigger] start.stopped_after(
                                    final(log)@,
                                    final(client).sent(),
                                    k,
                                ) && start.asked(
                                    final(store).calls(),
                                    run_steps(*spec).take(k + 1),
                                )
                        }
                    }
                },
                Err(RunError::Worker { context, error }) => {
                    &&& spec.valid()
                    &&& !old(client).reliable()
                    &&& worker_client::last_command_refused(*final(client), error.message@)
                    &&& start.stored(final(store).jobs())
                    &&& exists|k: int|
                        0 < k && #[trigger] start.stopped_after(
                            final(log)@,
                            final(client).sent(),
                            k,
                        ) && start.asked(final(store).calls(), run_steps(*spec).take(k))
                            && run_steps(*spec)[k - 1].command is Some && context@ == run_steps(
                            *spec,
                        )[k - 1].failure
                },
            }
        }),
{
    let ghost start = RunStart {
        job_id,
        spec: *spec,
        instant,
        jobs: store.jobs(),
        snapshots: store.snapshots(),
        calls: store.calls(),
        log: log@,
        sent: client.sent(),
    };
    let ghost script = run_steps(*spec);
    if let Err(rule) = spec.validate() {
        return Err(RunError::Invalid(rule));
    }
    let num_rollout: u32 = spec.train_config.num_rollout;
    proof {
        assert(!spec.breaks(ValidationError::InvalidTrainConfig));
        lemma_through_is_prefix(*spec, 0, num_rollout as nat);
        assert(start.made(log@, client.sent(), script.take(0))) by {
            assert(log_view(log@) =~= log_view(start.log) + records_of(
                script.take(0),
                start.job_id,
            ));
            assert(client.sent().take(start.sent.len() as int) =~= start.sent);
        }
        assert(start.stopped_after(log@, client.sent(), 0));
        assert(steps_through(*spec, num_rollout as nat).take(2) == opening_steps());
        assert(script[0] == steps_through(*spec, num_rollout as nat).take(2)[0]);
        assert(script[1] == steps_through(*spec, num_rollout as nat).take(2)[1]);
    }
    let mut runtime = JobRuntime::created(job_id, spec, instant);
    let outcome = store.put_job(spec.clone(), runtime);
    proof {
        state_store::lemma_saves_touch_one(
            start.snapshots,
            start.snapshots,
            store.snapshots(),
            store.jobs(),
            job_id,
        );
        assert(store.calls().drop_last() =~= start.calls);
        assert(store.calls().take(start.calls.len() as int) =~= start.calls);
    }
    if let Err(e) = outcome {
        assert(old(store).refuses(store.calls().last(), e@));
        return Err(RunError::Store(e));
    }
    run_step(
        store,
        client,
        &mut runtime,
        log,
        PlannedStep {
            state: JobState::Starting,
            phase: LoopPhase::Init,
            message: "job starting",
            command: Some(WorkerCommand::Init),
            failure: "worker init failed",
        },
        Ghost(start),
    )?;
    run_step(
        store,
        client,
        &mut runtime,
        log,
        PlannedStep {
            state: JobState::Running,
            phase: LoopPhase::UpdateWeights,
            message: "initial weight update",
            command: Some(WorkerCommand::UpdateWeights),
            failure: "initial update_weights failed",
        },
        Ghost(start),
    )?;
    let mut rollout_id: u32 = 0;
    while rollout_id < num_rollout
        invariant
            rollout_id <= num_rollout,
            num_rollout == spec.train_config.num_rollout,
            spec.valid(),
            start == (RunStart {
                job_id,
                spec: *spec,
                instant,
                jobs: old(store).jobs(),
                snapshots: old(store).snapshots(),
                calls: old(store).calls(),
                log: old(log)@,
                sent: old(client).sent(),
            }),
            script == run_steps(*spec),
            script.len() + 30_000 <= u64::MAX,
            store.reliable() == old(store).reliable(),
            client.reliable() == old(client).reliable(),
            start.under_way(*store, log@, client.sent(), runtime),
            runtime.fence_token == steps_through(*spec, rollout_id as nat).len(),
            runtime.cursor.current_rollout_id == if rollout_id == 0 {
                0
            } else {
                rollout_id - 1
            },
        decreases num_rollout - rollout_id,
    {
        proof {
            lemma_rollout_in_script(*spec, rollout_id);
        }
        let ghost first = runtime.fence_token as int;
        let ghost steps = rollout_steps(*spec, rollout_id);
        assert(script[first] == steps[0] && script[first + 1] == steps[1] && script[first + 2]
            == steps[2]);
        runtime.cursor.current_rollout_id = rollout_id;
        run_step(
            store,
            client,
            &mut runtime,
            log,
            PlannedStep {
                state: JobState::Running,
                phase: LoopPhase::Generate,
                message: "generate",
                command: Some(WorkerCommand::Generate),
                failure: "generate failed",
            },
            Ghost(start),
        )?;
        run_step(
            store,
            client,
            &mut runtime,
            log,
            PlannedStep {
                state: JobState::Running,
                phase: LoopPhase::Train,
                message: "train",
                command: Some(WorkerCommand::TrainStep),
                failure: "train step failed",
            },
            Ghost(start),
        )?;
        run_step(
            store,
            client,
            &mut runtime,
            log,
            PlannedStep {
                state: JobState::Running,
                phase: LoopPhase::UpdateWeights,
                message: "update weights",
                command: Some(WorkerCommand::UpdateWeights),
                failure: "update_weights failed",
            },
            Ghost(start),
        )?;
        if should_run_periodic_action(rollout_id, spec.eval_config.eval_interval) {
            assert(script[first + 3] == steps[3]);
            run_step(
                store,
                client,
                &mut runtime,
                log,
                PlannedStep {
                    state: JobState::Running,
                    phase: LoopPhase::Eval,
                    message: "eval",
                    command: Some(WorkerCommand::Eval),
                    failure: "eval failed",
                },
                Ghost(start),
            )?;
        }
        if should_run_periodic_action(rollout_id, spec.save_config.save_interval) {
            assert(script[runtime.fence_token as int] == steps[runtime.fence_token - first]);
            run_step(
                store,
                client,
                &mut runtime,
                log,
                PlannedStep {
                    state: JobState::Running,
                    phase: LoopPhase::Save,
                    message: "save",
                    command: Some(WorkerCommand::SaveCheckpoint),
                    failure: "save checkpoint failed",
                },
                Ghost(start),
            )?;
        }
        rollout_id = rollout_id + 1;
    }
    proof {
        assert(!spec.breaks(ValidationError::InvalidTrainConfig));
        let closing = closing_steps((num_rollout - 1) as u32);
        assert(script[runtime.fence_token as int] == closing[0]);
        assert(script[runtime.fence_token + 1] == closing[1]);
        reveal_strlit("");
        assert(""@ =~= Seq::<char>::empty());
    }
    run_step(
        store,
        client,
        &mut runtime,
        log,
        PlannedStep {
            state: JobState::Stopping,
            phase: LoopPhase::Cleanup,
            message: "cleanup",
            command: None,
            failure: "",
        },
        Ghost(start),
    )?;
    run_step(
        store,
        client,
        &mut runtime,
        log,
        PlannedStep {
            state: JobState::Stopped,
            phase: LoopPhase::Cleanup,
            message: "job stopped",
            command: None,
            failure: "",
        },
        Ghost(start),
    )?;
    assert(script.take(runtime.fence_token as int) =~= script);
    Ok(runtime)
}

/// What is left of a run: the runtime that the job ended with, and the records of its
/// transitions.
#[derive(Debug, PartialEq, Eq)]
pub struct RunReport {
    pub runtime: JobRuntime,
    pub log: Vec<TransitionRecord>,
}

/// Runs a job that nothing is done for: with a store in memory and a client without workers.
/// A valid job always runs to its end.
pub fn run_job(spec: &JobSpec) -> (r: Result<RunReport, RunError>)
    ensures
        match r {
            Ok(report) => {
                &&& spec.valid()
                &&& ids::is_random_id(report.runtime.job_id)
                &&& log_view(report.log@) == records_of(run_steps(*spec), report.runtime.job_id)
                &&& report.runtime.updated_at.of_clock()
                &&& report.runtime.state == JobState::Stopped
                &&& report.runtime.phase == LoopPhase::Cleanup
                &&& report.runtime.cursor.current_rollout_id + 1 == spec.train_config.num_rollout
                &&& report.runtime.cursor.total_rollouts == spec.train_config.num_rollout
                &&& report.runtime.fence_token == run_steps(*spec).len()
            },
            Err(RunError::Invalid(rule)) => spec.breaks_first(rule),
            Err(_) => false,
        },
{
    let mut store = InMemoryStateStore::default();
    let mut client = MockWorkerClient::default();
    let mut log: Vec<TransitionRecord> = Vec::new();
    let runtime = run_job_with(
        &mut store,
        &mut client,
        spec,
        ids::new_id(),
        now(),
        &mut log,
    )?;
    proof {
        assert(!spec.breaks(ValidationError::InvalidTrainConfig));
        lemma_through_is_prefix(*spec, 0, spec.train_config.num_rollout as nat);
        assert(log_view(log@) =~= records_of(run_steps(*spec), runtime.job_id));
    }
    Ok(RunReport { runtime, log })
}

/// How many of `steps` belong to a phase.
pub open spec fn phase_count(steps: Seq<RunStep>, phase: LoopPhase) -> nat
    decreases steps.len(),
{
    if steps.len() == 0 {
        0
    } else {
        phase_count(steps.drop_last(), phase) + if steps.last().phase == phase {
            1nat
        } else {
            0nat
        }
    }
}

proof fn lemma_phase_count_concat(a: Seq<RunStep>, b: Seq<RunStep>, phase: LoopPhase)
    ensures
        phase_count(a + b, phase) == phase_count(a, phase) + phase_count(b, phase),
    decreases b.len(),
{
    if b.len() == 0 {
        assert(a + b =~= a);
    } else {
        assert((a + b).drop_last() =~= a + b.drop_last());
        lemma_phase_count_concat(a, b.drop_last(), phase);
    }
}

spec fn once_if_due(rollout_id: nat, interval: Option<u32>) -> nat {
    if orchestrator::is_due(rollout_id, interval) {
        1
    } else {
        0
    }
}

proof fn lemma_rollout_counts(spec: JobSpec, rollout_id: u32)
    ensures
        ({
            let steps = rollout_steps(spec, rollout_id);
            let evals = once_if_due(rollout_id as nat, spec.eval_config.eval_interval);
            let saves = once_if_due(rollout_id as nat, spec.save_config.save_interval);
            &&& steps.len() == 3 + evals + saves
            &&& phase_count(steps, LoopPhase::Init) == 0
            &&& phase_count(steps, LoopPhase::Generate) == 1
            &&& phase_count(steps, LoopPhase::Train) == 1
            &&& phase_count(steps, LoopPhase::UpdateWeights) == 1
            &&& phase_count(steps, LoopPhase::Eval) == evals
            &&& phase_count(steps, LoopPhase::Save) == saves
        }),
{
    let steps = rollout_steps(spec, rollout_id);
    let eval = orchestrator::is_due(rollout_id as nat, spec.eval_config.eval_interval);
    let save = orchestrator::is_due(rollout_id as nat, spec.save_config.save_interval);
    let base = seq![generate_step(rollout_id), train_step(rollout_id), update_step(rollout_id)];
    reveal_with_fuel(phase_count, 6);
    if eval && save {
        assert(steps =~= base.push(eval_step(rollout_id)).push(save_step(rollout_id)));
        assert(steps.drop_last() =~= base.push(eval_step(rollout_id)));
        assert(steps.drop_last().drop_last() =~= base);
    } else if eval {
        assert(steps =~= base.push(eval_step(rollout_id)));
        assert(steps.drop_last() =~= base);
    } else if save {
        assert(steps =~= base.push(save_step(rollout_id)));
        assert(steps.drop_last() =~= base);
    } else {
        assert(steps =~= base);
    }
}

pub(crate) proof fn lemma_counts_through(spec: JobSpec, rollouts: nat)
    requires
        rollouts <= u32::MAX,
    ensures
        ({
            let steps = steps_through(spec, rollouts);
            let evals = orchestrator::due_count(rollouts, spec.eval_config.eval_interval);
            let saves = orchestrator::due_count(rollouts, spec.save_config.save_interval);
            &&& steps.len() == 2 + 3 * rollouts + evals + saves
            &&& phase_count(steps, LoopPhase::Init) == 1
            &&& phase_count(steps, LoopPhase::Generate) == rollouts
            &&& phase_count(steps, LoopPhase::Train) == rollouts
            &&& phase_count(steps, LoopPhase::UpdateWeights) == rollouts + 1
            &&& phase_count(steps, LoopPhase::Eval) == evals
            &&& phase_count(steps, LoopPhase::Save) == saves
        }),
    decreases rollouts,
{
    if rollouts == 0 {
        reveal_with_fuel(phase_count, 3);
    } else {
        let last = (rollouts - 1) as u32;
        let earlier = steps_through(spec, (rollouts - 1) as nat);
        let steps = rollout_steps(spec, last);
        lemma_counts_through(spec, (rollouts - 1) as nat);
        lemma_rollout_counts(spec, last);
        lemma_phase_count_concat(earlier, steps, LoopPhase::Init);
        lemma_phase_count_concat(earlier, steps, LoopPhase::Generate);
        lemma_phase_count_concat(earlier, steps, LoopPhase::Train);
        lemma_phase_count_concat(earlier, steps, LoopPhase::UpdateWeights);
        lemma_phase_count_concat(earlier, steps, LoopPhase::Eval);
        lemma_phase_count_concat(earlier, steps, LoopPhase::Save);
    }
}

/// A run initialises the workers once, generates and trains once in every rollout, and
/// updates the weights once before the first rollout and once in every rollout. It
/// evaluates and saves as often as these are due. Its two cleanup steps come on top.
pub proof fn law_run_makes_each_step_as_often_as_due(spec: JobSpec)
    requires
        spec.valid(),
    ensures
        ({
            let rollouts = spec.train_config.num_rollout as nat;
            let steps = run_steps(spec);
            let evals = orchestrator::due_count(rollouts, spec.eval_config.eval_interval);
            let saves = orchestrator::due_count(rollouts, spec.save_config.save_interval);
            &&& steps.len() == 4 + 3 * rollouts + evals + saves
            &&& phase_count(steps, LoopPhase::Init) == 1
            &&& phase_count(steps, LoopPhase::Generate) == rollouts
            &&& phase_count(steps, LoopPhase::Train) == rollouts
            &&& phase_count(steps, LoopPhase::UpdateWeights) == rollouts + 1
            &&& phase_count(steps, LoopPhase::Eval) == evals
            &&& phase_count(steps, LoopPhase::Save) == saves
            &&& steps.first().state == JobState::Starting
            &&& steps.last().state == JobState::Stopped
        }),
{
    let rollouts = spec.train_config.num_rollout as nat;
    let through = steps_through(spec, rollouts);
    let closing = closing_steps((spec.train_config.num_rollout - 1) as u32);
    lemma_counts_through(spec, rollouts);
    lemma_through_is_prefix(spec, 0, rollouts);
    assert(through.take(2)[0] == opening_steps()[0]);
    assert forall|phase: LoopPhase| phase != LoopPhase::Cleanup implies #[trigger] phase_count(
        run_steps(spec),
        phase,
    ) == phase_count(through, phase) by {
        reveal_with_fuel(phase_count, 3);
        lemma_phase_count_concat(through, closing, phase);
    }
}

/// No transition of a run shares its fence token with another, and the tokens grow from one
/// record to the next.
pub proof fn law_run_records_carry_growing_fences(spec: JobSpec, job_id: JobId, i: int, j: int)
    requires
        spec.valid(),
        0 <= i < j < run_steps(spec).len(),
    ensures
        records_of(run_steps(spec), job_id)[i].fence < records_of(run_steps(spec), job_id)[j].fence,
{
    lemma_through_is_prefix(spec, 0, spec.train_config.num_rollout as nat);
}

} // verus!
