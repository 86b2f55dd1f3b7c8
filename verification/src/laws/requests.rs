//! Laws on requests about jobs and workers: what they are answered, count and report.
use crate::api::{EventView, JobRuntime, JobSpec, JobState, LoopPhase};
use crate::clock::Timestamp;
use crate::ids;
use crate::ids::JobId;
use crate::lifecycle;
use crate::lifecycle::{JobAction, StepView};
use crate::registry;
use crate::registry::{WorkerRecord, Workers};
use crate::server;
use crate::server::{ActionResponse, ApiError, ApiState, Events, JobMetrics, Metrics};
use crate::state_store;
use crate::state_store::{Jobs, StateStore, StoreCall, StoreError, StoreErrorView, StoredJob};
use crate::worker_client;
use crate::worker_client::{CommandResult, WorkerError};
use vstd::prelude::*;

verus! {

/// Where an action takes a job that it moves: the states and phases, with what is said of
/// each.
pub open spec fn path(action: JobAction) -> Seq<StepView> {
    match action {
        JobAction::Start => seq![
            place(JobState::Starting, LoopPhase::Init, "job starting"@),
            place(JobState::Running, LoopPhase::PrepareRollout, "job running"@),
        ],
        JobAction::Pause => seq![
            place(JobState::Paused, LoopPhase::PrepareRollout, "job paused"@),
        ],
        JobAction::Resume => seq![
            place(JobState::Running, LoopPhase::PrepareRollout, "job resumed"@),
        ],
        JobAction::Stop => seq![
            place(JobState::Stopping, LoopPhase::Cleanup, "job stopping"@),
            place(JobState::Stopped, LoopPhase::Cleanup, "job stopped"@),
        ],
    }
}

/// A place that an action takes a job to.
pub open spec fn place(state: JobState, phase: LoopPhase, message: Seq<char>) -> StepView {
    StepView { state, phase, message }
}

/// The states in which a job is already where an action leads.
pub open spec fn arrived(state: JobState, action: JobAction) -> bool {
    match action {
        JobAction::Start => state is Starting || state is Running || state is Paused,
        JobAction::Pause => state is Paused,
        JobAction::Resume => state is Running,
        JobAction::Stop => state is Stopping || state is Stopped,
    }
}

/// The states in which an action is out of the question.
pub open spec fn forbidden(state: JobState, action: JobAction) -> bool {
    match action {
        JobAction::Start => state is Stopping || state is Failed,
        JobAction::Pause => !(state is Running || state is Paused),
        JobAction::Resume => !(state is Running || state is Paused),
        JobAction::Stop => false,
    }
}

/// What a store says of a failure.
pub open spec fn cause_text(cause: StoreErrorView) -> Seq<char> {
    match cause {
        StoreErrorView::NotFound(job_id) => "job "@ + ids::id_text(job_id) + " not found"@,
        StoreErrorView::Io(text) => "io error: "@ + text,
        StoreErrorView::Serialization(text) => "serialization error: "@ + text,
        StoreErrorView::InvalidSnapshotName(name) => "invalid snapshot filename: "@ + name,
    }
}

/// A runtime that a move has left: in the given state and phase, with as many fence tokens
/// taken as there were moves, and the job and its rollouts as they were.
pub open spec fn stands(
    after: JobRuntime,
    before: JobRuntime,
    moves: int,
    place: StepView,
) -> bool {
    &&& after.job_id == before.job_id
    &&& after.state == place.state
    &&& after.phase == place.phase
    &&& after.cursor == before.cursor
    &&& after.fence_token == before.fence_token + moves
    &&& after.updated_at.nanos < 1_000_000_000
}

proof fn lemma_steps_follow_path(action: JobAction)
    ensures
        lifecycle::action_steps(action) == path(action),
        1 <= path(action).len() <= 2,
{
    assert(lifecycle::action_steps(action) =~= path(action));
}

/// A job of which nothing was reported or counted has an empty log and counters at zero. Any
/// other has its own.
pub proof fn law_unknown_job_has_nothing(events: Events, metrics: Metrics, job_id: JobId)
    ensures
        events.dom().contains(job_id) ==> server::log_of(events, job_id) == events[job_id],
        !events.dom().contains(job_id) ==> server::log_of(events, job_id).len() == 0,
        metrics.dom().contains(job_id) ==> server::metrics_of(metrics, job_id) == metrics[job_id],
        !metrics.dom().contains(job_id) ==> {
            let counted = server::metrics_of(metrics, job_id);
            counted.action_invocations_total == 0 && counted.transitions_total == 0
                && counted.noop_actions_total == 0
        },
{
}

/// Each counter grows by what is counted of its own kind, and by nothing else.
pub proof fn law_counters_add_up(
    counted: JobMetrics,
    invocations: nat,
    transitions: nat,
    noops: nat,
)
    ensures
        counted.has_room(invocations, transitions, noops) <==> {
            &&& counted.action_invocations_total + invocations <= u64::MAX
            &&& counted.transitions_total + transitions <= u64::MAX
            &&& counted.noop_actions_total + noops <= u64::MAX
        },
        counted.has_room(invocations, transitions, noops) ==> {
            let more = counted.plus(invocations, transitions, noops);
            &&& more.action_invocations_total == counted.action_invocations_total + invocations
            &&& more.transitions_total == counted.transitions_total + transitions
            &&& more.noop_actions_total == counted.noop_actions_total + noops
        },
        JobMetrics::zero().action_invocations_total == 0,
        JobMetrics::zero().transitions_total == 0,
        JobMetrics::zero().noop_actions_total == 0,
{
}

/// Counters can be relied on: actions without effect are among those that were asked for,
/// and each action makes two transitions at most.
pub proof fn law_consistent_counters(counted: JobMetrics)
    ensures
        counted.consistent() <==> counted.noop_actions_total <= counted.action_invocations_total
            && counted.transitions_total <= 2 * counted.action_invocations_total,
{
}

/// There is room for an action where none of the numbers that it raises passes 64 bits. An
/// action on a job that is not there raises none.
pub proof fn law_room_for_action(jobs: Jobs, metrics: Metrics, job_id: JobId, action: JobAction)
    ensures
        server::room_for_action(jobs, metrics, job_id, action) <==> (jobs.dom().contains(job_id)
            ==> {
            let runtime = jobs[job_id].runtime;
            let counted = server::metrics_of(metrics, job_id);
            let moves = path(action).len();
            &&& counted.action_invocations_total < u64::MAX
            &&& arrived(runtime.state, action) ==> counted.noop_actions_total < u64::MAX
            &&& !arrived(runtime.state, action) && !forbidden(runtime.state, action) ==> {
                &&& counted.transitions_total + moves <= u64::MAX
                &&& runtime.fence_token + moves <= u64::MAX
            }
        }),
{
    lemma_steps_follow_path(action);
}

/// An action on a job that is already where it leads is answered `noop`. It raises the count
/// of actions and that of actions without effect by one each, and moves, reports and stores
/// nothing.
pub proof fn law_action_without_effect_is_counted<S: StateStore>(
    before: ApiState<S>,
    after: ApiState<S>,
    job_id: JobId,
    action: JobAction,
    r: Result<ActionResponse, ApiError>,
)
    requires
        after.answers(&before, job_id, action, r),
        before.jobs().dom().contains(job_id),
        arrived(before.jobs()[job_id].runtime.state, action),
        server::metrics_of(before.metrics(), job_id).action_invocations_total < u64::MAX,
        server::metrics_of(before.metrics(), job_id).noop_actions_total < u64::MAX,
    ensures
        before.reliable() ==> r is Ok,
        r matches Ok(response) ==> {
            let runtime = before.jobs()[job_id].runtime;
            let past = server::metrics_of(before.metrics(), job_id);
            let counted = after.metrics()[job_id];
            &&& response.status@ == "noop"@
            &&& response.job_id == job_id
            &&& response.state == runtime.state
            &&& response.phase == runtime.phase
            &&& response.message@ == match action {
                JobAction::Start => "job already started"@,
                JobAction::Pause => "job already paused"@,
                JobAction::Resume => "job already running"@,
                JobAction::Stop => "job already stopping or stopped"@,
            }
            &&& after.metrics().dom() == before.metrics().dom().insert(job_id)
            &&& counted.action_invocations_total == past.action_invocations_total + 1
            &&& counted.noop_actions_total == past.noop_actions_total + 1
            &&& counted.transitions_total == past.transitions_total
            &&& after.jobs() == before.jobs()
            &&& after.snapshots() == before.snapshots()
            &&& after.events() == before.events()
            &&& after.store().calls() == before.store().calls().push(StoreCall::GetJob(job_id))
        },
{
    if let Ok(response) = r {
        assert(response@.status == response.status@);
    }
}

/// An action that moves a job is answered `updated`, with the state and the phase that it
/// leads to. It raises the count of actions by one and that of transitions by the number of
/// its steps, and that of actions without effect not at all.
pub proof fn law_action_with_effect_is_counted<S: StateStore>(
    before: ApiState<S>,
    after: ApiState<S>,
    job_id: JobId,
    action: JobAction,
    r: Result<ActionResponse, ApiError>,
)
    requires
        after.answers(&before, job_id, action, r),
        before.jobs().dom().contains(job_id),
        !arrived(before.jobs()[job_id].runtime.state, action),
        !forbidden(before.jobs()[job_id].runtime.state, action),
        server::metrics_of(before.metrics(), job_id).action_invocations_total < u64::MAX,
        server::metrics_of(before.metrics(), job_id).transitions_total + path(action).len()
            <= u64::MAX,
    ensures
        before.reliable() ==> r is Ok,
        r matches Ok(response) ==> {
            let past = server::metrics_of(before.metrics(), job_id);
            let counted = after.metrics()[job_id];
            &&& response.status@ == "updated"@
            &&& response.job_id == job_id
            &&& response.state == path(action).last().state
            &&& response.phase == path(action).last().phase
            &&& response.message@ == match action {
                JobAction::Start => "start"@ + " applied"@,
                JobAction::Pause => "pause"@ + " applied"@,
                JobAction::Resume => "resume"@ + " applied"@,
                JobAction::Stop => "stop"@ + " applied"@,
            }
            &&& after.metrics().dom() == before.metrics().dom().insert(job_id)
            &&& counted.action_invocations_total == past.action_invocations_total + 1
            &&& counted.transitions_total == past.transitions_total + path(action).len()
            &&& counted.noop_actions_total == past.noop_actions_total
        },
{
    lemma_steps_follow_path(action);
    if let Ok(response) = r {
        assert(response@.status == response.status@);
    }
}

/// An action that moves a job takes it through its states, and leaves it in the last, with
/// one fence token taken for each. The job keeps its specification and its rollouts, and its
/// snapshot is the job as it stands then.
pub proof fn law_action_moves_the_job<S: StateStore>(
    before: ApiState<S>,
    after: ApiState<S>,
    job_id: JobId,
    action: JobAction,
    r: Result<ActionResponse, ApiError>,
)
    requires
        after.answers(&before, job_id, action, r),
        r is Ok,
        !arrived(before.jobs()[job_id].runtime.state, action),
        before.jobs()[job_id].runtime.fence_token + path(action).len() <= u64::MAX,
    ensures
        ({
            let moved = after.jobs()[job_id];
            &&& after.jobs().dom() == before.jobs().dom()
            &&& moved.spec == before.jobs()[job_id].spec
            &&& stands(
                moved.runtime,
                before.jobs()[job_id].runtime,
                path(action).len() as int,
                path(action).last(),
            )
            &&& after.snapshots().dom() == before.snapshots().dom().insert(job_id)
            &&& after.snapshots()[job_id] == moved
        }),
{
    lemma_steps_follow_path(action);
    assert(after.jobs().dom() =~= before.jobs().dom());
}

/// An action that moves a job adds one event to its log for each state that it takes the job
/// to, in turn, and keeps what was there.
pub proof fn law_action_is_reported_step_by_step<S: StateStore>(
    before: ApiState<S>,
    after: ApiState<S>,
    job_id: JobId,
    action: JobAction,
    r: Result<ActionResponse, ApiError>,
)
    requires
        after.answers(&before, job_id, action, r),
        r is Ok,
        !arrived(before.jobs()[job_id].runtime.state, action),
    ensures
        ({
            let past = server::log_of(before.events(), job_id);
            let log = server::log_of(after.events(), job_id);
            &&& log.len() == past.len() + path(action).len()
            &&& forall|i: int| 0 <= i < past.len() ==> #[trigger] log[i] == past[i]
            &&& forall|i: int|
                0 <= i < path(action).len() ==> {
                    let event = log[past.len() + i];
                    &&& event.job_id == job_id
                    &&& event.state == (#[trigger] path(action)[i]).state
                    &&& event.phase == path(action)[i].phase
                    &&& event.message == path(action)[i].message
                    &&& event.timestamp.nanos < 1_000_000_000
                }
        }),
{
    lemma_steps_follow_path(action);
    let steps = lifecycle::action_steps(action);
    let past = server::log_of(before.events(), job_id);
    let log = server::log_of(after.events(), job_id);
    assert(after.events().dom().contains(job_id));
    assert forall|i: int| 0 <= i < past.len() implies #[trigger] log[i] == past[i] by {
        assert(log.take(past.len() as int)[i] == log[i]);
    }
    assert forall|i: int| 0 <= i < path(action).len() implies {
        let event = log[past.len() + i];
        &&& event.job_id == job_id
        &&& event.state == (#[trigger] path(action)[i]).state
        &&& event.phase == path(action)[i].phase
        &&& event.message == path(action)[i].message
        &&& event.timestamp.nanos < 1_000_000_000
    } by {
        assert(server::reports(log[past.len() + i], job_id, steps[i]));
    }
}

/// An action that moves a job asks the store for the job, to take its runtime after each step,
/// in turn, and for a snapshot at the end, and for nothing else.
pub proof fn law_action_asks_the_store<S: StateStore>(
    before: ApiState<S>,
    after: ApiState<S>,
    job_id: JobId,
    action: JobAction,
    r: Result<ActionResponse, ApiError>,
)
    requires
        after.answers(&before, job_id, action, r),
        r is Ok,
        !arrived(before.jobs()[job_id].runtime.state, action),
        before.jobs()[job_id].runtime.fence_token + path(action).len() <= u64::MAX,
    ensures
        after.store().calls().len() == before.store().calls().len() + path(action).len() + 2,
        after.store().calls().take(before.store().calls().len() as int) == before.store().calls(),
        after.store().calls()[before.store().calls().len() as int] == StoreCall::GetJob(job_id),
        forall|i: int|
            0 <= i < path(action).len() ==> {
                let call = after.store().calls()[before.store().calls().len() + 1 + i];
                &&& call is UpdateRuntime
                &&& stands(
                    call->UpdateRuntime_0,
                    before.jobs()[job_id].runtime,
                    i + 1,
                    #[trigger] path(action)[i],
                )
            },
        after.store().calls().last() == StoreCall::SnapshotJob(job_id),
{
    lemma_steps_follow_path(action);
    let steps = lifecycle::action_steps(action);
    let past = before.store().calls();
    let calls = after.store().calls();
    let asked = calls.drop_last();
    let first = past.len() as int;
    let looked = before.calls_with_lookup(job_id);
    assert(asked.take(first + 1) == looked);
    assert(calls[first] == asked.take(first + 1)[first]);
    assert(calls.take(first) =~= past) by {
        assert forall|i: int| 0 <= i < first implies #[trigger] calls[i] == past[i] by {
            assert(asked.take(first + 1)[i] == looked[i]);
        }
    }
    assert forall|i: int| 0 <= i < path(action).len() implies {
        let call = calls[first + 1 + i];
        &&& call is UpdateRuntime
        &&& stands(
            call->UpdateRuntime_0,
            before.jobs()[job_id].runtime,
            i + 1,
            #[trigger] path(action)[i],
        )
    } by {
        let k = i + 1;
        assert(server::hands_over(
            asked[looked.len() + k - 1],
            before.jobs()[job_id].runtime,
            steps.take(k),
        ));
        assert(steps.take(k).last() == steps[i]);
    }
}

/// An action that the state of a job forbids is answered with a conflict that names both. It
/// raises the count of actions by one and changes nothing else.
pub proof fn law_forbidden_action_is_a_conflict<S: StateStore>(
    before: ApiState<S>,
    after: ApiState<S>,
    job_id: JobId,
    action: JobAction,
    r: Result<ActionResponse, ApiError>,
)
    requires
        after.answers(&before, job_id, action, r),
        before.reliable(),
        before.jobs().dom().contains(job_id),
        forbidden(before.jobs()[job_id].runtime.state, action),
        server::metrics_of(before.metrics(), job_id).action_invocations_total < u64::MAX,
    ensures
        r matches Err(e) && {
            let past = server::metrics_of(before.metrics(), job_id);
            let counted = after.metrics()[job_id];
            &&& e.status == 409
            &&& e.error_code@ == "invalid_transition"@
            &&& e.message@ == "action "@ + action.text() + " is invalid from state "@
                + before.jobs()[job_id].runtime.state.text()
            &&& after.metrics().dom() == before.metrics().dom().insert(job_id)
            &&& counted.action_invocations_total == past.action_invocations_total + 1
            &&& counted.transitions_total == past.transitions_total
            &&& counted.noop_actions_total == past.noop_actions_total
            &&& after.jobs() == before.jobs()
            &&& after.snapshots() == before.snapshots()
            &&& after.events() == before.events()
            &&& after.store().calls() == before.store().calls().push(StoreCall::GetJob(job_id))
        },
{
    if let Err(e) = r {
        assert(e@.status == e.status);
    }
}

/// An action on a job that is not there is answered so, and neither counted nor reported.
pub proof fn law_action_on_missing_job<S: StateStore>(
    before: ApiState<S>,
    after: ApiState<S>,
    job_id: JobId,
    action: JobAction,
    r: Result<ActionResponse, ApiError>,
)
    requires
        after.answers(&before, job_id, action, r),
        before.reliable(),
        !before.jobs().dom().contains(job_id),
    ensures
        r matches Err(e) && {
            &&& e.status == 404
            &&& e.error_code@ == "not_found"@
            &&& e.message@ == "job "@ + ids::id_text(job_id) + " not found"@
            &&& after.metrics() == before.metrics()
            &&& after.jobs() == before.jobs()
            &&& after.snapshots() == before.snapshots()
            &&& after.events() == before.events()
            &&& after.store().calls() == before.store().calls().push(StoreCall::GetJob(job_id))
        },
{
}

/// An action that fails for another reason than the job and its state failed in the store,
/// and says so. It either was not counted, and nothing was reported, or is counted once, with
/// as many transitions as it reported. The job is then as it was or at a place on the path.
pub proof fn law_failed_store_breaks_action_off<S: StateStore>(
    before: ApiState<S>,
    after: ApiState<S>,
    job_id: JobId,
    action: JobAction,
    r: Result<ActionResponse, ApiError>,
)
    requires
        after.answers(&before, job_id, action, r),
        r matches Err(e) && e.status != 404 && e.status != 409,
        server::metrics_of(before.metrics(), job_id).action_invocations_total < u64::MAX,
        server::metrics_of(before.metrics(), job_id).transitions_total + 2 <= u64::MAX,
    ensures
        !before.reliable(),
        r->Err_0.status == 500,
        r->Err_0.error_code@ == "internal_error"@,
        exists|cause: StoreErrorView|
            !(cause is NotFound) && r->Err_0.message@ == #[trigger] cause_text(cause),
        ({
            let past = server::metrics_of(before.metrics(), job_id);
            let counted = server::metrics_of(after.metrics(), job_id);
            let reported = server::log_of(after.events(), job_id).len() - server::log_of(
                before.events(),
                job_id,
            ).len();
            &&& 0 <= reported <= path(action).len()
            &&& counted.transitions_total == past.transitions_total + reported
            &&& counted.noop_actions_total == past.noop_actions_total
            &&& after.metrics() == before.metrics() && after.events() == before.events() && after.jobs()
                == before.jobs() && after.snapshots() == before.snapshots()
                || counted.action_invocations_total == past.action_invocations_total + 1
                && before.jobs().dom().contains(job_id)
        }),
        after.jobs() != before.jobs() && before.jobs()[job_id].runtime.fence_token + 2 <= u64::MAX
            ==> exists|moves: int|
            1 <= moves <= path(action).len() && after.jobs() == before.jobs().insert(
                job_id,
                after.jobs()[job_id],
            ) && after.jobs()[job_id].spec == before.jobs()[job_id].spec && #[trigger] stands(
                after.jobs()[job_id].runtime,
                before.jobs()[job_id].runtime,
                moves,
                path(action)[moves - 1],
            ),
{
    lemma_steps_follow_path(action);
    let e = r->Err_0;
    let steps = lifecycle::action_steps(action);
    assert(e@.status == e.status);
    if server::call_failed(before.store(), StoreCall::GetJob(job_id), e@) && after.looked_up(
        &before,
        job_id,
    ) {
        let cause = choose|cause: StoreErrorView| #[trigger]
            before.store().refuses(StoreCall::GetJob(job_id), cause) && !(cause is NotFound) && e@
                == server::internal_error(cause.text());
        assert(e.message@ == cause_text(cause));
    } else {
        let cause = choose|cause: StoreErrorView| #[trigger]
            state_store::last_call_refused(after.store(), cause) && !(cause is NotFound)
                && e@ == server::internal_error(cause.text());
        assert(e.message@ == cause_text(cause));
        let k = choose|k: int|
            0 <= k <= steps.len() && #[trigger] after.broke_off(&before, job_id, action, k);
        assert(steps.take(k).len() == k);
        if after.jobs() != before.jobs() && before.jobs()[job_id].runtime.fence_token + 2
            <= u64::MAX {
            let moves = if server::job_moved(before.jobs(), after.jobs(), job_id, steps.take(k)) {
                k
            } else {
                k + 1
            };
            assert(steps.take(steps.len() as int) =~= steps);
            assert(server::job_moved(before.jobs(), after.jobs(), job_id, steps.take(moves)));
            assert(steps.take(moves).len() == moves);
            assert(steps.take(moves).last() == path(action)[moves - 1]);
            assert(stands(
                after.jobs()[job_id].runtime,
                before.jobs()[job_id].runtime,
                moves,
                path(action)[moves - 1],
            ));
            assert(after.jobs() =~= before.jobs().insert(job_id, after.jobs()[job_id]));
        }
    }
}

/// A job that was created is in the store as it was asked for and has done nothing yet. Its
/// snapshot is the same, its log has one event more, which says so, and its counters, which
/// begin at zero, are as they were. No other job is touched, and the store was asked to put
/// the job in and for its snapshot alone.
pub proof fn law_created_job<S: StateStore>(
    before: ApiState<S>,
    after: ApiState<S>,
    spec: JobSpec,
    job_id: JobId,
    instant: Timestamp,
)
    requires
        after.has_created(&before, spec, JobRuntime::fresh(job_id, spec, instant)),
    ensures
        ({
            let job = after.jobs()[job_id];
            let past = server::log_of(before.events(), job_id);
            let log = after.events()[job_id];
            let calls = after.store().calls();
            let asked = before.store().calls().len() as int;
            &&& after.jobs() == before.jobs().insert(job_id, job)
            &&& after.snapshots() == before.snapshots().insert(job_id, job)
            &&& job.spec == spec
            &&& job.runtime.job_id == job_id
            &&& job.runtime.state is Created
            &&& job.runtime.phase is Init
            &&& job.runtime.cursor.current_rollout_id == 0
            &&& job.runtime.cursor.total_rollouts == spec.train_config.num_rollout
            &&& job.runtime.fence_token == 0
            &&& job.runtime.updated_at == instant
            &&& after.events() == before.events().insert(job_id, log)
            &&& log.len() == past.len() + 1
            &&& log.drop_last() == past
            &&& log.last().job_id == job_id
            &&& log.last().state is Created
            &&& log.last().phase is Init
            &&& log.last().message == "job created"@
            &&& log.last().timestamp.nanos < 1_000_000_000
            &&& after.metrics() == before.metrics().insert(
                job_id,
                server::metrics_of(before.metrics(), job_id),
            )
            &&& calls.len() == asked + 2
            &&& calls.take(asked) == before.store().calls()
            &&& calls[asked] == StoreCall::PutJob(spec, job.runtime)
            &&& calls[asked + 1] == StoreCall::SnapshotJob(job_id)
        }),
{
    let runtime = JobRuntime::fresh(job_id, spec, instant);
    let past = server::log_of(before.events(), job_id);
    let raised = choose|raised: Timestamp|
        raised.of_clock() && after.events() == before.events().insert(
            runtime.job_id,
            server::log_of(before.events(), runtime.job_id).push(
                #[trigger] server::event_of(runtime, "job created"@, raised),
            ),
        );
    let log = after.events()[job_id];
    assert(log == past.push(server::event_of(runtime, "job created"@, raised)));
    assert(log.drop_last() =~= past);
    let asked = before.store().calls().len() as int;
    assert(after.store().calls().take(asked) =~= before.store().calls());
}

/// A creation that broke off in the store reported and counted nothing and touched no other
/// job. The job is either not there or there as it was asked for, and it was snapshotted
/// only where the store was asked for that.
pub proof fn law_broken_off_creation<S: StateStore>(
    before: ApiState<S>,
    after: ApiState<S>,
    spec: JobSpec,
    runtime: JobRuntime,
    other: JobId,
)
    requires
        after.creation_broke_off(&before, spec, runtime),
        other != runtime.job_id,
    ensures
        after.events() == before.events(),
        after.metrics() == before.metrics(),
        after.jobs() == before.jobs() || after.jobs() == before.jobs().insert(
            runtime.job_id,
            StoredJob { spec, runtime },
        ),
        after.jobs().dom().contains(other) == before.jobs().dom().contains(other),
        after.jobs()[other] == before.jobs()[other],
        after.snapshots().dom().contains(other) == before.snapshots().dom().contains(other),
        after.snapshots()[other] == before.snapshots()[other],
        ({
            let calls = after.store().calls();
            let asked = before.store().calls().len() as int;
            &&& asked + 1 <= calls.len() <= asked + 2
            &&& calls.take(asked) == before.store().calls()
            &&& calls[asked] == StoreCall::PutJob(spec, runtime)
            &&& calls.len() == asked + 2 ==> calls[asked + 1] == StoreCall::SnapshotJob(
                runtime.job_id,
            ) && after.jobs().dom().contains(runtime.job_id)
        }),
{
    let asked = before.store().calls().len() as int;
    assert(after.store().calls().take(asked) =~= before.store().calls());
}

/// The event of a restored job says so, and where the job stands.
pub proof fn law_restored_event(runtime: JobRuntime, event: EventView)
    ensures
        server::restored_event(runtime, event) <==> {
            &&& event.job_id == runtime.job_id
            &&& event.phase == runtime.phase
            &&& event.state == runtime.state
            &&& event.message == "job restored from snapshot"@
            &&& event.timestamp.nanos < 1_000_000_000
        },
{
}

/// Each kind of error has its own status and code, and carries its message as it is.
pub proof fn law_error_kinds(e: ApiError, message: Seq<char>)
    ensures
        e@ == server::bad_request_error(message) <==> e.status == 400 && e.error_code@
            == "bad_request"@ && e.message@ == message,
        e@ == server::not_found_error(message) <==> e.status == 404 && e.error_code@
            == "not_found"@ && e.message@ == message,
        e@ == server::conflict_error(message) <==> e.status == 409 && e.error_code@
            == "invalid_transition"@ && e.message@ == message,
        e@ == server::internal_error(message) <==> e.status == 500 && e.error_code@
            == "internal_error"@ && e.message@ == message,
{
}

/// A job that is not in the store is not found. Every other failure of a store is internal.
/// Both tell what the store says.
pub proof fn law_store_failures_as_errors(e: ApiError, cause: StoreError)
    requires
        e@ == server::store_error(cause@),
    ensures
        match cause {
            StoreError::NotFound(job_id) => e.status == 404 && e.error_code@ == "not_found"@
                && e.message@ == "job "@ + ids::id_text(job_id) + " not found"@,
            StoreError::Io(text) => e.status == 500 && e.error_code@ == "internal_error"@
                && e.message@ == "io error: "@ + text@,
            StoreError::Serialization(text) => e.status == 500 && e.error_code@
                == "internal_error"@ && e.message@ == "serialization error: "@ + text@,
            StoreError::InvalidSnapshotName(name) => e.status == 500 && e.error_code@
                == "internal_error"@ && e.message@ == "invalid snapshot filename: "@ + name@,
        },
{
}

/// A query is denied for a job that is not there, as not found, or where the store failed to
/// look it up, as an internal error. On a store that does not fail, no query is denied for a
/// job that is there.
pub proof fn law_denied_query<S: StateStore>(state: ApiState<S>, job_id: JobId, e: ApiError)
    requires
        state.denies(job_id, e@),
    ensures
        state.reliable() ==> !state.jobs().dom().contains(job_id),
        ({
            ||| {
                &&& !state.jobs().dom().contains(job_id)
                &&& e.status == 404
                &&& e.error_code@ == "not_found"@
                &&& e.message@ == "job "@ + ids::id_text(job_id) + " not found"@
            }
            ||| {
                &&& e.status == 500
                &&& e.error_code@ == "internal_error"@
                &&& exists|cause: StoreErrorView| #[trigger]
                    state.store().refuses(StoreCall::GetJob(job_id), cause) && !(cause is NotFound)
                        && e.message@ == cause_text(cause)
            }
        }),
{
    if server::call_failed(state.store(), StoreCall::GetJob(job_id), e@) {
        let cause = choose|cause: StoreErrorView| #[trigger]
            state.store().refuses(StoreCall::GetJob(job_id), cause) && !(cause is NotFound) && e@
                == server::internal_error(cause.text());
        assert(e.message@ == cause_text(cause));
    }
}

/// A query asks the store for the job, once, and changes nothing.
pub proof fn law_query_changes_nothing<S: StateStore>(
    before: ApiState<S>,
    after: ApiState<S>,
    job_id: JobId,
)
    requires
        after.asked_about(&before, job_id),
    ensures
        after.store().calls() == before.store().calls().push(StoreCall::GetJob(job_id)),
        after.jobs() == before.jobs(),
        after.snapshots() == before.snapshots(),
        after.reliable() == before.reliable(),
        after.events() == before.events(),
        after.metrics() == before.metrics(),
        after.workers() == before.workers(),
{
}

/// A request about workers leaves the store, the logs and the counters alone.
pub proof fn law_worker_requests_leave_jobs_alone<S: StateStore>(
    before: ApiState<S>,
    after: ApiState<S>,
)
    requires
        after.same_jobs(&before),
    ensures
        after.store() == before.store(),
        after.events() == before.events(),
        after.metrics() == before.metrics(),
{
}

/// The state of the control plane is in order: each job and each snapshot under its own id,
/// each event in the log of its job, and counters that can be relied on.
pub proof fn law_state_is_in_order<S: StateStore>(state: ApiState<S>, job_id: JobId, i: int)
    requires
        state.well_formed(),
    ensures
        state.jobs().dom().contains(job_id) ==> state.jobs()[job_id].runtime.job_id == job_id,
        state.snapshots().dom().contains(job_id) ==> state.snapshots()[job_id].runtime.job_id
            == job_id,
        0 <= i < server::log_of(state.events(), job_id).len() ==> server::log_of(
            state.events(),
            job_id,
        )[i].job_id == job_id,
        ({
            let counted = server::metrics_of(state.metrics(), job_id);
            &&& counted.noop_actions_total <= counted.action_invocations_total
            &&& counted.transitions_total <= 2 * counted.action_invocations_total
        }),
{
}

/// A worker that is not known is not found, and is named.
pub proof fn law_unknown_worker<S: StateStore>(e: ApiError, worker_id: Seq<char>)
    requires
        e@ == ApiState::<S>::unknown_worker(worker_id),
    ensures
        e.status == 404,
        e.error_code@ == "not_found"@,
        e.message@ == "worker "@ + worker_id + " not found"@,
{
}

/// A worker's record is told in full.
pub proof fn law_worker_record_is_told_in_full(record: WorkerRecord)
    ensures
        record@.worker_id == record.worker_id@,
        record@.status == record.status,
        record@.updated_at == record.updated_at,
{
}

/// A list of the workers holds each one that is known, once, as it is known, and no other.
pub proof fn law_list_holds_each_worker_once(listed: Seq<WorkerRecord>, workers: Workers)
    requires
        registry::lists_workers(listed, workers),
    ensures
        forall|i: int|
            0 <= i < listed.len() ==> workers.dom().contains((#[trigger] listed[i]).worker_id@)
                && workers[listed[i].worker_id@].status == listed[i].status
                && workers[listed[i].worker_id@].updated_at == listed[i].updated_at,
        forall|id: Seq<char>| #[trigger]
            workers.dom().contains(id) ==> exists|i: int|
                0 <= i < listed.len() && (#[trigger] listed[i]).worker_id@ == id,
        forall|i: int, j: int|
            0 <= i < listed.len() && 0 <= j < listed.len() && i != j ==> (
            #[trigger] listed[i]).worker_id@ != (#[trigger] listed[j]).worker_id@,
{
    assert forall|i: int, j: int| 0 <= i < listed.len() && 0 <= j < listed.len() && i != j implies (
    #[trigger] listed[i]).worker_id@ != (#[trigger] listed[j]).worker_id@ by {
        if i < j {
            assert(listed[i].worker_id@ != listed[j].worker_id@);
        } else {
            assert(listed[j].worker_id@ != listed[i].worker_id@);
        }
    }
}

/// A command that succeeded has a result, which says so, with its message and the time.
pub proof fn law_successful_command(r: Result<CommandResult, WorkerError>, message: Seq<char>)
    ensures
        worker_client::succeeds(r, message) <==> (r matches Ok(result)
            && result.status is Succeeded && result.message@ == message && result.timestamp.nanos
            < 1_000_000_000),
{
}

} // verus!
