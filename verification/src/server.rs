use crate::api::{EventView, JobEvent, JobRuntime, JobSpec, JobState, LoopPhase, ValidationError};
use crate::clock::{now, Timestamp};
use crate::file_store;
use crate::file_store::SnapshotFile;
use crate::ids;
use crate::ids::JobId;
use crate::lifecycle;
use crate::lifecycle::{plan_action, JobAction, LifecycleDecision, LifecycleStep, StepView};
use crate::orchestrator::transition;
use crate::registry;
use crate::registry::{WorkerRecord, WorkerRegistry, WorkerStatus, WorkerView, Workers};
use crate::state_store;
use crate::state_store::{Jobs, StateStore, StoreCall, StoreError, StoreErrorView, StoredJob};
use std::collections::HashMap;
use vstd::prelude::*;

verus! {

broadcast use vstd::std_specs::hash::group_hash_axioms;

/// Counters of what was asked of a job and what came of it.
#[derive(Debug, Clone, Copy, PartialEq, Eq, Structural)]
pub struct JobMetrics {
    pub action_invocations_total: u64,
    pub transitions_total: u64,
    pub noop_actions_total: u64,
}

impl JobMetrics {
    /// The counters of a job of which nothing was asked yet.
    pub open spec fn zero() -> JobMetrics {
        JobMetrics { action_invocations_total: 0, transitions_total: 0, noop_actions_total: 0 }
    }

    /// The counters with more of each kind counted.
    pub open spec fn plus(self, invocations: nat, transitions: nat, noops: nat) -> JobMetrics {
        JobMetrics {
            action_invocations_total: (self.action_invocations_total + invocations) as u64,
            transitions_total: (self.transitions_total + transitions) as u64,
            noop_actions_total: (self.noop_actions_total + noops) as u64,
        }
    }

    /// The counters can count more of each kind.
    pub open spec fn has_room(self, invocations: nat, transitions: nat, noops: nat) -> bool {
        &&& self.action_invocations_total + invocations <= u64::MAX
        &&& self.transitions_total + transitions <= u64::MAX
        &&& self.noop_actions_total + noops <= u64::MAX
    }

    /// No more actions had nothing to do than were asked for, and none made more than two
    /// transitions.
    pub open spec fn consistent(self) -> bool {
        &&& self.noop_actions_total <= self.action_invocations_total
        &&& self.transitions_total <= 2 * self.action_invocations_total
    }
}

impl Default for JobMetrics {
    fn default() -> (r: Self)
        ensures
            r == JobMetrics::zero(),
    {
        JobMetrics { action_invocations_total: 0, transitions_total: 0, noop_actions_total: 0 }
    }
}

/// The event logs of jobs, by id.
pub type Events = Map<JobId, Seq<EventView>>;

/// The counters of jobs, by id.
pub type Metrics = Map<JobId, JobMetrics>;

/// The event log of a job, which is empty where none was begun.
pub open spec fn log_of(events: Events, job_id: JobId) -> Seq<EventView> {
    if events.dom().contains(job_id) {
        events[job_id]
    } else {
        Seq::empty()
    }
}

/// The counters of a job, which are zero where none were begun.
pub open spec fn metrics_of(metrics: Metrics, job_id: JobId) -> JobMetrics {
    if metrics.dom().contains(job_id) {
        metrics[job_id]
    } else {
        JobMetrics::zero()
    }
}

/// The event that a job with the given runtime raises.
pub open spec fn event_of(runtime: JobRuntime, message: Seq<char>, instant: Timestamp) -> EventView {
    EventView {
        job_id: runtime.job_id,
        phase: runtime.phase,
        state: runtime.state,
        message,
        timestamp: instant,
    }
}

/// `after` is `before` with one event of the runtime's job appended, raised at an instant that
/// the clock gave.
pub open spec fn event_appended(
    before: Events,
    after: Events,
    runtime: JobRuntime,
    message: Seq<char>,
) -> bool {
    exists|instant: Timestamp|
        instant.of_clock() && after == before.insert(
            runtime.job_id,
            log_of(before, runtime.job_id).push(#[trigger] event_of(runtime, message, instant)),
        )
}

/// Each log holds events of its own job alone.
pub open spec fn logs_kept_apart(events: Events) -> bool {
    forall|job_id: JobId, i: int|
        events.dom().contains(job_id) && 0 <= i < events[job_id].len() ==> (
        #[trigger] events[job_id][i]).job_id == job_id
}

pub open spec fn metrics_consistent(metrics: Metrics) -> bool {
    forall|job_id: JobId| #[trigger]
        metrics.dom().contains(job_id) ==> metrics[job_id].consistent()
}

/// The runtime after `steps`, but for the time of the last update.
pub open spec fn runtime_after(runtime: JobRuntime, steps: Seq<StepView>) -> JobRuntime {
    if steps.len() == 0 {
        runtime
    } else {
        JobRuntime {
            state: steps.last().state,
            phase: steps.last().phase,
            fence_token: (runtime.fence_token + steps.len()) as u64,
            ..runtime
        }
    }
}

/// `after` is `before` with one job moved through `steps`.
pub open spec fn job_moved(
    before: Jobs,
    after: Jobs,
    job_id: JobId,
    steps: Seq<StepView>,
) -> bool {
    if steps.len() == 0 {
        after == before
    } else {
        &&& after == before.insert(
            job_id,
            StoredJob { spec: before[job_id].spec, runtime: after[job_id].runtime },
        )
        &&& after[job_id].runtime.same_but_time(runtime_after(before[job_id].runtime, steps))
        &&& after[job_id].runtime.updated_at.of_clock()
    }
}

/// The calls `after` are those `before`, and then one for each of `steps`, which hands the
/// runtime that the job has after that step to the store.
pub open spec fn updates_asked(
    before: Seq<StoreCall>,
    after: Seq<StoreCall>,
    runtime: JobRuntime,
    steps: Seq<StepView>,
) -> bool {
    &&& after.len() == before.len() + steps.len()
    &&& after.take(before.len() as int) == before
    &&& forall|k: int|
        1 <= k <= steps.len() ==> hands_over(
            after[before.len() + k - 1],
            runtime,
            #[trigger] steps.take(k),
        )
}

/// The call hands the runtime to the store that a job has after `steps`.
pub open spec fn hands_over(call: StoreCall, runtime: JobRuntime, steps: Seq<StepView>) -> bool {
    call matches StoreCall::UpdateRuntime(moved) && moved.same_but_time(
        runtime_after(runtime, steps),
    ) && moved.updated_at.of_clock()
}

proof fn lemma_update_asked(
    before: Seq<StoreCall>,
    mid: Seq<StoreCall>,
    moved: JobRuntime,
    runtime: JobRuntime,
    steps: Seq<StepView>,
    step: StepView,
)
    requires
        updates_asked(before, mid, runtime, steps),
        moved.same_but_time(runtime_after(runtime, steps.push(step))),
        moved.updated_at.of_clock(),
    ensures
        updates_asked(
            before,
            mid.push(StoreCall::UpdateRuntime(moved)),
            runtime,
            steps.push(step),
        ),
{
    let after = mid.push(StoreCall::UpdateRuntime(moved));
    let more = steps.push(step);
    assert(after.take(before.len() as int) =~= mid.take(before.len() as int));
    assert forall|k: int| 1 <= k <= more.len() implies hands_over(
        after[before.len() + k - 1],
        runtime,
        #[trigger] more.take(k),
    ) by {
        if k <= steps.len() {
            assert(more.take(k) =~= steps.take(k));
        } else {
            assert(more.take(k) =~= more);
        }
    }
}

/// The event reports the step of the job.
pub open spec fn reports(event: EventView, job_id: JobId, step: StepView) -> bool {
    &&& event.job_id == job_id
    &&& event.state == step.state
    &&& event.phase == step.phase
    &&& event.message == step.message
    &&& event.timestamp.of_clock()
}

/// `after` is `before` with one event for each of `steps` appended to the log of a job.
pub open spec fn events_extended(
    before: Events,
    after: Events,
    job_id: JobId,
    steps: Seq<StepView>,
) -> bool {
    let past = log_of(before, job_id);
    if steps.len() == 0 {
        after == before
    } else {
        &&& after == before.insert(job_id, after[job_id])
        &&& after[job_id].len() == past.len() + steps.len()
        &&& after[job_id].take(past.len() as int) == past
        &&& forall|i: int|
            0 <= i < steps.len() ==> reports(
                after[job_id][past.len() + i],
                job_id,
                #[trigger] steps[i],
            )
    }
}

proof fn lemma_event_extends(
    before: Events,
    mid: Events,
    after: Events,
    job_id: JobId,
    steps: Seq<StepView>,
    step: StepView,
    runtime: JobRuntime,
)
    requires
        events_extended(before, mid, job_id, steps),
        event_appended(mid, after, runtime, step.message),
        runtime.job_id == job_id,
        runtime.state == step.state,
        runtime.phase == step.phase,
    ensures
        events_extended(before, after, job_id, steps.push(step)),
{
    let past = log_of(before, job_id);
    let more = steps.push(step);
    let log = log_of(mid, job_id);
    let instant = choose|instant: Timestamp|
        instant.of_clock() && after == mid.insert(
            runtime.job_id,
            log_of(mid, runtime.job_id).push(#[trigger] event_of(runtime, step.message, instant)),
        );
    assert(after =~= before.insert(job_id, after[job_id]));
    assert(after[job_id] == log.push(event_of(runtime, step.message, instant)));
    assert(log.len() == past.len() + steps.len());
    assert(log.take(past.len() as int) =~= past);
    assert(after[job_id].take(past.len() as int) =~= past);
    assert forall|i: int| 0 <= i < more.len() implies reports(
        after[job_id][past.len() + i],
        job_id,
        #[trigger] more[i],
    ) by {
        if i < steps.len() {
            assert(more[i] == steps[i]);
            assert(after[job_id][past.len() + i] == mid[job_id][past.len() + i]);
        }
    }
}

proof fn lemma_job_moves(
    before: Jobs,
    mid: Jobs,
    after: Jobs,
    job_id: JobId,
    steps: Seq<StepView>,
    step: StepView,
    runtime: JobRuntime,
)
    requires
        before.dom().contains(job_id),
        before[job_id].runtime.job_id == job_id,
        before[job_id].runtime.fence_token + steps.len() < u64::MAX,
        job_moved(before, mid, job_id, steps),
        runtime.same_but_time(runtime_after(before[job_id].runtime, steps.push(step))),
        state_store::runtime_updated(mid, after, runtime),
    ensures
        job_moved(before, after, job_id, steps.push(step)),
{
    assert(after =~= before.insert(
        job_id,
        StoredJob { spec: before[job_id].spec, runtime: after[job_id].runtime },
    ));
}

proof fn lemma_extension_keeps_logs_apart(
    before: Events,
    after: Events,
    job_id: JobId,
    steps: Seq<StepView>,
)
    requires
        logs_kept_apart(before),
        events_extended(before, after, job_id, steps),
    ensures
        logs_kept_apart(after),
{
    let past = log_of(before, job_id);
    assert forall|id: JobId, i: int|
        after.dom().contains(id) && 0 <= i < after[id].len() implies (
    #[trigger] after[id][i]).job_id == id by {
        if steps.len() > 0 && id == job_id {
            if i < past.len() {
                assert(after[id].take(past.len() as int)[i] == past[i]);
            } else {
                let at = i - past.len();
                assert(reports(after[id][past.len() + at], job_id, steps[at]));
            }
        }
    }
}

/// What a lifecycle request or a registry request is answered where it fails.
#[derive(Debug, PartialEq, Eq)]
pub struct ApiError {
    pub status: u16,
    pub error_code: &'static str,
    pub message: String,
}

/// What an error says.
#[verifier::ext_equal]
pub struct ErrorView {
    pub status: u16,
    pub error_code: Seq<char>,
    pub message: Seq<char>,
}

impl View for ApiError {
    type V = ErrorView;

    open spec fn view(&self) -> ErrorView {
        ErrorView {
            status: self.status,
            error_code: self.error_code@,
            message: self.message@,
        }
    }
}

pub open spec fn bad_request_error(message: Seq<char>) -> ErrorView {
    ErrorView { status: 400, error_code: "bad_request"@, message }
}

pub open spec fn conflict_error(message: Seq<char>) -> ErrorView {
    ErrorView { status: 409, error_code: "invalid_transition"@, message }
}

pub open spec fn internal_error(message: Seq<char>) -> ErrorView {
    ErrorView { status: 500, error_code: "internal_error"@, message }
}

pub open spec fn not_found_error(message: Seq<char>) -> ErrorView {
    ErrorView { status: 404, error_code: "not_found"@, message }
}

/// The error for a store that failed: a job that is not there, or an internal error.
pub open spec fn store_error(e: StoreErrorView) -> ErrorView {
    match e {
        StoreErrorView::NotFound(_) => not_found_error(e.text()),
        _ => internal_error(e.text()),
    }
}

/// The internal error for a call that the store answers with an error.
pub open spec fn call_failed<S: StateStore>(store: S, call: StoreCall, e: ErrorView) -> bool {
    exists|cause: StoreErrorView| #[trigger]
        store.refuses(call, cause) && !(cause is NotFound) && e == internal_error(cause.text())
}

/// The internal error for the last call of the store.
pub open spec fn last_call_failed<S: StateStore>(store: S, e: ErrorView) -> bool {
    exists|cause: StoreErrorView| #[trigger]
        state_store::last_call_refused(store, cause) && !(cause is NotFound) && e
            == internal_error(cause.text())
}

impl ApiError {
    pub fn bad_request(message: String) -> (r: Self)
        ensures
            r@ == bad_request_error(message@),
    {
        ApiError { status: 400, error_code: "bad_request", message }
    }

    pub fn conflict(message: String) -> (r: Self)
        ensures
            r@ == conflict_error(message@),
    {
        ApiError { status: 409, error_code: "invalid_transition", message }
    }

    pub fn internal(message: String) -> (r: Self)
        ensures
            r@ == internal_error(message@),
    {
        ApiError { status: 500, error_code: "internal_error", message }
    }

    pub fn not_found(message: String) -> (r: Self)
        ensures
            r@ == not_found_error(message@),
    {
        ApiError { status: 404, error_code: "not_found", message }
    }

    pub fn from_store(err: StoreError) -> (r: Self)
        ensures
            r@ == store_error(err@),
    {
        match err {
            StoreError::NotFound(_) => Self::not_found(err.message()),
            _ => Self::internal(err.message()),
        }
    }
}

#[derive(Debug, PartialEq, Eq)]
pub struct CreateJobResponse {
    pub job_id: JobId,
    pub runtime: JobRuntime,
}

#[derive(Debug, PartialEq, Eq)]
pub struct ActionResponse {
    pub job_id: JobId,
    pub state: JobState,
    pub phase: LoopPhase,
    pub status: &'static str,
    pub message: String,
}

/// What the answer to an action says.
#[verifier::ext_equal]
pub struct ActionView {
    pub job_id: JobId,
    pub state: JobState,
    pub phase: LoopPhase,
    pub status: Seq<char>,
    pub message: Seq<char>,
}

impl View for ActionResponse {
    type V = ActionView;

    open spec fn view(&self) -> ActionView {
        ActionView {
            job_id: self.job_id,
            state: self.state,
            phase: self.phase,
            status: self.status@,
            message: self.message@,
        }
    }
}

#[derive(Debug, PartialEq, Eq)]
pub struct StateResponse {
    pub job_id: JobId,
    pub runtime: JobRuntime,
}

#[derive(Debug, PartialEq, Eq)]
pub struct EventsResponse {
    pub job_id: JobId,
    pub events: Vec<JobEvent>,
}

#[derive(Debug, PartialEq, Eq)]
pub struct MetricsResponse {
    pub job_id: JobId,
    pub metrics: JobMetrics,
}

/// The state behind the control-plane API: the store of the jobs, and what is kept beside
/// it in memory.
pub struct ApiState<S: StateStore> {
    store: S,
    events: HashMap<JobId, Vec<JobEvent>>,
    metrics: HashMap<JobId, JobMetrics>,
    workers: WorkerRegistry,
}

spec fn event_views(events: Map<JobId, Vec<JobEvent>>) -> Events {
    events.map_values(|log: Vec<JobEvent>| log@.map_values(|event: JobEvent| event@))
}

impl<S: StateStore> ApiState<S> {
    /// The store.
    pub closed spec fn store(&self) -> S {
        self.store
    }

    /// The jobs in the store.
    pub open spec fn jobs(&self) -> Jobs {
        self.store().jobs()
    }

    /// The snapshots in the store.
    pub open spec fn snapshots(&self) -> Jobs {
        self.store().snapshots()
    }

    /// Whether the store fails on nothing but jobs that it does not hold.
    pub open spec fn reliable(&self) -> bool {
        self.store().reliable()
    }

    /// The event logs.
    pub closed spec fn events(&self) -> Events {
        event_views(self.events@)
    }

    /// The counters.
    pub closed spec fn metrics(&self) -> Metrics {
        self.metrics@
    }

    /// The workers that are known.
    pub closed spec fn workers(&self) -> Workers {
        self.workers@
    }

    /// Each job and each snapshot is filed under its own id, each log holds events of its
    /// own job alone, and the counters are consistent.
    pub open spec fn well_formed(&self) -> bool {
        &&& state_store::keyed(self.jobs())
        &&& state_store::keyed(self.snapshots())
        &&& logs_kept_apart(self.events())
        &&& metrics_consistent(self.metrics())
    }

    /// The two differ in their event logs at most.
    spec fn same_but_events(&self, other: &Self) -> bool {
        &&& self.store == other.store
        &&& self.metrics == other.metrics
        &&& self.workers == other.workers
    }

    fn add_event(&mut self, runtime: &JobRuntime, message: String)
        ensures
            final(self).same_but_events(old(self)),
            event_appended(old(self).events(), final(self).events(), *runtime, message@),
    {
        let job_id: JobId = runtime.job_id;
        let instant = now();
        let mut log: Vec<JobEvent> = match self.events.remove(&job_id) {
            Some(log) => log,
            None => Vec::new(),
        };
        log.push(
            JobEvent {
                job_id,
                phase: runtime.phase,
                state: runtime.state,
                message,
                timestamp: instant,
            },
        );
        self.events.insert(job_id, log);
        proof {
            let added = event_of(*runtime, message@, instant);
            assert(self.events()[job_id] =~= log_of(old(self).events(), job_id).push(added));
            assert(self.events() =~= old(self).events().insert(
                job_id,
                log_of(old(self).events(), job_id).push(added),
            ));
        }
    }

    /// Counts more of each kind for a job.
    fn count(&mut self, job_id: JobId, invocations: u64, transitions: u64, noops: u64)
        requires
            metrics_of(old(self).metrics(), job_id).has_room(
                invocations as nat,
                transitions as nat,
                noops as nat,
            ),
        ensures
            final(self).store == old(self).store,
            final(self).events == old(self).events,
            final(self).workers == old(self).workers,
            final(self).metrics() == old(self).metrics().insert(
                job_id,
                metrics_of(old(self).metrics(), job_id).plus(
                    invocations as nat,
                    transitions as nat,
                    noops as nat,
                ),
            ),
    {
        let mut metrics: JobMetrics = match self.metrics.get(&job_id) {
            Some(metrics) => *metrics,
            None => JobMetrics::default(),
        };
        metrics.action_invocations_total = metrics.action_invocations_total + invocations;
        metrics.transitions_total = metrics.transitions_total + transitions;
        metrics.noop_actions_total = metrics.noop_actions_total + noops;
        self.metrics.insert(job_id, metrics);
    }
}

/// The counters and the fence token of a job have room for an action.
pub open spec fn room_for_action(
    jobs: Jobs,
    metrics: Metrics,
    job_id: JobId,
    action: JobAction,
) -> bool {
    jobs.dom().contains(job_id) ==> {
        let runtime = jobs[job_id].runtime;
        let counted = metrics_of(metrics, job_id);
        if !lifecycle::admits(runtime.state, action) {
            counted.has_room(1, 0, 0)
        } else if lifecycle::settled(runtime.state, action) {
            counted.has_room(1, 0, 1)
        } else {
            let steps = lifecycle::action_steps(action).len();
            counted.has_room(1, steps, 0) && runtime.fence_token + steps <= u64::MAX
        }
    }
}

impl<S: StateStore> ApiState<S> {
    /// Neither the store nor a log nor a counter has changed.
    pub open spec fn unchanged(&self, before: &Self) -> bool {
        &&& self.store() == before.store()
        &&& self.events() == before.events()
        &&& self.metrics() == before.metrics()
    }

    /// The store was asked to find the job, once, and nothing else has happened.
    pub open spec fn looked_up(&self, before: &Self, job_id: JobId) -> bool {
        &&& state_store::only_read(before.store(), self.store(), StoreCall::GetJob(job_id))
        &&& self.events() == before.events()
        &&& self.metrics() == before.metrics()
    }

    /// The first steps of an action were carried out and reported, and the action was
    /// counted.
    pub open spec fn carried_out(
        &self,
        before: &Self,
        job_id: JobId,
        steps: Seq<StepView>,
    ) -> bool {
        &&& events_extended(before.events(), self.events(), job_id, steps)
        &&& self.metrics() == before.metrics().insert(
            job_id,
            metrics_of(before.metrics(), job_id).plus(1, steps.len(), 0),
        )
    }

    /// The calls of the store after the job of an action was found.
    pub open spec fn calls_with_lookup(&self, job_id: JobId) -> Seq<StoreCall> {
        self.store().calls().push(StoreCall::GetJob(job_id))
    }

    /// The store was asked to find the job, to take its runtimes after `steps`, in turn, and
    /// last for a snapshot of the job, and for nothing else.
    pub open spec fn asked_for_snapshot(
        &self,
        before: &Self,
        job_id: JobId,
        steps: Seq<StepView>,
    ) -> bool {
        let calls = self.store().calls();
        &&& calls.len() > 0
        &&& calls.last() == StoreCall::SnapshotJob(job_id)
        &&& updates_asked(
            before.calls_with_lookup(job_id),
            calls.drop_last(),
            before.jobs()[job_id].runtime,
            steps,
        )
    }

    /// An action broke off because the store failed, after `k` of its steps: at the next
    /// step, which may have reached the store, or after all steps, at the snapshot.
    pub open spec fn broke_off(
        &self,
        before: &Self,
        job_id: JobId,
        action: JobAction,
        k: int,
    ) -> bool {
        let steps = lifecycle::action_steps(action);
        &&& self.carried_out(before, job_id, steps.take(k))
        &&& state_store::same_but_one(before.snapshots(), self.snapshots(), job_id)
        &&& if k < steps.len() {
            &&& updates_asked(
                before.calls_with_lookup(job_id),
                self.store().calls(),
                before.jobs()[job_id].runtime,
                steps.take(k + 1),
            )
            &&& job_moved(before.jobs(), self.jobs(), job_id, steps.take(k)) || job_moved(
                before.jobs(),
                self.jobs(),
                job_id,
                steps.take(k + 1),
            )
        } else {
            &&& self.asked_for_snapshot(before, job_id, steps)
            &&& job_moved(before.jobs(), self.jobs(), job_id, steps)
        }
    }

    /// What an action does and how it is answered. The job is looked up once. An action on a
    /// job that is not there, or that the store cannot find, changes nothing; one that the
    /// state of the job does not admit is counted, and so is one that has nothing to do; any
    /// other is carried out in all its steps, and the job is snapshotted then, unless the
    /// store fails.
    pub open spec fn answers(
        &self,
        before: &Self,
        job_id: JobId,
        action: JobAction,
        r: Result<ActionResponse, ApiError>,
    ) -> bool {
        let runtime = before.jobs()[job_id].runtime;
        let steps = lifecycle::action_steps(action);
        match r {
            Ok(response) => {
                &&& before.jobs().dom().contains(job_id)
                &&& lifecycle::admits(runtime.state, action)
                &&& if lifecycle::settled(runtime.state, action) {
                    &&& state_store::only_read(
                        before.store(),
                        self.store(),
                        StoreCall::GetJob(job_id),
                    )
                    &&& self.events() == before.events()
                    &&& self.metrics() == before.metrics().insert(
                        job_id,
                        metrics_of(before.metrics(), job_id).plus(1, 0, 1),
                    )
                    &&& response@ == (ActionView {
                        job_id,
                        state: runtime.state,
                        phase: runtime.phase,
                        status: "noop"@,
                        message: lifecycle::noop_message(action),
                    })
                } else {
                    &&& job_moved(before.jobs(), self.jobs(), job_id, steps)
                    &&& self.carried_out(before, job_id, steps)
                    &&& self.asked_for_snapshot(before, job_id, steps)
                    &&& self.snapshots() == before.snapshots().insert(job_id, self.jobs()[job_id])
                    &&& response@ == (ActionView {
                        job_id,
                        state: steps.last().state,
                        phase: steps.last().phase,
                        status: "updated"@,
                        message: action.text() + " applied"@,
                    })
                }
            },
            Err(e) => {
                ||| {
                    &&& !before.jobs().dom().contains(job_id)
                    &&& e@ == not_found_error(state_store::not_found_text(job_id))
                    &&& self.looked_up(before, job_id)
                }
                ||| {
                    &&& before.jobs().dom().contains(job_id)
                    &&& !lifecycle::admits(runtime.state, action)
                    &&& e@ == conflict_error(
                        lifecycle::invalid_transition_text(runtime.state, action.text()),
                    )
                    &&& state_store::only_read(
                        before.store(),
                        self.store(),
                        StoreCall::GetJob(job_id),
                    )
                    &&& self.carried_out(before, job_id, Seq::empty())
                }
                ||| {
                    &&& !before.reliable()
                    &&& call_failed(before.store(), StoreCall::GetJob(job_id), e@)
                    &&& self.looked_up(before, job_id)
                }
                ||| {
                    &&& !before.reliable()
                    &&& before.jobs().dom().contains(job_id)
                    &&& lifecycle::admits(runtime.state, action)
                    &&& !lifecycle::settled(runtime.state, action)
                    &&& last_call_failed(self.store(), e@)
                    &&& exists|k: int|
                        0 <= k <= steps.len() && #[trigger] self.broke_off(
                            before,
                            job_id,
                            action,
                            k,
                        )
                }
            },
        }
    }

    /// Carries out a lifecycle action on a job.
    pub fn apply_lifecycle_action(&mut self, job_id: JobId, action: JobAction) -> (r: Result<
        ActionResponse,
        ApiError,
    >)
        requires
            old(self).well_formed(),
            room_for_action(old(self).jobs(), old(self).metrics(), job_id, action),
        ensures
            final(self).well_formed(),
            final(self).reliable() == old(self).reliable(),
            final(self).workers() == old(self).workers(),
            final(self).answers(old(self), job_id, action, r),
    {
        let ghost jobs = self.jobs();
        let ghost snapshots = self.snapshots();
        let ghost calls = self.calls_with_lookup(job_id);
        let ghost events = self.events();
        let ghost metrics = self.metrics();
        let stored = match self.store.get_job(job_id) {
            Ok(stored) => stored,
            Err(e) => {
                assert(e is NotFound || old(self).store().refuses(StoreCall::GetJob(job_id), e@));
                return Err(ApiError::from_store(e));
            },
        };
        let mut runtime = stored.runtime;
        let ghost first = runtime;
        self.count(job_id, 1, 0, 0);
        match plan_action(runtime.state, action) {
            Err(e) => Err(ApiError::conflict(e.message())),
            Ok(LifecycleDecision::Noop(message)) => {
                self.count(job_id, 0, 0, 1);
                assert(self.metrics() =~= metrics.insert(
                    job_id,
                    metrics_of(metrics, job_id).plus(1, 0, 1),
                ));
                Ok(
                    ActionResponse {
                        job_id,
                        state: runtime.state,
                        phase: runtime.phase,
                        status: "noop",
                        message: message.to_string(),
                    },
                )
            },
            Ok(LifecycleDecision::Apply(steps)) => {
                let ghost all = lifecycle::action_steps(action);
                proof {
                    lifecycle::law_steps_move_the_job(first.state, action);
                    assert(steps@.map_values(|step: LifecycleStep| step@) == all);
                    assert(all.take(0) =~= Seq::<StepView>::empty());
                    assert(calls.take(calls.len() as int) =~= calls);
                }
                let mut i: usize = 0;
                while i < steps.len()
                    invariant
                        i <= steps.len(),
                        steps@.map_values(|step: LifecycleStep| step@) == all,
                        all.len() <= 2,
                        all == lifecycle::action_steps(action),
                        old(self).well_formed(),
                        jobs == old(self).jobs(),
                        events == old(self).events(),
                        metrics == old(self).metrics(),
                        snapshots == old(self).snapshots(),
                        calls == old(self).calls_with_lookup(job_id),
                        jobs.dom().contains(job_id),
                        first == jobs[job_id].runtime,
                        first.job_id == job_id,
                        first.fence_token + all.len() <= u64::MAX,
                        lifecycle::admits(first.state, action),
                        !lifecycle::settled(first.state, action),
                        metrics_of(metrics, job_id).has_room(1, all.len(), 0),
                        self.workers() == old(self).workers(),
                        self.reliable() == old(self).reliable(),
                        job_moved(jobs, self.jobs(), job_id, all.take(i as int)),
                        state_store::keyed(self.snapshots()),
                        state_store::same_but_one(snapshots, self.snapshots(), job_id),
                        updates_asked(calls, self.store().calls(), first, all.take(i as int)),
                        events_extended(events, self.events(), job_id, all.take(i as int)),
                        self.metrics() == metrics.insert(
                            job_id,
                            metrics_of(metrics, job_id).plus(1, i as nat, 0),
                        ),
                        runtime.same_but_time(runtime_after(first, all.take(i as int))),
                    decreases steps.len() - i,
                {
                    let step = steps[i];
                    let ghost done = all.take(i as int);
                    proof {
                        assert(all[i as int] == step@);
                        assert(all.take(i + 1) =~= done.push(step@));
                    }
                    let ghost store_before = self.store();
                    let ghost jobs_before = self.jobs();
                    let ghost events_before = self.events();
                    let outcome = transition(
                        &mut self.store,
                        &mut runtime,
                        step.state,
                        step.phase,
                        step.message,
                    );
                    proof {
                        lemma_update_asked(
                            calls,
                            store_before.calls(),
                            runtime,
                            first,
                            done,
                            step@,
                        );
                        state_store::lemma_saves_touch_one(
                            snapshots,
                            store_before.snapshots(),
                            self.snapshots(),
                            self.jobs(),
                            job_id,
                        );
                        if self.jobs() != jobs_before || outcome is Ok {
                            lemma_job_moves(
                                jobs,
                                jobs_before,
                                self.jobs(),
                                job_id,
                                done,
                                step@,
                                runtime,
                            );
                        }
                    }
                    if let Err(e) = outcome {
                        proof {
                            lemma_extension_keeps_logs_apart(events, self.events(), job_id, done);
                            assert(self.carried_out(old(self), job_id, all.take(i as int)));
                            assert(self.broke_off(old(self), job_id, action, i as int));
                            assert(self.store().calls().drop_last() =~= store_before.calls());
                            assert(store_before.refuses(self.store().calls().last(), e@));
                            assert(state_store::last_call_refused(self.store(), e@));
                        }
                        return Err(ApiError::internal(e.message()));
                    }
                    self.count(job_id, 0, 1, 0);
                    self.add_event(&runtime, step.message.to_string());
                    proof {
                        lemma_event_extends(
                            events,
                            events_before,
                            self.events(),
                            job_id,
                            done,
                            step@,
                            runtime,
                        );
                        assert(self.metrics() =~= metrics.insert(
                            job_id,
                            metrics_of(metrics, job_id).plus(1, (i + 1) as nat, 0),
                        ));
                    }
                    i = i + 1;
                }
                proof {
                    assert(all.take(i as int) =~= all);
                    lemma_extension_keeps_logs_apart(events, self.events(), job_id, all);
                    assert(self.jobs().dom().contains(job_id));
                }
                let ghost store_before = self.store();
                let outcome = self.store.snapshot_job(job_id);
                proof {
                    assert(self.store().calls().drop_last() =~= store_before.calls());
                    assert(self.asked_for_snapshot(old(self), job_id, all));
                }
                if let Err(e) = outcome {
                    proof {
                        state_store::lemma_saves_touch_one(
                            snapshots,
                            store_before.snapshots(),
                            self.snapshots(),
                            self.jobs(),
                            job_id,
                        );
                        assert(self.carried_out(old(self), job_id, all.take(i as int)));
                        assert(self.broke_off(old(self), job_id, action, i as int));
                        assert(store_before.refuses(self.store().calls().last(), e@));
                        assert(state_store::last_call_refused(self.store(), e@));
                    }
                    return Err(ApiError::from_store(e));
                }
                assert(self.snapshots() =~= snapshots.insert(job_id, self.jobs()[job_id]));
                let mut message: String = action.as_str().to_string();
                message.append(" applied");
                Ok(
                    ActionResponse {
                        job_id,
                        state: runtime.state,
                        phase: runtime.phase,
                        status: "updated",
                        message,
                    },
                )
            },
        }
    }
}

/// The event of a job that was found in the store at the start.
pub open spec fn restored_event(runtime: JobRuntime, event: EventView) -> bool {
    event == event_of(runtime, "job restored from snapshot"@, event.timestamp)
        && event.timestamp.of_clock()
}

impl<S: StateStore> ApiState<S> {
    /// Begins with the jobs in the store, which is asked for them once: the log of each one says that it was restored, its
    /// counters are zero, and no worker is known.
    pub fn new(store: S) -> (r: Result<Self, StoreError>)
        requires
            state_store::keyed(store.jobs()),
            state_store::keyed(store.snapshots()),
        ensures
            match r {
                Ok(state) => {
                    &&& state.well_formed()
                    &&& state_store::only_read(store, state.store(), StoreCall::ListJobs)
                    &&& state.workers() == Map::<Seq<char>, WorkerView>::empty()
                    &&& state.events().dom() == store.jobs().dom()
                    &&& state.metrics().dom() == store.jobs().dom()
                    &&& forall|job_id: JobId| #[trigger]
                        store.jobs().dom().contains(job_id) ==> {
                            &&& state.events()[job_id].len() == 1
                            &&& restored_event(
                                store.jobs()[job_id].runtime,
                                state.events()[job_id][0],
                            )
                            &&& state.metrics()[job_id] == JobMetrics::zero()
                        }
                },
                Err(e) => !(e is NotFound) && !store.reliable() && store.refuses(
                    StoreCall::ListJobs,
                    e@,
                ),
            },
    {
        let ghost held = store.jobs();
        let mut store = store;
        let jobs = match store.list_jobs() {
            Ok(jobs) => jobs,
            Err(e) => {
                return Err(e);
            },
        };
        proof {
            state_store::law_list_holds_each_job_once(jobs@, held);
        }
        let mut events: HashMap<JobId, Vec<JobEvent>> = HashMap::new();
        let mut metrics: HashMap<JobId, JobMetrics> = HashMap::new();
        let mut i: usize = 0;
        while i < jobs.len()
            invariant
                i <= jobs.len(),
                state_store::keyed(held),
                forall|k: int|
                    0 <= k < jobs@.len() ==> held.dom().contains(
                        (#[trigger] jobs@[k]).runtime.job_id,
                    ) && jobs@[k] == held[jobs@[k].runtime.job_id],
                forall|job_id: JobId| #[trigger]
                    events@.dom().contains(job_id) <==> exists|k: int|
                        0 <= k < i && (#[trigger] jobs@[k]).runtime.job_id == job_id,
                metrics@.dom() == events@.dom(),
                forall|job_id: JobId| #[trigger]
                    events@.dom().contains(job_id) ==> {
                        &&& held.dom().contains(job_id)
                        &&& events@[job_id]@.len() == 1
                        &&& restored_event(held[job_id].runtime, events@[job_id]@[0]@)
                        &&& metrics@[job_id] == JobMetrics::zero()
                    },
            decreases jobs.len() - i,
        {
            let runtime: JobRuntime = jobs[i].runtime;
            let ghost dom_before = events@.dom();
            let event = JobEvent {
                job_id: runtime.job_id,
                phase: runtime.phase,
                state: runtime.state,
                message: "job restored from snapshot".to_string(),
                timestamp: now(),
            };
            let mut log: Vec<JobEvent> = Vec::new();
            log.push(event);
            events.insert(runtime.job_id, log);
            metrics.insert(runtime.job_id, JobMetrics::default());
            proof {
                assert(jobs@[i as int].runtime.job_id == runtime.job_id);
                assert forall|job_id: JobId| #[trigger]
                    events@.dom().contains(job_id) <==> exists|k: int|
                        0 <= k < i + 1 && (#[trigger] jobs@[k]).runtime.job_id == job_id by {
                    if job_id != runtime.job_id && events@.dom().contains(job_id) {
                        assert(dom_before.contains(job_id));
                    }
                    if exists|k: int|
                        0 <= k < i + 1 && (#[trigger] jobs@[k]).runtime.job_id == job_id {
                        let k = choose|k: int|
                            0 <= k < i + 1 && (#[trigger] jobs@[k]).runtime.job_id == job_id;
                        if k < i {
                            assert(dom_before.contains(job_id));
                        }
                    }
                }
                assert(metrics@.dom() =~= events@.dom());
            }
            i = i + 1;
        }
        let state = ApiState { store, events, metrics, workers: WorkerRegistry::new() };
        proof {
            assert forall|job_id: JobId| held.dom().contains(job_id) implies events@.dom().contains(
                job_id,
            ) by {
                assert(jobs@.contains(held[job_id]));
                let k = choose|k: int| 0 <= k < jobs@.len() && jobs@[k] == held[job_id];
                assert(jobs@[k].runtime.job_id == job_id);
            }
            assert(events@.dom() =~= held.dom());
            assert(state.events().dom() =~= held.dom());
            assert forall|job_id: JobId| held.dom().contains(job_id) implies {
                &&& state.events()[job_id].len() == 1
                &&& restored_event(held[job_id].runtime, #[trigger] state.events()[job_id][0])
            } by {
                assert(events@.dom().contains(job_id));
            }
            assert(logs_kept_apart(state.events()));
        }
        Ok(state)
    }

    /// A job was created: the store was asked to put it in and then for its snapshot, and
    /// holds both, its log says so, and its counters are begun.
    pub open spec fn has_created(&self, before: &Self, spec: JobSpec, runtime: JobRuntime) -> bool {
        &&& self.store().calls() == before.store().calls().push(
            StoreCall::PutJob(spec, runtime),
        ).push(StoreCall::SnapshotJob(runtime.job_id))
        &&& self.jobs() == state_store::with_job(before.jobs(), spec, runtime)
        &&& self.snapshots() == state_store::with_job(before.snapshots(), spec, runtime)
        &&& event_appended(before.events(), self.events(), runtime, "job created"@)
        &&& self.metrics() == before.metrics().insert(
            runtime.job_id,
            metrics_of(before.metrics(), runtime.job_id),
        )
    }

    /// A job was not created because the store failed, at putting the job in or at its
    /// snapshot.
    pub open spec fn creation_broke_off(
        &self,
        before: &Self,
        spec: JobSpec,
        runtime: JobRuntime,
    ) -> bool {
        let put = before.store().calls().push(StoreCall::PutJob(spec, runtime));
        &&& self.events() == before.events()
        &&& self.metrics() == before.metrics()
        &&& state_store::same_but_one(before.snapshots(), self.snapshots(), runtime.job_id)
        &&& {
            ||| {
                &&& self.store().calls() == put
                &&& self.jobs() == before.jobs() || self.jobs() == state_store::with_job(
                    before.jobs(),
                    spec,
                    runtime,
                )
            }
            ||| {
                &&& self.store().calls() == put.push(StoreCall::SnapshotJob(runtime.job_id))
                &&& self.jobs() == state_store::with_job(before.jobs(), spec, runtime)
            }
        }
    }

    /// Creates a job under `job_id` at `instant`.
    pub fn create_job_as(&mut self, spec: JobSpec, job_id: JobId, instant: Timestamp) -> (r: Result<
        (u16, CreateJobResponse),
        ApiError,
    >)
        requires
            old(self).well_formed(),
        ensures
            final(self).well_formed(),
            final(self).reliable() == old(self).reliable(),
            final(self).workers() == old(self).workers(),
            ({
                let runtime = JobRuntime::fresh(job_id, spec, instant);
                match r {
                    Ok((status, response)) => {
                        &&& spec.valid()
                        &&& status == 201
                        &&& response == (CreateJobResponse { job_id, runtime })
                        &&& final(self).has_created(old(self), spec, runtime)
                    },
                    Err(e) => {
                        ||| {
                            &&& !spec.valid()
                            &&& exists|rule: ValidationError|
                                spec.breaks_first(rule) && e@ == bad_request_error(
                                    #[trigger] rule.text(),
                                )
                            &&& final(self).unchanged(old(self))
                        }
                        ||| {
                            &&& spec.valid()
                            &&& !old(self).reliable()
                            &&& last_call_failed(final(self).store(), e@)
                            &&& final(self).creation_broke_off(old(self), spec, runtime)
                        }
                    },
                }
            }),
    {
        if let Err(rule) = spec.validate() {
            assert(spec.breaks_first(rule));
            return Err(ApiError::bad_request(rule.message()));
        }
        let runtime = JobRuntime::created(job_id, &spec, instant);
        let ghost calls = self.store().calls();
        let ghost snapshots = self.snapshots();
        let outcome = self.store.put_job(spec, runtime);
        proof {
            assert(self.store().calls().drop_last() =~= calls);
            state_store::lemma_saves_touch_one(
                snapshots,
                snapshots,
                self.snapshots(),
                self.jobs(),
                job_id,
            );
        }
        if let Err(e) = outcome {
            proof {
                assert(old(self).store().refuses(self.store().calls().last(), e@));
                assert(state_store::last_call_refused(self.store(), e@));
            }
            return Err(ApiError::from_store(e));
        }
        let ghost store_before = self.store();
        let outcome = self.store.snapshot_job(job_id);
        assert(self.store().calls().drop_last() =~= store_before.calls());
        if let Err(e) = outcome {
            proof {
                state_store::lemma_saves_touch_one(
                    snapshots,
                    store_before.snapshots(),
                    self.snapshots(),
                    self.jobs(),
                    job_id,
                );
                assert(store_before.refuses(self.store().calls().last(), e@));
                assert(state_store::last_call_refused(self.store(), e@));
            }
            return Err(ApiError::from_store(e));
        }
        assert(self.snapshots() =~= state_store::with_job(snapshots, spec, runtime));
        self.add_event(&runtime, "job created".to_string());
        self.count(job_id, 0, 0, 0);
        proof {
            let step = StepView {
                state: runtime.state,
                phase: runtime.phase,
                message: "job created"@,
            };
            lemma_event_extends(
                old(self).events(),
                old(self).events(),
                self.events(),
                job_id,
                Seq::empty(),
                step,
                runtime,
            );
            lemma_extension_keeps_logs_apart(
                old(self).events(),
                self.events(),
                job_id,
                Seq::empty().push(step),
            );
        }
        Ok((201, CreateJobResponse { job_id, runtime }))
    }

    /// Creates a job under a new random id.
    pub fn create_job(&mut self, spec: JobSpec) -> (r: Result<(u16, CreateJobResponse), ApiError>)
        requires
            old(self).well_formed(),
        ensures
            final(self).well_formed(),
            final(self).reliable() == old(self).reliable(),
            final(self).workers() == old(self).workers(),
            match r {
                Ok((status, response)) => {
                    let runtime = response.runtime;
                    &&& spec.valid()
                    &&& status == 201
                    &&& ids::is_random_id(response.job_id)
                    &&& runtime.updated_at.of_clock()
                    &&& runtime == JobRuntime::fresh(response.job_id, spec, runtime.updated_at)
                    &&& final(self).has_created(old(self), spec, runtime)
                },
                Err(e) => {
                    ||| {
                        &&& !spec.valid()
                        &&& exists|rule: ValidationError|
                            spec.breaks_first(rule) && e@ == bad_request_error(
                                #[trigger] rule.text(),
                            )
                        &&& final(self).unchanged(old(self))
                    }
                    ||| {
                        &&& spec.valid()
                        &&& !old(self).reliable()
                        &&& last_call_failed(final(self).store(), e@)
                        &&& exists|job_id: JobId, instant: Timestamp|
                            ids::is_random_id(job_id) && instant.of_clock() && final(self).creation_broke_off(
                                old(self),
                                spec,
                                #[trigger] JobRuntime::fresh(job_id, spec, instant),
                            )
                    }
                },
            },
    {
        self.create_job_as(spec, ids::new_id(), now())
    }
}

impl<S: StateStore> ApiState<S> {
    /// Whether the counters and the fence token of a job have room for an action.
    pub fn has_room_for(&mut self, job_id: JobId, action: JobAction) -> (r: Result<bool, ApiError>)
        ensures
            final(self).asked_about(old(self), job_id),
            match r {
                Ok(room) => room == room_for_action(
                    old(self).jobs(),
                    old(self).metrics(),
                    job_id,
                    action,
                ),
                Err(e) => !old(self).reliable() && call_failed(
                    old(self).store(),
                    StoreCall::GetJob(job_id),
                    e@,
                ),
            },
    {
        let runtime = match self.store.get_job(job_id) {
            Ok(stored) => stored.runtime,
            Err(StoreError::NotFound(_)) => {
                return Ok(true);
            },
            Err(e) => {
                assert(old(self).store().refuses(StoreCall::GetJob(job_id), e@));
                return Err(ApiError::from_store(e));
            },
        };
        let counted: JobMetrics = match self.metrics.get(&job_id) {
            Some(metrics) => *metrics,
            None => JobMetrics::default(),
        };
        if counted.action_invocations_total == u64::MAX {
            return Ok(false);
        }
        match plan_action(runtime.state, action) {
            Err(_) => Ok(true),
            Ok(LifecycleDecision::Noop(_)) => Ok(counted.noop_actions_total < u64::MAX),
            Ok(LifecycleDecision::Apply(steps)) => {
                proof {
                    lifecycle::law_steps_move_the_job(runtime.state, action);
                    assert(steps@.len() == steps@.map_values(|step: LifecycleStep| step@).len());
                }
                let moves: u64 = steps.len() as u64;
                Ok(
                    counted.transitions_total <= u64::MAX - moves && runtime.fence_token <= u64::MAX
                        - moves,
                )
            },
        }
    }

    pub fn start_job(&mut self, job_id: JobId) -> (r: Result<ActionResponse, ApiError>)
        requires
            old(self).well_formed(),
            room_for_action(old(self).jobs(), old(self).metrics(), job_id, JobAction::Start),
        ensures
            final(self).well_formed(),
            final(self).reliable() == old(self).reliable(),
            final(self).workers() == old(self).workers(),
            final(self).answers(old(self), job_id, JobAction::Start, r),
    {
        self.apply_lifecycle_action(job_id, JobAction::Start)
    }

    pub fn pause_job(&mut self, job_id: JobId) -> (r: Result<ActionResponse, ApiError>)
        requires
            old(self).well_formed(),
            room_for_action(old(self).jobs(), old(self).metrics(), job_id, JobAction::Pause),
        ensures
            final(self).well_formed(),
            final(self).reliable() == old(self).reliable(),
            final(self).workers() == old(self).workers(),
            final(self).answers(old(self), job_id, JobAction::Pause, r),
    {
        self.apply_lifecycle_action(job_id, JobAction::Pause)
    }

    pub fn resume_job(&mut self, job_id: JobId) -> (r: Result<ActionResponse, ApiError>)
        requires
            old(self).well_formed(),
            room_for_action(old(self).jobs(), old(self).metrics(), job_id, JobAction::Resume),
        ensures
            final(self).well_formed(),
            final(self).reliable() == old(self).reliable(),
            final(self).workers() == old(self).workers(),
            final(self).answers(old(self), job_id, JobAction::Resume, r),
    {
        self.apply_lifecycle_action(job_id, JobAction::Resume)
    }

    pub fn stop_job(&mut self, job_id: JobId) -> (r: Result<ActionResponse, ApiError>)
        requires
            old(self).well_formed(),
            room_for_action(old(self).jobs(), old(self).metrics(), job_id, JobAction::Stop),
        ensures
            final(self).well_formed(),
            final(self).reliable() == old(self).reliable(),
            final(self).workers() == old(self).workers(),
            final(self).answers(old(self), job_id, JobAction::Stop, r),
    {
        self.apply_lifecycle_action(job_id, JobAction::Stop)
    }

    /// How a query about a job fails: the job is not there, or the store failed.
    pub open spec fn denies(&self, job_id: JobId, e: ErrorView) -> bool {
        ||| !self.jobs().dom().contains(job_id) && e == not_found_error(
            state_store::not_found_text(job_id),
        )
        ||| !self.reliable() && call_failed(self.store(), StoreCall::GetJob(job_id), e)
    }

    /// The job was looked up once, and nothing else of the state has changed.
    pub open spec fn asked_about(&self, before: &Self, job_id: JobId) -> bool {
        &&& self.looked_up(before, job_id)
        &&& self.workers() == before.workers()
        &&& self.well_formed() == before.well_formed()
    }

    fn require_job(&mut self, job_id: JobId) -> (r: Result<StoredJob, ApiError>)
        ensures
            final(self).asked_about(old(self), job_id),
            match r {
                Ok(stored) => old(self).jobs().dom().contains(job_id) && stored
                    == old(self).jobs()[job_id],
                Err(e) => old(self).denies(job_id, e@),
            },
    {
        match self.store.get_job(job_id) {
            Ok(stored) => Ok(stored),
            Err(e) => {
                assert(e is NotFound || old(self).store().refuses(StoreCall::GetJob(job_id), e@));
                Err(ApiError::from_store(e))
            },
        }
    }

    pub fn get_job_state(&mut self, job_id: JobId) -> (r: Result<StateResponse, ApiError>)
        ensures
            final(self).asked_about(old(self), job_id),
            match r {
                Ok(response) => {
                    &&& old(self).jobs().dom().contains(job_id)
                    &&& response == (StateResponse {
                        job_id,
                        runtime: old(self).jobs()[job_id].runtime,
                    })
                },
                Err(e) => old(self).denies(job_id, e@),
            },
    {
        match self.require_job(job_id) {
            Ok(stored) => Ok(StateResponse { job_id, runtime: stored.runtime }),
            Err(e) => Err(e),
        }
    }

    pub fn get_job_events(&mut self, job_id: JobId) -> (r: Result<EventsResponse, ApiError>)
        ensures
            final(self).asked_about(old(self), job_id),
            match r {
                Ok(response) => {
                    &&& old(self).jobs().dom().contains(job_id)
                    &&& response.job_id == job_id
                    &&& response.events@.map_values(|event: JobEvent| event@) == log_of(
                        old(self).events(),
                        job_id,
                    )
                },
                Err(e) => old(self).denies(job_id, e@),
            },
    {
        if let Err(e) = self.require_job(job_id) {
            return Err(e);
        }
        let events: Vec<JobEvent> = match self.events.get(&job_id) {
            Some(log) => log.clone(),
            None => Vec::new(),
        };
        proof {
            assert(events@.map_values(|event: JobEvent| event@) =~= log_of(self.events(), job_id));
        }
        Ok(EventsResponse { job_id, events })
    }

    pub fn get_job_metrics(&mut self, job_id: JobId) -> (r: Result<MetricsResponse, ApiError>)
        ensures
            final(self).asked_about(old(self), job_id),
            match r {
                Ok(response) => {
                    &&& old(self).jobs().dom().contains(job_id)
                    &&& response == (MetricsResponse {
                        job_id,
                        metrics: metrics_of(old(self).metrics(), job_id),
                    })
                },
                Err(e) => old(self).denies(job_id, e@),
            },
    {
        if let Err(e) = self.require_job(job_id) {
            return Err(e);
        }
        let metrics: JobMetrics = match self.metrics.get(&job_id) {
            Some(metrics) => *metrics,
            None => JobMetrics::default(),
        };
        Ok(MetricsResponse { job_id, metrics })
    }

    /// The part of the state that requests about workers leave alone.
    pub open spec fn same_jobs(&self, before: &Self) -> bool {
        &&& self.unchanged(before)
        &&& self.well_formed() == before.well_formed()
    }

    /// Registers a worker as healthy, at `instant`.
    pub fn register_worker_at(&mut self, worker_id: String, instant: Timestamp) -> (r: WorkerRecord)
        ensures
            final(self).same_jobs(old(self)),
            r@ == (WorkerView {
                worker_id: worker_id@,
                status: WorkerStatus::Healthy,
                updated_at: instant,
            }),
            final(self).workers() == old(self).workers().insert(worker_id@, r@),
    {
        let record = WorkerRecord { worker_id, status: WorkerStatus::Healthy, updated_at: instant };
        self.workers.file(record.clone());
        record
    }

    /// Registers a worker as healthy, under a random name where it gives none.
    pub fn register_worker(&mut self, worker_id: Option<String>) -> (r: WorkerRecord)
        ensures
            final(self).same_jobs(old(self)),
            r.status == WorkerStatus::Healthy,
            r.updated_at.of_clock(),
            match worker_id {
                Some(name) => r.worker_id@ == name@,
                None => exists|id: JobId|
                    ids::is_random_id(id) && r.worker_id@ == "worker-"@ + #[trigger] ids::id_text(
                        id,
                    ),
            },
            final(self).workers() == old(self).workers().insert(r.worker_id@, r@),
    {
        let name: String = match worker_id {
            Some(name) => name,
            None => {
                let id: JobId = ids::new_id();
                let mut name: String = "worker-".to_string();
                name.append(ids::format_id(id).as_str());
                assert(name@ == "worker-"@ + ids::id_text(id));
                name
            },
        };
        self.register_worker_at(name, now())
    }

    /// How a request about a worker that is not known fails.
    pub open spec fn unknown_worker(worker_id: Seq<char>) -> ErrorView {
        not_found_error("worker "@ + worker_id + " not found"@)
    }

    /// Gives a known worker a status, at `instant`.
    pub fn mark_worker_at(
        &mut self,
        worker_id: String,
        status: WorkerStatus,
        instant: Timestamp,
    ) -> (r: Result<WorkerRecord, ApiError>)
        ensures
            final(self).same_jobs(old(self)),
            match r {
                Ok(record) => {
                    &&& old(self).workers().dom().contains(worker_id@)
                    &&& record@ == (WorkerView {
                        worker_id: worker_id@,
                        status,
                        updated_at: instant,
                    })
                    &&& final(self).workers() == old(self).workers().insert(worker_id@, record@)
                },
                Err(e) => {
                    &&& !old(self).workers().dom().contains(worker_id@)
                    &&& e@ == Self::unknown_worker(worker_id@)
                    &&& final(self).workers() == old(self).workers()
                },
            },
    {
        match self.workers.mark(&worker_id, status, instant) {
            Some(record) => Ok(record),
            None => {
                let mut message: String = "worker ".to_string();
                message.append(worker_id.as_str());
                message.append(" not found");
                Err(ApiError::not_found(message))
            },
        }
    }

    /// Notes that a worker is alive and healthy.
    pub fn worker_heartbeat(&mut self, worker_id: String) -> (r: Result<WorkerRecord, ApiError>)
        ensures
            final(self).same_jobs(old(self)),
            match r {
                Ok(record) => {
                    &&& old(self).workers().dom().contains(worker_id@)
                    &&& record.worker_id@ == worker_id@
                    &&& record.status == WorkerStatus::Healthy
                    &&& record.updated_at.of_clock()
                    &&& final(self).workers() == old(self).workers().insert(worker_id@, record@)
                },
                Err(e) => {
                    &&& !old(self).workers().dom().contains(worker_id@)
                    &&& e@ == Self::unknown_worker(worker_id@)
                    &&& final(self).workers() == old(self).workers()
                },
            },
    {
        self.mark_worker_at(worker_id, WorkerStatus::Healthy, now())
    }

    /// Notes that a worker takes no more work.
    pub fn worker_drain(&mut self, worker_id: String) -> (r: Result<WorkerRecord, ApiError>)
        ensures
            final(self).same_jobs(old(self)),
            match r {
                Ok(record) => {
                    &&& old(self).workers().dom().contains(worker_id@)
                    &&& record.worker_id@ == worker_id@
                    &&& record.status == WorkerStatus::Draining
                    &&& record.updated_at.of_clock()
                    &&& final(self).workers() == old(self).workers().insert(worker_id@, record@)
                },
                Err(e) => {
                    &&& !old(self).workers().dom().contains(worker_id@)
                    &&& e@ == Self::unknown_worker(worker_id@)
                    &&& final(self).workers() == old(self).workers()
                },
            },
    {
        self.mark_worker_at(worker_id, WorkerStatus::Draining, now())
    }

    pub fn list_workers(&self) -> (r: Vec<WorkerRecord>)
        ensures
            registry::lists_workers(r@, self.workers()),
    {
        self.workers.list()
    }
}

/// On a store that does not fail, an action on a job that is there succeeds exactly where
/// the state of the job admits it, and leads to the state that the lifecycle says.
pub proof fn law_admitted_action_succeeds<S: StateStore>(
    before: ApiState<S>,
    after: ApiState<S>,
    job_id: JobId,
    action: JobAction,
    r: Result<ActionResponse, ApiError>,
)
    requires
        before.reliable(),
        before.jobs().dom().contains(job_id),
        after.answers(&before, job_id, action, r),
    ensures
        r is Ok <==> lifecycle::admits(before.jobs()[job_id].runtime.state, action),
        r is Ok ==> after.jobs().dom().contains(job_id) && after.jobs()[job_id].runtime.state
            == lifecycle::state_after(before.jobs()[job_id].runtime.state, action),
        r matches Ok(response) ==> response@.state == after.jobs()[job_id].runtime.state
            && response@.phase == after.jobs()[job_id].runtime.phase,
{
}

/// An action that is asked for twice in a row is carried out once: the second time there is
/// nothing to do, and neither a job nor a snapshot nor a log changes. The second answer can
/// only be another where the store fails.
pub proof fn law_repeated_action_is_noop<S: StateStore>(
    before: ApiState<S>,
    mid: ApiState<S>,
    after: ApiState<S>,
    job_id: JobId,
    action: JobAction,
    first: Result<ActionResponse, ApiError>,
    second: Result<ActionResponse, ApiError>,
)
    requires
        mid.answers(&before, job_id, action, first),
        first is Ok,
        after.answers(&mid, job_id, action, second),
    ensures
        mid.reliable() ==> second is Ok,
        second matches Ok(response) ==> response@.status == "noop"@,
        second is Ok ==> after.jobs() == mid.jobs() && after.snapshots() == mid.snapshots()
            && after.events() == mid.events(),
{
    lifecycle::law_action_is_idempotent(before.jobs()[job_id].runtime.state, action);
}

/// A request that is refused changes neither a job nor a snapshot nor a log: one on a job
/// that is not there changes nothing at all, and one that the state of the job does not
/// admit is only counted. On a store that does not fail, every error is such a refusal.
pub proof fn law_refused_action_changes_nothing<S: StateStore>(
    before: ApiState<S>,
    after: ApiState<S>,
    job_id: JobId,
    action: JobAction,
    r: Result<ActionResponse, ApiError>,
)
    requires
        after.answers(&before, job_id, action, r),
        r matches Err(e) && (before.reliable() || e.status == 404 || e.status == 409),
    ensures
        after.jobs() == before.jobs(),
        after.snapshots() == before.snapshots(),
        after.events() == before.events(),
        if before.jobs().dom().contains(job_id) {
            &&& r->Err_0.status == 409
            &&& after.metrics() == before.metrics().insert(
                job_id,
                metrics_of(before.metrics(), job_id).plus(1, 0, 0),
            )
        } else {
            &&& r->Err_0.status == 404
            &&& after.metrics() == before.metrics()
        },
{
    let e = r->Err_0;
    assert(e@.status == e.status);
}

/// An action leaves all other jobs alone: their runtimes, their snapshots, their logs and
/// their counters.
pub proof fn law_action_leaves_other_jobs_alone<S: StateStore>(
    before: ApiState<S>,
    after: ApiState<S>,
    job_id: JobId,
    action: JobAction,
    r: Result<ActionResponse, ApiError>,
    other: JobId,
)
    requires
        after.answers(&before, job_id, action, r),
        other != job_id,
    ensures
        after.jobs().dom().contains(other) == before.jobs().dom().contains(other),
        after.jobs()[other] == before.jobs()[other],
        after.snapshots().dom().contains(other) == before.snapshots().dom().contains(other),
        after.snapshots()[other] == before.snapshots()[other],
        log_of(after.events(), other) == log_of(before.events(), other),
        metrics_of(after.metrics(), other) == metrics_of(before.metrics(), other),
{
}

/// What was once reported of a job stays in its log, in its place.
pub proof fn law_log_only_grows<S: StateStore>(
    before: ApiState<S>,
    after: ApiState<S>,
    job_id: JobId,
    action: JobAction,
    r: Result<ActionResponse, ApiError>,
    any: JobId,
)
    requires
        after.answers(&before, job_id, action, r),
    ensures
        log_of(before.events(), any).is_prefix_of(log_of(after.events(), any)),
{
    let past = log_of(before.events(), any);
    let present = log_of(after.events(), any);
    if after.events() != before.events() && any == job_id {
        assert(present.take(past.len() as int) == past);
        assert(present.subrange(0, past.len() as int) =~= past);
    } else {
        assert(present =~= past);
    }
}

/// The fence token of a job never falls, and no action but its own raises it.
pub proof fn law_fence_never_falls<S: StateStore>(
    before: ApiState<S>,
    after: ApiState<S>,
    job_id: JobId,
    action: JobAction,
    r: Result<ActionResponse, ApiError>,
    any: JobId,
)
    requires
        after.answers(&before, job_id, action, r),
        room_for_action(before.jobs(), before.metrics(), job_id, action),
        before.jobs().dom().contains(any),
    ensures
        after.jobs()[any].runtime.fence_token >= before.jobs()[any].runtime.fence_token,
        any != job_id ==> after.jobs()[any].runtime.fence_token
            == before.jobs()[any].runtime.fence_token,
{
    if any == job_id && r is Err && after.jobs() != before.jobs() {
        let steps = lifecycle::action_steps(action);
        let k = choose|k: int|
            0 <= k <= steps.len() && #[trigger] after.broke_off(&before, job_id, action, k);
        assert(steps.take(k).len() == k);
    }
}

/// The counters that requests show are consistent.
pub proof fn law_metrics_are_consistent<S: StateStore>(state: ApiState<S>, job_id: JobId)
    requires
        state.well_formed(),
    ensures
        metrics_of(state.metrics(), job_id).consistent(),
{
}

/// Every action that was carried out, and every creation, leaves the job persisted: its
/// snapshot is the job as the store holds it.
pub proof fn law_success_leaves_job_persisted<S: StateStore>(
    before: ApiState<S>,
    after: ApiState<S>,
    job_id: JobId,
    action: JobAction,
    r: Result<ActionResponse, ApiError>,
    spec: JobSpec,
    runtime: JobRuntime,
)
    ensures
        after.answers(&before, job_id, action, r) && r is Ok && !lifecycle::settled(
            before.jobs()[job_id].runtime.state,
            action,
        ) ==> after.snapshots().dom().contains(job_id) && after.snapshots()[job_id]
            == after.jobs()[job_id],
        after.has_created(&before, spec, runtime) ==> after.snapshots().dom().contains(
            runtime.job_id,
        ) && after.snapshots()[runtime.job_id] == after.jobs()[runtime.job_id],
{
}

/// An action that has nothing to do finds the job persisted where it was persisted before,
/// so that a job whose actions all succeed is persisted after each of them.
pub proof fn law_persisted_job_stays_persisted<S: StateStore>(
    before: ApiState<S>,
    after: ApiState<S>,
    job_id: JobId,
    action: JobAction,
    r: Result<ActionResponse, ApiError>,
)
    requires
        after.answers(&before, job_id, action, r),
        r is Ok,
        before.snapshots().dom().contains(job_id),
        before.snapshots()[job_id] == before.jobs()[job_id],
    ensures
        after.snapshots().dom().contains(job_id),
        after.snapshots()[job_id] == after.jobs()[job_id],
{
}

/// Acceptance: a job that is created, started and stopped is stopped, with a log that grew
/// by five events and two actions counted, and it is so still, to the last field, in a new
/// store that is restored from a directory that holds the snapshots of the old one.
pub proof fn law_created_started_stopped_job_survives_restart<S: StateStore>(
    empty: ApiState<S>,
    created: ApiState<S>,
    started: ApiState<S>,
    stopped: ApiState<S>,
    spec: JobSpec,
    job_id: JobId,
    instant: Timestamp,
    start: Result<ActionResponse, ApiError>,
    stop: Result<ActionResponse, ApiError>,
    files: Seq<SnapshotFile>,
)
    requires
        start is Ok,
        stop is Ok,
        stopped.well_formed(),
        created.has_created(&empty, spec, JobRuntime::fresh(job_id, spec, instant)),
        started.answers(&created, job_id, JobAction::Start, start),
        stopped.answers(&started, job_id, JobAction::Stop, stop),
        metrics_of(empty.metrics(), job_id).has_room(2, 4, 0),
        file_store::directory_holds(files, stopped.snapshots()),
    ensures
        log_of(stopped.events(), job_id).len() == log_of(empty.events(), job_id).len() + 5,
        metrics_of(stopped.metrics(), job_id) == metrics_of(empty.metrics(), job_id).plus(2, 4, 0),
        file_store::restored_jobs(files) matches Ok(loaded) && {
            let restored = file_store::with_all(Map::empty(), loaded);
            &&& restored == stopped.snapshots()
            &&& restored.dom().contains(job_id)
            &&& restored[job_id] == stopped.jobs()[job_id]
            &&& restored[job_id].spec == spec
            &&& restored[job_id].runtime.state == JobState::Stopped
            &&& restored[job_id].runtime.phase == LoopPhase::Cleanup
            &&& restored[job_id].runtime.fence_token == 4
        },
{
    file_store::law_restore_recovers_jobs(files, stopped.snapshots());
}

} // verus!
