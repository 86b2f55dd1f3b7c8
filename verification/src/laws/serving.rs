//! Laws on calls of the control plane: what each request is answered and what it leaves
//! behind.
use crate::api::{JobEvent, JobSpec, ValidationError};
use crate::clock::Timestamp;
use crate::ids;
use crate::ids::JobId;
use crate::laws::planning::{
    acceptable, at_fault, law_accepted_specification, law_reported_fault,
};
use crate::laws::requests::{
    arrived, cause_text, forbidden, law_action_moves_the_job, law_action_on_missing_job,
    law_action_with_effect_is_counted, law_action_without_effect_is_counted, law_created_job,
    law_denied_query, law_forbidden_action_is_a_conflict, law_list_holds_each_worker_once,
    law_room_for_action, path, stands,
};
use crate::lifecycle::JobAction;
use crate::registry::{WorkerRecord, WorkerStatus};
use crate::server;
use crate::server::{
    ActionResponse, ApiError, ApiState, CreateJobResponse, EventsResponse, JobMetrics,
    MetricsResponse, StateResponse,
};
use crate::state_store::{StateStore, StoreCall, StoreError};
use vstd::prelude::*;

verus! {

/// Errors are made with the status and the code of their kind.
pub proof fn law_error_calls(message: String, cause: StoreError, r: ApiError)
    ensures
        call_ensures(ApiError::bad_request, (message,), r) ==> r.status == 400 && r.error_code@
            == "bad_request"@ && r.message@ == message@,
        call_ensures(ApiError::not_found, (message,), r) ==> r.status == 404 && r.error_code@
            == "not_found"@ && r.message@ == message@,
        call_ensures(ApiError::conflict, (message,), r) ==> r.status == 409 && r.error_code@
            == "invalid_transition"@ && r.message@ == message@,
        call_ensures(ApiError::internal, (message,), r) ==> r.status == 500 && r.error_code@
            == "internal_error"@ && r.message@ == message@,
        call_ensures(ApiError::from_store, (cause,), r) ==> {
            &&& r.message@ == cause_text(cause@)
            &&& if cause is NotFound {
                r.status == 404 && r.error_code@ == "not_found"@
            } else {
                r.status == 500 && r.error_code@ == "internal_error"@
            }
        },
{
}

/// Counters begin at zero.
pub proof fn law_new_counters_call(r: JobMetrics)
    requires
        call_ensures(JobMetrics::default, (), r),
    ensures
        r.action_invocations_total == 0,
        r.transitions_total == 0,
        r.noop_actions_total == 0,
{
}

/// The control plane begins with the jobs in the store: each has one event, which says that
/// it was restored and where it stands, and counters at zero. No worker is known.
pub proof fn law_new_call<S: StateStore>(store: S, r: Result<ApiState<S>, StoreError>)
    requires
        call_ensures(ApiState::<S>::new, (store,), r),
    ensures
        store.reliable() ==> r is Ok,
        match r {
            Err(e) => !(e is NotFound) && store.refuses(StoreCall::ListJobs, e@),
            Ok(state) => {
                &&& state.jobs() == store.jobs()
                &&& state.snapshots() == store.snapshots()
                &&& state.store().calls() == store.calls().push(StoreCall::ListJobs)
                &&& state.workers().dom() == Set::<Seq<char>>::empty()
                &&& state.events().dom() == store.jobs().dom()
                &&& state.metrics().dom() == store.jobs().dom()
                &&& forall|job_id: JobId| #[trigger]
                    store.jobs().dom().contains(job_id) ==> {
                        let runtime = store.jobs()[job_id].runtime;
                        let log = state.events()[job_id];
                        let counted = state.metrics()[job_id];
                        &&& log.len() == 1
                        &&& log[0].job_id == runtime.job_id
                        &&& log[0].state == runtime.state
                        &&& log[0].phase == runtime.phase
                        &&& log[0].message == "job restored from snapshot"@
                        &&& log[0].timestamp.nanos < 1_000_000_000
                        &&& counted.action_invocations_total == 0
                        &&& counted.transitions_total == 0
                        &&& counted.noop_actions_total == 0
                    }
            },
        },
{
}

/// What creating a job leaves: the job, as asked for and with nothing done, in the store and
/// as its snapshot, one event more in its log, and its counters begun.
pub open spec fn created<S: StateStore>(
    before: ApiState<S>,
    after: ApiState<S>,
    spec: JobSpec,
    job_id: JobId,
) -> bool {
    let job = after.jobs()[job_id];
    let past = server::log_of(before.events(), job_id);
    let log = after.events()[job_id];
    let calls = before.store().calls();
    &&& after.jobs() == before.jobs().insert(job_id, job)
    &&& after.snapshots() == before.snapshots().insert(job_id, job)
    &&& job.spec == spec
    &&& job.runtime.job_id == job_id
    &&& job.runtime.state is Created
    &&& job.runtime.phase is Init
    &&& job.runtime.cursor.current_rollout_id == 0
    &&& job.runtime.cursor.total_rollouts == spec.train_config.num_rollout
    &&& job.runtime.fence_token == 0
    &&& after.events() == before.events().insert(job_id, log)
    &&& log.len() == past.len() + 1
    &&& log.drop_last() == past
    &&& log.last().job_id == job_id
    &&& log.last().state is Created
    &&& log.last().phase is Init
    &&& log.last().message == "job created"@
    &&& after.metrics() == before.metrics().insert(
        job_id,
        server::metrics_of(before.metrics(), job_id),
    )
    &&& after.store().calls().len() == calls.len() + 2
    &&& after.store().calls().take(calls.len() as int) == calls
    &&& after.store().calls()[calls.len() as int] == StoreCall::PutJob(spec, job.runtime)
    &&& after.store().calls()[calls.len() as int + 1] == StoreCall::SnapshotJob(job_id)
}

/// An acceptable job is created, under the id and at the time that are given. Any other is
/// refused as a bad request, which names its first fault, and leaves nothing.
pub proof fn law_create_job_as_call<S: StateStore>(
    state: &mut ApiState<S>,
    spec: JobSpec,
    job_id: JobId,
    instant: Timestamp,
    r: Result<(u16, CreateJobResponse), ApiError>,
)
    requires
        call_ensures(ApiState::<S>::create_job_as, (state, spec, job_id, instant), r),
        old(state).reliable(),
    ensures
        r is Ok <==> acceptable(spec),
        final(state).workers() == old(state).workers(),
        match r {
            Ok((status, response)) => {
                &&& status == 201
                &&& response.job_id == job_id
                &&& response.runtime == final(state).jobs()[job_id].runtime
                &&& response.runtime.updated_at == instant
                &&& created(*old(state), *final(state), spec, job_id)
            },
            Err(e) => {
                &&& e.status == 400
                &&& e.error_code@ == "bad_request"@
                &&& exists|rule: ValidationError|
                    at_fault(spec, rule) && e.message@ == #[trigger] rule.text()
                &&& final(state).store() == old(state).store()
                &&& final(state).events() == old(state).events()
                &&& final(state).metrics() == old(state).metrics()
            },
        },
{
    law_accepted_specification(spec);
    match r {
        Ok(_) => {
            law_created_job(*old(state), *final(state), spec, job_id, instant);
        },
        Err(e) => {
            let rule = choose|rule: ValidationError|
                spec.breaks_first(rule) && e@ == server::bad_request_error(
                    #[trigger] rule.text(),
                );
            law_reported_fault(spec, rule);
            assert(at_fault(spec, rule) && e.message@ == rule.text());
        },
    }
}

/// A job that is created without an id gets one that is not nil.
pub proof fn law_create_job_call<S: StateStore>(
    state: &mut ApiState<S>,
    spec: JobSpec,
    r: Result<(u16, CreateJobResponse), ApiError>,
)
    requires
        call_ensures(ApiState::<S>::create_job, (state, spec), r),
        old(state).reliable(),
    ensures
        r is Ok <==> acceptable(spec),
        final(state).workers() == old(state).workers(),
        match r {
            Ok((status, response)) => {
                &&& status == 201
                &&& response.job_id != 0
                &&& response.runtime == final(state).jobs()[response.job_id].runtime
                &&& response.runtime.updated_at.nanos < 1_000_000_000
                &&& created(*old(state), *final(state), spec, response.job_id)
            },
            Err(e) => {
                &&& e.status == 400
                &&& e.error_code@ == "bad_request"@
                &&& exists|rule: ValidationError|
                    at_fault(spec, rule) && e.message@ == #[trigger] rule.text()
                &&& final(state).store() == old(state).store()
                &&& final(state).events() == old(state).events()
                &&& final(state).metrics() == old(state).metrics()
            },
        },
{
    law_accepted_specification(spec);
    match r {
        Ok((_, response)) => {
            ids::law_random_id_is_not_nil(response.job_id);
            law_created_job(
                *old(state),
                *final(state),
                spec,
                response.job_id,
                response.runtime.updated_at,
            );
        },
        Err(e) => {
            let rule = choose|rule: ValidationError|
                spec.breaks_first(rule) && e@ == server::bad_request_error(
                    #[trigger] rule.text(),
                );
            law_reported_fault(spec, rule);
            assert(at_fault(spec, rule) && e.message@ == rule.text());
        },
    }
}

/// A call that asks for an action of a job.
pub open spec fn asks_for<S: StateStore>(
    state: &mut ApiState<S>,
    job_id: JobId,
    action: JobAction,
    r: Result<ActionResponse, ApiError>,
) -> bool {
    ||| call_ensures(ApiState::<S>::apply_lifecycle_action, (state, job_id, action), r)
    ||| action is Start && call_ensures(ApiState::<S>::start_job, (state, job_id), r)
    ||| action is Pause && call_ensures(ApiState::<S>::pause_job, (state, job_id), r)
    ||| action is Resume && call_ensures(ApiState::<S>::resume_job, (state, job_id), r)
    ||| action is Stop && call_ensures(ApiState::<S>::stop_job, (state, job_id), r)
}

/// Each request for an action carries out its own: it moves a job that is not where the action
/// leads, by its steps, and counts each, it counts without effect where the job is there
/// already, and it is refused for a job that is missing or whose state forbids it.
pub proof fn law_action_calls<S: StateStore>(
    state: &mut ApiState<S>,
    job_id: JobId,
    action: JobAction,
    r: Result<ActionResponse, ApiError>,
)
    requires
        asks_for(state, job_id, action, r),
        old(state).reliable(),
        server::room_for_action(old(state).jobs(), old(state).metrics(), job_id, action),
    ensures
        final(state).workers() == old(state).workers(),
        ({
            let before = old(state).jobs()[job_id];
            let after = final(state).jobs()[job_id];
            let past = server::metrics_of(old(state).metrics(), job_id);
            let counted = server::metrics_of(final(state).metrics(), job_id);
            if !old(state).jobs().dom().contains(job_id) {
                &&& r is Err
                &&& r->Err_0.status == 404
                &&& final(state).jobs() == old(state).jobs()
                &&& counted == past
            } else if forbidden(before.runtime.state, action) {
                &&& r is Err
                &&& r->Err_0.status == 409
                &&& final(state).jobs() == old(state).jobs()
                &&& counted.action_invocations_total == past.action_invocations_total + 1
                &&& counted.transitions_total == past.transitions_total
                &&& counted.noop_actions_total == past.noop_actions_total
            } else if arrived(before.runtime.state, action) {
                &&& r is Ok
                &&& r->Ok_0.status@ == "noop"@
                &&& r->Ok_0.job_id == job_id
                &&& r->Ok_0.state == before.runtime.state
                &&& r->Ok_0.phase == before.runtime.phase
                &&& final(state).jobs() == old(state).jobs()
                &&& counted.action_invocations_total == past.action_invocations_total + 1
                &&& counted.transitions_total == past.transitions_total
                &&& counted.noop_actions_total == past.noop_actions_total + 1
            } else {
                &&& r is Ok
                &&& r->Ok_0.status@ == "updated"@
                &&& r->Ok_0.job_id == job_id
                &&& r->Ok_0.state == path(action).last().state
                &&& r->Ok_0.phase == path(action).last().phase
                &&& after.spec == before.spec
                &&& stands(
                    after.runtime,
                    before.runtime,
                    path(action).len() as int,
                    path(action).last(),
                )
                &&& final(state).snapshots()[job_id] == after
                &&& counted.action_invocations_total == past.action_invocations_total + 1
                &&& counted.transitions_total == past.transitions_total + path(action).len()
                &&& counted.noop_actions_total == past.noop_actions_total
            }
        }),
{
    let before = *old(state);
    let after = *final(state);
    law_room_for_action(before.jobs(), before.metrics(), job_id, action);
    if !before.jobs().dom().contains(job_id) {
        law_action_on_missing_job(before, after, job_id, action, r);
    } else if forbidden(before.jobs()[job_id].runtime.state, action) {
        law_forbidden_action_is_a_conflict(before, after, job_id, action, r);
    } else if arrived(before.jobs()[job_id].runtime.state, action) {
        law_action_without_effect_is_counted(before, after, job_id, action, r);
    } else {
        law_action_with_effect_is_counted(before, after, job_id, action, r);
        law_action_moves_the_job(before, after, job_id, action, r);
    }
}

/// A request for an action also answers as the control plane promises where its store fails.
pub proof fn law_action_calls_answer<S: StateStore>(
    state: &mut ApiState<S>,
    job_id: JobId,
    action: JobAction,
    r: Result<ActionResponse, ApiError>,
)
    requires
        asks_for(state, job_id, action, r),
    ensures
        final(state).answers(old(state), job_id, action, r),
{
}

/// Room for an action is found where none of the numbers that it raises passes 64 bits.
pub proof fn law_has_room_for_call<S: StateStore>(
    state: &mut ApiState<S>,
    job_id: JobId,
    action: JobAction,
    r: Result<bool, ApiError>,
)
    requires
        call_ensures(ApiState::<S>::has_room_for, (state, job_id, action), r),
        old(state).reliable(),
    ensures
        r is Ok,
        r->Ok_0 <==> (old(state).jobs().dom().contains(job_id) ==> {
            let runtime = old(state).jobs()[job_id].runtime;
            let counted = server::metrics_of(old(state).metrics(), job_id);
            let moves = path(action).len();
            &&& counted.action_invocations_total < u64::MAX
            &&& arrived(runtime.state, action) ==> counted.noop_actions_total < u64::MAX
            &&& !arrived(runtime.state, action) && !forbidden(runtime.state, action) ==> {
                &&& counted.transitions_total + moves <= u64::MAX
                &&& runtime.fence_token + moves <= u64::MAX
            }
        }),
        final(state).jobs() == old(state).jobs(),
        final(state).events() == old(state).events(),
        final(state).metrics() == old(state).metrics(),
{
    law_room_for_action(old(state).jobs(), old(state).metrics(), job_id, action);
}

/// What a query about a job changes: nothing, but that the store was asked for the job.
pub open spec fn only_asked<S: StateStore>(
    before: ApiState<S>,
    after: ApiState<S>,
    job_id: JobId,
) -> bool {
    &&& after.store().calls() == before.store().calls().push(StoreCall::GetJob(job_id))
    &&& after.jobs() == before.jobs()
    &&& after.snapshots() == before.snapshots()
    &&& after.events() == before.events()
    &&& after.metrics() == before.metrics()
    &&& after.workers() == before.workers()
}

/// A query for a job that is not there is answered so.
pub open spec fn says_missing(e: ApiError, job_id: JobId) -> bool {
    &&& e.status == 404
    &&& e.error_code@ == "not_found"@
    &&& e.message@ == "job "@ + ids::id_text(job_id) + " not found"@
}

/// The state of a job is its runtime in the store.
pub proof fn law_get_job_state_call<S: StateStore>(
    state: &mut ApiState<S>,
    job_id: JobId,
    r: Result<StateResponse, ApiError>,
)
    requires
        call_ensures(ApiState::<S>::get_job_state, (state, job_id), r),
        old(state).reliable(),
    ensures
        r is Ok <==> old(state).jobs().dom().contains(job_id),
        r matches Ok(response) ==> response.job_id == job_id && response.runtime
            == old(state).jobs()[job_id].runtime,
        r matches Err(e) ==> says_missing(e, job_id),
        only_asked(*old(state), *final(state), job_id),
{
    if let Err(e) = r {
        law_denied_query(*old(state), job_id, e);
    }
}

/// The events of a job are those of its log, in turn, as they were reported.
pub proof fn law_get_job_events_call<S: StateStore>(
    state: &mut ApiState<S>,
    job_id: JobId,
    r: Result<EventsResponse, ApiError>,
)
    requires
        call_ensures(ApiState::<S>::get_job_events, (state, job_id), r),
        old(state).reliable(),
    ensures
        r is Ok <==> old(state).jobs().dom().contains(job_id),
        r matches Ok(response) ==> {
            let log = server::log_of(old(state).events(), job_id);
            &&& response.job_id == job_id
            &&& response.events@.len() == log.len()
            &&& forall|i: int|
                0 <= i < log.len() ==> {
                    &&& (#[trigger] response.events@[i]).job_id == log[i].job_id
                    &&& response.events@[i].state == log[i].state
                    &&& response.events@[i].phase == log[i].phase
                    &&& response.events@[i].message@ == log[i].message
                    &&& response.events@[i].timestamp == log[i].timestamp
                }
        },
        r matches Err(e) ==> says_missing(e, job_id),
        only_asked(*old(state), *final(state), job_id),
{
    match r {
        Err(e) => {
            law_denied_query(*old(state), job_id, e);
        },
        Ok(response) => {
            let log = server::log_of(old(state).events(), job_id);
            let views = response.events@.map_values(|event: JobEvent| event@);
            assert(views.len() == response.events@.len());
            assert forall|i: int| 0 <= i < log.len() implies {
                &&& (#[trigger] response.events@[i]).job_id == log[i].job_id
                &&& response.events@[i].state == log[i].state
                &&& response.events@[i].phase == log[i].phase
                &&& response.events@[i].message@ == log[i].message
                &&& response.events@[i].timestamp == log[i].timestamp
            } by {
                assert(views[i] == response.events@[i]@);
            }
        },
    }
}

/// The metrics of a job are its counters.
pub proof fn law_get_job_metrics_call<S: StateStore>(
    state: &mut ApiState<S>,
    job_id: JobId,
    r: Result<MetricsResponse, ApiError>,
)
    requires
        call_ensures(ApiState::<S>::get_job_metrics, (state, job_id), r),
        old(state).reliable(),
    ensures
        r is Ok <==> old(state).jobs().dom().contains(job_id),
        r matches Ok(response) ==> {
            &&& response.job_id == job_id
            &&& old(state).metrics().dom().contains(job_id) ==> response.metrics
                == old(state).metrics()[job_id]
            &&& !old(state).metrics().dom().contains(job_id)
                ==> response.metrics.action_invocations_total == 0
                && response.metrics.transitions_total == 0 && response.metrics.noop_actions_total
                == 0
        },
        r matches Err(e) ==> says_missing(e, job_id),
        only_asked(*old(state), *final(state), job_id),
{
    if let Err(e) = r {
        law_denied_query(*old(state), job_id, e);
    }
}

/// The metrics that are shown after a request for an action are those from before it with the
/// action counted, its transitions where it moved the job, and its want of effect where the
/// job was there already.
pub proof fn law_action_shows_in_metrics<S: StateStore>(
    state: &mut ApiState<S>,
    job_id: JobId,
    action: JobAction,
    response: ActionResponse,
    first: &mut ApiState<S>,
    earlier: MetricsResponse,
    last: &mut ApiState<S>,
    later: MetricsResponse,
)
    requires
        call_ensures(ApiState::<S>::get_job_metrics, (first, job_id), Ok(earlier)),
        asks_for(state, job_id, action, Ok(response)),
        call_ensures(ApiState::<S>::get_job_metrics, (last, job_id), Ok(later)),
        *old(state) == *final(first),
        *old(last) == *final(state),
        old(first).reliable(),
        server::room_for_action(old(state).jobs(), old(state).metrics(), job_id, action),
    ensures
        later.metrics.action_invocations_total == earlier.metrics.action_invocations_total + 1,
        response.status@ == "noop"@ ==> later.metrics.noop_actions_total
            == earlier.metrics.noop_actions_total + 1 && later.metrics.transitions_total
            == earlier.metrics.transitions_total,
        response.status@ != "noop"@ ==> later.metrics.noop_actions_total
            == earlier.metrics.noop_actions_total && later.metrics.transitions_total
            == earlier.metrics.transitions_total + path(action).len(),
{
    reveal_strlit("noop");
    reveal_strlit("updated");
    assert("noop"@.len() != "updated"@.len());
    law_get_job_metrics_call(first, job_id, Ok(earlier));
    law_action_calls(state, job_id, action, Ok(response));
    law_get_job_metrics_call(last, job_id, Ok(later));
}

/// What a request about workers leaves alone: the store, the logs and the counters.
pub open spec fn jobs_left_alone<S: StateStore>(before: ApiState<S>, after: ApiState<S>) -> bool {
    &&& after.store() == before.store()
    &&& after.events() == before.events()
    &&& after.metrics() == before.metrics()
}

/// After a request the worker is known by `record`, and no other worker is touched.
pub open spec fn known_by<S: StateStore>(
    before: ApiState<S>,
    after: ApiState<S>,
    record: WorkerRecord,
) -> bool {
    let id = record.worker_id@;
    &&& after.workers().dom() == before.workers().dom().insert(id)
    &&& after.workers()[id].worker_id == id
    &&& after.workers()[id].status == record.status
    &&& after.workers()[id].updated_at == record.updated_at
    &&& forall|other: Seq<char>|
        other != id && before.workers().dom().contains(other) ==> (
        #[trigger] after.workers()[other]) == before.workers()[other]
}

/// A worker that registers is healthy, under the name that it gives. One that gives none gets
/// a name of its own.
pub proof fn law_register_worker_calls<S: StateStore>(
    state: &mut ApiState<S>,
    name: Option<String>,
    given: String,
    instant: Timestamp,
    r: WorkerRecord,
)
    requires
        call_ensures(ApiState::<S>::register_worker, (state, name), r) || (name == Some(given)
            && call_ensures(ApiState::<S>::register_worker_at, (state, given, instant), r)),
    ensures
        r.status is Healthy,
        name matches Some(chosen) ==> r.worker_id@ == chosen@,
        name is None ==> exists|id: JobId|
            id != 0 && r.worker_id@ == "worker-"@ + #[trigger] ids::id_text(id),
        known_by(*old(state), *final(state), r),
        jobs_left_alone(*old(state), *final(state)),
{
    assert(final(state).workers().dom() =~= old(state).workers().dom().insert(r.worker_id@));
    if name is None {
        let id = choose|id: JobId|
            ids::is_random_id(id) && r.worker_id@ == "worker-"@ + #[trigger] ids::id_text(id);
        ids::law_random_id_is_not_nil(id);
        assert(r.worker_id@ == "worker-"@ + ids::id_text(id));
    }
}

/// A worker that is registered at a given time is known since then.
pub proof fn law_register_worker_at_call<S: StateStore>(
    state: &mut ApiState<S>,
    name: String,
    instant: Timestamp,
    r: WorkerRecord,
)
    requires
        call_ensures(ApiState::<S>::register_worker_at, (state, name, instant), r),
    ensures
        r.updated_at == instant,
        r.worker_id@ == name@,
        r.status is Healthy,
{
}

/// A worker that is marked, by a heartbeat as healthy or by a drain as draining, has that
/// status then, whatever it had before. One that is not known is not found.
pub proof fn law_mark_worker_calls<S: StateStore>(
    state: &mut ApiState<S>,
    name: String,
    status: WorkerStatus,
    instant: Timestamp,
    r: Result<WorkerRecord, ApiError>,
)
    requires
        ({
            ||| call_ensures(ApiState::<S>::mark_worker_at, (state, name, status, instant), r)
            ||| status is Healthy && call_ensures(ApiState::<S>::worker_heartbeat, (state, name), r)
            ||| status is Draining && call_ensures(ApiState::<S>::worker_drain, (state, name), r)
        }),
    ensures
        r is Ok <==> old(state).workers().dom().contains(name@),
        match r {
            Ok(record) => {
                &&& record.worker_id@ == name@
                &&& record.status == status
                &&& known_by(*old(state), *final(state), record)
            },
            Err(e) => {
                &&& e.status == 404
                &&& e.error_code@ == "not_found"@
                &&& e.message@ == "worker "@ + name@ + " not found"@
                &&& final(state).workers() == old(state).workers()
            },
        },
        jobs_left_alone(*old(state), *final(state)),
{
    if let Ok(record) = r {
        assert(final(state).workers().dom() =~= old(state).workers().dom().insert(name@));
    }
}

/// A worker that is marked at a given time is known since then.
pub proof fn law_mark_worker_at_call<S: StateStore>(
    state: &mut ApiState<S>,
    name: String,
    status: WorkerStatus,
    instant: Timestamp,
    record: WorkerRecord,
)
    requires
        call_ensures(ApiState::<S>::mark_worker_at, (state, name, status, instant), Ok(record)),
    ensures
        record.updated_at == instant,
{
}

/// A list of the workers tells each one that is known, once, as it is known.
pub proof fn law_list_workers_call<S: StateStore>(state: ApiState<S>, listed: Vec<WorkerRecord>)
    requires
        call_ensures(ApiState::<S>::list_workers, (&state,), listed),
    ensures
        forall|i: int|
            0 <= i < listed@.len() ==> state.workers().dom().contains(
                (#[trigger] listed@[i]).worker_id@,
            ) && state.workers()[listed@[i].worker_id@].status == listed@[i].status
                && state.workers()[listed@[i].worker_id@].updated_at == listed@[i].updated_at,
        forall|id: Seq<char>| #[trigger]
            state.workers().dom().contains(id) ==> exists|i: int|
                0 <= i < listed@.len() && (#[trigger] listed@[i]).worker_id@ == id,
        forall|i: int, j: int|
            0 <= i < listed@.len() && 0 <= j < listed@.len() && i != j ==> (
            #[trigger] listed@[i]).worker_id@ != (#[trigger] listed@[j]).worker_id@,
{
    law_list_holds_each_worker_once(listed@, state.workers());
}

} // verus!
