use crate::api::{JobRuntime, JobState, LoopPhase};
use crate::clock::{now, Timestamp};
use crate::ids;
use crate::ids::JobId;
use crate::state_store;
use crate::state_store::{StateStore, StoreCall, StoreError};
use crate::worker_client::CommandContext;
use vstd::prelude::*;

verus! {

/// The context of the first attempt at a request for a job. The deadline grows with the
/// fence token.
pub fn command_context(job_id: JobId, fence_token: u64) -> (r: CommandContext)
    requires
        30_000 + fence_token <= u64::MAX,
    ensures
        r.job_id == job_id,
        ids::is_random_id(r.request_id),
        r.request_id != 0,
        r.attempt_id == 1,
        r.deadline_ms == 30_000 + fence_token,
{
    let request_id: JobId = ids::new_id();
    proof {
        ids::law_random_id_is_not_nil(request_id);
    }
    CommandContext { job_id, request_id, attempt_id: 1, deadline_ms: 30_000 + fence_token }
}

/// A transition that a job has made, as it is reported.
#[derive(Debug, PartialEq, Eq)]
pub struct TransitionRecord {
    pub job_id: JobId,
    pub state: JobState,
    pub phase: LoopPhase,
    pub rollout_id: u32,
    pub fence: u64,
    pub message: String,
}

/// What a transition record says.
#[verifier::ext_equal]
pub struct RecordView {
    pub job_id: JobId,
    pub state: JobState,
    pub phase: LoopPhase,
    pub rollout_id: u32,
    pub fence: u64,
    pub message: Seq<char>,
}

impl View for TransitionRecord {
    type V = RecordView;

    open spec fn view(&self) -> RecordView {
        RecordView {
            job_id: self.job_id,
            state: self.state,
            phase: self.phase,
            rollout_id: self.rollout_id,
            fence: self.fence,
            message: self.message@,
        }
    }
}

/// The record of the transition that led to `runtime`.
pub open spec fn record_of(runtime: JobRuntime, message: Seq<char>) -> RecordView {
    RecordView {
        job_id: runtime.job_id,
        state: runtime.state,
        phase: runtime.phase,
        rollout_id: runtime.cursor.current_rollout_id,
        fence: runtime.fence_token,
        message,
    }
}

impl JobRuntime {
    /// The runtime after a move to a state and a phase at `instant`, which takes a new
    /// fence token.
    pub open spec fn moved(
        self,
        state: JobState,
        phase: LoopPhase,
        instant: Timestamp,
    ) -> JobRuntime {
        JobRuntime {
            state,
            phase,
            fence_token: (self.fence_token + 1) as u64,
            updated_at: instant,
            ..self
        }
    }

    pub fn move_to(&mut self, state: JobState, phase: LoopPhase, instant: Timestamp)
        requires
            old(self).fence_token < u64::MAX,
        ensures
            *final(self) == old(self).moved(state, phase, instant),
    {
        self.state = state;
        self.phase = phase;
        self.fence_token = self.fence_token + 1;
        self.updated_at = instant;
    }
}

/// Moves a job to a state and a phase and hands its new runtime to the store, once. The
/// runtime has moved even where the store fails, whose error is handed on.
pub fn transition<S: StateStore>(
    store: &mut S,
    runtime: &mut JobRuntime,
    state: JobState,
    phase: LoopPhase,
    message: &str,
) -> (r: Result<TransitionRecord, StoreError>)
    requires
        old(runtime).fence_token < u64::MAX,
    ensures
        *final(runtime) == old(runtime).moved(state, phase, final(runtime).updated_at),
        final(runtime).updated_at.of_clock(),
        final(store).reliable() == old(store).reliable(),
        final(store).calls() == old(store).calls().push(
            StoreCall::UpdateRuntime(*final(runtime)),
        ),
        state_store::saved_or_kept(
            old(store).snapshots(),
            final(store).snapshots(),
            final(store).jobs(),
            old(runtime).job_id,
        ),
        match r {
            Ok(record) => {
                &&& old(store).jobs().dom().contains(old(runtime).job_id)
                &&& state_store::runtime_updated(
                    old(store).jobs(),
                    final(store).jobs(),
                    *final(runtime),
                )
                &&& record@ == record_of(*final(runtime), message@)
            },
            Err(StoreError::NotFound(missing)) => {
                &&& missing == old(runtime).job_id
                &&& !old(store).jobs().dom().contains(missing)
                &&& final(store).jobs() == old(store).jobs()
            },
            Err(e) => {
                &&& !old(store).reliable()
                &&& old(store).refuses(StoreCall::UpdateRuntime(*final(runtime)), e@)
                &&& final(store).jobs() == old(store).jobs() || (old(store).jobs().dom().contains(
                    old(runtime).job_id,
                ) && state_store::runtime_updated(
                    old(store).jobs(),
                    final(store).jobs(),
                    *final(runtime),
                ))
            },
        },
{
    runtime.move_to(state, phase, now());
    match store.update_runtime(*runtime) {
        Err(e) => Err(e),
        Ok(()) => Ok(
            TransitionRecord {
                job_id: runtime.job_id,
                state,
                phase,
                rollout_id: runtime.cursor.current_rollout_id,
                fence: runtime.fence_token,
                message: message.to_string(),
            },
        ),
    }
}

/// Whether an action with the given interval is due after a rollout: after every
/// `interval`-th rollout, and never without a positive interval.
pub open spec fn is_due(rollout_id: nat, interval: Option<u32>) -> bool {
    interval matches Some(i) && i > 0 && (rollout_id + 1) % (i as nat) == 0
}

pub fn should_run_periodic_action(rollout_id: u32, interval: Option<u32>) -> (r: bool)
    requires
        interval matches Some(i) && i > 0 ==> rollout_id < u32::MAX,
    ensures
        r == is_due(rollout_id as nat, interval),
{
    match interval {
        Some(i) if i > 0 => (rollout_id + 1) % i == 0,
        _ => false,
    }
}

/// How often an action with the given interval is due in a number of rollouts.
pub open spec fn due_count(rollouts: nat, interval: Option<u32>) -> nat
    decreases rollouts,
{
    if rollouts == 0 {
        0
    } else {
        due_count((rollouts - 1) as nat, interval) + if is_due((rollouts - 1) as nat, interval) {
            1nat
        } else {
            0nat
        }
    }
}

/// An action with a positive interval is due once in every `interval` rollouts; without
/// one it is never due.
pub proof fn law_periodic_action_is_due_once_per_interval(rollouts: nat, interval: Option<u32>)
    ensures
        due_count(rollouts, interval) == match interval {
            Some(i) if i > 0 => rollouts / (i as nat),
            _ => 0,
        },
    decreases rollouts,
{
    if rollouts > 0 {
        law_periodic_action_is_due_once_per_interval((rollouts - 1) as nat, interval);
        if let Some(i) = interval {
            if i > 0 {
                lemma_quotient_step((rollouts - 1) as int, i as int);
            }
        }
    } else if let Some(i) = interval {
        if i > 0 {
            assert(0int / (i as int) == 0) by (nonlinear_arith)
                requires
                    i > 0,
            ;
        }
    }
}

proof fn lemma_quotient_step(n: int, i: int)
    requires
        n >= 0,
        i > 0,
    ensures
        (n + 1) / i == n / i + if (n + 1) % i == 0 {
            1int
        } else {
            0int
        },
{
    let q = n / i;
    let m = n % i;
    vstd::arithmetic::div_mod::lemma_fundamental_div_mod(n, i);
    if m + 1 == i {
        assert(n + 1 == (q + 1) * i + 0) by (nonlinear_arith)
            requires
                n == i * q + m,
                m + 1 == i,
        ;
        vstd::arithmetic::div_mod::lemma_fundamental_div_mod_converse(n + 1, i, q + 1, 0);
    } else {
        vstd::arithmetic::div_mod::lemma_mod_bound(n, i);
        assert(n + 1 == q * i + (m + 1)) by (nonlinear_arith)
            requires
                n == i * q + m,
        ;
        vstd::arithmetic::div_mod::lemma_fundamental_div_mod_converse(n + 1, i, q, m + 1);
    }
}

/// The fence token of a job grows by one with every transition, so that no two transitions
/// share one.
pub proof fn law_transition_raises_fence(
    runtime: JobRuntime,
    state: JobState,
    phase: LoopPhase,
    instant: Timestamp,
)
    requires
        runtime.fence_token < u64::MAX,
    ensures
        runtime.moved(state, phase, instant).fence_token == runtime.fence_token + 1,
        runtime.moved(state, phase, instant).job_id == runtime.job_id,
        runtime.moved(state, phase, instant).cursor == runtime.cursor,
{
}

} // verus!
