use crate::api::{JobState, LoopPhase};
use vstd::prelude::*;

verus! {

/// What a user can ask of a job.
#[derive(Debug, Clone, Copy, PartialEq, Eq, Structural)]
pub enum JobAction {
    Start,
    Pause,
    Resume,
    Stop,
}

impl JobAction {
    /// The name of the action.
    pub open spec fn text(self) -> Seq<char> {
        match self {
            JobAction::Start => "start"@,
            JobAction::Pause => "pause"@,
            JobAction::Resume => "resume"@,
            JobAction::Stop => "stop"@,
        }
    }

    pub fn as_str(&self) -> (r: &'static str)
        ensures
            r@ == self.text(),
    {
        match self {
            JobAction::Start => "start",
            JobAction::Pause => "pause",
            JobAction::Resume => "resume",
            JobAction::Stop => "stop",
        }
    }
}

/// One move of a job to a state and a phase, with the message that its event carries.
#[derive(Debug, Clone, Copy, PartialEq, Eq)]
pub struct LifecycleStep {
    pub state: JobState,
    pub phase: LoopPhase,
    pub message: &'static str,
}

/// What a lifecycle step says.
#[verifier::ext_equal]
pub struct StepView {
    pub state: JobState,
    pub phase: LoopPhase,
    pub message: Seq<char>,
}

impl View for LifecycleStep {
    type V = StepView;

    open spec fn view(&self) -> StepView {
        StepView { state: self.state, phase: self.phase, message: self.message@ }
    }
}

/// How an action is carried out: not at all, because the job is already where the
/// action leads, or in steps.
#[derive(Debug, PartialEq, Eq)]
pub enum LifecycleDecision {
    Noop(&'static str),
    Apply(Vec<LifecycleStep>),
}

impl Clone for LifecycleDecision {
    fn clone(&self) -> (r: Self)
        ensures
            r@ == self@,
    {
        let r = match self {
            LifecycleDecision::Noop(message) => LifecycleDecision::Noop(*message),
            LifecycleDecision::Apply(steps) => LifecycleDecision::Apply(steps.clone()),
        };
        assert(r@ =~~= self@);
        r
    }
}

/// What a decision says.
#[verifier::ext_equal]
pub enum DecisionView {
    Noop(Seq<char>),
    Apply(Seq<StepView>),
}

impl View for LifecycleDecision {
    type V = DecisionView;

    open spec fn view(&self) -> DecisionView {
        match self {
            LifecycleDecision::Noop(message) => DecisionView::Noop(message@),
            LifecycleDecision::Apply(steps) => DecisionView::Apply(
                steps@.map_values(|step: LifecycleStep| step@),
            ),
        }
    }
}

#[derive(Debug, Clone, Copy, PartialEq, Eq)]
pub enum LifecycleError {
    InvalidTransition { state: JobState, action: &'static str },
}

impl LifecycleError {
    /// The text shown for this error.
    pub open spec fn text(self) -> Seq<char> {
        match self {
            LifecycleError::InvalidTransition { state, action } => invalid_transition_text(
                state,
                action@,
            ),
        }
    }

    pub fn message(&self) -> (r: String)
        ensures
            r@ == self.text(),
    {
        match self {
            LifecycleError::InvalidTransition { state, action } => {
                let mut r: String = "action ".to_string();
                r.append(*action);
                r.append(" is invalid from state ");
                r.append(state.name());
                r
            },
        }
    }
}

/// The text for an action that a state does not admit.
pub open spec fn invalid_transition_text(state: JobState, action: Seq<char>) -> Seq<char> {
    "action "@ + action + " is invalid from state "@ + state.text()
}

/// The states that admit an action.
pub open spec fn admits(state: JobState, action: JobAction) -> bool {
    match action {
        JobAction::Start => !(state is Stopping || state is Failed),
        JobAction::Pause => state is Running || state is Paused,
        JobAction::Resume => state is Running || state is Paused,
        JobAction::Stop => true,
    }
}

/// The states in which an action has nothing left to do.
pub open spec fn settled(state: JobState, action: JobAction) -> bool {
    match action {
        JobAction::Start => state is Starting || state is Running || state is Paused,
        JobAction::Pause => state is Paused,
        JobAction::Resume => state is Running,
        JobAction::Stop => state is Stopping || state is Stopped,
    }
}

/// The message of an action that has nothing left to do.
pub open spec fn noop_message(action: JobAction) -> Seq<char> {
    match action {
        JobAction::Start => "job already started"@,
        JobAction::Pause => "job already paused"@,
        JobAction::Resume => "job already running"@,
        JobAction::Stop => "job already stopping or stopped"@,
    }
}

/// The steps of an action that has something to do.
pub open spec fn action_steps(action: JobAction) -> Seq<StepView> {
    match action {
        JobAction::Start => seq![
            StepView {
                state: JobState::Starting,
                phase: LoopPhase::Init,
                message: "job starting"@,
            },
            StepView {
                state: JobState::Running,
                phase: LoopPhase::PrepareRollout,
                message: "job running"@,
            },
        ],
        JobAction::Pause => seq![
            StepView {
                state: JobState::Paused,
                phase: LoopPhase::PrepareRollout,
                message: "job paused"@,
            },
        ],
        JobAction::Resume => seq![
            StepView {
                state: JobState::Running,
                phase: LoopPhase::PrepareRollout,
                message: "job resumed"@,
            },
        ],
        JobAction::Stop => seq![
            StepView {
                state: JobState::Stopping,
                phase: LoopPhase::Cleanup,
                message: "job stopping"@,
            },
            StepView {
                state: JobState::Stopped,
                phase: LoopPhase::Cleanup,
                message: "job stopped"@,
            },
        ],
    }
}

/// The decision for an action that the state admits.
pub open spec fn decision(state: JobState, action: JobAction) -> DecisionView {
    if settled(state, action) {
        DecisionView::Noop(noop_message(action))
    } else {
        DecisionView::Apply(action_steps(action))
    }
}

/// The state in which an admitted action leaves a job.
pub open spec fn state_after(state: JobState, action: JobAction) -> JobState {
    if settled(state, action) {
        state
    } else {
        action_steps(action).last().state
    }
}

/// Decides how `action` is carried out on a job in `state`.
pub fn plan_action(state: JobState, action: JobAction) -> (r: Result<
    LifecycleDecision,
    LifecycleError,
>)
    ensures
        match r {
            Ok(plan) => admits(state, action) && plan@ == decision(state, action),
            Err(LifecycleError::InvalidTransition { state: from, action: name }) => !admits(
                state,
                action,
            ) && from == state && name@ == action.text(),
        },
{
    let plan = match action {
        JobAction::Start => match state {
            JobState::Created | JobState::Stopped => LifecycleDecision::Apply(
                vec![
                    LifecycleStep {
                        state: JobState::Starting,
                        phase: LoopPhase::Init,
                        message: "job starting",
                    },
                    LifecycleStep {
                        state: JobState::Running,
                        phase: LoopPhase::PrepareRollout,
                        message: "job running",
                    },
                ],
            ),
            JobState::Starting | JobState::Running | JobState::Paused => {
                LifecycleDecision::Noop("job already started")
            },
            JobState::Stopping | JobState::Failed => {
                return Err(
                    LifecycleError::InvalidTransition { state, action: action.as_str() },
                );
            },
        },
        JobAction::Pause => match state {
            JobState::Running => LifecycleDecision::Apply(
                vec![
                    LifecycleStep {
                        state: JobState::Paused,
                        phase: LoopPhase::PrepareRollout,
                        message: "job paused",
                    },
                ],
            ),
            JobState::Paused => LifecycleDecision::Noop("job already paused"),
            _ => {
                return Err(
                    LifecycleError::InvalidTransition { state, action: action.as_str() },
                );
            },
        },
        JobAction::Resume => match state {
            JobState::Paused => LifecycleDecision::Apply(
                vec![
                    LifecycleStep {
                        state: JobState::Running,
                        phase: LoopPhase::PrepareRollout,
                        message: "job resumed",
                    },
                ],
            ),
            JobState::Running => LifecycleDecision::Noop("job already running"),
            _ => {
                return Err(
                    LifecycleError::InvalidTransition { state, action: action.as_str() },
                );
            },
        },
        JobAction::Stop => match state {
            JobState::Stopped | JobState::Stopping => {
                LifecycleDecision::Noop("job already stopping or stopped")
            },
            JobState::Created | JobState::Starting | JobState::Running | JobState::Paused
            | JobState::Failed => LifecycleDecision::Apply(
                vec![
                    LifecycleStep {
                        state: JobState::Stopping,
                        phase: LoopPhase::Cleanup,
                        message: "job stopping",
                    },
                    LifecycleStep {
                        state: JobState::Stopped,
                        phase: LoopPhase::Cleanup,
                        message: "job stopped",
                    },
                ],
            ),
        },
    };
    assert(plan@ =~~= decision(state, action));
    Ok(plan)
}

/// An action is idempotent: where it was admitted, the state that it leads to admits it
/// again and leaves it nothing to do.
pub proof fn law_action_is_idempotent(state: JobState, action: JobAction)
    requires
        admits(state, action),
    ensures
        admits(state_after(state, action), action),
        settled(state_after(state, action), action),
        state_after(state_after(state, action), action) == state_after(state, action),
{
}

/// Every state admits the stop action, which leads to the stopped state, or leaves a job
/// that is stopping as it is.
pub proof fn law_stop_is_always_admitted(state: JobState)
    ensures
        admits(state, JobAction::Stop),
        state_after(state, JobAction::Stop) is Stopped || (state is Stopping && state_after(
            state,
            JobAction::Stop,
        ) == state),
{
}

/// Pausing a running job and resuming it leads back to a running job, and resuming a
/// paused job and pausing it leads back to a paused job.
pub proof fn law_pause_and_resume_undo_each_other(state: JobState)
    requires
        state is Running || state is Paused,
    ensures
        admits(state, JobAction::Pause),
        admits(state, JobAction::Resume),
        admits(state_after(state, JobAction::Pause), JobAction::Resume),
        state_after(state_after(state, JobAction::Pause), JobAction::Resume) is Running,
        admits(state_after(state, JobAction::Resume), JobAction::Pause),
        state_after(state_after(state, JobAction::Resume), JobAction::Pause) is Paused,
{
}

/// A stopped job can be started again, and runs then.
pub proof fn law_stopped_job_restarts(state: JobState)
    requires
        !(state is Stopping),
    ensures
        admits(state_after(state, JobAction::Stop), JobAction::Start),
        state_after(state_after(state, JobAction::Stop), JobAction::Start) is Running,
{
}

/// An action that an admitting state leaves something to do has at least one step and at
/// most two, and its first step leads to another state.
pub proof fn law_steps_move_the_job(state: JobState, action: JobAction)
    requires
        admits(state, action),
        !settled(state, action),
    ensures
        1 <= action_steps(action).len() <= 2,
        action_steps(action)[0].state != state,
        state_after(state, action) != state,
{
}

} // verus!
