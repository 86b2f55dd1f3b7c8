use miles_control::api::{JobState, LoopPhase};
use miles_control::lifecycle::{
    plan_action, JobAction, LifecycleDecision, LifecycleError, LifecycleStep,
};

const STATES: [JobState; 7] = [
    JobState::Created,
    JobState::Starting,
    JobState::Running,
    JobState::Paused,
    JobState::Stopping,
    JobState::Stopped,
    JobState::Failed,
];

#[test]
fn start_from_created_transitions_to_running() {
    let decision = plan_action(JobState::Created, JobAction::Start).expect("start from created");
    match decision {
        LifecycleDecision::Apply(steps) => {
            assert_eq!(steps.len(), 2);
            assert_eq!(steps[0].state, JobState::Starting);
            assert_eq!(steps[1].state, JobState::Running);
        }
        LifecycleDecision::Noop(_) => panic!("expected transitions"),
    }
}

#[test]
fn start_is_noop_when_running() {
    let decision = plan_action(JobState::Running, JobAction::Start).expect("start from running");
    assert_eq!(decision, LifecycleDecision::Noop("job already started"));
}

#[test]
fn pause_and_resume_flow_is_valid() {
    let pause = plan_action(JobState::Running, JobAction::Pause).expect("pause");
    assert!(matches!(pause, LifecycleDecision::Apply(_)));

    let resume = plan_action(JobState::Paused, JobAction::Resume).expect("resume");
    assert!(matches!(resume, LifecycleDecision::Apply(_)));
}

#[test]
fn invalid_transitions_are_rejected() {
    let pause_created =
        plan_action(JobState::Created, JobAction::Pause).expect_err("pause from created");
    assert!(matches!(
        pause_created,
        LifecycleError::InvalidTransition { .. }
    ));

    let resume_created =
        plan_action(JobState::Created, JobAction::Resume).expect_err("resume from created");
    assert!(matches!(
        resume_created,
        LifecycleError::InvalidTransition { .. }
    ));

    let start_failed =
        plan_action(JobState::Failed, JobAction::Start).expect_err("start from failed");
    assert!(matches!(
        start_failed,
        LifecycleError::InvalidTransition { .. }
    ));
}

#[test]
fn stop_is_idempotent_for_stopping_or_stopped() {
    let stopping = plan_action(JobState::Stopping, JobAction::Stop).expect("stop from stopping");
    assert_eq!(
        stopping,
        LifecycleDecision::Noop("job already stopping or stopped")
    );

    let stopped = plan_action(JobState::Stopped, JobAction::Stop).expect("stop from stopped");
    assert_eq!(
        stopped,
        LifecycleDecision::Noop("job already stopping or stopped")
    );
}

#[test]
fn action_names_are_lower_case() {
    assert_eq!(JobAction::Start.as_str(), "start");
    assert_eq!(JobAction::Pause.as_str(), "pause");
    assert_eq!(JobAction::Resume.as_str(), "resume");
    assert_eq!(JobAction::Stop.as_str(), "stop");
}

#[test]
fn every_state_answers_every_action() {
    let rejected = |state: JobState, action: JobAction| match action {
        JobAction::Start => matches!(state, JobState::Stopping | JobState::Failed),
        JobAction::Pause | JobAction::Resume => {
            !matches!(state, JobState::Running | JobState::Paused)
        }
        JobAction::Stop => false,
    };
    for state in STATES {
        for action in [
            JobAction::Start,
            JobAction::Pause,
            JobAction::Resume,
            JobAction::Stop,
        ] {
            let plan = plan_action(state, action);
            assert_eq!(plan.is_err(), rejected(state, action), "{state:?} {action:?}");
            if let Ok(LifecycleDecision::Apply(steps)) = plan {
                let led_to = steps.last().expect("steps").state;
                let again = plan_action(led_to, action).expect("admitted again");
                assert!(matches!(again, LifecycleDecision::Noop(_)));
            }
        }
    }
}

#[test]
fn stop_takes_two_cleanup_steps() {
    let plan = plan_action(JobState::Failed, JobAction::Stop).expect("stop from failed");
    assert_eq!(
        plan,
        LifecycleDecision::Apply(vec![
            LifecycleStep {
                state: JobState::Stopping,
                phase: LoopPhase::Cleanup,
                message: "job stopping",
            },
            LifecycleStep {
                state: JobState::Stopped,
                phase: LoopPhase::Cleanup,
                message: "job stopped",
            },
        ])
    );
    assert_eq!(plan.clone(), plan);
}

#[test]
fn stopped_job_can_be_started_again() {
    let plan = plan_action(JobState::Stopped, JobAction::Start).expect("start from stopped");
    assert_eq!(
        plan,
        LifecycleDecision::Apply(vec![
            LifecycleStep {
                state: JobState::Starting,
                phase: LoopPhase::Init,
                message: "job starting",
            },
            LifecycleStep {
                state: JobState::Running,
                phase: LoopPhase::PrepareRollout,
                message: "job running",
            },
        ])
    );
}

#[test]
fn rejected_action_names_action_and_state() {
    let error = plan_action(JobState::Stopping, JobAction::Resume).expect_err("resume");
    assert_eq!(
        error,
        LifecycleError::InvalidTransition {
            state: JobState::Stopping,
            action: "resume",
        }
    );
    assert_eq!(
        error.message(),
        "action resume is invalid from state Stopping"
    );
}
