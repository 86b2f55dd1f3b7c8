use crate::clock::{now, Timestamp};
use crate::ids::JobId;
use vstd::prelude::*;

verus! {

/// What identifies one request to a worker.
#[derive(Debug, Clone, Copy, PartialEq, Eq, Structural)]
pub struct CommandContext {
    pub job_id: JobId,
    pub request_id: JobId,
    pub attempt_id: u32,
    pub deadline_ms: u64,
}

#[derive(Debug, Clone, Copy, PartialEq, Eq, Structural)]
pub enum CommandStatus {
    Succeeded,
    RetryableError,
    FatalError,
}

#[derive(Debug, PartialEq, Eq)]
pub struct CommandResult {
    pub status: CommandStatus,
    pub message: String,
    pub timestamp: Timestamp,
}

impl Clone for CommandResult {
    fn clone(&self) -> (r: Self)
        ensures
            r == *self,
    {
        CommandResult {
            status: self.status,
            message: self.message.clone(),
            timestamp: self.timestamp,
        }
    }
}

/// Why a request to a worker got no result.
#[derive(Debug, PartialEq, Eq)]
pub struct WorkerError {
    pub message: String,
}

/// What a worker can be told to do for a job.
#[derive(Debug, Clone, Copy, PartialEq, Eq, Structural)]
pub enum WorkerCommand {
    Init,
    Generate,
    TrainStep,
    UpdateWeights,
    Eval,
    SaveCheckpoint,
}

/// A command that was sent to a worker.
pub struct SentCommand {
    pub command: WorkerCommand,
    pub context: CommandContext,
}

/// A connection to the workers. A request may fail; a client on which none does is
/// reliable.
///
/// The spec functions exist for proofs alone, and a client whose code is not verified leaves
/// them out. Their defaults say nothing of such a client: it is held to the contracts below
/// with ghosts of its own in their place, that is, with the commands that it sent and the
/// errors that it answers.
pub trait WorkerClient {
    /// The commands that were sent so far.
    open spec fn sent(&self) -> Seq<SentCommand> {
        Seq::empty()
    }

    /// Whether no request fails.
    open spec fn reliable(&self) -> bool {
        false
    }

    /// Whether a command fails with an error that says `message`.
    open spec fn refuses(&self, command: SentCommand, message: Seq<char>) -> bool {
        false
    }

    fn init(&mut self, ctx: CommandContext) -> (r: Result<CommandResult, WorkerError>)
        ensures
            final(self).sent() == old(self).sent().push(
                SentCommand { command: WorkerCommand::Init, context: ctx },
            ),
            final(self).reliable() == old(self).reliable(),
            r matches Err(e) ==> !old(self).reliable() && old(self).refuses(
                SentCommand { command: WorkerCommand::Init, context: ctx },
                e.message@,
            ),
    ;

    fn generate(&mut self, ctx: CommandContext) -> (r: Result<CommandResult, WorkerError>)
        ensures
            final(self).sent() == old(self).sent().push(
                SentCommand { command: WorkerCommand::Generate, context: ctx },
            ),
            final(self).reliable() == old(self).reliable(),
            r matches Err(e) ==> !old(self).reliable() && old(self).refuses(
                SentCommand { command: WorkerCommand::Generate, context: ctx },
                e.message@,
            ),
    ;

    fn train_step(&mut self, ctx: CommandContext) -> (r: Result<CommandResult, WorkerError>)
        ensures
            final(self).sent() == old(self).sent().push(
                SentCommand { command: WorkerCommand::TrainStep, context: ctx },
            ),
            final(self).reliable() == old(self).reliable(),
            r matches Err(e) ==> !old(self).reliable() && old(self).refuses(
                SentCommand { command: WorkerCommand::TrainStep, context: ctx },
                e.message@,
            ),
    ;

    fn update_weights(&mut self, ctx: CommandContext) -> (r: Result<CommandResult, WorkerError>)
        ensures
            final(self).sent() == old(self).sent().push(
                SentCommand { command: WorkerCommand::UpdateWeights, context: ctx },
            ),
            final(self).reliable() == old(self).reliable(),
            r matches Err(e) ==> !old(self).reliable() && old(self).refuses(
                SentCommand { command: WorkerCommand::UpdateWeights, context: ctx },
                e.message@,
            ),
    ;

    fn eval(&mut self, ctx: CommandContext) -> (r: Result<CommandResult, WorkerError>)
        ensures
            final(self).sent() == old(self).sent().push(
                SentCommand { command: WorkerCommand::Eval, context: ctx },
            ),
            final(self).reliable() == old(self).reliable(),
            r matches Err(e) ==> !old(self).reliable() && old(self).refuses(
                SentCommand { command: WorkerCommand::Eval, context: ctx },
                e.message@,
            ),
    ;

    fn save_checkpoint(&mut self, ctx: CommandContext) -> (r: Result<CommandResult, WorkerError>)
        ensures
            final(self).sent() == old(self).sent().push(
                SentCommand { command: WorkerCommand::SaveCheckpoint, context: ctx },
            ),
            final(self).reliable() == old(self).reliable(),
            r matches Err(e) ==> !old(self).reliable() && old(self).refuses(
                SentCommand { command: WorkerCommand::SaveCheckpoint, context: ctx },
                e.message@,
            ),
    ;

    fn health(&mut self) -> (r: Result<CommandResult, WorkerError>)
        ensures
            final(self).sent() == old(self).sent(),
            final(self).reliable() == old(self).reliable(),
            r is Err ==> !old(self).reliable(),
    ;
}

/// The last command of the client failed with an error that says `message`.
pub open spec fn last_command_refused<C: WorkerClient>(client: C, message: Seq<char>) -> bool {
    exists|at: C| #[trigger]
        at.refuses(client.sent().last(), message) && at.sent() == client.sent().drop_last()
}

/// A client without workers, which answers each request by the name of the request.
pub struct MockWorkerClient {
    log: Ghost<Seq<SentCommand>>,
}

impl Default for MockWorkerClient {
    fn default() -> (r: Self)
        ensures
            r.sent() == Seq::<SentCommand>::empty(),
    {
        MockWorkerClient { log: Ghost(Seq::empty()) }
    }
}

impl Clone for MockWorkerClient {
    fn clone(&self) -> (r: Self)
        ensures
            r.sent() == self.sent(),
    {
        MockWorkerClient { log: self.log }
    }
}

/// A successful result with the given message, at a time that the clock gave.
pub open spec fn succeeds(r: Result<CommandResult, WorkerError>, message: Seq<char>) -> bool {
    r matches Ok(result) && result.status == CommandStatus::Succeeded && result.message@ == message
        && result.timestamp.of_clock()
}

impl MockWorkerClient {
    fn ok(msg: &str) -> (r: CommandResult)
        ensures
            r.status == CommandStatus::Succeeded,
            r.message@ == msg@,
            r.timestamp.of_clock(),
    {
        CommandResult { status: CommandStatus::Succeeded, message: msg.to_string(), timestamp: now() }
    }

    fn record(&mut self, Ghost(command): Ghost<WorkerCommand>, ctx: CommandContext)
        ensures
            final(self).sent() == old(self).sent().push(SentCommand { command, context: ctx }),
    {
        self.log = Ghost(self.log@.push(SentCommand { command, context: ctx }));
    }
}

impl WorkerClient for MockWorkerClient {
    closed spec fn sent(&self) -> Seq<SentCommand> {
        self.log@
    }

    open spec fn reliable(&self) -> bool {
        true
    }

    fn init(&mut self, ctx: CommandContext) -> (r: Result<CommandResult, WorkerError>)
        ensures
            succeeds(r, "init"@),
    {
        self.record(Ghost(WorkerCommand::Init), ctx);
        Ok(Self::ok("init"))
    }

    fn generate(&mut self, ctx: CommandContext) -> (r: Result<CommandResult, WorkerError>)
        ensures
            succeeds(r, "generate"@),
    {
        self.record(Ghost(WorkerCommand::Generate), ctx);
        Ok(Self::ok("generate"))
    }

    fn train_step(&mut self, ctx: CommandContext) -> (r: Result<CommandResult, WorkerError>)
        ensures
            succeeds(r, "train_step"@),
    {
        self.record(Ghost(WorkerCommand::TrainStep), ctx);
        Ok(Self::ok("train_step"))
    }

    fn update_weights(&mut self, ctx: CommandContext) -> (r: Result<CommandResult, WorkerError>)
        ensures
            succeeds(r, "update_weights"@),
    {
        self.record(Ghost(WorkerCommand::UpdateWeights), ctx);
        Ok(Self::ok("update_weights"))
    }

    fn eval(&mut self, ctx: CommandContext) -> (r: Result<CommandResult, WorkerError>)
        ensures
            succeeds(r, "eval"@),
    {
        self.record(Ghost(WorkerCommand::Eval), ctx);
        Ok(Self::ok("eval"))
    }

    fn save_checkpoint(&mut self, ctx: CommandContext) -> (r: Result<CommandResult, WorkerError>)
        ensures
            succeeds(r, "save_checkpoint"@),
    {
        self.record(Ghost(WorkerCommand::SaveCheckpoint), ctx);
        Ok(Self::ok("save_checkpoint"))
    }

    fn health(&mut self) -> (r: Result<CommandResult, WorkerError>)
        ensures
            succeeds(r, "health"@),
    {
        Ok(Self::ok("health"))
    }
}

} // verus!
