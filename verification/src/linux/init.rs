//! The first process of a domain: it puts the domain together once, then runs one
//! command at a time until it is told to stop or nobody is there to tell it.

use vstd::prelude::*;

use crate::clock::LAST_INSTANT;
use crate::contracts::{AttemptIdentity, FailureCategory, Stage, StepFilesId};
use crate::error;
use crate::error::ExecutionDomainError;
use crate::linux::command;
use crate::linux::command::RunningCommand;
use crate::linux::launcher;
use crate::linux::rootfs;

verus! {

/// How many processes are reaped before anything else gets its turn.
pub const REAP_BATCH: usize = 128;

/// How long sending one message may take, in nanoseconds.
pub const WRITE_LIMIT: u128 = 30_000_000_000;

/// The error number for a process that has no children.
pub const ECHILD: i32 = 10;

/// A failure of the exchange with the service.
pub open spec fn protocol_error(category: FailureCategory) -> ExecutionDomainError {
    error::backend(Stage::Protocol, category)
}

/// Reports a failure of the exchange with the service.
pub fn protocol_failure(category: FailureCategory) -> (e: ExecutionDomainError)
    ensures
        e == protocol_error(category),
{
    error::backend_failure(Stage::Protocol, category)
}

/// What the service asks for.
#[derive(Debug, Clone, Copy, PartialEq, Eq, Structural)]
pub enum Incoming {
    Bootstrap,
    Hello,
    Run,
    CancelCommand,
    PrepareStep,
    PrepareStepChunk,
    ReadStep,
    Shutdown,
    /// An answer, which nobody asked for.
    Response,
}

/// Accepts the first message: it must describe the domain of this very attempt.
pub fn accept_bootstrap(
    message: Incoming,
    own: &AttemptIdentity,
    described: &AttemptIdentity,
    hostname: &str,
) -> (r: Result<(), ExecutionDomainError>)
    ensures
        r == (if message != Incoming::Bootstrap {
            Err::<(), ExecutionDomainError>(protocol_error(FailureCategory::NotReady))
        } else if described@ != own@ {
            Err(protocol_error(FailureCategory::IdentityMismatch))
        } else if !rootfs::host_name(hostname@) {
            Err(protocol_error(FailureCategory::InvalidInput))
        } else {
            Ok(())
        }),
{
    match message {
        Incoming::Bootstrap => {},
        _ => {
            return Err(protocol_failure(FailureCategory::NotReady));
        },
    }
    if described.uuid() != own.uuid() {
        return Err(protocol_failure(FailureCategory::IdentityMismatch));
    }
    if !rootfs::valid_hostname(hostname) {
        return Err(protocol_failure(FailureCategory::InvalidInput));
    }
    Ok(())
}

/// What is done about a message before the domain is there.
#[derive(Debug, Clone, Copy, PartialEq, Eq, Structural)]
pub enum StartupAction {
    /// Put the domain together.
    Assemble,
    Reject(FailureCategory),
    /// Say that the process ends, and end.
    ShutDown,
}

/// A domain that was described, but is not there yet.
#[derive(Debug, Clone, Copy, PartialEq, Eq, Structural)]
pub struct Startup {
    /// Whether nobody has tried to put the domain together.
    pub untried: bool,
}

impl Startup {
    /// Nobody has tried yet.
    pub fn begin() -> (r: Startup)
        ensures
            r.untried,
    {
        Startup { untried: true }
    }

    /// What is done about a message. The domain is put together at most once: what a
    /// failed attempt has left is for the service to remove.
    pub fn respond(&mut self, message: Incoming) -> (r: StartupAction)
        ensures
            final(self).untried == (old(self).untried && message != Incoming::Hello),
            r == (match message {
                Incoming::Hello => if old(self).untried {
                    StartupAction::Assemble
                } else {
                    StartupAction::Reject(FailureCategory::NotReady)
                },
                Incoming::Shutdown => StartupAction::ShutDown,
                Incoming::Bootstrap | Incoming::Response => StartupAction::Reject(
                    FailureCategory::Protocol,
                ),
                _ => StartupAction::Reject(FailureCategory::NotReady),
            }),
    {
        match message {
            Incoming::Hello => {
                if self.untried {
                    self.untried = false;
                    StartupAction::Assemble
                } else {
                    StartupAction::Reject(FailureCategory::NotReady)
                }
            },
            Incoming::Shutdown => StartupAction::ShutDown,
            Incoming::Bootstrap | Incoming::Response => StartupAction::Reject(
                FailureCategory::Protocol,
            ),
            _ => StartupAction::Reject(FailureCategory::NotReady),
        }
    }
}

/// What is done about a message once the domain is there.
#[derive(Debug, Clone, Copy, PartialEq, Eq, Structural)]
pub enum InitAction {
    Run,
    Cancel,
    /// Say that the domain is there.
    Ready,
    /// Cancel what runs, and say that the process ends.
    ShutDown,
    /// Something about the files of a step.
    State,
    Reject(FailureCategory),
}

/// What is done about the files of a step.
#[derive(Debug, Clone, Copy, PartialEq, Eq, Structural)]
pub enum StateAction {
    Prepare,
    /// Take a part of an event.
    Collect,
    Read,
    Reject(FailureCategory),
}

/// What comes after a part of an event.
pub enum EventNext {
    /// Wait for the next part.
    Await,
    /// The event is whole; make the files of its step.
    Prepare(Vec<u8>),
}

/// What is answered about the files of a step.
#[derive(Debug, Clone, Copy, PartialEq, Eq, Structural)]
pub enum StateReply {
    /// Nothing is said now.
    Silent,
    /// The files are there.
    Prepared,
    Reject(FailureCategory),
}

/// What a cancellation came to.
#[derive(Debug, Clone, Copy, PartialEq, Eq, Structural)]
pub enum CancelDisposition {
    Applied,
    NotRunning,
}

/// What is done to start a command.
#[derive(Debug, Clone, Copy, PartialEq, Eq, Structural)]
pub enum RunStage {
    /// Make files for a command that has no step of its own.
    PrepareStep,
    PrepareCommand,
    Spawn,
}

/// The first process of a domain that is there.
pub struct InitRuntime {
    pub active: Option<RunningCommand>,
    /// The files of a command that has no step of its own.
    pub ephemeral_step: Option<StepFilesId>,
    pub sending: bool,
    pub connected: bool,
    pub stopping: bool,
    pub write_deadline: Option<u128>,
    pub terminal_error: Option<ExecutionDomainError>,
    pub last_command_id: u64,
    /// Whether a part of an event was received.
    pub collecting: bool,
    /// How many parts of a step's results are still to be sent.
    pub snapshot: usize,
}

impl InitRuntime {
    /// A domain that is there, and in which nothing has run.
    pub fn new() -> (r: InitRuntime)
        ensures
            r == (InitRuntime {
                active: None,
                ephemeral_step: None,
                sending: false,
                connected: true,
                stopping: false,
                write_deadline: None,
                terminal_error: None,
                last_command_id: 0,
                collecting: false,
                snapshot: 0,
            }),
    {
        InitRuntime {
            active: None,
            ephemeral_step: None,
            sending: false,
            connected: true,
            stopping: false,
            write_deadline: None,
            terminal_error: None,
            last_command_id: 0,
            collecting: false,
            snapshot: 0,
        }
    }

    /// Notes that the process was signalled to stop. `true` stands for the first time,
    /// when what runs has to be cancelled.
    pub fn signalled(&mut self) -> (r: bool)
        ensures
            r == !old(self).stopping,
            *final(self) == (InitRuntime { stopping: true, ..*old(self) }),
    {
        let first: bool = !self.stopping;
        self.stopping = true;
        first
    }

    /// What is done about a message.
    pub fn request(&mut self, message: Incoming) -> (r: InitAction)
        ensures
            *final(self) == (InitRuntime {
                stopping: old(self).stopping || message == Incoming::Shutdown,
                ..*old(self)
            }),
            r == (match message {
                Incoming::Run => if old(self).stopping {
                    InitAction::Reject(FailureCategory::Protocol)
                } else {
                    InitAction::Run
                },
                Incoming::CancelCommand => InitAction::Cancel,
                Incoming::Hello => InitAction::Ready,
                Incoming::Shutdown => InitAction::ShutDown,
                Incoming::PrepareStep | Incoming::PrepareStepChunk | Incoming::ReadStep => {
                    InitAction::State
                },
                Incoming::Bootstrap | Incoming::Response => InitAction::Reject(
                    FailureCategory::Protocol,
                ),
            }),
    {
        match message {
            Incoming::Run => {
                if self.stopping {
                    InitAction::Reject(FailureCategory::Protocol)
                } else {
                    InitAction::Run
                }
            },
            Incoming::CancelCommand => InitAction::Cancel,
            Incoming::Hello => InitAction::Ready,
            Incoming::Shutdown => {
                self.stopping = true;
                InitAction::ShutDown
            },
            Incoming::PrepareStep | Incoming::PrepareStepChunk | Incoming::ReadStep => {
                InitAction::State
            },
            Incoming::Bootstrap | Incoming::Response => InitAction::Reject(
                FailureCategory::Protocol,
            ),
        }
    }

    /// Why a command is refused: something else is under way, or its number is not a
    /// new one.
    pub open spec fn refusal(self, id: u64) -> Option<FailureCategory> {
        if self.active is Some || self.collecting || self.snapshot > 0 {
            Some(FailureCategory::Unavailable)
        } else if id <= self.last_command_id {
            Some(FailureCategory::Protocol)
        } else {
            None
        }
    }

    /// Accepts a command by its number, or says why not.
    pub fn check_run(&self, id: u64) -> (r: Result<(), FailureCategory>)
        ensures
            r == (match self.refusal(id) {
                Some(category) => Err::<(), FailureCategory>(category),
                None => Ok(()),
            }),
    {
        if self.active.is_some() || self.collecting || self.snapshot > 0 {
            return Err(FailureCategory::Unavailable);
        }
        if id == 0 || id <= self.last_command_id {
            return Err(FailureCategory::Protocol);
        }
        Ok(())
    }

    /// Notes that a command was started.
    pub fn command_started(&mut self, command: RunningCommand)
        requires
            old(self).refusal(command.id) is None,
        ensures
            *final(self) == (InitRuntime {
                active: Some(command),
                last_command_id: command.id,
                ..*old(self)
            }),
    {
        self.last_command_id = command.id;
        self.active = Some(command);
    }

    /// Begins to start a command, given whether it has a step of its own.
    pub fn begin_run(&self, id: u64, has_step: bool) -> (r: Result<RunStage, FailureCategory>)
        ensures
            r == (match self.refusal(id) {
                Some(category) => Err::<RunStage, FailureCategory>(category),
                None => Ok(
                    if has_step {
                        RunStage::PrepareCommand
                    } else {
                        RunStage::PrepareStep
                    },
                ),
            }),
    {
        match self.check_run(id) {
            Err(category) => Err(category),
            Ok(_) => Ok(
                if has_step {
                    RunStage::PrepareCommand
                } else {
                    RunStage::PrepareStep
                },
            ),
        }
    }

    /// The state with the files of a command that has no step of its own.
    pub open spec fn with_files(self, step: Option<StepFilesId>) -> InitRuntime {
        InitRuntime { ephemeral_step: step, ..self }
    }

    /// Takes the files that were made for a command, where they could be made.
    pub fn step_prepared(&mut self, made: Option<StepFilesId>) -> (r: Result<
        RunStage,
        FailureCategory,
    >)
        ensures
            match made {
                Some(step) => r == Ok::<RunStage, FailureCategory>(RunStage::PrepareCommand)
                    && *final(self) == old(self).with_files(Some(step)),
                None => r == Err::<RunStage, FailureCategory>(FailureCategory::InvalidInput)
                    && *final(self) == *old(self),
            },
    {
        match made {
            Some(step) => {
                self.ephemeral_step = Some(step);
                Ok(RunStage::PrepareCommand)
            },
            None => Err(FailureCategory::InvalidInput),
        }
    }

    /// Takes whether a command could be prepared. Where it could not, it is refused,
    /// and files that were made for it are to be discarded.
    pub fn command_prepared(&mut self, prepared: bool) -> (r: (
        Option<StepFilesId>,
        Result<RunStage, FailureCategory>,
    ))
        ensures
            if prepared {
                r == (None::<StepFilesId>, Ok::<RunStage, FailureCategory>(RunStage::Spawn))
                    && *final(self) == *old(self)
            } else {
                r == (
                    old(self).ephemeral_step,
                    Err::<RunStage, FailureCategory>(FailureCategory::InvalidInput),
                ) && *final(self) == old(self).with_files(None)
            },
    {
        if prepared {
            (None, Ok(RunStage::Spawn))
        } else {
            (self.discard_ephemeral_step(), Err(FailureCategory::InvalidInput))
        }
    }

    /// Takes the process of a command and its deadline, where it could be started.
    /// Where it could not, it is refused, and files that were made for it are to be
    /// discarded.
    pub fn command_spawned(&mut self, id: u64, spawned: Option<(i32, u128)>) -> (r: (
        Option<StepFilesId>,
        Result<(), FailureCategory>,
    ))
        requires
            old(self).refusal(id) is None,
        ensures
            match spawned {
                Some((pid, deadline)) => r == (None::<StepFilesId>, Ok::<(), FailureCategory>(()))
                    && *final(self) == (InitRuntime {
                    active: Some(RunningCommand::fresh(id, pid, deadline)),
                    last_command_id: id,
                    ..*old(self)
                }),
                None => r == (
                    old(self).ephemeral_step,
                    Err::<(), FailureCategory>(FailureCategory::Unavailable),
                ) && *final(self) == old(self).with_files(None),
            },
    {
        match spawned {
            Some((pid, deadline)) => {
                self.command_started(RunningCommand::started(id, pid, deadline));
                (None, Ok(()))
            },
            None => (self.discard_ephemeral_step(), Err(FailureCategory::Unavailable)),
        }
    }

    /// Whether a command is the one that runs.
    pub fn cancel_command(&self, id: u64) -> (r: CancelDisposition)
        ensures
            r == (if self.active matches Some(c) && c.id == id {
                CancelDisposition::Applied
            } else {
                CancelDisposition::NotRunning
            }),
    {
        match &self.active {
            Some(c) => {
                if c.id == id {
                    CancelDisposition::Applied
                } else {
                    CancelDisposition::NotRunning
                }
            },
            None => CancelDisposition::NotRunning,
        }
    }

    /// Takes the files away from a command that has no step of its own.
    pub fn discard_ephemeral_step(&mut self) -> (r: Option<StepFilesId>)
        ensures
            r == old(self).ephemeral_step,
            *final(self) == (InitRuntime { ephemeral_step: None, ..*old(self) }),
    {
        let id: Option<StepFilesId> = self.ephemeral_step;
        self.ephemeral_step = None;
        id
    }

    /// What is done about a message on the files of a step.
    pub open spec fn state_action(self, message: Incoming) -> StateAction {
        if self.stopping || self.active is Some || self.snapshot > 0 {
            StateAction::Reject(FailureCategory::Unavailable)
        } else {
            match message {
                Incoming::PrepareStepChunk => StateAction::Collect,
                Incoming::PrepareStep if !self.collecting => StateAction::Prepare,
                Incoming::ReadStep if !self.collecting => StateAction::Read,
                _ => StateAction::Reject(FailureCategory::Protocol),
            }
        }
    }

    /// What is done about a message on the files of a step.
    pub fn state_request(&self, message: Incoming) -> (r: StateAction)
        ensures
            r == self.state_action(message),
    {
        if self.stopping || self.active.is_some() || self.snapshot > 0 {
            return StateAction::Reject(FailureCategory::Unavailable);
        }
        match message {
            Incoming::PrepareStepChunk => StateAction::Collect,
            Incoming::PrepareStep => {
                if self.collecting {
                    StateAction::Reject(FailureCategory::Protocol)
                } else {
                    StateAction::Prepare
                }
            },
            Incoming::ReadStep => {
                if self.collecting {
                    StateAction::Reject(FailureCategory::Protocol)
                } else {
                    StateAction::Read
                }
            },
            _ => StateAction::Reject(FailureCategory::Protocol),
        }
    }

    /// Answers to the making of the files of a step.
    pub fn files_made(made: bool) -> (r: StateReply)
        ensures
            r == (if made {
                StateReply::Prepared
            } else {
                StateReply::Reject(FailureCategory::InvalidInput)
            }),
    {
        if made {
            StateReply::Prepared
        } else {
            StateReply::Reject(FailureCategory::InvalidInput)
        }
    }

    /// Takes what a part of an event came to: the whole event, or nothing while more
    /// parts are to come. What went wrong with a part is handed on, and the event stays
    /// unfinished.
    pub fn event_part(&mut self, part: Result<Option<Vec<u8>>, ExecutionDomainError>) -> (r: Result<
        EventNext,
        ExecutionDomainError,
    >)
        ensures
            r == (match part {
                Ok(Some(event)) => Ok::<EventNext, ExecutionDomainError>(EventNext::Prepare(event)),
                Ok(None) => Ok(EventNext::Await),
                Err(e) => Err(e),
            }),
            *final(self) == (InitRuntime {
                collecting: !(part is Ok && part->Ok_0 is Some),
                ..*old(self)
            }),
    {
        match part {
            Ok(Some(event)) => {
                self.collecting = false;
                Ok(EventNext::Prepare(event))
            },
            Ok(None) => {
                self.collecting = true;
                Ok(EventNext::Await)
            },
            Err(e) => {
                self.collecting = true;
                Err(e)
            },
        }
    }

    /// Begins to send the results of a step, given into how many parts they were split.
    /// `None` stands for results that could not be read.
    pub fn begin_snapshot(&mut self, parts: Option<Result<usize, ExecutionDomainError>>) -> (r:
        Result<StateReply, ExecutionDomainError>)
        ensures
            match parts {
                None => r == Ok::<StateReply, ExecutionDomainError>(
                    StateReply::Reject(FailureCategory::InvalidInput),
                ) && *final(self) == *old(self),
                Some(Err(e)) => r == Err::<StateReply, ExecutionDomainError>(e) && *final(self)
                    == *old(self),
                Some(Ok(count)) => r == Ok::<StateReply, ExecutionDomainError>(StateReply::Silent)
                    && *final(self) == (InitRuntime { snapshot: count, ..*old(self) }),
            },
    {
        match parts {
            None => Ok(StateReply::Reject(FailureCategory::InvalidInput)),
            Some(Err(e)) => Err(e),
            Some(Ok(count)) => {
                self.snapshot = count;
                Ok(StateReply::Silent)
            },
        }
    }

    /// Notes that nobody listens any more. What runs has to be cancelled, and nothing
    /// that was meant for the service is kept.
    pub fn disconnect(&mut self, error: ExecutionDomainError)
        ensures
            *final(self) == (InitRuntime {
                connected: false,
                stopping: true,
                snapshot: 0,
                collecting: false,
                terminal_error: Some(error),
                ..*old(self)
            }),
    {
        self.connected = false;
        self.stopping = true;
        self.snapshot = 0;
        self.collecting = false;
        self.terminal_error = Some(error);
    }

    /// Notes that the command is over. `true` stands for a service that is to be told.
    pub fn command_over(&mut self) -> (r: bool)
        ensures
            r == old(self).connected,
            *final(self) == (InitRuntime { active: None, ..*old(self) }),
    {
        self.active = None;
        self.connected
    }

    /// Whether the process ends: it was told to, nothing runs, and nothing is being
    /// sent to anybody.
    pub open spec fn over(self) -> bool {
        self.stopping && self.active is None && (!self.connected || !self.sending)
    }

    /// What the process ends with, where it ends.
    pub fn finished(&mut self) -> (r: Option<Result<(), ExecutionDomainError>>)
        ensures
            if old(self).over() {
                r == Some(
                    match old(self).terminal_error {
                        Some(e) => Err::<(), ExecutionDomainError>(e),
                        None => Ok(()),
                    },
                ) && *final(self) == (InitRuntime { terminal_error: None, ..*old(self) })
            } else {
                r is None && *final(self) == *old(self)
            },
    {
        if !(self.stopping && self.active.is_none() && (!self.connected || !self.sending)) {
            return None;
        }
        let mut last: Option<ExecutionDomainError> = None;
        std::mem::swap(&mut last, &mut self.terminal_error);
        match last {
            Some(e) => Some(Err(e)),
            None => Some(Ok(())),
        }
    }

    /// Notes that a message has been sent completely.
    pub fn flushed(&mut self)
        ensures
            *final(self) == (InitRuntime { sending: false, write_deadline: None, ..*old(self) }),
    {
        self.sending = false;
        self.write_deadline = None;
    }

    /// Notes that sending a message has begun.
    pub fn send_started(&mut self, now: u128)
        requires
            now <= LAST_INSTANT,
        ensures
            *final(self) == (InitRuntime {
                sending: true,
                write_deadline: Some((now + WRITE_LIMIT) as u128),
                ..*old(self)
            }),
    {
        self.sending = true;
        self.write_deadline = Some(now + WRITE_LIMIT);
    }

    /// Whether the service has taken too long to take a message.
    pub fn check_write(&self, now: u128) -> (r: Result<(), ExecutionDomainError>)
        ensures
            r == (if self.write_deadline matches Some(at) && now >= at {
                Err::<(), ExecutionDomainError>(protocol_error(FailureCategory::Timeout))
            } else {
                Ok(())
            }),
    {
        match self.write_deadline {
            Some(at) => {
                if now >= at {
                    return Err(protocol_failure(FailureCategory::Timeout));
                }
            },
            None => {},
        }
        Ok(())
    }

    /// Whether a part of a step's results goes out now.
    pub open spec fn part_due(self, capacity: bool) -> bool {
        self.connected && capacity && self.snapshot > 0
    }

    /// Sends the next part of a step's results, where there is one and room for it.
    /// `true` stands for a part that goes out now.
    pub fn send_part(&mut self, capacity: bool) -> (r: bool)
        ensures
            r == old(self).part_due(capacity),
            *final(self) == (if r {
                (InitRuntime { snapshot: (old(self).snapshot - 1) as usize, ..*old(self) })
            } else {
                *old(self)
            }),
    {
        if self.connected && capacity && self.snapshot > 0 {
            self.snapshot = self.snapshot - 1;
            true
        } else {
            false
        }
    }

    /// Whether output of the command is read now. Where nobody listens it is read all
    /// the same, so that the command is not held up.
    pub fn output_due(&self, capacity: bool) -> (r: bool)
        ensures
            r == ((!self.connected || capacity) && self.active is Some),
    {
        (!self.connected || capacity) && self.active.is_some()
    }

    /// Notes that a process was reaped.
    pub fn reaped(&mut self, pid: i32, status: i32, now: u128)
        requires
            now <= LAST_INSTANT,
        ensures
            match old(self).active {
                Some(c) if c.pid == Some(pid) => *final(self) == (InitRuntime {
                    active: Some(
                        RunningCommand {
                            pid: None,
                            reaped: Some(command::ended(status)),
                            drain_deadline: Some((now + command::DRAIN_GRACE) as u128),
                            ..c
                        },
                    ),
                    ..*old(self)
                }),
                _ => *final(self) == *old(self),
            },
    {
        match self.active {
            Some(c) => {
                let own: bool = match c.pid {
                    Some(p) => p == pid,
                    None => false,
                };
                if own {
                    let mut c: RunningCommand = c;
                    c.exited(status, now);
                    self.active = Some(c);
                }
            },
            None => {},
        }
    }
}

/// The numbers of the commands that run in a domain rise, so none is ever used twice.
pub proof fn law_command_numbers_rise(before: InitRuntime, command: RunningCommand)
    requires
        before.refusal(command.id) is None,
    ensures
        command.id > before.last_command_id,
        (InitRuntime { active: None, last_command_id: command.id, ..before }).refusal(command.id)
            == Some(FailureCategory::Protocol),
{
}

/// While a command runs no other is accepted, and no file of a step is touched.
pub proof fn law_one_command_at_a_time(state: InitRuntime, id: u64, message: Incoming)
    requires
        state.active is Some,
    ensures
        state.refusal(id) == Some(FailureCategory::Unavailable),
        state.state_action(message) == StateAction::Reject(FailureCategory::Unavailable),
{
}

/// While an event is collected, or results are sent, no command is accepted. The rest
/// of the event is then the only thing that is taken about the files of a step, and
/// nothing at all while results are sent.
pub proof fn law_transfers_stand_alone(state: InitRuntime, id: u64, message: Incoming)
    requires
        state.collecting || state.snapshot > 0,
    ensures
        state.refusal(id) == Some(FailureCategory::Unavailable),
        state.state_action(message) == (if state.stopping || state.active is Some || state.snapshot
            > 0 {
            StateAction::Reject(FailureCategory::Unavailable)
        } else if message == Incoming::PrepareStepChunk {
            StateAction::Collect
        } else {
            StateAction::Reject(FailureCategory::Protocol)
        }),
{
}

/// A command that could not be started leaves nothing behind: once its files are
/// discarded the domain is as it was before, and takes the same number again.
pub proof fn law_failed_starts_leave_nothing(before: InitRuntime, step: StepFilesId, id: u64)
    requires
        before.refusal(id) is None,
        before.ephemeral_step is None,
    ensures
        before.with_files(Some(step)).with_files(None) == before,
        before.with_files(Some(step)).refusal(id) is None,
{
}

/// What comes after an attempt to reap.
#[derive(Debug, Clone, Copy, PartialEq, Eq, Structural)]
pub enum ReapNext {
    /// A process was reaped; try again.
    Reaped,
    /// Nothing is left to reap.
    Finished,
    /// Try again.
    Again,
    Failed,
}

/// Decides what comes after an attempt to reap.
pub fn reap_next(result: i32, errno: Option<i32>, interrupted: bool) -> (r: ReapNext)
    ensures
        r == (if result > 0 {
            ReapNext::Reaped
        } else if result == 0 || errno == Some(ECHILD) {
            ReapNext::Finished
        } else if interrupted {
            ReapNext::Again
        } else {
            ReapNext::Failed
        }),
{
    if result > 0 {
        return ReapNext::Reaped;
    }
    let childless: bool = match errno {
        Some(n) => n == ECHILD,
        None => false,
    };
    if result == 0 || childless {
        ReapNext::Finished
    } else if interrupted {
        ReapNext::Again
    } else {
        ReapNext::Failed
    }
}

/// The wait for the first process of a domain, by the one that started it.
#[derive(Debug, Clone, Copy, PartialEq, Eq, Structural)]
pub struct InitWait {
    /// When the process is killed, once it was asked to end.
    pub kill_at: Option<u128>,
}

/// What comes next in the wait.
pub enum InitWaitStep {
    /// The process has ended; this is the exit status.
    Ended(i32),
    Failed(ExecutionDomainError),
    /// Ask the process to end, and look again.
    Term(InitWait),
    /// Kill the process, and look again.
    Kill(InitWait),
    /// Look again.
    Pause(InitWait),
}

impl InitWait {
    /// Begins the wait.
    pub fn begin() -> (r: InitWait)
        ensures
            r.kill_at is None,
    {
        InitWait { kill_at: None }
    }

    /// The exit status that stands for the end of a process.
    pub open spec fn exit_code(status: i32) -> int {
        if status & 0x7f == 0 {
            ((status >> 8u32) & 0xff) as int
        } else {
            128 + (status & 0x7f)
        }
    }

    /// Takes a look at the process.
    pub fn looked(
        self,
        child: i32,
        result: i32,
        status: i32,
        interrupted: bool,
        errno: Option<i32>,
        stop: bool,
        now: u128,
    ) -> (r: InitWaitStep)
        requires
            now <= LAST_INSTANT,
        ensures
            if result == child {
                r matches InitWaitStep::Ended(code) && code == Self::exit_code(status)
            } else if result < 0 && !interrupted {
                r == InitWaitStep::Failed(error::backend_io(Stage::Launch, errno))
            } else if !stop {
                r == InitWaitStep::Pause(self)
            } else {
                r == (match self.kill_at {
                    None => InitWaitStep::Term(
                        InitWait { kill_at: Some((now + command::TERM_GRACE) as u128) },
                    ),
                    Some(at) => if now >= at {
                        InitWaitStep::Kill(self)
                    } else {
                        InitWaitStep::Pause(self)
                    },
                })
            },
    {
        if result == child {
            if command::wait_exited(status) {
                return InitWaitStep::Ended(command::wait_exit_status(status));
            }
            let signal: i32 = command::wait_signal(status);
            assert(0 <= status & 0x7f <= 127) by (bit_vector);
            return InitWaitStep::Ended(128 + signal);
        }
        if result < 0 && !interrupted {
            return InitWaitStep::Failed(launcher::io_failure(errno));
        }
        if !stop {
            return InitWaitStep::Pause(self);
        }
        match self.kill_at {
            None => InitWaitStep::Term(InitWait { kill_at: Some(now + command::TERM_GRACE) }),
            Some(at) => {
                if now >= at {
                    InitWaitStep::Kill(self)
                } else {
                    InitWaitStep::Pause(self)
                }
            },
        }
    }
}

/// The first message describes the domain of the attempt that this process belongs to,
/// under a name that a host can have.
pub proof fn law_domains_are_described_first(
    message: Incoming,
    own: AttemptIdentity,
    described: AttemptIdentity,
    hostname: &str,
    r: Result<(), ExecutionDomainError>,
)
    requires
        call_ensures(accept_bootstrap, (message, &own, &described, hostname), r),
    ensures
        r is Ok <==> message == Incoming::Bootstrap && described@ == own@ && rootfs::host_name(
            hostname@,
        ),
        message != Incoming::Bootstrap ==> (
        r matches Err(ExecutionDomainError::Backend { category, .. }) && category
            == FailureCategory::NotReady),
        message == Incoming::Bootstrap && described@ != own@ ==> (
        r matches Err(ExecutionDomainError::Backend { category, .. }) && category
            == FailureCategory::IdentityMismatch),
{
}

/// A domain is put together once, when it is first asked for; before that nothing but
/// the end of the process is possible.
pub proof fn law_domains_are_assembled_once(s: &mut Startup, message: Incoming, r: StartupAction)
    requires
        call_ensures(Startup::respond, (s, message), r),
    ensures
        r is Assemble <==> message == Incoming::Hello && old(s).untried,
        r is ShutDown <==> message == Incoming::Shutdown,
        r is Assemble ==> !final(s).untried,
        !old(s).untried ==> !final(s).untried,
        message != Incoming::Hello ==> final(s).untried == old(s).untried,
        message == Incoming::Bootstrap || message == Incoming::Response ==> r
            == StartupAction::Reject(FailureCategory::Protocol),
        message == Incoming::Run || message == Incoming::CancelCommand || message
            == Incoming::PrepareStep || message == Incoming::PrepareStepChunk || message
            == Incoming::ReadStep ==> r == StartupAction::Reject(FailureCategory::NotReady),
        message == Incoming::Hello && !old(s).untried ==> r == StartupAction::Reject(
            FailureCategory::NotReady,
        ),
{
}

/// Each message is answered by its kind; once the process is told to stop it runs
/// nothing new.
pub proof fn law_messages_are_answered_by_kind(
    s: &mut InitRuntime,
    message: Incoming,
    r: InitAction,
)
    requires
        call_ensures(InitRuntime::request, (s, message), r),
    ensures
        r is Run <==> message == Incoming::Run && !old(s).stopping,
        r is Cancel <==> message == Incoming::CancelCommand,
        r is Ready <==> message == Incoming::Hello,
        r is ShutDown <==> message == Incoming::Shutdown,
        r is State <==> message == Incoming::PrepareStep || message == Incoming::PrepareStepChunk
            || message == Incoming::ReadStep,
        r is Reject ==> r == InitAction::Reject(FailureCategory::Protocol),
        final(s).stopping <==> old(s).stopping || message == Incoming::Shutdown,
        final(s).active == old(s).active,
        final(s).connected == old(s).connected,
        final(s).last_command_id == old(s).last_command_id,
        final(s).ephemeral_step == old(s).ephemeral_step,
{
}

/// A command with a new number is accepted where nothing else is under way; a number
/// that is not above every one before is not.
pub proof fn law_new_commands_are_accepted(s: InitRuntime, id: u64, r: Result<(), FailureCategory>)
    requires
        call_ensures(InitRuntime::check_run, (&s, id), r),
    ensures
        r is Ok <==> s.active is None && !s.collecting && s.snapshot == 0 && id
            > s.last_command_id,
        s.active is Some || s.collecting || s.snapshot > 0 ==> r == Err::<(), FailureCategory>(
            FailureCategory::Unavailable,
        ),
        s.active is None && !s.collecting && s.snapshot == 0 && id <= s.last_command_id ==> r
            == Err::<(), FailureCategory>(FailureCategory::Protocol),
{
}

/// A command is started in three stages: with files made for it where it has no step,
/// then prepared, then run under its number.
pub proof fn law_commands_start_in_stages(
    s: InitRuntime,
    id: u64,
    has_step: bool,
    r: Result<RunStage, FailureCategory>,
)
    requires
        call_ensures(InitRuntime::begin_run, (&s, id, has_step), r),
        s.active is None,
        !s.collecting,
        s.snapshot == 0,
        id > s.last_command_id,
    ensures
        has_step ==> r == Ok::<RunStage, FailureCategory>(RunStage::PrepareCommand),
        !has_step ==> r == Ok::<RunStage, FailureCategory>(RunStage::PrepareStep),
{
}

/// The files that were made for a command are remembered, and are handed back to be
/// discarded where the command cannot be prepared or started.
pub proof fn law_unused_files_are_handed_back(
    s: &mut InitRuntime,
    t: &mut InitRuntime,
    step: StepFilesId,
    made: Result<RunStage, FailureCategory>,
    prepared: bool,
    r: (Option<StepFilesId>, Result<RunStage, FailureCategory>),
)
    requires
        call_ensures(InitRuntime::step_prepared, (s, Some(step)), made),
        call_ensures(InitRuntime::command_prepared, (t, prepared), r),
        *old(t) == *final(s),
    ensures
        made == Ok::<RunStage, FailureCategory>(RunStage::PrepareCommand),
        prepared ==> r.0 is None && r.1 == Ok::<RunStage, FailureCategory>(RunStage::Spawn)
            && final(t).ephemeral_step == Some(step),
        !prepared ==> r.0 == Some(step) && r.1 == Err::<RunStage, FailureCategory>(
            FailureCategory::InvalidInput,
        ) && final(t).ephemeral_step is None,
        final(t).active == old(s).active,
        final(t).last_command_id == old(s).last_command_id,
{
}

/// A command that was started is the one that runs, and its number is the last; one that
/// could not be started leaves the number free.
pub proof fn law_started_commands_are_active(
    s: &mut InitRuntime,
    id: u64,
    spawned: Option<(i32, u128)>,
    r: (Option<StepFilesId>, Result<(), FailureCategory>),
)
    requires
        call_ensures(InitRuntime::command_spawned, (s, id, spawned), r),
    ensures
        spawned matches Some((pid, deadline)) ==> r.0 is None && r.1 is Ok
            && (final(s).active matches Some(c) && c.id == id && c.pid == Some(pid) && c.group
            == pid && c.deadline
            == deadline && c.termination is None && c.reaped is None && c.stdout && c.stderr)
            && final(s).last_command_id == id && final(s).ephemeral_step == old(s).ephemeral_step,
        spawned is None ==> r.0 == old(s).ephemeral_step && r.1 == Err::<(), FailureCategory>(
            FailureCategory::Unavailable,
        ) && final(s).active == old(s).active && final(s).last_command_id == old(s).last_command_id
            && final(s).ephemeral_step is None,
{
}

/// Only the command that runs can be cancelled.
pub proof fn law_only_the_running_command_is_cancelled(
    s: InitRuntime,
    id: u64,
    r: CancelDisposition,
)
    requires
        call_ensures(InitRuntime::cancel_command, (&s, id), r),
    ensures
        r is Applied <==> s.active is Some && s.active->0.id == id,
{
}

/// The files of steps are touched only while nothing runs and nothing is sent, and a
/// whole request only while no event is being collected.
pub proof fn law_step_files_are_touched_at_rest(s: InitRuntime, message: Incoming, r: StateAction)
    requires
        call_ensures(InitRuntime::state_request, (&s, message), r),
    ensures
        ({
            let at_rest = !s.stopping && s.active is None && s.snapshot == 0;
            &&& !at_rest ==> r == StateAction::Reject(FailureCategory::Unavailable)
            &&& r is Collect <==> at_rest && message == Incoming::PrepareStepChunk
            &&& r is Prepare <==> at_rest && message == Incoming::PrepareStep && !s.collecting
            &&& r is Read <==> at_rest && message == Incoming::ReadStep && !s.collecting
            &&& at_rest && s.collecting && message != Incoming::PrepareStepChunk ==> r
                == StateAction::Reject(FailureCategory::Protocol)
        }),
{
}

/// Every part of a step's results goes out, and none twice.
pub proof fn law_each_part_is_sent_once(s: &mut InitRuntime, capacity: bool, r: bool)
    requires
        call_ensures(InitRuntime::send_part, (s, capacity), r),
    ensures
        r <==> old(s).connected && capacity && old(s).snapshot > 0,
        r ==> final(s).snapshot + 1 == old(s).snapshot,
        !r ==> final(s).snapshot == old(s).snapshot,
        final(s).active == old(s).active,
        final(s).connected == old(s).connected,
        final(s).collecting == old(s).collecting,
{
}

/// Parts of an event are collected until it is whole, and it is then handed on as it is.
pub proof fn law_whole_events_are_handed_on(
    s: &mut InitRuntime,
    part: Result<Option<Vec<u8>>, ExecutionDomainError>,
    r: Result<EventNext, ExecutionDomainError>,
)
    requires
        call_ensures(InitRuntime::event_part, (s, part), r),
    ensures
        part is Ok && part->Ok_0 is Some ==> r == Ok::<EventNext, ExecutionDomainError>(
            EventNext::Prepare(part->Ok_0->0),
        ) && !final(s).collecting,
        part is Ok && part->Ok_0 is None ==> r == Ok::<EventNext, ExecutionDomainError>(
            EventNext::Await,
        ) && final(s).collecting,
        part is Err ==> r is Err && r->Err_0 == part->Err_0,
        final(s).snapshot == old(s).snapshot,
        final(s).active == old(s).active,
{
}

/// Results that were read and split are sent in that many parts; what could not be read
/// is refused.
pub proof fn law_results_are_sent_in_parts(
    s: &mut InitRuntime,
    parts: Option<Result<usize, ExecutionDomainError>>,
    r: Result<StateReply, ExecutionDomainError>,
    made: bool,
    reply: StateReply,
)
    requires
        call_ensures(InitRuntime::begin_snapshot, (s, parts), r),
        call_ensures(InitRuntime::files_made, (made,), reply),
    ensures
        parts is None ==> r == Ok::<StateReply, ExecutionDomainError>(
            StateReply::Reject(FailureCategory::InvalidInput),
        ) && final(s).snapshot == old(s).snapshot,
        parts is Some && parts->0 is Ok ==> r == Ok::<StateReply, ExecutionDomainError>(
            StateReply::Silent,
        ) && final(s).snapshot == parts->0->Ok_0,
        parts is Some && parts->0 is Err ==> r is Err && r->Err_0 == parts->0->Err_0,
        made ==> reply is Prepared,
        !made ==> reply == StateReply::Reject(FailureCategory::InvalidInput),
{
}

/// A process that nobody listens to stops, keeps the error it ends with, and forgets
/// what was to be sent.
pub proof fn law_lost_connections_stop_the_process(
    s: &mut InitRuntime,
    t: &mut InitRuntime,
    error: ExecutionDomainError,
    r: Option<Result<(), ExecutionDomainError>>,
)
    requires
        call_ensures(InitRuntime::disconnect, (s, error), ()),
        call_ensures(InitRuntime::finished, (t,), r),
        *old(t) == *final(s),
    ensures
        final(s).stopping && !final(s).connected && final(s).snapshot == 0 && !final(s).collecting,
        final(s).active == old(s).active,
        old(s).active is None ==> r == Some(Err::<(), ExecutionDomainError>(error)),
        old(s).active is Some ==> r is None,
{
}

/// The process ends once it was told to, nothing runs and nothing is being sent.
pub proof fn law_processes_end_when_idle(
    s: &mut InitRuntime,
    r: Option<Result<(), ExecutionDomainError>>,
)
    requires
        call_ensures(InitRuntime::finished, (s,), r),
    ensures
        r is Some <==> old(s).stopping && old(s).active is None && (!old(s).connected
            || !old(s).sending),
        r is Some && old(s).terminal_error is None ==> r->0 is Ok,
        r is Some && old(s).terminal_error is Some ==> r->0 is Err && r->0->Err_0
            == old(s).terminal_error->0,
{
}

/// A message has thirty seconds to be taken, counted from when sending began.
pub proof fn law_messages_have_thirty_seconds(
    s: &mut InitRuntime,
    now: u128,
    then: u128,
    r: Result<(), ExecutionDomainError>,
)
    requires
        call_ensures(InitRuntime::send_started, (s, now), ()),
        call_ensures(InitRuntime::check_write, (&*final(s), then), r),
        now <= LAST_INSTANT,
    ensures
        r is Ok <==> then < now + 30_000_000_000,
        final(s).sending,
{
}

/// A message that was sent no longer holds anything up.
pub proof fn law_sent_messages_have_no_deadline(
    s: &mut InitRuntime,
    then: u128,
    r: Result<(), ExecutionDomainError>,
)
    requires
        call_ensures(InitRuntime::flushed, (s,), ()),
        call_ensures(InitRuntime::check_write, (&*final(s), then), r),
    ensures
        r is Ok,
        !final(s).sending,
{
}

/// The end of the running command is noted by its process, and that of any other process
/// changes nothing.
pub proof fn law_only_the_command_is_reaped(
    s: &mut InitRuntime,
    pid: i32,
    code: i32,
    status: i32,
    now: u128,
)
    requires
        call_ensures(InitRuntime::reaped, (s, pid, status, now), ()),
        now <= LAST_INSTANT,
        0 <= code <= 255,
        status == code * 256,
    ensures
        old(s).active is Some && old(s).active->0.pid == Some(pid)
            ==> (final(s).active matches Some(c) && c.reaped == Some(
            crate::contracts::CommandOutcome::Exited(code),
        ) && c.pid is None && c.id == old(s).active->0.id),
        old(s).active is None || old(s).active->0.pid != Some(pid) ==> *final(s) == *old(s),
{
    assert(status & 0x7f == 0 && (status >> 8u32) & 0xff == code) by (bit_vector)
        requires
            status == code * 256,
            0 <= code <= 255,
    ;
}

/// Reaping goes on while processes are found, and ends when there are none.
pub proof fn law_reaping_ends_without_children(
    result: i32,
    errno: Option<i32>,
    interrupted: bool,
    r: ReapNext,
)
    requires
        call_ensures(reap_next, (result, errno, interrupted), r),
    ensures
        r is Reaped <==> result > 0,
        r is Finished <==> result == 0 || (result < 0 && errno == Some(10i32)),
        r is Again <==> result < 0 && errno != Some(10i32) && interrupted,
        r is Failed <==> result < 0 && errno != Some(10i32) && !interrupted,
{
}

/// The first process is waited for, asked to end when that is wanted, and killed five
/// seconds later. Its exit status is its code, or 128 and the signal that ended it.
pub proof fn law_first_processes_are_waited_for(
    wait: InitWait,
    child: i32,
    result: i32,
    status: i32,
    code: i32,
    signal: i32,
    interrupted: bool,
    errno: Option<i32>,
    stop: bool,
    now: u128,
    r: InitWaitStep,
)
    requires
        call_ensures(
            InitWait::looked,
            (wait, child, result, status, interrupted, errno, stop, now),
            r,
        ),
        now <= LAST_INSTANT,
        0 <= code <= 255,
        1 <= signal <= 126,
    ensures
        result == child && status == code * 256 ==> r == InitWaitStep::Ended(code),
        result == child && status == signal ==> (r matches InitWaitStep::Ended(ended) && ended == 128
            + signal),
        result != child && result < 0 && !interrupted ==> r is Failed,
        result != child && (result >= 0 || interrupted) && !stop ==> r == InitWaitStep::Pause(wait),
        result != child && (result >= 0 || interrupted) && stop && wait.kill_at is None ==> (
        r matches InitWaitStep::Term(next) && next.kill_at == Some((now + 5_000_000_000) as u128)),
        result != child && (result >= 0 || interrupted) && stop && wait.kill_at is Some ==> (if now
            >= wait.kill_at->0 {
            r == InitWaitStep::Kill(wait)
        } else {
            r == InitWaitStep::Pause(wait)
        }),
{
    if status == code * 256 {
        assert(status & 0x7f == 0 && (status >> 8u32) & 0xff == code) by (bit_vector)
            requires
                status == code * 256,
                0 <= code <= 255,
        ;
    }
    if status == signal {
        assert(status & 0x7f == signal && status & 0x7f != 0) by (bit_vector)
            requires
                status == signal,
                1 <= signal <= 126,
        ;
    }
}

/// A first process begins connected and idle, with no command ever run; its startup can
/// be tried, and its wait kills nobody yet.
pub proof fn law_first_processes_begin_idle(
    startup: Startup,
    runtime: InitRuntime,
    wait: InitWait,
)
    requires
        call_ensures(Startup::begin, (), startup),
        call_ensures(InitRuntime::new, (), runtime),
        call_ensures(InitWait::begin, (), wait),
    ensures
        startup.untried,
        runtime.active is None && runtime.ephemeral_step is None && runtime.connected
            && !runtime.stopping && !runtime.sending && runtime.write_deadline is None
            && runtime.terminal_error is None && runtime.last_command_id == 0 && !runtime.collecting
            && runtime.snapshot == 0,
        wait.kill_at is None,
{
}

/// A signal stops the process once, and nothing else changes with it.
pub proof fn law_signals_stop_once(
    a: &mut InitRuntime,
    b: &mut InitRuntime,
    first: bool,
    second: bool,
)
    requires
        call_ensures(InitRuntime::signalled, (a,), first),
        *old(b) == *final(a),
        call_ensures(InitRuntime::signalled, (b,), second),
    ensures
        first <==> !old(a).stopping,
        !second,
        final(a).stopping && final(b).stopping,
        final(a).active == old(a).active && final(a).connected == old(a).connected
            && final(a).last_command_id == old(a).last_command_id && final(a).sending
            == old(a).sending && final(a).terminal_error == old(a).terminal_error,
{
}

/// A command that is started is the active one and its number the last; once it is over
/// none is active, and its end is told only while somebody is connected.
pub proof fn law_started_commands_are_active_until_over(
    a: &mut InitRuntime,
    command: RunningCommand,
    b: &mut InitRuntime,
    started: (),
    told: bool,
)
    requires
        old(a).refusal(command.id) is None,
        call_ensures(InitRuntime::command_started, (a, command), started),
        *old(b) == *final(a),
        call_ensures(InitRuntime::command_over, (b,), told),
    ensures
        final(a).active == Some(command) && final(a).last_command_id == command.id,
        final(b).active is None && final(b).last_command_id == command.id,
        told <==> old(a).connected,
        final(b).ephemeral_step == old(a).ephemeral_step && final(b).stopping == old(a).stopping,
{
}

/// Files of a command without a step are discarded once.
pub proof fn law_ephemeral_steps_are_discarded_once(
    a: &mut InitRuntime,
    b: &mut InitRuntime,
    first: Option<StepFilesId>,
    second: Option<StepFilesId>,
)
    requires
        call_ensures(InitRuntime::discard_ephemeral_step, (a,), first),
        *old(b) == *final(a),
        call_ensures(InitRuntime::discard_ephemeral_step, (b,), second),
    ensures
        first == old(a).ephemeral_step,
        second is None,
        final(a).active == old(a).active && final(a).connected == old(a).connected,
{
}

/// Output is due of an active command where there is room for it, or nobody to read it.
pub proof fn law_output_is_due_with_room(runtime: InitRuntime, capacity: bool, r: bool)
    requires
        call_ensures(InitRuntime::output_due, (&runtime, capacity), r),
    ensures
        r <==> runtime.active is Some && (capacity || !runtime.connected),
{
}

} // verus!
