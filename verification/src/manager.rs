//! The manager of one domain: it owns the domain from its first resource to its
//! last, carries its commands out one at a time, and gives the capacity back only
//! when nothing of the domain is left.

use vstd::prelude::*;

use crate::clock;
use crate::clock::LAST_INSTANT;
use crate::contracts::{
    CancelReason, CommandOutcome, CommandSpec, CommandTarget, DestroyReport, DomainEnvironment,
    DomainPath, DomainPaths, FailureCategory, Stage, StepFilesId,
};
use crate::error;
use crate::error::ExecutionDomainError;
use crate::text;

verus! {

/// How long a cancellation may take to be sent, and then to be acknowledged, in
/// nanoseconds.
pub const CONTROL_CANCEL_TIMEOUT: u128 = 1_000_000_000;

/// How much longer than its own limit a command may take, in nanoseconds.
pub const COMMAND_GRACE: u128 = 5_000_000_000;

/// How long the readers of a workspace may take to let go, in nanoseconds.
pub const READER_GRACE: u128 = 2_000_000_000;

/// A failure of the manager.
pub open spec fn manager_error(category: FailureCategory) -> ExecutionDomainError {
    error::backend(Stage::Protocol, category)
}

/// Reports a failure of the manager.
pub fn backend_failure(category: FailureCategory) -> (e: ExecutionDomainError)
    ensures
        e == manager_error(category),
{
    error::backend_failure(Stage::Protocol, category)
}

/// A request to cancel what the manager does.
#[derive(Debug, Clone, Copy, PartialEq, Eq, Structural)]
pub struct ManagerCancellation {
    pub cancelled: bool,
    pub reason: Option<CancelReason>,
}

impl ManagerCancellation {
    /// Nobody has asked yet.
    pub fn new() -> (r: ManagerCancellation)
        ensures
            !r.cancelled,
            r.reason is None,
    {
        ManagerCancellation { cancelled: false, reason: None }
    }

    /// Asks. The first reason counts.
    pub fn cancel(&mut self, reason: CancelReason)
        ensures
            final(self).cancelled,
            final(self).reason == (match old(self).reason {
                Some(first) => Some(first),
                None => Some(reason),
            }),
    {
        if self.reason.is_none() {
            self.reason = Some(reason);
        }
        self.cancelled = true;
    }

    /// The reason, where there is one.
    pub fn reason(&self) -> (r: CancelReason)
        ensures
            r == (match self.reason {
                Some(first) => first,
                None => CancelReason::Shutdown,
            }),
    {
        match self.reason {
            Some(first) => first,
            None => CancelReason::Shutdown,
        }
    }
}

/// The numbers of the commands of a domain.
#[derive(Debug, Clone, Copy, PartialEq, Eq, Structural)]
pub struct CommandNumbers {
    pub next: u64,
}

impl CommandNumbers {
    /// The first command has the number 1.
    pub fn begin() -> (r: CommandNumbers)
        ensures
            r.next == 1,
    {
        CommandNumbers { next: 1 }
    }

    /// Takes the next number. The last number of all is never used.
    pub fn next_command_id(&mut self) -> (r: Result<u64, ExecutionDomainError>)
        ensures
            if old(self).next == 0 || old(self).next == u64::MAX {
                *final(self) == *old(self) && r == Err::<u64, ExecutionDomainError>(
                    manager_error(FailureCategory::Protocol),
                )
            } else {
                r == Ok::<u64, ExecutionDomainError>(old(self).next) && final(self).next == old(self).next + 1
            },
    {
        let id: u64 = self.next;
        if id == 0 {
            return Err(backend_failure(FailureCategory::Protocol));
        }
        match id.checked_add(1) {
            Some(next) => {
                self.next = next;
                Ok(id)
            },
            None => Err(backend_failure(FailureCategory::Protocol)),
        }
    }
}

/// What is being sent to the domain.
#[derive(Debug, Clone, Copy, PartialEq, Eq, Structural)]
pub enum PendingSend {
    Run,
    Cancel,
}

/// How a command was said to have ended.
#[derive(Debug, Clone, Copy, PartialEq, Eq, Structural)]
pub enum Terminal {
    Finished(CommandOutcome),
    Rejected(FailureCategory),
}

impl Terminal {
    /// What the caller is told.
    pub open spec fn result(self) -> Result<CommandOutcome, ExecutionDomainError> {
        match self {
            Terminal::Finished(outcome) => Ok(outcome),
            Terminal::Rejected(category) => Err(manager_error(category)),
        }
    }

    /// What the caller is told.
    pub fn report(self) -> (r: Result<CommandOutcome, ExecutionDomainError>)
        ensures
            r == self.result(),
    {
        match self {
            Terminal::Finished(outcome) => Ok(outcome),
            Terminal::Rejected(category) => Err(backend_failure(category)),
        }
    }
}

/// An answer of the domain about a command.
#[derive(Debug, Clone, Copy, PartialEq, Eq, Structural)]
pub enum CommandResponse {
    Started(u64),
    CancelAcknowledged(u64),
    Rejected(u64, FailureCategory),
    /// A stretch of output, which is not looked at here.
    Output(u64),
    Finished(u64, CommandOutcome),
    /// Anything else.
    Other,
}

/// What follows from an answer.
#[derive(Debug, Clone, Copy, PartialEq, Eq, Structural)]
pub enum ResponseAction {
    Continue,
    /// Hand the output on.
    Deliver,
    /// The exchange is broken: nothing the domain says can be trusted any more.
    Break(FailureCategory),
}

/// What a turn of the exchange begins with.
pub enum Turn {
    /// Go on.
    Continue,
    /// The exchange is over.
    Done(Result<CommandOutcome, ExecutionDomainError>),
    /// The exchange is broken.
    Break(FailureCategory),
}

/// The exchange with the domain about one command.
#[derive(Debug, Clone, Copy, PartialEq, Eq, Structural)]
pub struct CommandExchange {
    pub command_id: u64,
    pub deadline: u128,
    pub pending: Option<PendingSend>,
    /// Whether the whole request was sent.
    pub run_flushed: bool,
    pub started: bool,
    pub cancel_reason: Option<CancelReason>,
    /// By when the cancellation must have been sent.
    pub delivery_deadline: Option<u128>,
    pub cancel_started: bool,
    pub cancel_acknowledged: bool,
    /// By when the cancellation must have been acknowledged.
    pub ack_deadline: Option<u128>,
    pub terminal: Option<Terminal>,
}

impl CommandExchange {
    /// Begins the exchange about a command, for which a number is taken. Only commands
    /// of the domain itself are accepted.
    pub fn begin(numbers: &mut CommandNumbers, spec: &CommandSpec, now: u128) -> (r: Result<
        CommandExchange,
        ExecutionDomainError,
    >)
        ensures
            ({
                let number = old(numbers).next;
                let limit = now + spec.timeout + COMMAND_GRACE;
                if spec.target is Trusted {
                    r == Err::<CommandExchange, ExecutionDomainError>(
                        manager_error(FailureCategory::InvalidInput),
                    ) && *final(numbers) == *old(numbers)
                } else if number == 0 || number == u64::MAX {
                    r == Err::<CommandExchange, ExecutionDomainError>(
                        manager_error(FailureCategory::Protocol),
                    ) && *final(numbers) == *old(numbers)
                } else {
                    &&& final(numbers).next == number + 1
                    &&& if limit > LAST_INSTANT {
                        r == Err::<CommandExchange, ExecutionDomainError>(
                            manager_error(FailureCategory::InvalidInput),
                        )
                    } else {
                        r == Ok::<CommandExchange, ExecutionDomainError>(
                            CommandExchange {
                                command_id: number,
                                deadline: limit as u128,
                                pending: Some(PendingSend::Run),
                                run_flushed: false,
                                started: false,
                                cancel_reason: None,
                                delivery_deadline: None,
                                cancel_started: false,
                                cancel_acknowledged: false,
                                ack_deadline: None,
                                terminal: None,
                            },
                        )
                    }
                }
            }),
            r matches Ok(x) ==> in_order(x),
    {
        match &spec.target {
            CommandTarget::Trusted { program: _, args: _, cwd: _ } => {
                return Err(backend_failure(FailureCategory::InvalidInput));
            },
            CommandTarget::Sandboxed { program: _, args: _, cwd: _ } => {},
        }
        let command_id: u64 = match numbers.next_command_id() {
            Ok(id) => id,
            Err(e) => {
                return Err(e);
            },
        };
        let longer: u128 = match spec.timeout.checked_add(COMMAND_GRACE) {
            Some(t) => t,
            None => {
                return Err(backend_failure(FailureCategory::InvalidInput));
            },
        };
        let deadline: u128 = match clock::after(now, longer) {
            Some(d) => d,
            None => {
                return Err(backend_failure(FailureCategory::InvalidInput));
            },
        };
        Ok(
            CommandExchange {
                command_id,
                deadline,
                pending: Some(PendingSend::Run),
                run_flushed: false,
                started: false,
                cancel_reason: None,
                delivery_deadline: None,
                cancel_started: false,
                cancel_acknowledged: false,
                ack_deadline: None,
                terminal: None,
            },
        )
    }

    /// Whether a cancellation is neither under way nor unanswered.
    pub open spec fn quiet(self) -> bool {
        !self.cancel_started || self.cancel_acknowledged
    }

    /// What the caller is told, where the exchange is over: the domain has said how
    /// the command ended, and everything that was sent has been answered.
    pub open spec fn over(self) -> Option<Result<CommandOutcome, ExecutionDomainError>> {
        match self.terminal {
            Some(t) if self.pending is None && self.quiet() => Some(t.result()),
            _ => None,
        }
    }

    /// Whether a moment has passed.
    pub open spec fn passed(limit: Option<u128>, now: u128) -> bool {
        limit matches Some(at) && now >= at
    }

    /// What a turn begins with: every limit counts before whether the exchange is over.
    pub open spec fn turn_at(self, now: u128) -> Turn {
        if now >= self.deadline {
            Turn::Break(FailureCategory::Timeout)
        } else if Self::passed(self.delivery_deadline, now) {
            Turn::Break(FailureCategory::Unavailable)
        } else if Self::passed(self.ack_deadline, now) {
            Turn::Break(FailureCategory::Timeout)
        } else {
            match self.over() {
                Some(result) => Turn::Done(result),
                None => Turn::Continue,
            }
        }
    }

    /// Begins a turn.
    pub fn turn(&self, now: u128) -> (r: Turn)
        ensures
            r == self.turn_at(now),
    {
        if now >= self.deadline {
            return Turn::Break(FailureCategory::Timeout);
        }
        let late: bool = match self.delivery_deadline {
            Some(at) => now >= at,
            None => false,
        };
        if late {
            return Turn::Break(FailureCategory::Unavailable);
        }
        let unanswered: bool = match self.ack_deadline {
            Some(at) => now >= at,
            None => false,
        };
        if unanswered {
            return Turn::Break(FailureCategory::Timeout);
        }
        self.settled()
    }

    /// Whether the exchange is over.
    pub fn settled(&self) -> (r: Turn)
        ensures
            r == (match self.over() {
                Some(result) => Turn::Done(result),
                None => Turn::Continue,
            }),
    {
        match self.terminal {
            Some(t) => {
                if self.pending.is_none() && (!self.cancel_started || self.cancel_acknowledged) {
                    Turn::Done(t.report())
                } else {
                    Turn::Continue
                }
            },
            None => Turn::Continue,
        }
    }

    /// A moment later by so much, or the same where the clock cannot tell a later one.
    pub open spec fn later(now: u128, by: u128) -> u128 {
        match clock::later(now, by) {
            Some(at) => at,
            None => now,
        }
    }

    fn after(now: u128, by: u128) -> (r: u128)
        ensures
            r == Self::later(now, by),
    {
        match clock::after(now, by) {
            Some(at) => at,
            None => now,
        }
    }

    /// The exchange once somebody has asked to cancel. The first reason counts.
    pub open spec fn asked(self, reason: CancelReason, now: u128) -> CommandExchange {
        if self.cancel_reason is Some {
            self
        } else {
            CommandExchange {
                cancel_reason: Some(reason),
                delivery_deadline: Some(Self::later(now, CONTROL_CANCEL_TIMEOUT)),
                ..self
            }
        }
    }

    /// Notes that somebody asks to cancel.
    pub fn request_cancel(&mut self, reason: CancelReason, now: u128)
        ensures
            *final(self) == old(self).asked(reason, now),
    {
        if self.cancel_reason.is_none() {
            self.cancel_reason = Some(reason);
            self.delivery_deadline = Some(Self::after(now, CONTROL_CANCEL_TIMEOUT));
        }
    }

    /// Looks at who asks to cancel: the caller first, then the manager, then that
    /// nobody takes the output any more.
    pub fn observe(
        &mut self,
        caller: bool,
        manager: &ManagerCancellation,
        output_closed: bool,
        now: u128,
    )
        ensures
            *final(self) == (if caller {
                old(self).asked(CancelReason::User, now)
            } else if manager.cancelled {
                old(self).asked(
                    match manager.reason {
                        Some(first) => first,
                        None => CancelReason::Shutdown,
                    },
                    now,
                )
            } else if output_closed {
                old(self).asked(CancelReason::HandleDropped, now)
            } else {
                *old(self)
            }),
    {
        if caller {
            self.request_cancel(CancelReason::User, now);
        } else if manager.cancelled {
            self.request_cancel(manager.reason(), now);
        } else if output_closed {
            self.request_cancel(CancelReason::HandleDropped, now);
        }
    }

    /// The exchange once what was being sent has been sent completely.
    pub open spec fn sent(self, now: u128) -> CommandExchange {
        match self.pending {
            None => self,
            Some(PendingSend::Run) => CommandExchange { run_flushed: true, pending: None, ..self },
            Some(PendingSend::Cancel) => CommandExchange {
                delivery_deadline: None,
                ack_deadline: Some(Self::later(now, CONTROL_CANCEL_TIMEOUT)),
                pending: None,
                ..self
            },
        }
    }

    /// Notes that what was being sent has been sent completely.
    pub fn flushed(&mut self, now: u128)
        ensures
            *final(self) == old(self).sent(now),
    {
        match self.pending {
            None => {},
            Some(PendingSend::Run) => {
                self.run_flushed = true;
                self.pending = None;
            },
            Some(PendingSend::Cancel) => {
                self.delivery_deadline = None;
                self.ack_deadline = Some(Self::after(now, CONTROL_CANCEL_TIMEOUT));
                self.pending = None;
            },
        }
    }

    /// The cancellation that is to be sent now: once, and after the whole request.
    pub open spec fn due(self) -> Option<CancelReason> {
        if self.run_flushed && self.pending is None && !self.cancel_started {
            self.cancel_reason
        } else {
            None
        }
    }

    /// The cancellation that is to be sent now.
    pub fn cancel_due(&self) -> (r: Option<CancelReason>)
        ensures
            r == self.due(),
    {
        if self.run_flushed && self.pending.is_none() && !self.cancel_started {
            self.cancel_reason
        } else {
            None
        }
    }

    /// The exchange once sending the cancellation has begun.
    pub open spec fn cancelling(self) -> CommandExchange {
        CommandExchange { pending: Some(PendingSend::Cancel), cancel_started: true, ..self }
    }

    /// Notes that sending the cancellation has begun.
    pub fn cancel_sent(&mut self)
        requires
            old(self).due() is Some,
        ensures
            *final(self) == old(self).cancelling(),
    {
        self.pending = Some(PendingSend::Cancel);
        self.cancel_started = true;
    }

    /// Whether the exchange only waits for its own message to be sent.
    pub fn only_sending(&self) -> (r: bool)
        ensures
            r == (self.terminal is Some && self.quiet()),
    {
        self.terminal.is_some() && (!self.cancel_started || self.cancel_acknowledged)
    }

    /// What follows from an answer. It must be about this command, and come in the
    /// order in which a command is carried out.
    pub open spec fn outcome_of(self, response: CommandResponse) -> (CommandExchange, ResponseAction) {
        match response {
            CommandResponse::Started(id) if id == self.command_id && !self.started => (
                CommandExchange { started: true, ..self },
                ResponseAction::Continue,
            ),
            CommandResponse::CancelAcknowledged(id) if id == self.command_id && self.cancel_started
                && !self.cancel_acknowledged => (
                CommandExchange { cancel_acknowledged: true, ack_deadline: None, ..self },
                ResponseAction::Continue,
            ),
            CommandResponse::Rejected(id, category) if id == self.command_id && self.terminal
                is None => (
                CommandExchange { terminal: Some(Terminal::Rejected(category)), ..self },
                ResponseAction::Continue,
            ),
            CommandResponse::Output(id) if id == self.command_id && self.started => (
                self,
                if self.cancel_reason is None {
                    ResponseAction::Deliver
                } else {
                    ResponseAction::Continue
                },
            ),
            CommandResponse::Finished(id, outcome) if id == self.command_id && self.started => (
                CommandExchange { terminal: Some(Terminal::Finished(outcome)), ..self },
                ResponseAction::Continue,
            ),
            _ => (self, ResponseAction::Break(FailureCategory::Protocol)),
        }
    }

    /// Takes an answer.
    pub fn respond(&mut self, response: CommandResponse) -> (r: ResponseAction)
        ensures
            (*final(self), r) == old(self).outcome_of(response),
    {
        match response {
            CommandResponse::Started(id) => {
                if id == self.command_id && !self.started {
                    self.started = true;
                    return ResponseAction::Continue;
                }
            },
            CommandResponse::CancelAcknowledged(id) => {
                if id == self.command_id && self.cancel_started && !self.cancel_acknowledged {
                    self.cancel_acknowledged = true;
                    self.ack_deadline = None;
                    return ResponseAction::Continue;
                }
            },
            CommandResponse::Rejected(id, category) => {
                if id == self.command_id && self.terminal.is_none() {
                    self.terminal = Some(Terminal::Rejected(category));
                    return ResponseAction::Continue;
                }
            },
            CommandResponse::Output(id) => {
                if id == self.command_id && self.started {
                    if self.cancel_reason.is_none() {
                        return ResponseAction::Deliver;
                    }
                    return ResponseAction::Continue;
                }
            },
            CommandResponse::Finished(id, outcome) => {
                if id == self.command_id && self.started {
                    self.terminal = Some(Terminal::Finished(outcome));
                    return ResponseAction::Continue;
                }
            },
            CommandResponse::Other => {},
        }
        ResponseAction::Break(FailureCategory::Protocol)
    }
}

/// The first reason for a cancellation is the one that is sent, whoever asks later.
pub proof fn law_first_reason_is_sent(
    x: CommandExchange,
    first: CancelReason,
    second: CancelReason,
    now: u128,
    then: u128,
)
    requires
        x.cancel_reason is None,
    ensures
        x.asked(first, now).asked(second, then) == x.asked(first, now),
        x.asked(first, now).cancel_reason == Some(first),
{
}

/// Whether an exchange can have come about: what happened in it happened in order, and
/// a cancellation that nobody has answered has a limit.
pub open spec fn in_order(x: CommandExchange) -> bool {
    &&& x.pending == Some(PendingSend::Run) ==> !x.run_flushed
    &&& !x.run_flushed ==> x.pending == Some(PendingSend::Run)
    &&& x.pending == Some(PendingSend::Cancel) ==> x.cancel_started
    &&& x.cancel_started ==> x.run_flushed && x.cancel_reason is Some
    &&& x.cancel_acknowledged ==> x.cancel_started
    &&& (x.terminal matches Some(Terminal::Finished(_))) ==> x.started
    &&& x.cancel_reason is Some && !x.cancel_acknowledged ==> x.delivery_deadline is Some
        || x.ack_deadline is Some
}

/// An exchange begins in order, and whatever the caller does and the domain says, it
/// stays in order and keeps its number and its deadline.
pub proof fn law_exchanges_stay_in_order(
    x: CommandExchange,
    reason: CancelReason,
    response: CommandResponse,
    now: u128,
)
    requires
        in_order(x),
    ensures
        in_order(x.asked(reason, now)),
        in_order(x.sent(now)),
        x.due() is Some ==> in_order(x.cancelling()),
        in_order(x.outcome_of(response).0),
        forall|y: CommandExchange|
            y == x.asked(reason, now) || y == x.sent(now) || y == x.cancelling() || y
                == x.outcome_of(response).0 ==> (#[trigger] y.command_id) == x.command_id
                && y.deadline == x.deadline,
{
}

/// An outcome is reported only of a command that the domain said had started, after
/// the whole request was sent, and after a cancellation that was begun was answered.
pub proof fn law_outcomes_are_settled(x: CommandExchange, outcome: CommandOutcome)
    requires
        in_order(x),
        x.over() == Some(Ok::<CommandOutcome, ExecutionDomainError>(outcome)),
    ensures
        x.started,
        x.run_flushed,
        x.cancel_started ==> x.cancel_acknowledged,
{
}

/// How a command ended is learnt only from an answer about that very command.
pub proof fn law_outcomes_belong_to_the_command(x: CommandExchange, response: CommandResponse)
    requires
        x.outcome_of(response).0.terminal != x.terminal,
    ensures
        match response {
            CommandResponse::Finished(id, outcome) => id == x.command_id && x.outcome_of(
                response,
            ).0.terminal == Some(Terminal::Finished(outcome)),
            CommandResponse::Rejected(id, category) => id == x.command_id && x.outcome_of(
                response,
            ).0.terminal == Some(Terminal::Rejected(category)),
            _ => false,
        },
{
}

/// Whatever the domain says or does not say, no turn goes on past the deadline, nor past
/// the limits of a cancellation that nobody has answered.
pub proof fn law_exchanges_are_bounded(x: CommandExchange, now: u128)
    requires
        in_order(x),
    ensures
        now >= x.deadline ==> x.turn_at(now) is Break,
        x.cancel_reason is Some && !x.cancel_acknowledged ==> exists|limit: u128|
            (x.delivery_deadline == Some(limit) || x.ack_deadline == Some(limit)) && (now >= limit
                ==> #[trigger] CommandExchange::passed(Some(limit), now) && x.turn_at(now) is Break),
{
    if x.cancel_reason is Some && !x.cancel_acknowledged {
        if x.delivery_deadline is Some {
            let limit = x.delivery_deadline->0;
            assert(now >= limit ==> CommandExchange::passed(Some(limit), now));
        } else {
            let limit = x.ack_deadline->0;
            assert(now >= limit ==> CommandExchange::passed(Some(limit), now));
        }
    }
}

/// What the domain says about the files of a step.
pub enum StepReply {
    /// It has made, or read, the files of this step.
    Of(StepFilesId),
    Rejected(FailureCategory),
    Other,
}

/// What a reply about the files of a step means: it must be about that step.
pub fn step_reply(reply: StepReply, id: &StepFilesId) -> (r: Result<(), ExecutionDomainError>)
    ensures
        r == (match reply {
            StepReply::Of(actual) if actual@ == id@ => Ok::<(), ExecutionDomainError>(()),
            StepReply::Rejected(category) => Err(manager_error(category)),
            _ => Err(manager_error(FailureCategory::Protocol)),
        }),
{
    match reply {
        StepReply::Of(actual) => {
            if actual.uuid() == id.uuid() {
                Ok(())
            } else {
                Err(backend_failure(FailureCategory::Protocol))
            }
        },
        StepReply::Rejected(category) => Err(backend_failure(category)),
        StepReply::Other => Err(backend_failure(FailureCategory::Protocol)),
    }
}

/// What a domain is asked for.
#[derive(Debug, Clone, Copy, PartialEq, Eq, Structural)]
pub enum ManagerRequest {
    BindWorkspace,
    MarkRunning,
    MarkCleaning,
    Run,
    PrepareStep,
    ReadStep,
    Cancel,
    AuthorizeExternalRevocation,
    Destroy,
}

/// What is done about a request while a command runs.
#[derive(Debug, Clone, Copy, PartialEq, Eq, Structural)]
pub enum WhileRunning {
    /// Cancel the command for the reason of the request.
    Cancel,
    /// Cancel the command because of the end, take no more requests, and destroy the
    /// domain afterwards.
    Destroy,
    Reject(FailureCategory),
}

/// Decides about a request while a command runs: it can be cancelled, and the domain
/// can be destroyed once; nothing else.
pub fn while_running(request: ManagerRequest, destroying: bool) -> (r: WhileRunning)
    ensures
        r == (match request {
            ManagerRequest::Cancel => WhileRunning::Cancel,
            ManagerRequest::Destroy if !destroying => WhileRunning::Destroy,
            _ => WhileRunning::Reject(FailureCategory::Unavailable),
        }),
{
    match request {
        ManagerRequest::Cancel => WhileRunning::Cancel,
        ManagerRequest::Destroy => {
            if destroying {
                WhileRunning::Reject(FailureCategory::Unavailable)
            } else {
                WhileRunning::Destroy
            }
        },
        _ => WhileRunning::Reject(FailureCategory::Unavailable),
    }
}

/// Whether a domain is destroyed although its readers could not be stopped: only one
/// in which processes have to be ended in any case.
pub fn destroy_in_spite(readers: &Result<(), ExecutionDomainError>, sandboxed: bool) -> (r: bool)
    ensures
        r == (*readers is Ok || sandboxed),
{
    match readers {
        Ok(_) => true,
        Err(_) => sandboxed,
    }
}

/// What a destruction comes to, given whether the readers could be stopped.
pub fn destroy_result(
    readers: Result<(), ExecutionDomainError>,
    destroyed: Result<DestroyReport, ExecutionDomainError>,
) -> (r: Result<DestroyReport, ExecutionDomainError>)
    ensures
        r == (match readers {
            Err(e) => Err::<DestroyReport, ExecutionDomainError>(e),
            Ok(_) => destroyed,
        }),
{
    match readers {
        Err(e) => Err(e),
        Ok(_) => destroyed,
    }
}

/// What the manager of a domain holds.
#[derive(Debug, Clone, Copy, PartialEq, Eq, Structural)]
pub struct ManagerState {
    /// The whole domain.
    pub backend: bool,
    /// Parts of a domain that was never complete.
    pub partial: bool,
    /// Whether the capacity was given back.
    pub released: bool,
    /// Whether the root was given up.
    pub poisoned: bool,
}

/// What is done with what a manager still holds at its end.
#[derive(Debug, Clone, Copy, PartialEq, Eq, Structural)]
pub enum Ending {
    /// Nothing is left.
    Nothing,
    /// The domain is kept, with its capacity, and destroyed later.
    RetainBackend,
    /// The parts are kept, with the capacity, and removed later.
    RetainPartial,
}

impl ManagerState {
    /// A manager that holds nothing but the capacity.
    pub fn begin() -> (r: ManagerState)
        ensures
            r == (ManagerState { backend: false, partial: false, released: false, poisoned: false }),
    {
        ManagerState { backend: false, partial: false, released: false, poisoned: false }
    }

    /// Whether the capacity was given back only with nothing left.
    pub open spec fn honest(self) -> bool {
        self.released ==> !self.backend && !self.partial
    }

    /// Notes that the domain is there.
    pub fn provisioned(&mut self)
        requires
            old(self).honest(),
            !old(self).released,
        ensures
            *final(self) == (ManagerState { backend: true, ..*old(self) }),
            final(self).honest(),
    {
        self.backend = true;
    }

    /// Notes that the domain could not be made. Where parts of it are left, or nobody
    /// knows, the root is given up; else the capacity is given back.
    pub fn provision_failed(&mut self, quarantine: bool, partial: bool)
        requires
            !old(self).backend,
            !old(self).partial,
            !old(self).released,
        ensures
            *final(self) == (ManagerState {
                partial,
                poisoned: old(self).poisoned || quarantine || partial,
                released: !(old(self).poisoned || quarantine || partial),
                ..*old(self)
            }),
            final(self).honest(),
    {
        if quarantine {
            self.poisoned = true;
        }
        if partial {
            self.poisoned = true;
            self.partial = true;
        } else if !self.poisoned {
            self.released = true;
        }
    }

    /// Notes that making the domain went wrong in a way that nobody expected.
    pub fn provision_lost(&mut self)
        ensures
            *final(self) == (ManagerState { poisoned: true, ..*old(self) }),
    {
        self.poisoned = true;
    }

    /// Notes what a destruction came to. Only then, and after everything that was held
    /// was let go, is the capacity given back.
    pub fn destroyed(&mut self, success: bool)
        requires
            old(self).honest(),
            !old(self).partial,
        ensures
            *final(self) == (if success {
                ManagerState { backend: false, released: true, ..*old(self) }
            } else {
                *old(self)
            }),
            final(self).honest(),
    {
        if success {
            self.backend = false;
            self.released = true;
        }
    }

    /// Gives the root up: a handle was dropped, the domain cannot be trusted, or the
    /// manager itself failed.
    pub fn poison(&mut self)
        ensures
            *final(self) == (ManagerState { poisoned: true, ..*old(self) }),
    {
        self.poisoned = true;
    }

    /// The state at the end: the root is given up unless the capacity was given back.
    pub open spec fn ended(self) -> ManagerState {
        ManagerState { poisoned: self.poisoned || !self.released, ..self }
    }

    /// Ends the manager. What is left is kept, and unless the capacity was given back
    /// the root is given up.
    pub fn finish(&mut self) -> (r: Ending)
        requires
            old(self).honest(),
            old(self).partial ==> old(self).poisoned,
        ensures
            *final(self) == old(self).ended(),
            r == (if old(self).partial {
                Ending::RetainPartial
            } else if old(self).backend {
                Ending::RetainBackend
            } else {
                Ending::Nothing
            }),
    {
        let ending: Ending = if self.partial {
            Ending::RetainPartial
        } else if self.backend {
            Ending::RetainBackend
        } else {
            Ending::Nothing
        };
        if !self.released {
            self.poisoned = true;
        }
        ending
    }
}

/// Capacity is never lost in silence: at the end of a manager either it was given back
/// and nothing of the domain is left, or the root is given up.
pub proof fn law_capacity_is_returned_or_the_root_given_up(s: ManagerState)
    requires
        s.honest(),
    ensures
        s.ended().poisoned || (s.ended().released && !s.ended().backend && !s.ended().partial),
        s.ended().backend || s.ended().partial ==> s.ended().poisoned,
{
}

/// Notes what a destruction came to that was asked for while no command ran, and says
/// whether the manager ends. Where it failed the root is given up, and the caller may
/// ask again.
pub fn idle_destroyed(state: &mut ManagerState, success: bool) -> (r: bool)
    requires
        old(state).honest(),
        !old(state).partial,
    ensures
        r == success,
        *final(state) == (if success {
            ManagerState { backend: false, released: true, ..*old(state) }
        } else {
            ManagerState { poisoned: true, ..*old(state) }
        }),
        final(state).honest(),
{
    state.destroyed(success);
    if !success {
        state.poison();
    }
    success
}

/// What follows once a command has ended.
#[derive(Debug, Clone, Copy, PartialEq, Eq, Structural)]
pub enum AfterRun {
    Continue,
    /// Destroy the domain, and tell the caller who asked for it.
    DestroyAndReply,
    /// Destroy the domain, because nothing it says can be trusted any more.
    Destroy,
}

/// Decides what follows once a command has ended, and gives the root up where the
/// exchange was broken.
pub fn after_run(state: &mut ManagerState, broken: bool, asked: bool) -> (r: AfterRun)
    ensures
        *final(state) == (ManagerState { poisoned: old(state).poisoned || broken, ..*old(state) }),
        r == (if asked {
            AfterRun::DestroyAndReply
        } else if broken {
            AfterRun::Destroy
        } else {
            AfterRun::Continue
        }),
{
    if broken {
        state.poison();
    }
    if asked {
        AfterRun::DestroyAndReply
    } else if broken {
        AfterRun::Destroy
    } else {
        AfterRun::Continue
    }
}

/// The places that a domain cannot do without.
pub open spec fn required_places() -> Seq<Seq<char>> {
    seq![
        "/work"@,
        "/tmp"@,
        "/home/chimera"@,
        "/run/chimera"@,
        "/home/chimera/.docker"@,
        "/var/lib/chimera/docker"@,
        "/run/chimera/docker-exec"@,
    ]
}

/// Whether a place is one of those that are mapped.
pub open spec fn is_mapped(targets: Seq<DomainPath>, place: Seq<char>) -> bool {
    exists|i: int| 0 <= i < targets.len() && (#[trigger] targets[i])@ == place
}

/// Whether every place that a domain cannot do without is mapped.
pub open spec fn all_mapped(targets: Seq<DomainPath>) -> bool {
    forall|i: int|
        0 <= i < required_places().len() ==> is_mapped(targets, #[trigger] required_places()[i])
}

fn mapped(targets: &[DomainPath], place: &DomainPath) -> (r: bool)
    ensures
        r == is_mapped(targets@, place@),
{
    for i in 0..targets.len()
        invariant
            forall|k: int| 0 <= k < i ==> (#[trigger] targets@[k])@ != place@,
    {
        if text::same_str(targets[i].as_str(), place.as_str()) {
            return true;
        }
    }
    false
}

/// The paths and the environment of a sandboxed domain, given which places are mapped.
/// It fails unless every place that the domain cannot do without is.
pub fn domain_layout(targets: &[DomainPath]) -> (r: Result<
    (DomainPaths, DomainEnvironment),
    ExecutionDomainError,
>)
    ensures
        match r {
            Ok((paths, environment)) => {
                &&& all_mapped(targets@)
                &&& paths.work@ == "/work"@
                &&& paths.tmp@ == "/tmp"@
                &&& paths.home@ == "/home/chimera"@
                &&& paths.run@ == "/run/chimera"@
                &&& paths.docker_config@ == "/home/chimera/.docker"@
                &&& paths.docker_data@ == "/var/lib/chimera/docker"@
                &&& paths.docker_exec@ == "/run/chimera/docker-exec"@
                &&& paths.docker_socket@ == "/run/chimera/docker.sock"@
                &&& environment@ == crate::contracts::reserved_variables()
            },
            Err(e) => !all_mapped(targets@) && e == manager_error(FailureCategory::IdentityMismatch),
        },
{
    let paths: DomainPaths = DomainPaths::sandboxed();
    let complete: bool = mapped(targets, &paths.work) && mapped(targets, &paths.tmp) && mapped(
        targets,
        &paths.home,
    ) && mapped(targets, &paths.run) && mapped(targets, &paths.docker_config) && mapped(
        targets,
        &paths.docker_data,
    ) && mapped(targets, &paths.docker_exec);
    proof {
        let places = required_places();
        assert(places[0] == "/work"@ && places[1] == "/tmp"@ && places[2] == "/home/chimera"@
            && places[3] == "/run/chimera"@ && places[4] == "/home/chimera/.docker"@ && places[5]
            == "/var/lib/chimera/docker"@ && places[6] == "/run/chimera/docker-exec"@);
        if complete {
            assert forall|i: int| 0 <= i < places.len() implies is_mapped(
                targets@,
                #[trigger] places[i],
            ) by {
                assert(i == 0 || i == 1 || i == 2 || i == 3 || i == 4 || i == 5 || i == 6);
            }
        }
    }
    if complete {
        Ok((paths, DomainEnvironment::sandboxed()))
    } else {
        Err(backend_failure(FailureCategory::IdentityMismatch))
    }
}

/// A domain that could not be destroyed, by the number under which it is kept.
pub struct RetainedCleanupRegistry {
    pub entries: Vec<u64>,
}

/// The entries that a round of retries leaves, in order.
pub open spec fn left_over(entries: Seq<u64>, destroyed: Seq<bool>, n: int) -> Seq<u64>
    decreases n,
{
    if n <= 0 {
        seq![]
    } else if destroyed[n - 1] {
        left_over(entries, destroyed, n - 1)
    } else {
        left_over(entries, destroyed, n - 1).push(entries[n - 1])
    }
}

impl Default for RetainedCleanupRegistry {
    fn default() -> (r: RetainedCleanupRegistry)
        ensures
            r.entries@.len() == 0,
    {
        RetainedCleanupRegistry::new()
    }
}

impl RetainedCleanupRegistry {
    /// Nothing is kept.
    pub fn new() -> (r: RetainedCleanupRegistry)
        ensures
            r.entries@.len() == 0,
    {
        RetainedCleanupRegistry { entries: Vec::new() }
    }

    /// Keeps a domain.
    pub fn retain(&mut self, entry: u64)
        ensures
            final(self).entries@ == old(self).entries@.push(entry),
    {
        self.entries.push(entry);
    }

    /// How many are kept.
    pub fn len(&self) -> (r: usize)
        ensures
            r == self.entries@.len(),
    {
        self.entries.len()
    }

    /// Takes what one more attempt to destroy each of them gave, in order. Those that
    /// are gone have their capacity given back, and are forgotten.
    pub fn retry_all(&mut self, destroyed: &[bool])
        requires
            destroyed@.len() == old(self).entries@.len(),
        ensures
            final(self).entries@ == left_over(
                old(self).entries@,
                destroyed@,
                destroyed@.len() as int,
            ),
    {
        let mut kept: Vec<u64> = Vec::new();
        for i in 0..destroyed.len()
            invariant
                destroyed@.len() == self.entries@.len(),
                self.entries@ == old(self).entries@,
                kept@ == left_over(self.entries@, destroyed@, i as int),
        {
            if !destroyed[i] {
                kept.push(self.entries[i]);
            }
        }
        self.entries = kept;
    }
}

/// A kept domain is forgotten only where it was destroyed.
pub proof fn law_kept_domains_are_not_forgotten(
    entries: Seq<u64>,
    destroyed: Seq<bool>,
    n: int,
    i: int,
)
    requires
        0 <= i < n <= entries.len(),
        entries.len() == destroyed.len(),
        !destroyed[i],
    ensures
        left_over(entries, destroyed, n).contains(entries[i]),
    decreases n,
{
    let before = left_over(entries, destroyed, n - 1);
    if i == n - 1 {
        let all = before.push(entries[i]);
        assert(all[all.len() - 1] == entries[i]);
    } else {
        law_kept_domains_are_not_forgotten(entries, destroyed, n - 1, i);
        let k = choose|k: int| 0 <= k < before.len() && before[k] == entries[i];
        if !destroyed[n - 1] {
            let all = before.push(entries[n - 1]);
            assert(all[k] == entries[i]);
        }
    }
}

/// A cancellation that somebody asked for is due for that very reason, whichever it is,
/// once the whole request was sent and nothing is being sent. It is due once, and never
/// where nobody asked.
pub proof fn law_asked_cancellations_are_due(x: CommandExchange, r: Option<CancelReason>)
    requires
        call_ensures(CommandExchange::cancel_due, (&x,), r),
    ensures
        x.run_flushed && x.pending is None && !x.cancel_started ==> r == x.cancel_reason,
        !x.run_flushed || x.pending is Some || x.cancel_started ==> r is None,
{
}

/// Whoever asks first to cancel a running command is heard: the caller before the
/// manager, and the manager before the loss of the output. The reason is then due, and
/// has to reach the domain within a second.
pub proof fn law_observed_requests_are_sent(
    x: &mut CommandExchange,
    caller: bool,
    manager: ManagerCancellation,
    output_closed: bool,
    now: u128,
    due: Option<CancelReason>,
)
    requires
        call_ensures(CommandExchange::observe, (x, caller, &manager, output_closed, now), ()),
        call_ensures(CommandExchange::cancel_due, (&*final(x),), due),
        old(x).run_flushed,
        old(x).pending is None,
        !old(x).cancel_started,
        old(x).cancel_reason is None,
        now + 1_000_000_000 <= LAST_INSTANT,
    ensures
        caller ==> due == Some(CancelReason::User),
        !caller && manager.cancelled && manager.reason is Some ==> due == manager.reason,
        !caller && manager.cancelled && manager.reason is None ==> due == Some(
            CancelReason::Shutdown,
        ),
        !caller && !manager.cancelled && output_closed ==> due == Some(CancelReason::HandleDropped),
        !caller && !manager.cancelled && !output_closed ==> due is None && *final(x) == *old(x),
        due is Some ==> final(x).delivery_deadline == Some((now + 1_000_000_000) as u128),
{
}

/// A reason that was given stays, whatever is observed later.
pub proof fn law_later_requests_change_nothing(
    x: &mut CommandExchange,
    caller: bool,
    manager: ManagerCancellation,
    output_closed: bool,
    now: u128,
)
    requires
        call_ensures(CommandExchange::observe, (x, caller, &manager, output_closed, now), ()),
        old(x).cancel_reason is Some,
    ensures
        *final(x) == *old(x),
{
}

/// The first reason that the manager was given is the one it hands on.
pub proof fn law_managers_keep_the_first_reason(
    s: &mut ManagerCancellation,
    reason: CancelReason,
    r: CancelReason,
)
    requires
        call_ensures(ManagerCancellation::cancel, (s, reason), ()),
        call_ensures(ManagerCancellation::reason, (&*final(s),), r),
    ensures
        final(s).cancelled,
        old(s).reason is None ==> r == reason,
        old(s).reason is Some ==> Some(r) == old(s).reason,
{
}

/// Sending begins and ends in order: a sent request makes room for a cancellation, and
/// a sent cancellation has to be answered within a second.
pub proof fn law_sending_is_followed_up(x: &mut CommandExchange, now: u128)
    requires
        call_ensures(CommandExchange::flushed, (x, now), ()),
        now + 1_000_000_000 <= LAST_INSTANT,
    ensures
        final(x).pending is None,
        old(x).pending == Some(PendingSend::Run) ==> final(x).run_flushed
            && final(x).delivery_deadline == old(x).delivery_deadline && final(x).ack_deadline
            == old(x).ack_deadline,
        old(x).pending == Some(PendingSend::Cancel) ==> final(x).delivery_deadline is None
            && final(x).ack_deadline == Some((now + 1_000_000_000) as u128)
            && final(x).run_flushed == old(x).run_flushed,
        old(x).pending is None ==> *final(x) == *old(x),
        final(x).command_id == old(x).command_id,
        final(x).deadline == old(x).deadline,
        final(x).started == old(x).started,
        final(x).cancel_reason == old(x).cancel_reason,
        final(x).cancel_started == old(x).cancel_started,
        final(x).cancel_acknowledged == old(x).cancel_acknowledged,
        final(x).terminal == old(x).terminal,
{
}

/// A cancellation that was begun is being sent, and is not due again.
pub proof fn law_cancellations_are_sent_once(x: &mut CommandExchange, r: Option<CancelReason>)
    requires
        call_ensures(CommandExchange::cancel_sent, (x,), ()),
        call_ensures(CommandExchange::cancel_due, (&*final(x),), r),
    ensures
        r is None,
        final(x).pending == Some(PendingSend::Cancel),
        final(x).cancel_started,
        final(x).cancel_reason == old(x).cancel_reason,
        final(x).delivery_deadline == old(x).delivery_deadline,
        final(x).terminal == old(x).terminal,
        final(x).started == old(x).started,
{
}

/// A turn breaks at its limits, reports what the domain has said once everything sent
/// was answered, and goes on otherwise.
pub proof fn law_turns_report_or_go_on(x: CommandExchange, now: u128, r: Turn)
    requires
        call_ensures(CommandExchange::turn, (&x, now), r),
    ensures
        now >= x.deadline ==> r == Turn::Break(FailureCategory::Timeout),
        now < x.deadline && (x.delivery_deadline matches Some(at) && now >= at) ==> r
            == Turn::Break(FailureCategory::Unavailable),
        now < x.deadline && !(x.delivery_deadline matches Some(at) && now >= at) && (
        x.ack_deadline matches Some(at) && now >= at) ==> r == Turn::Break(
            FailureCategory::Timeout,
        ),
        ({
            let in_time = now < x.deadline && !(x.delivery_deadline matches Some(at) && now >= at)
                && !(x.ack_deadline matches Some(at) && now >= at);
            let waits = x.pending is Some || (x.cancel_started && !x.cancel_acknowledged);
            in_time ==> match x.terminal {
                None => r == Turn::Continue,
                Some(Terminal::Finished(outcome)) => if waits {
                    r == Turn::Continue
                } else {
                    r == Turn::Done(Ok(outcome))
                },
                Some(Terminal::Rejected(category)) => if waits {
                    r == Turn::Continue
                } else {
                    r == Turn::Done(
                        Err(
                            ExecutionDomainError::Backend {
                                attempt: None,
                                stage: Stage::Protocol,
                                category,
                                errno: None,
                            },
                        ),
                    )
                },
            }
        }),
{
}

/// The end of an exchange does not depend on the clock.
pub proof fn law_settled_exchanges_are_reported(x: CommandExchange, now: u128, a: Turn, b: Turn)
    requires
        call_ensures(CommandExchange::turn, (&x, now), a),
        call_ensures(CommandExchange::settled, (&x,), b),
        now < x.deadline,
        x.delivery_deadline is None,
        x.ack_deadline is None,
    ensures
        a == b,
{
}

/// A command is carried out in order: it starts once, its output follows, it finishes
/// after it has started, and an answer about another command breaks the exchange.
pub proof fn law_answers_come_in_order(
    x: &mut CommandExchange,
    response: CommandResponse,
    r: ResponseAction,
)
    requires
        call_ensures(CommandExchange::respond, (x, response), r),
    ensures
        match response {
            CommandResponse::Started(id) => {
                &&& r == ResponseAction::Continue <==> id == old(x).command_id && !old(x).started
                &&& r == ResponseAction::Continue ==> final(x).started && final(x).terminal
                    == old(x).terminal
            },
            CommandResponse::CancelAcknowledged(id) => {
                &&& r == ResponseAction::Continue <==> id == old(x).command_id
                    && old(x).cancel_started && !old(x).cancel_acknowledged
                &&& r == ResponseAction::Continue ==> final(x).cancel_acknowledged
                    && final(x).ack_deadline is None && final(x).terminal == old(x).terminal
            },
            CommandResponse::Rejected(id, category) => {
                &&& r == ResponseAction::Continue <==> id == old(x).command_id && old(x).terminal
                    is None
                &&& r == ResponseAction::Continue ==> final(x).terminal == Some(
                    Terminal::Rejected(category),
                )
            },
            CommandResponse::Output(id) => {
                &&& r == ResponseAction::Deliver <==> id == old(x).command_id && old(x).started
                    && old(x).cancel_reason is None
                &&& r == ResponseAction::Continue <==> id == old(x).command_id && old(x).started
                    && old(x).cancel_reason is Some
                &&& *final(x) == *old(x)
            },
            CommandResponse::Finished(id, outcome) => {
                &&& r == ResponseAction::Continue <==> id == old(x).command_id && old(x).started
                &&& r == ResponseAction::Continue ==> final(x).terminal == Some(
                    Terminal::Finished(outcome),
                )
            },
            CommandResponse::Other => !(r is Continue) && !(r is Deliver),
        },
        r is Break ==> r == ResponseAction::Break(FailureCategory::Protocol) && *final(x) == *old(x),
        final(x).command_id == old(x).command_id,
        final(x).deadline == old(x).deadline,
        final(x).pending == old(x).pending,
        final(x).run_flushed == old(x).run_flushed,
        final(x).cancel_reason == old(x).cancel_reason,
        final(x).delivery_deadline == old(x).delivery_deadline,
{
}

/// A command of the domain gets the next number and five seconds more than its own
/// limit, and its request is being sent. A command of the host is refused, and takes no
/// number.
pub proof fn law_exchanges_begin_with_the_next_number(
    numbers: &mut CommandNumbers,
    spec: CommandSpec,
    now: u128,
    r: Result<CommandExchange, ExecutionDomainError>,
)
    requires
        call_ensures(CommandExchange::begin, (numbers, &spec, now), r),
    ensures
        r matches Ok(x) ==> spec.target is Sandboxed && x.command_id == old(numbers).next
            && final(numbers).next == x.command_id + 1 && x.deadline
            == now + spec.timeout + 5_000_000_000 && x.pending
            == Some(PendingSend::Run) && !x.run_flushed && !x.started && x.cancel_reason is None
            && x.terminal is None && x.delivery_deadline is None && x.ack_deadline is None
            && !x.cancel_started && !x.cancel_acknowledged,
        spec.target is Sandboxed && 0 < old(numbers).next < u64::MAX && now + spec.timeout
            + 5_000_000_000 <= LAST_INSTANT ==> r is Ok,
        spec.target is Trusted ==> r is Err && final(numbers).next == old(numbers).next,
{
}

/// Two exchanges that begin one after the other have different numbers.
pub proof fn law_numbers_are_never_shared(
    numbers: &mut CommandNumbers,
    later: &mut CommandNumbers,
    a: Result<u64, ExecutionDomainError>,
    b: Result<u64, ExecutionDomainError>,
)
    requires
        call_ensures(CommandNumbers::next_command_id, (numbers,), a),
        call_ensures(CommandNumbers::next_command_id, (later,), b),
        *old(later) == *final(numbers),
        a is Ok,
        b is Ok,
    ensures
        a->Ok_0 < b->Ok_0,
        b->Ok_0 == a->Ok_0 + 1,
        0 < a->Ok_0,
{
}

/// An answer about the files of a step counts only for the step that was asked about,
/// and a refusal keeps its reason.
pub proof fn law_replies_belong_to_their_step(
    reply: StepReply,
    id: StepFilesId,
    r: Result<(), ExecutionDomainError>,
)
    requires
        call_ensures(step_reply, (reply, &id), r),
    ensures
        r is Ok <==> (reply matches StepReply::Of(actual) && actual@ == id@),
        match r {
            Ok(_) => true,
            Err(ExecutionDomainError::Backend { stage, category, .. }) => stage == Stage::Protocol
                && category == (match reply {
                StepReply::Rejected(why) => why,
                _ => FailureCategory::Protocol,
            }),
            Err(_) => false,
        },
{
}

/// While a command runs only cancelling and, once, destroying are answered.
pub proof fn law_running_commands_can_only_be_ended(
    request: ManagerRequest,
    destroying: bool,
    r: WhileRunning,
)
    requires
        call_ensures(while_running, (request, destroying), r),
    ensures
        r == WhileRunning::Cancel <==> request == ManagerRequest::Cancel,
        r == WhileRunning::Destroy <==> request == ManagerRequest::Destroy && !destroying,
        request != ManagerRequest::Cancel && (request != ManagerRequest::Destroy || destroying)
            ==> r == WhileRunning::Reject(FailureCategory::Unavailable),
{
}

/// Readers that would not let go are reported, whatever became of the domain; a
/// sandboxed domain is destroyed all the same.
pub proof fn law_held_workspaces_are_reported(
    readers: Result<(), ExecutionDomainError>,
    sandboxed: bool,
    destroyed: Result<DestroyReport, ExecutionDomainError>,
    goes_on: bool,
    r: Result<DestroyReport, ExecutionDomainError>,
)
    requires
        call_ensures(destroy_in_spite, (&readers, sandboxed), goes_on),
        call_ensures(destroy_result, (readers, destroyed), r),
    ensures
        readers is Ok ==> goes_on && r == destroyed,
        readers is Err ==> goes_on == sandboxed && r is Err && r->Err_0 == readers->Err_0,
{
}

/// Capacity is given back exactly when everything that was made is gone again; what is
/// left is kept, and the root is given up.
pub proof fn law_capacity_follows_the_destruction(
    s: &mut ManagerState,
    t: &mut ManagerState,
    success: bool,
    r: Ending,
)
    requires
        call_ensures(ManagerState::destroyed, (s, success), ()),
        call_ensures(ManagerState::finish, (t,), r),
        *old(t) == *final(s),
        old(s).backend,
        !old(s).partial,
        !old(s).released,
    ensures
        success ==> final(t).released && r == Ending::Nothing && final(t).poisoned == old(s).poisoned,
        !success ==> !final(t).released && r == Ending::RetainBackend && final(t).poisoned,
{
}

/// A domain that could not be made leaves nothing, or is kept with its root given up.
pub proof fn law_failed_provisioning_is_settled(
    s: &mut ManagerState,
    t: &mut ManagerState,
    quarantine: bool,
    partial: bool,
    r: Ending,
)
    requires
        call_ensures(ManagerState::provision_failed, (s, quarantine, partial), ()),
        call_ensures(ManagerState::finish, (t,), r),
        *old(t) == *final(s),
        !old(s).backend,
        !old(s).partial,
        !old(s).released,
        !old(s).poisoned,
    ensures
        partial ==> r == Ending::RetainPartial && final(t).poisoned && !final(t).released,
        !partial && quarantine ==> r == Ending::Nothing && final(t).poisoned && !final(t).released,
        !partial && !quarantine ==> r == Ending::Nothing && !final(t).poisoned && final(t).released,
{
}

/// A broken exchange gives the root up and ends the domain; a domain that was to be
/// destroyed is destroyed in any case.
pub proof fn law_broken_exchanges_end_the_domain(
    s: &mut ManagerState,
    broken: bool,
    asked: bool,
    r: AfterRun,
)
    requires
        call_ensures(after_run, (s, broken, asked), r),
    ensures
        broken ==> final(s).poisoned && !(r is Continue),
        !broken ==> *final(s) == *old(s),
        !broken && !asked ==> r is Continue,
        asked ==> r is DestroyAndReply,
        broken && !asked ==> r is Destroy,
        final(s).backend == old(s).backend,
        final(s).partial == old(s).partial,
        final(s).released == old(s).released,
{
}

/// An idle domain that was destroyed is gone with its capacity; one that was not gives
/// the root up.
pub proof fn law_idle_domains_are_settled(s: &mut ManagerState, success: bool, r: bool)
    requires
        call_ensures(idle_destroyed, (s, success), r),
    ensures
        r == success,
        success ==> !final(s).backend && final(s).released && final(s).poisoned == old(s).poisoned,
        !success ==> final(s).poisoned && final(s).backend == old(s).backend && final(s).released
            == old(s).released,
        final(s).partial == old(s).partial,
{
}

/// A domain has a layout exactly when all seven of its places are mapped, and its paths
/// are those places.
pub proof fn law_layouts_need_every_place(
    targets: &[DomainPath],
    r: Result<(DomainPaths, DomainEnvironment), ExecutionDomainError>,
)
    requires
        call_ensures(domain_layout, (targets,), r),
    ensures
        r is Ok <==> ({
            &&& (exists|i: int| 0 <= i < targets@.len() && (#[trigger] targets@[i])@ == "/work"@)
            &&& (exists|i: int| 0 <= i < targets@.len() && (#[trigger] targets@[i])@ == "/tmp"@)
            &&& (exists|i: int|
                0 <= i < targets@.len() && (#[trigger] targets@[i])@ == "/home/chimera"@)
            &&& (exists|i: int|
                0 <= i < targets@.len() && (#[trigger] targets@[i])@ == "/run/chimera"@)
            &&& (exists|i: int|
                0 <= i < targets@.len() && (#[trigger] targets@[i])@ == "/home/chimera/.docker"@)
            &&& (exists|i: int|
                0 <= i < targets@.len() && (#[trigger] targets@[i])@ == "/var/lib/chimera/docker"@)
            &&& (exists|i: int|
                0 <= i < targets@.len() && (#[trigger] targets@[i])@ == "/run/chimera/docker-exec"@)
        }),
        r matches Ok((paths, environment)) ==> paths.work@ == "/work"@ && paths.tmp@ == "/tmp"@
            && paths.home@ == "/home/chimera"@ && paths.run@ == "/run/chimera"@
            && paths.docker_config@ == "/home/chimera/.docker"@ && paths.docker_data@
            == "/var/lib/chimera/docker"@ && paths.docker_exec@ == "/run/chimera/docker-exec"@
            && paths.docker_socket@ == "/run/chimera/docker.sock"@,
{
    let places = required_places();
    assert(places.len() == 7);
    assert(places[0] == "/work"@ && places[1] == "/tmp"@ && places[2] == "/home/chimera"@);
    assert(places[3] == "/run/chimera"@ && places[4] == "/home/chimera/.docker"@);
    assert(places[5] == "/var/lib/chimera/docker"@ && places[6] == "/run/chimera/docker-exec"@);
    if is_mapped(targets@, places[0]) && is_mapped(targets@, places[1]) && is_mapped(
        targets@,
        places[2],
    ) && is_mapped(targets@, places[3]) && is_mapped(targets@, places[4]) && is_mapped(
        targets@,
        places[5],
    ) && is_mapped(targets@, places[6]) {
        assert(all_mapped(targets@));
    }
}

/// A round of retries keeps exactly the domains that could not be destroyed, in order.
pub proof fn law_only_undestroyed_domains_stay(
    entries: Seq<u64>,
    destroyed: Seq<bool>,
    n: int,
    k: int,
)
    requires
        0 <= n <= entries.len(),
        entries.len() == destroyed.len(),
        0 <= k < left_over(entries, destroyed, n).len(),
    ensures
        exists|i: int|
            k <= i < n && !(#[trigger] destroyed[i]) && entries[i] == left_over(
                entries,
                destroyed,
                n,
            )[k],
        n < entries.len() && destroyed[n] ==> left_over(entries, destroyed, n + 1) == left_over(
            entries,
            destroyed,
            n,
        ),
        n < entries.len() && !destroyed[n] ==> left_over(entries, destroyed, n + 1).len()
            == left_over(entries, destroyed, n).len() + 1 && left_over(
            entries,
            destroyed,
            n + 1,
        ).last() == entries[n],
    decreases n,
{
    if n > 0 {
        let before = left_over(entries, destroyed, n - 1);
        if destroyed[n - 1] {
            law_only_undestroyed_domains_stay(entries, destroyed, n - 1, k);
        } else if k < before.len() {
            law_only_undestroyed_domains_stay(entries, destroyed, n - 1, k);
        } else {
            lemma_no_more_than_there_were(entries, destroyed, n - 1);
            assert(!destroyed[n - 1] && entries[n - 1] == left_over(entries, destroyed, n)[k]);
        }
    }
}

proof fn lemma_no_more_than_there_were(entries: Seq<u64>, destroyed: Seq<bool>, n: int)
    requires
        0 <= n <= entries.len(),
    ensures
        left_over(entries, destroyed, n).len() <= n,
    decreases n,
{
    if n > 0 {
        lemma_no_more_than_there_were(entries, destroyed, n - 1);
    }
}

/// Whoever asks first for a cancellation gives its reason, and it is to be sent within a
/// second; whoever asks later changes nothing, and nothing else of the exchange changes.
pub proof fn law_cancellations_are_asked_for_once(
    a: &mut CommandExchange,
    b: &mut CommandExchange,
    first: CancelReason,
    second: CancelReason,
    now: u128,
    then: u128,
    done: (),
    again: (),
)
    requires
        call_ensures(CommandExchange::request_cancel, (a, first, now), done),
        *old(b) == *final(a),
        call_ensures(CommandExchange::request_cancel, (b, second, then), again),
    ensures
        old(a).cancel_reason is None ==> final(a).cancel_reason == Some(first),
        old(a).cancel_reason is None && now + 1_000_000_000 <= LAST_INSTANT ==> (
        final(a).delivery_deadline matches Some(at) && at == now + 1_000_000_000),
        old(a).cancel_reason is Some ==> *final(a) == *old(a),
        *final(b) == *final(a),
        final(a).command_id == old(a).command_id && final(a).deadline == old(a).deadline,
        final(a).pending == old(a).pending && final(a).terminal == old(a).terminal,
        final(a).cancel_started == old(a).cancel_started && final(a).run_flushed
            == old(a).run_flushed,
{
}

/// An end that was told is reported: the outcome of a command that finished, and the
/// reason for one that was rejected.
pub proof fn law_ends_are_reported(
    outcome: CommandOutcome,
    category: FailureCategory,
    a: Result<CommandOutcome, ExecutionDomainError>,
    b: Result<CommandOutcome, ExecutionDomainError>,
)
    requires
        call_ensures(Terminal::report, (Terminal::Finished(outcome),), a),
        call_ensures(Terminal::report, (Terminal::Rejected(category),), b),
    ensures
        a == Ok::<CommandOutcome, ExecutionDomainError>(outcome),
        b matches Err(ExecutionDomainError::Backend { category: c, .. }) && c == category,
{
}

/// Only sending is left where the end is known and no cancellation waits for its answer.
pub proof fn law_only_sending_is_left(x: CommandExchange, r: bool)
    requires
        call_ensures(CommandExchange::only_sending, (&x,), r),
    ensures
        r <==> x.terminal is Some && (!x.cancel_started || x.cancel_acknowledged),
{
}

/// Numbers begin with one and nobody has asked for anything at first.
pub proof fn law_managers_begin_untouched(
    numbers: CommandNumbers,
    asked: ManagerCancellation,
    state: ManagerState,
    kept: RetainedCleanupRegistry,
    count: usize,
)
    requires
        call_ensures(CommandNumbers::begin, (), numbers),
        call_ensures(ManagerCancellation::new, (), asked),
        call_ensures(ManagerState::begin, (), state),
        call_ensures(RetainedCleanupRegistry::new, (), kept),
        call_ensures(RetainedCleanupRegistry::len, (&kept,), count),
    ensures
        numbers.next == 1,
        !asked.cancelled && asked.reason is None,
        !state.backend && !state.partial && !state.released && !state.poisoned,
        count == 0,
{
}

/// A domain that was made is held; one that was lost, or whose root is given up, leaves the
/// root given up and what is held as it was.
pub proof fn law_managers_hold_what_was_made(
    a: &mut ManagerState,
    b: &mut ManagerState,
    c: &mut ManagerState,
    made: (),
    lost: (),
    poisoned: (),
)
    requires
        call_ensures(ManagerState::provisioned, (a,), made),
        call_ensures(ManagerState::provision_lost, (b,), lost),
        call_ensures(ManagerState::poison, (c,), poisoned),
    ensures
        final(a).backend && final(a).released == old(a).released && final(a).poisoned
            == old(a).poisoned && final(a).partial == old(a).partial,
        final(b).poisoned && final(b).backend == old(b).backend && final(b).partial
            == old(b).partial && final(b).released == old(b).released,
        final(c).poisoned && final(c).backend == old(c).backend && final(c).partial
            == old(c).partial && final(c).released == old(c).released,
{
}

/// A domain that is kept stays kept, behind those before it, until a retry destroys it;
/// a round of retries keeps exactly the others, and adds none.
pub proof fn law_kept_domains_stay_until_destroyed(
    a: &mut RetainedCleanupRegistry,
    b: &mut RetainedCleanupRegistry,
    entry: u64,
    destroyed: &[bool],
    kept: (),
    retried: (),
    i: int,
    k: int,
)
    requires
        call_ensures(RetainedCleanupRegistry::retain, (a, entry), kept),
        call_ensures(RetainedCleanupRegistry::retry_all, (b, destroyed), retried),
        destroyed@.len() == old(b).entries@.len(),
    ensures
        final(a).entries@.len() == old(a).entries@.len() + 1 && final(a).entries@.last() == entry,
        0 <= i < old(a).entries@.len() ==> final(a).entries@[i] == old(a).entries@[i],
        0 <= i < old(b).entries@.len() && !destroyed@[i] ==> final(b).entries@.contains(
            old(b).entries@[i],
        ),
        0 <= k < final(b).entries@.len() ==> exists|j: int|
            k <= j < old(b).entries@.len() && !(#[trigger] destroyed@[j]) && old(b).entries@[j]
                == final(b).entries@[k],
        (forall|j: int| 0 <= j < destroyed@.len() ==> #[trigger] destroyed@[j])
            ==> final(b).entries@.len() == 0,
{
    let n = destroyed@.len() as int;
    if 0 <= i < n && !destroyed@[i] {
        law_kept_domains_are_not_forgotten(old(b).entries@, destroyed@, n, i);
    }
    if 0 <= k < final(b).entries@.len() {
        law_only_undestroyed_domains_stay(old(b).entries@, destroyed@, n, k);
    }
    if final(b).entries@.len() > 0 {
        law_only_undestroyed_domains_stay(old(b).entries@, destroyed@, n, 0);
    }
}

} // verus!
