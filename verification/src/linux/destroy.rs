//! The destruction of a domain: one fixed sequence, in which nothing is removed
//! unless everything before it succeeded.

use vstd::prelude::*;

use crate::clock;
use crate::clock::LAST_INSTANT;
use crate::contracts::{AttemptIdentity, DestroyReport, FailureCategory, Stage};
use crate::error;
use crate::error::ExecutionDomainError;

verus! {

/// A failure of the destroy stage.
pub open spec fn destroy_error(category: FailureCategory) -> ExecutionDomainError {
    error::backend(Stage::Destroy, category)
}

/// Reports a failure of the destroy stage.
pub fn failure(category: FailureCategory) -> (e: ExecutionDomainError)
    ensures
        e == destroy_error(category),
{
    error::backend_failure(Stage::Destroy, category)
}

/// How long the parts of a destruction may take, in nanoseconds.
#[derive(Debug, Clone, Copy)]
pub struct ShutdownBounds {
    pub term: u128,
    pub kill: u128,
    pub drain: u128,
}

impl Default for ShutdownBounds {
    fn default() -> (r: ShutdownBounds)
        ensures
            r.term == 5_000_000_000,
            r.kill == 10_000_000_000,
            r.drain == 2_000_000_000,
    {
        ShutdownBounds { term: 5_000_000_000, kill: 10_000_000_000, drain: 2_000_000_000 }
    }
}

/// The operation of a destruction that comes next.
#[derive(Debug, Clone, Copy, PartialEq, Eq, Structural)]
pub enum DestroyOperation {
    CloseAdmission,
    PersistDestroying,
    GracefulShutdown,
    TermMembers,
    /// Look whether every process has ended by itself.
    FirstEmpty,
    KillAll,
    /// Look whether every process has ended after the kill.
    SecondEmpty,
    ReapLauncher,
    DrainDiagnostics,
    CloseHandles,
    ProveNoMounts,
    RemoveRuntimeSocket,
    RemoveFilesystem,
    RemoveCgroup,
    FsyncRoot,
    MarkDestroyed,
}

impl DestroyOperation {
    /// The position of the operation in the sequence.
    pub open spec fn rank(self) -> int {
        match self {
            DestroyOperation::CloseAdmission => 0,
            DestroyOperation::PersistDestroying => 1,
            DestroyOperation::GracefulShutdown => 2,
            DestroyOperation::TermMembers => 3,
            DestroyOperation::FirstEmpty => 4,
            DestroyOperation::KillAll => 5,
            DestroyOperation::SecondEmpty => 6,
            DestroyOperation::ReapLauncher => 7,
            DestroyOperation::DrainDiagnostics => 8,
            DestroyOperation::CloseHandles => 9,
            DestroyOperation::ProveNoMounts => 10,
            DestroyOperation::RemoveRuntimeSocket => 11,
            DestroyOperation::RemoveFilesystem => 12,
            DestroyOperation::RemoveCgroup => 13,
            DestroyOperation::FsyncRoot => 14,
            DestroyOperation::MarkDestroyed => 15,
        }
    }

    /// Whether the operation removes something or declares it removed.
    pub open spec fn destructive(self) -> bool {
        self.rank() >= DestroyOperation::RemoveRuntimeSocket.rank()
    }

    /// Whether the operation looks for remaining processes.
    pub open spec fn looks(self) -> bool {
        self == DestroyOperation::FirstEmpty || self == DestroyOperation::SecondEmpty
    }
}

/// A destruction under way.
pub struct Destruction {
    attempt: AttemptIdentity,
    term_deadline: u128,
    kill_deadline: u128,
    drain_deadline: u128,
    operation: DestroyOperation,
    first_error: Option<ExecutionDomainError>,
    forced_kill: bool,
    empty_proven: bool,
}

/// What follows an operation of a destruction.
pub enum DestroyStep {
    Continue(Destruction),
    Done(Result<DestroyReport, ExecutionDomainError>),
}

/// The outcome of an operation: for a look, whether every process has ended; for
/// anything else the flag says nothing.
pub type DestroyOutcome = Result<bool, ExecutionDomainError>;

/// The first error of two.
pub open spec fn first_of(
    first: Option<ExecutionDomainError>,
    outcome: DestroyOutcome,
) -> Option<ExecutionDomainError> {
    match (first, outcome) {
        (Some(e), _) => Some(e),
        (None, Err(e)) => Some(e),
        (None, Ok(_)) => None,
    }
}

fn retain_first(first: Option<ExecutionDomainError>, outcome: DestroyOutcome) -> (r: Option<
    ExecutionDomainError,
>)
    ensures
        r == first_of(first, outcome),
{
    match first {
        Some(e) => Some(e),
        None => match outcome {
            Err(e) => Some(e),
            Ok(_) => None,
        },
    }
}

impl Destruction {
    pub closed spec fn of(self) -> AttemptIdentity {
        self.attempt
    }

    pub closed spec fn at(self) -> DestroyOperation {
        self.operation
    }

    pub closed spec fn error(self) -> Option<ExecutionDomainError> {
        self.first_error
    }

    /// Whether a kill was, or has to be, sent.
    pub closed spec fn forced(self) -> bool {
        self.forced_kill
    }

    /// Whether every process was seen to have ended.
    pub closed spec fn emptied(self) -> bool {
        self.empty_proven
    }

    /// The deadlines of the graceful end, the kill and the rest.
    pub closed spec fn deadlines(self) -> (u128, u128, u128) {
        (self.term_deadline, self.kill_deadline, self.drain_deadline)
    }

    #[verifier::type_invariant]
    spec fn inv(self) -> bool {
        &&& self.operation.destructive() ==> self.first_error is None && self.empty_proven
        &&& self.operation.rank() <= DestroyOperation::FirstEmpty.rank() ==> !self.forced_kill
            && !self.empty_proven
        &&& self.operation == DestroyOperation::KillAll || self.operation
            == DestroyOperation::SecondEmpty ==> self.forced_kill
        &&& self.operation.rank() > DestroyOperation::SecondEmpty.rank() && self.first_error is None
            ==> self.empty_proven
    }

    /// Begins a destruction. It fails where the clock cannot tell a deadline.
    pub fn begin(attempt: AttemptIdentity, started: u128, bounds: ShutdownBounds) -> (r: Result<
        Destruction,
        ExecutionDomainError,
    >)
        ensures
            match r {
                Ok(d) => d.of() == attempt && d.at() == DestroyOperation::CloseAdmission
                    && d.error() is None && !d.forced() && !d.emptied() && d.deadlines() == (
                    (started + bounds.term) as u128,
                    (started + bounds.term + bounds.kill) as u128,
                    (started + bounds.term + bounds.kill + bounds.drain) as u128,
                ) && started + bounds.term + bounds.kill + bounds.drain <= LAST_INSTANT,
                Err(e) => started + bounds.term + bounds.kill + bounds.drain > LAST_INSTANT && e
                    == destroy_error(FailureCategory::InvalidInput),
            },
    {
        let term_deadline: u128 = match clock::after(started, bounds.term) {
            Some(d) => d,
            None => {
                return Err(failure(FailureCategory::InvalidInput));
            },
        };
        let kill_deadline: u128 = match clock::after(term_deadline, bounds.kill) {
            Some(d) => d,
            None => {
                return Err(failure(FailureCategory::InvalidInput));
            },
        };
        let drain_deadline: u128 = match clock::after(kill_deadline, bounds.drain) {
            Some(d) => d,
            None => {
                return Err(failure(FailureCategory::InvalidInput));
            },
        };
        Ok(
            Destruction {
                attempt,
                term_deadline,
                kill_deadline,
                drain_deadline,
                operation: DestroyOperation::CloseAdmission,
                first_error: None,
                forced_kill: false,
                empty_proven: false,
            },
        )
    }

    /// The operation to perform now. Nothing destructive is ever asked for after a
    /// failure or before every process was seen to have ended.
    pub fn operation(&self) -> (r: DestroyOperation)
        ensures
            r == self.at(),
            r.destructive() ==> self.error() is None && self.emptied(),
    {
        proof {
            use_type_invariant(self);
        }
        self.operation
    }

    /// The moment by which the operation must be over, where it has a limit.
    pub fn deadline(&self) -> (r: Option<u128>)
        ensures
            r == (match self.at() {
                DestroyOperation::GracefulShutdown | DestroyOperation::TermMembers
                | DestroyOperation::FirstEmpty => Some(self.deadlines().0),
                DestroyOperation::KillAll | DestroyOperation::SecondEmpty => Some(
                    self.deadlines().1,
                ),
                DestroyOperation::ReapLauncher | DestroyOperation::DrainDiagnostics => Some(
                    self.deadlines().2,
                ),
                _ => None,
            }),
    {
        match self.operation {
            DestroyOperation::GracefulShutdown | DestroyOperation::TermMembers
            | DestroyOperation::FirstEmpty => Some(self.term_deadline),
            DestroyOperation::KillAll | DestroyOperation::SecondEmpty => Some(self.kill_deadline),
            DestroyOperation::ReapLauncher | DestroyOperation::DrainDiagnostics => Some(
                self.drain_deadline,
            ),
            _ => None,
        }
    }

    /// The operation after this one, given whether a kill is needed.
    pub open spec fn following(self, kill: bool) -> DestroyOperation {
        match self.at() {
            DestroyOperation::CloseAdmission => DestroyOperation::PersistDestroying,
            DestroyOperation::PersistDestroying => DestroyOperation::GracefulShutdown,
            DestroyOperation::GracefulShutdown => DestroyOperation::TermMembers,
            DestroyOperation::TermMembers => DestroyOperation::FirstEmpty,
            DestroyOperation::FirstEmpty => if kill {
                DestroyOperation::KillAll
            } else {
                DestroyOperation::ReapLauncher
            },
            DestroyOperation::KillAll => DestroyOperation::SecondEmpty,
            DestroyOperation::SecondEmpty => DestroyOperation::ReapLauncher,
            DestroyOperation::ReapLauncher => DestroyOperation::DrainDiagnostics,
            DestroyOperation::DrainDiagnostics => DestroyOperation::CloseHandles,
            DestroyOperation::CloseHandles => DestroyOperation::ProveNoMounts,
            DestroyOperation::ProveNoMounts => DestroyOperation::RemoveRuntimeSocket,
            DestroyOperation::RemoveRuntimeSocket => DestroyOperation::RemoveFilesystem,
            DestroyOperation::RemoveFilesystem => DestroyOperation::RemoveCgroup,
            DestroyOperation::RemoveCgroup => DestroyOperation::FsyncRoot,
            DestroyOperation::FsyncRoot => DestroyOperation::MarkDestroyed,
            DestroyOperation::MarkDestroyed => DestroyOperation::MarkDestroyed,
        }
    }

    /// The first error once this operation has had its outcome. The second look
    /// turns remaining processes into a timeout.
    pub open spec fn error_after(self, outcome: DestroyOutcome) -> Option<ExecutionDomainError> {
        let seen = first_of(self.error(), outcome);
        if self.at() == DestroyOperation::SecondEmpty && outcome == Ok::<bool, ExecutionDomainError>(
            false,
        ) && seen is None {
            Some(destroy_error(FailureCategory::Timeout))
        } else {
            seen
        }
    }

    /// Whether every process is known to have ended after this operation.
    pub open spec fn emptied_after(self, outcome: DestroyOutcome) -> bool {
        self.emptied() || (self.at().looks() && outcome == Ok::<bool, ExecutionDomainError>(true))
    }

    /// Whether a kill is needed after this operation: at the first look, unless
    /// every process has ended and nothing has failed before.
    pub open spec fn forced_after(self, outcome: DestroyOutcome) -> bool {
        if self.at() == DestroyOperation::FirstEmpty {
            outcome != Ok::<bool, ExecutionDomainError>(true) || self.error() is Some
        } else {
            self.forced()
        }
    }

    /// Takes the outcome of the current operation. Up to the proof that nothing is
    /// mounted, an error is remembered and the sequence goes on, so that processes
    /// are killed and handles closed in any case; from there on the first error
    /// ends it.
    pub fn advance(self, outcome: DestroyOutcome) -> (r: DestroyStep)
        ensures
            match r {
                DestroyStep::Continue(next) => {
                    &&& self.at() != DestroyOperation::MarkDestroyed
                    &&& self.at().rank() >= DestroyOperation::ProveNoMounts.rank()
                        ==> self.error_after(outcome) is None
                    &&& next.of() == self.of()
                    &&& next.deadlines() == self.deadlines()
                    &&& next.error() == self.error_after(outcome)
                    &&& next.emptied() == self.emptied_after(outcome)
                    &&& next.forced() == self.forced_after(outcome)
                    &&& next.at() == self.following(self.forced_after(outcome))
                },
                DestroyStep::Done(Ok(report)) => {
                    &&& self.at() == DestroyOperation::MarkDestroyed
                    &&& outcome is Ok
                    &&& self.error() is None
                    &&& self.emptied()
                    &&& report.attempt == self.of()
                    &&& report.forced_kill == self.forced()
                },
                DestroyStep::Done(Err(e)) => {
                    &&& self.at().rank() >= DestroyOperation::ProveNoMounts.rank()
                    &&& self.error_after(outcome) == Some(e)
                },
            },
    {
        proof {
            use_type_invariant(&self);
        }
        let ghost before = self;
        let operation: DestroyOperation = self.operation;
        let attempt: AttemptIdentity = self.attempt;
        let term_deadline: u128 = self.term_deadline;
        let kill_deadline: u128 = self.kill_deadline;
        let drain_deadline: u128 = self.drain_deadline;
        let ended: bool = match &outcome {
            Ok(flag) => *flag,
            Err(_) => false,
        };
        let remaining: bool = match &outcome {
            Ok(flag) => !*flag,
            Err(_) => false,
        };
        let failed_before: bool = self.first_error.is_some();
        let looking: bool = operation == DestroyOperation::FirstEmpty || operation
            == DestroyOperation::SecondEmpty;
        let empty_proven: bool = self.empty_proven || (looking && ended);
        let forced_kill: bool = if operation == DestroyOperation::FirstEmpty {
            !ended || failed_before
        } else {
            self.forced_kill
        };
        let mut first_error: Option<ExecutionDomainError> = retain_first(self.first_error, outcome);
        if operation == DestroyOperation::SecondEmpty && remaining && first_error.is_none() {
            first_error = Some(failure(FailureCategory::Timeout));
        }
        let next: DestroyOperation = match operation {
            DestroyOperation::CloseAdmission => DestroyOperation::PersistDestroying,
            DestroyOperation::PersistDestroying => DestroyOperation::GracefulShutdown,
            DestroyOperation::GracefulShutdown => DestroyOperation::TermMembers,
            DestroyOperation::TermMembers => DestroyOperation::FirstEmpty,
            DestroyOperation::FirstEmpty => {
                if forced_kill {
                    DestroyOperation::KillAll
                } else {
                    DestroyOperation::ReapLauncher
                }
            },
            DestroyOperation::KillAll => DestroyOperation::SecondEmpty,
            DestroyOperation::SecondEmpty => DestroyOperation::ReapLauncher,
            DestroyOperation::ReapLauncher => DestroyOperation::DrainDiagnostics,
            DestroyOperation::DrainDiagnostics => DestroyOperation::CloseHandles,
            DestroyOperation::CloseHandles => DestroyOperation::ProveNoMounts,
            DestroyOperation::ProveNoMounts | DestroyOperation::RemoveRuntimeSocket
            | DestroyOperation::RemoveFilesystem | DestroyOperation::RemoveCgroup
            | DestroyOperation::FsyncRoot | DestroyOperation::MarkDestroyed => {
                match first_error {
                    Some(e) => {
                        return DestroyStep::Done(Err(e));
                    },
                    None => {
                        first_error = None;
                    },
                }
                match operation {
                    DestroyOperation::ProveNoMounts => DestroyOperation::RemoveRuntimeSocket,
                    DestroyOperation::RemoveRuntimeSocket => DestroyOperation::RemoveFilesystem,
                    DestroyOperation::RemoveFilesystem => DestroyOperation::RemoveCgroup,
                    DestroyOperation::RemoveCgroup => DestroyOperation::FsyncRoot,
                    DestroyOperation::FsyncRoot => DestroyOperation::MarkDestroyed,
                    _ => {
                        return DestroyStep::Done(Ok(DestroyReport { attempt, forced_kill }));
                    },
                }
            },
        };
        DestroyStep::Continue(
            Destruction {
                attempt,
                term_deadline,
                kill_deadline,
                drain_deadline,
                operation: next,
                first_error,
                forced_kill,
                empty_proven,
            },
        )
    }
}

/// Every operation comes later in the sequence than the one before it, so none is
/// performed twice and none out of order.
pub proof fn law_operations_only_go_forward(d: Destruction, kill: bool)
    requires
        d.at() != DestroyOperation::MarkDestroyed,
    ensures
        d.at().rank() < d.following(kill).rank(),
        d.following(kill).rank() <= d.at().rank() + 3,
{
}

/// A remembered error is never replaced by a later one and never forgotten.
pub proof fn law_first_error_is_kept(d: Destruction, outcome: DestroyOutcome)
    requires
        d.error() is Some,
    ensures
        d.error_after(outcome) == d.error(),
{
}

/// Processes are killed unless all of them ended by themselves and nothing failed
/// before that was seen.
pub proof fn law_kill_is_skipped_only_on_clean_end(d: Destruction, outcome: DestroyOutcome)
    requires
        d.at() == DestroyOperation::FirstEmpty,
    ensures
        d.following(d.forced_after(outcome)) == DestroyOperation::ReapLauncher <==> (outcome == Ok::<
            bool,
            ExecutionDomainError,
        >(true) && d.error() is None),
{
}

/// A destruction takes its steps in order: nothing new is admitted, the plan is written
/// down, processes are asked to end, looked for, killed where any was left or anything
/// failed, and looked for again; only when they are gone and the mounts with them, the
/// sockets, the files and the group are removed, and that is written down last.
pub proof fn law_destructions_take_every_step(
    d: Destruction,
    outcome: DestroyOutcome,
    next: Destruction,
)
    requires
        call_ensures(Destruction::advance, (d, outcome), DestroyStep::Continue(next)),
    ensures
        match d.at() {
            DestroyOperation::CloseAdmission => next.at() is PersistDestroying,
            DestroyOperation::PersistDestroying => next.at() is GracefulShutdown,
            DestroyOperation::GracefulShutdown => next.at() is TermMembers,
            DestroyOperation::TermMembers => next.at() is FirstEmpty,
            DestroyOperation::FirstEmpty => if d.error() is None && outcome == Ok::<
                bool,
                ExecutionDomainError,
            >(true) {
                next.at() is ReapLauncher && !next.forced()
            } else {
                next.at() is KillAll && next.forced()
            },
            DestroyOperation::KillAll => next.at() is SecondEmpty,
            DestroyOperation::SecondEmpty => next.at() is ReapLauncher,
            DestroyOperation::ReapLauncher => next.at() is DrainDiagnostics,
            DestroyOperation::DrainDiagnostics => next.at() is CloseHandles,
            DestroyOperation::CloseHandles => next.at() is ProveNoMounts,
            DestroyOperation::ProveNoMounts => next.at() is RemoveRuntimeSocket,
            DestroyOperation::RemoveRuntimeSocket => next.at() is RemoveFilesystem,
            DestroyOperation::RemoveFilesystem => next.at() is RemoveCgroup,
            DestroyOperation::RemoveCgroup => next.at() is FsyncRoot,
            DestroyOperation::FsyncRoot => next.at() is MarkDestroyed,
            DestroyOperation::MarkDestroyed => false,
        },
        !(d.at() is FirstEmpty) ==> next.forced() == d.forced(),
        next.of() == d.of(),
        next.deadlines() == d.deadlines(),
        d.error() is Some ==> next.error() == d.error(),
        d.error() is None && outcome is Err ==> next.error() == Some(outcome->Err_0),
        d.error() is None && outcome is Ok && !(d.at() is SecondEmpty && outcome == Ok::<
            bool,
            ExecutionDomainError,
        >(false)) ==> next.error() is None,
        d.at() is SecondEmpty && outcome == Ok::<bool, ExecutionDomainError>(false)
            ==> next.error() is Some,
        (d.at() is FirstEmpty || d.at() is SecondEmpty) && outcome == Ok::<
            bool,
            ExecutionDomainError,
        >(true) ==> next.emptied(),
        !(d.at() is FirstEmpty) && !(d.at() is SecondEmpty) ==> next.emptied() == d.emptied(),
{
}

/// A failure never keeps the processes from being ended and reaped, and always keeps
/// everything else from being removed: it ends the destruction where the mounts were to
/// be proven gone, or where it happens after that.
pub proof fn law_failures_end_a_destruction(d: Destruction, outcome: DestroyOutcome, r: DestroyStep)
    requires
        call_ensures(Destruction::advance, (d, outcome), r),
    ensures
        match d.at() {
            DestroyOperation::ProveNoMounts | DestroyOperation::RemoveRuntimeSocket
            | DestroyOperation::RemoveFilesystem | DestroyOperation::RemoveCgroup
            | DestroyOperation::FsyncRoot => {
                &&& d.error() is None && outcome is Ok ==> r is Continue
                &&& d.error() is Some ==> r == DestroyStep::Done(Err(d.error()->0))
                &&& d.error() is None && outcome is Err ==> r == DestroyStep::Done(
                    Err(outcome->Err_0),
                )
            },
            DestroyOperation::MarkDestroyed => {
                &&& d.error() is None && outcome is Ok ==> (r matches DestroyStep::Done(Ok(report))
                    && report.attempt == d.of() && report.forced_kill == d.forced())
                &&& d.error() is Some ==> r == DestroyStep::Done(Err(d.error()->0))
                &&& d.error() is None && outcome is Err ==> r == DestroyStep::Done(
                    Err(outcome->Err_0),
                )
            },
            _ => r is Continue,
        },
{
}

/// A destruction has five seconds for a graceful end, ten more for the kill and two for
/// the rest, each counted from the end of the one before.
pub proof fn law_destructions_are_bounded(
    attempt: AttemptIdentity,
    started: u128,
    bounds: ShutdownBounds,
    usual: ShutdownBounds,
    r: Result<Destruction, ExecutionDomainError>,
)
    requires
        call_ensures(Destruction::begin, (attempt, started, bounds), r),
        call_ensures(<ShutdownBounds as Default>::default, (), usual),
    ensures
        usual.term == 5_000_000_000 && usual.kill == 10_000_000_000 && usual.drain == 2_000_000_000,
        started + bounds.term + bounds.kill + bounds.drain <= LAST_INSTANT ==> (r matches Ok(d)
            && d.deadlines().0 == started + bounds.term && d.deadlines().1 == started + bounds.term
            + bounds.kill && d.deadlines().2 == started + bounds.term + bounds.kill + bounds.drain
            && d.at() is CloseAdmission && d.error() is None && !d.forced() && !d.emptied() && d.of()
            == attempt),
        started + bounds.term + bounds.kill + bounds.drain > LAST_INSTANT ==> r is Err,
{
}

/// Each step has the deadline of its part, and what removes has none.
pub proof fn law_steps_have_their_deadline(d: Destruction, r: Option<u128>)
    requires
        call_ensures(Destruction::deadline, (&d,), r),
    ensures
        d.at() is GracefulShutdown || d.at() is TermMembers || d.at() is FirstEmpty ==> r == Some(
            d.deadlines().0,
        ),
        d.at() is KillAll || d.at() is SecondEmpty ==> r == Some(d.deadlines().1),
        d.at() is ReapLauncher || d.at() is DrainDiagnostics ==> r == Some(d.deadlines().2),
        d.at() is CloseAdmission || d.at() is PersistDestroying || d.at() is CloseHandles || d.at()
            is ProveNoMounts || d.at() is RemoveRuntimeSocket || d.at() is RemoveFilesystem
            || d.at() is RemoveCgroup || d.at() is FsyncRoot || d.at() is MarkDestroyed ==> r
            is None,
{
}

} // verus!
