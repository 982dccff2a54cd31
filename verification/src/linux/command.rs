//! A command inside a domain: how it is prepared, and how it comes to its end.

use vstd::prelude::*;

use crate::clock;
use crate::clock::LAST_INSTANT;
use crate::contracts::{
    CancelReason, CommandEvent, CommandOutcome, CommandSpec, CommandTarget, DomainEnvironment,
    DomainPath, FailureCategory, StepFilesId,
};
use crate::environment;
use crate::environment::Environment;
use crate::error::ExecutionDomainError;
use crate::linux::hardening;
use crate::linux::launcher::S_IFREG;
use crate::linux::rootfs::S_IFMT;
use crate::linux::step_files;
use crate::linux::step_files::StepFiles;
use crate::text;

verus! {

/// How long a command may take to end after it was asked to, in nanoseconds.
pub const TERM_GRACE: u128 = 5_000_000_000;

/// How long the output of a command that has ended may take, in nanoseconds.
pub const DRAIN_GRACE: u128 = 2_000_000_000;

/// The error number for a process that is not there.
pub const ESRCH: i32 = 3;

/// Another process may not be changed any more.
pub const EACCES: i32 = 13;

/// `libc::WIFEXITED` tells whether a process ended by itself: the low seven bits of
/// its status are zero.
#[verifier::external_body]
pub(crate) fn wait_exited(status: i32) -> (r: bool)
    ensures
        r == (status & 0x7f == 0),
{
    libc::WIFEXITED(status)
}

/// `libc::WEXITSTATUS` gives the exit status of a process: the eight bits from bit 8
/// on.
#[verifier::external_body]
pub(crate) fn wait_exit_status(status: i32) -> (r: i32)
    ensures
        r == (status >> 8u32) & 0xff,
{
    libc::WEXITSTATUS(status)
}

/// `libc::WTERMSIG` gives the signal that ended a process: the low seven bits.
#[verifier::external_body]
pub(crate) fn wait_signal(status: i32) -> (r: i32)
    ensures
        r == status & 0x7f,
{
    libc::WTERMSIG(status)
}

/// How a process with a status ended.
pub open spec fn ended(status: i32) -> CommandOutcome {
    if status & 0x7f == 0 {
        CommandOutcome::Exited((status >> 8u32) & 0xff)
    } else {
        CommandOutcome::Signalled(status & 0x7f)
    }
}

/// Tells how a process ended.
pub fn decode_wait_status(status: i32) -> (r: CommandOutcome)
    ensures
        r == ended(status),
{
    if wait_exited(status) {
        CommandOutcome::Exited(wait_exit_status(status))
    } else {
        CommandOutcome::Signalled(wait_signal(status))
    }
}

/// Whether a variable can be handed to a command.
pub open spec fn variable_valid(name: Seq<char>, value: Seq<char>) -> bool {
    name.len() > 0 && !name.contains('=') && !name.contains('\0') && !value.contains('\0')
}

/// A variable as it is handed to a command.
pub open spec fn variable_text(name: Seq<char>, value: Seq<char>) -> Seq<char> {
    name + "="@ + value
}

/// The contents of a list of texts.
pub open spec fn texts(v: Seq<String>) -> Seq<Seq<char>> {
    Seq::new(v.len(), |i: int| v[i]@)
}

/// The variables of a list as they are handed to a command.
pub open spec fn variable_texts(list: Seq<(String, String)>) -> Seq<Seq<char>> {
    Seq::new(list.len(), |i: int| variable_text(list[i].0@, list[i].1@))
}

/// Whether texts are the variables of an environment, each once.
pub open spec fn are_variables(v: Seq<Seq<char>>, env: Map<Seq<char>, Seq<char>>) -> bool {
    exists|list: Seq<(String, String)>|
        environment::names_distinct(list) && environment::entry_map(list) == env && v
            == #[trigger] variable_texts(list)
}

/// Whether every variable of an environment can be handed to a command.
pub open spec fn all_valid(env: Map<Seq<char>, Seq<char>>) -> bool {
    forall|name: Seq<char>| #[trigger]
        env.contains_key(name) ==> variable_valid(name, env[name])
}

fn has_char(s: &str, c: char) -> (r: bool)
    ensures
        r == s@.contains(c),
{
    let chars: Vec<char> = text::chars(s);
    for i in 0..chars.len()
        invariant
            chars@ == s@,
            forall|k: int| 0 <= k < i ==> s@[k] != c,
    {
        if chars[i] == c {
            assert(s@[i as int] == c);
            return true;
        }
    }
    false
}

/// Writes the variables of an environment as they are handed to a command.
pub fn variables(env: &Environment, errno: Option<i32>) -> (r: Result<
    Vec<String>,
    ExecutionDomainError,
>)
    ensures
        match r {
            Ok(v) => all_valid(env@) && are_variables(texts(v@), env@),
            Err(e) => !all_valid(env@) && e == hardening::hardening_error(
                FailureCategory::InvalidInput,
                errno,
            ),
        },
{
    let list: &Vec<(String, String)> = env.entries();
    proof {
        environment::lemma_entry_map(list@);
    }
    let mut out: Vec<String> = Vec::new();
    for i in 0..list.len()
        invariant
            environment::names_distinct(list@),
            environment::entry_map(list@) == env@,
            forall|k: int|
                0 <= k < list@.len() ==> env@.contains_key((#[trigger] list@[k]).0@)
                    && env@[list@[k].0@] == list@[k].1@,
            out@.len() == i,
            forall|k: int|
                0 <= k < i ==> (#[trigger] out@[k])@ == variable_text(list@[k].0@, list@[k].1@),
            forall|k: int| 0 <= k < i ==> variable_valid((#[trigger] list@[k]).0@, list@[k].1@),
    {
        let name: &str = list[i].0.as_str();
        let value: &str = list[i].1.as_str();
        let named: Vec<char> = text::chars(name);
        if named.len() == 0 || has_char(name, '=') || has_char(name, '\0') || has_char(value, '\0') {
            proof {
                assert(env@.contains_key(list@[i as int].0@));
                assert(!variable_valid(list@[i as int].0@, env@[list@[i as int].0@]));
            }
            return Err(hardening::failure(FailureCategory::InvalidInput, errno));
        }
        let start: String = text::concat(name, "=");
        out.push(text::concat(start.as_str(), value));
    }
    proof {
        assert(texts(out@) =~= variable_texts(list@));
        assert forall|name: Seq<char>| #[trigger] env@.contains_key(name) implies variable_valid(
            name,
            env@[name],
        ) by {
            let k = choose|k: int| 0 <= k < list@.len() && (#[trigger] list@[k]).0@ == name;
            assert(variable_valid(list@[k].0@, list@[k].1@));
        }
    }
    Ok(out)
}

/// A command that is ready to run.
pub struct PreparedCommand {
    pub program: DomainPath,
    /// What the command is called with, its own name first.
    pub args: Vec<String>,
    pub cwd: DomainPath,
    pub env: Vec<String>,
    pub deadline: u128,
}

/// What is known of the program and the directory of a command once they were opened
/// inside the domain.
pub struct Opened {
    /// The mode of the program, where it could be opened.
    pub program: Option<u32>,
    pub cwd: bool,
    /// What the last system call said.
    pub errno: Option<i32>,
}

/// Whether a mode is that of a program.
pub open spec fn executable(mode: u32) -> bool {
    mode & S_IFMT == S_IFREG && mode & 0o111 != 0
}

/// Whether no argument holds what the system cannot take.
pub open spec fn args_valid(args: Seq<String>) -> bool {
    forall|i: int| 0 <= i < args.len() ==> !(#[trigger] args[i])@.contains('\0')
}

/// The moment by which a command must have ended.
pub open spec fn command_deadline(now: u128, timeout: u128) -> Option<u128> {
    if timeout > 0 {
        clock::later(now, timeout)
    } else {
        None
    }
}

/// Why a command cannot run, apart from its environment: in the order in which it is
/// looked at.
pub open spec fn preparation_error(
    target: CommandTarget,
    timeout: u128,
    now: u128,
    opened: Opened,
) -> Option<ExecutionDomainError> {
    let invalid = hardening::hardening_error(FailureCategory::InvalidInput, opened.errno);
    let failed = hardening::hardening_error(FailureCategory::Io, opened.errno);
    match target {
        CommandTarget::Trusted { .. } => Some(invalid),
        CommandTarget::Sandboxed { args, .. } => if command_deadline(now, timeout) is None {
            Some(invalid)
        } else if opened.program is None {
            Some(failed)
        } else if !executable(opened.program->0) {
            Some(invalid)
        } else if !opened.cwd {
            Some(failed)
        } else if !args_valid(args@) {
            Some(invalid)
        } else {
            None
        },
    }
}

fn check_preparation(target: &CommandTarget, timeout: u128, now: u128, opened: &Opened) -> (r: Result<
    u128,
    ExecutionDomainError,
>)
    ensures
        match r {
            Ok(deadline) => preparation_error(*target, timeout, now, *opened) is None
                && command_deadline(now, timeout) == Some(deadline),
            Err(e) => preparation_error(*target, timeout, now, *opened) == Some(e),
        },
{
    match target {
        CommandTarget::Trusted { program: _, args: _, cwd: _ } => Err(
            hardening::failure(FailureCategory::InvalidInput, opened.errno),
        ),
        CommandTarget::Sandboxed { program: _, args, cwd: _ } => {
            if timeout == 0 {
                return Err(hardening::failure(FailureCategory::InvalidInput, opened.errno));
            }
            let deadline: u128 = match clock::after(now, timeout) {
                Some(at) => at,
                None => {
                    return Err(hardening::failure(FailureCategory::InvalidInput, opened.errno));
                },
            };
            let mode: u32 = match opened.program {
                Some(mode) => mode,
                None => {
                    return Err(hardening::failure(FailureCategory::Io, opened.errno));
                },
            };
            if mode & S_IFMT != S_IFREG || mode & 0o111 == 0 {
                return Err(hardening::failure(FailureCategory::InvalidInput, opened.errno));
            }
            if !opened.cwd {
                return Err(hardening::failure(FailureCategory::Io, opened.errno));
            }
            for i in 0..args.len()
                invariant
                    forall|k: int| 0 <= k < i ==> !(#[trigger] args@[k])@.contains('\0'),
                    preparation_error(*target, timeout, now, *opened) == (if args_valid(args@) {
                        None
                    } else {
                        Some(
                            hardening::hardening_error(
                                FailureCategory::InvalidInput,
                                opened.errno,
                            ),
                        )
                    }),
            {
                if has_char(args[i].as_str(), '\0') {
                    assert(args@[i as int]@.contains('\0'));
                    return Err(hardening::failure(FailureCategory::InvalidInput, opened.errno));
                }
            }
            Ok(deadline)
        },
    }
}

/// Puts the name of a command before its arguments.
fn called_with(program: &str, args: Vec<String>) -> (r: Vec<String>)
    ensures
        texts(r@) == seq![program@] + texts(args@),
{
    let ghost given = args@;
    let mut args: Vec<String> = args;
    let own: String = text::concat(program, "");
    proof {
        reveal_strlit("");
        assert(own@ == program@);
    }
    args.insert(0, own);
    assert(texts(args@) =~= seq![program@] + texts(given)) by {
        assert forall|i: int| 0 <= i < args@.len() implies texts(args@)[i] == (seq![program@]
            + texts(given))[i] by {
            if i > 0 {
                assert(args@[i] == given[i - 1]);
            }
        }
    }
    args
}

impl PreparedCommand {
    /// Whether this is a command made ready, apart from its environment.
    pub open spec fn made_from(self, target: CommandTarget, timeout: u128, now: u128) -> bool {
        target matches CommandTarget::Sandboxed { program, args, cwd } && self.program == program
            && texts(self.args@) == seq![program@] + texts(args@) && self.cwd == cwd
            && command_deadline(now, timeout) == Some(self.deadline)
    }

    /// Prepares a command that has nothing to do with a step. Nothing of the
    /// service's own environment reaches it.
    pub fn new(spec: CommandSpec, now: u128, opened: &Opened) -> (r: Result<
        PreparedCommand,
        ExecutionDomainError,
    >)
        ensures
            ({
                let reserved = crate::contracts::reserved_variables();
                let merged = spec.env@.union_prefer_right(reserved);
                let problem = preparation_error(spec.target, spec.timeout, now, *opened);
                match r {
                    Ok(c) => {
                        &&& problem is None
                        &&& spec.state is None
                        &&& c.made_from(spec.target, spec.timeout, now)
                        &&& forall|name: Seq<char>|
                            !crate::contracts::conflicts_at(reserved, spec.env@, name)
                        &&& all_valid(merged)
                        &&& are_variables(texts(c.env@), merged)
                    },
                    Err(e) => if spec.target is Trusted {
                        problem == Some(e)
                    } else if spec.state is Some {
                        e == hardening::hardening_error(FailureCategory::NotReady, opened.errno)
                    } else if problem is Some {
                        problem == Some(e)
                    } else {
                        ||| (e matches ExecutionDomainError::ReservedDomainEnvironment {
                            key,
                            source,
                        } && source@ == "command"@ && crate::contracts::conflicts_at(
                            reserved,
                            spec.env@,
                            key@,
                        ))
                        ||| (!all_valid(merged) && (forall|name: Seq<char>|
                            !crate::contracts::conflicts_at(reserved, spec.env@, name)) && e
                            == hardening::hardening_error(
                            FailureCategory::InvalidInput,
                            opened.errno,
                        ))
                    },
                }
            }),
    {
        let CommandSpec { target, env, timeout, state } = spec;
        match &target {
            CommandTarget::Trusted { program: _, args: _, cwd: _ } => {
                return Err(hardening::failure(FailureCategory::InvalidInput, opened.errno));
            },
            CommandTarget::Sandboxed { program: _, args: _, cwd: _ } => {},
        }
        if state.is_some() {
            return Err(hardening::failure(FailureCategory::NotReady, opened.errno));
        }
        let deadline: u128 = match check_preparation(&target, timeout, now, opened) {
            Ok(deadline) => deadline,
            Err(e) => {
                return Err(e);
            },
        };
        let merged: Environment = match DomainEnvironment::sandboxed().merge(&env, "command") {
            Ok(merged) => merged,
            Err(e) => {
                return Err(e);
            },
        };
        let list: Vec<String> = match variables(&merged, opened.errno) {
            Ok(list) => list,
            Err(e) => {
                return Err(e);
            },
        };
        match target {
            CommandTarget::Sandboxed { program, args, cwd } => {
                let args: Vec<String> = called_with(program.as_str(), args);
                Ok(PreparedCommand { program, args, cwd, env: list, deadline })
            },
            CommandTarget::Trusted { program: _, args: _, cwd: _ } => Err(
                hardening::failure(FailureCategory::InvalidInput, opened.errno),
            ),
        }
    }

    /// Prepares a command of a step, which gets the files of that step, given whether
    /// they are still untouched.
    pub fn with_state(
        spec: CommandSpec,
        now: u128,
        opened: &Opened,
        steps: &StepFiles,
        verified: Result<(), ExecutionDomainError>,
    ) -> (r: Result<PreparedCommand, ExecutionDomainError>)
        ensures
            ({
                let problem = preparation_error(spec.target, spec.timeout, now, *opened);
                match r {
                    Ok(c) => {
                        &&& problem is None
                        &&& spec.state matches Some(id)
                        &&& steps@.contains(id@)
                        &&& verified is Ok
                        &&& c.made_from(spec.target, spec.timeout, now)
                        &&& step_files::replaces_nothing(spec.env@, id@)
                        &&& {
                            let env = spec.env@.union_prefer_right(
                                crate::contracts::reserved_variables(),
                            ).union_prefer_right(step_files::step_variables(id@, 6));
                            all_valid(env) && are_variables(texts(c.env@), env)
                        }
                    },
                    Err(e) => if spec.target is Trusted || spec.state is None {
                        e == hardening::hardening_error(
                            FailureCategory::InvalidInput,
                            opened.errno,
                        )
                    } else if problem is Some {
                        problem == Some(e)
                    } else if !steps@.contains(spec.state->0@) {
                        e == step_files::state_error(FailureCategory::InvalidInput)
                    } else if verified is Err {
                        verified == Err::<(), ExecutionDomainError>(e)
                    } else if !step_files::replaces_nothing(spec.env@, spec.state->0@) {
                        step_files::replacement_refused(spec.env@, spec.state->0@, e)
                    } else {
                        !all_valid(
                            spec.env@.union_prefer_right(
                                crate::contracts::reserved_variables(),
                            ).union_prefer_right(step_files::step_variables(spec.state->0@, 6)),
                        ) && e == hardening::hardening_error(
                            FailureCategory::InvalidInput,
                            opened.errno,
                        )
                    },
                }
            }),
    {
        let CommandSpec { target, env, timeout, state } = spec;
        match &target {
            CommandTarget::Trusted { program: _, args: _, cwd: _ } => {
                return Err(hardening::failure(FailureCategory::InvalidInput, opened.errno));
            },
            CommandTarget::Sandboxed { program: _, args: _, cwd: _ } => {},
        }
        let id: StepFilesId = match state {
            Some(id) => id,
            None => {
                return Err(hardening::failure(FailureCategory::InvalidInput, opened.errno));
            },
        };
        let deadline: u128 = match check_preparation(&target, timeout, now, opened) {
            Ok(deadline) => deadline,
            Err(e) => {
                return Err(e);
            },
        };
        let merged: Environment = match steps.environment(&id, verified, &env) {
            Ok(merged) => merged,
            Err(e) => {
                return Err(e);
            },
        };
        let list: Vec<String> = match variables(&merged, opened.errno) {
            Ok(list) => list,
            Err(e) => {
                return Err(e);
            },
        };
        match target {
            CommandTarget::Sandboxed { program, args, cwd } => {
                let args: Vec<String> = called_with(program.as_str(), args);
                Ok(PreparedCommand { program, args, cwd, env: list, deadline })
            },
            CommandTarget::Trusted { program: _, args: _, cwd: _ } => Err(
                hardening::failure(FailureCategory::InvalidInput, opened.errno),
            ),
        }
    }
}

/// A signal that is due.
#[derive(Debug, Clone, Copy, PartialEq, Eq, Structural)]
pub enum DueSignal {
    Nothing,
    /// Ask the command to end.
    Term,
    /// End the command.
    Kill,
}

/// That a command was told to end: what it counts as, and when it is killed.
#[derive(Debug, Clone, Copy, PartialEq, Eq, Structural)]
pub struct Termination {
    pub outcome: CommandOutcome,
    pub kill_at: u128,
}

/// A command that runs, or whose last output is awaited.
#[derive(Debug, Clone, Copy, PartialEq, Eq, Structural)]
pub struct RunningCommand {
    pub id: u64,
    /// The process, until it was reaped.
    pub pid: Option<i32>,
    pub group: i32,
    pub stdout: bool,
    pub stderr: bool,
    pub deadline: u128,
    pub termination: Option<Termination>,
    pub reaped: Option<CommandOutcome>,
    pub drain_deadline: Option<u128>,
}

/// What a read of a command's output gave.
pub enum OutputRead {
    Closed,
    Bytes(Vec<u8>),
    /// Nothing yet.
    Again,
    Failed(Option<i32>),
}

impl RunningCommand {
    /// A command that was just started.
    pub open spec fn fresh(id: u64, pid: i32, deadline: u128) -> RunningCommand {
        RunningCommand {
            id,
            pid: Some(pid),
            group: pid,
            stdout: true,
            stderr: true,
            deadline,
            termination: None,
            reaped: None,
            drain_deadline: None,
        }
    }

    /// A command that was just started.
    pub fn started(id: u64, pid: i32, deadline: u128) -> (r: RunningCommand)
        ensures
            r == RunningCommand::fresh(id, pid, deadline),
    {
        RunningCommand {
            id,
            pid: Some(pid),
            group: pid,
            stdout: true,
            stderr: true,
            deadline,
            termination: None,
            reaped: None,
            drain_deadline: None,
        }
    }

    /// What a command counts as when it was cancelled for a reason.
    pub open spec fn cancelled_as(reason: CancelReason) -> CommandOutcome {
        if reason == CancelReason::Timeout {
            CommandOutcome::TimedOut
        } else {
            CommandOutcome::Cancelled
        }
    }

    /// Whether cancelling the command sends a signal: only the first time.
    pub fn cancel_signals(&self) -> (r: bool)
        ensures
            r == (self.termination is None),
    {
        self.termination.is_none()
    }

    /// Cancels the command, given what asking it to end gave. The first reason counts.
    pub fn cancel(
        &mut self,
        reason: CancelReason,
        now: u128,
        signalled: Result<(), ExecutionDomainError>,
    ) -> (r: Result<(), ExecutionDomainError>)
        requires
            now <= LAST_INSTANT,
        ensures
            if old(self).termination is Some {
                r is Ok && *final(self) == *old(self)
            } else {
                match signalled {
                    Err(e) => r == Err::<(), ExecutionDomainError>(e) && *final(self) == *old(self),
                    Ok(_) => r is Ok && *final(self) == (RunningCommand {
                        termination: Some(
                            Termination {
                                outcome: Self::cancelled_as(reason),
                                kill_at: (now + TERM_GRACE) as u128,
                            },
                        ),
                        ..*old(self)
                    }),
                }
            },
    {
        if self.termination.is_some() {
            return Ok(());
        }
        match signalled {
            Err(e) => Err(e),
            Ok(_) => {
                let outcome: CommandOutcome = match reason {
                    CancelReason::Timeout => CommandOutcome::TimedOut,
                    _ => CommandOutcome::Cancelled,
                };
                self.termination = Some(Termination { outcome, kill_at: now + TERM_GRACE });
                Ok(())
            },
        }
    }

    /// Notes that the process was reaped. Its number may be used again at once, so it
    /// is forgotten.
    pub fn exited(&mut self, status: i32, now: u128)
        requires
            now <= LAST_INSTANT,
        ensures
            *final(self) == (RunningCommand {
                pid: None,
                reaped: Some(ended(status)),
                drain_deadline: Some((now + DRAIN_GRACE) as u128),
                ..*old(self)
            }),
    {
        self.pid = None;
        self.reaped = Some(decode_wait_status(status));
        self.drain_deadline = Some(now + DRAIN_GRACE);
    }

    /// The signal that is due.
    pub open spec fn due(self, now: u128) -> DueSignal {
        match self.termination {
            None => if self.reaped is None && now >= self.deadline {
                DueSignal::Term
            } else {
                DueSignal::Nothing
            },
            Some(t) => if now >= t.kill_at {
                DueSignal::Kill
            } else {
                DueSignal::Nothing
            },
        }
    }

    /// The signal that is due.
    pub fn due_signal(&self, now: u128) -> (r: DueSignal)
        ensures
            r == self.due(now),
    {
        match self.termination {
            None => {
                if self.reaped.is_none() && now >= self.deadline {
                    DueSignal::Term
                } else {
                    DueSignal::Nothing
                }
            },
            Some(t) => {
                if now >= t.kill_at {
                    DueSignal::Kill
                } else {
                    DueSignal::Nothing
                }
            },
        }
    }

    /// The command once the signal that was due has been sent.
    pub open spec fn signalled(self, now: u128) -> RunningCommand {
        if self.due(now) == DueSignal::Term {
            RunningCommand {
                termination: Some(
                    Termination {
                        outcome: CommandOutcome::TimedOut,
                        kill_at: (now + TERM_GRACE) as u128,
                    },
                ),
                ..self
            }
        } else {
            self
        }
    }

    /// Whether the command was told to end, has time left to, and is still there.
    pub open spec fn ending(self, now: u128, group: bool) -> bool {
        self.termination matches Some(t) && now < t.kill_at && (self.pid is Some || group)
    }

    /// Whether output may still come.
    pub open spec fn draining(self, now: u128) -> bool {
        (self.stdout || self.stderr) && (match self.drain_deadline {
            None => true,
            Some(at) => now < at,
        })
    }

    /// How the command ended: as what it was cancelled as, or by itself.
    pub open spec fn outcome(self) -> CommandOutcome {
        match self.termination {
            Some(t) => t.outcome,
            None => self.reaped->0,
        }
    }

    /// Lets time pass, given what sending the signal that was due gave and whether the
    /// process group is still there. The command is over once it was reaped and its
    /// output has come, or was given up.
    pub fn tick(
        &mut self,
        now: u128,
        signalled: Result<(), ExecutionDomainError>,
        group: Result<bool, ExecutionDomainError>,
    ) -> (r: Result<Option<CommandOutcome>, ExecutionDomainError>)
        requires
            now <= LAST_INSTANT,
        ensures
            ({
                let nothing = Ok::<Option<CommandOutcome>, ExecutionDomainError>(None);
                let sent = old(self).signalled(now);
                let asked = sent.termination matches Some(t) && now < t.kill_at && sent.pid is None;
                if old(self).due(now) != DueSignal::Nothing && signalled is Err {
                    r matches Err(e) && signalled == Err::<(), ExecutionDomainError>(e)
                        && *final(self) == *old(self)
                } else if asked && group is Err {
                    r matches Err(e) && group == Err::<bool, ExecutionDomainError>(e) && *final(self) == sent
                } else if sent.ending(now, group == Ok::<bool, ExecutionDomainError>(true))
                    || sent.reaped is None || sent.draining(now) {
                    r == nothing && *final(self) == sent
                } else {
                    r == Ok::<Option<CommandOutcome>, ExecutionDomainError>(Some(sent.outcome()))
                        && *final(self) == (RunningCommand {
                        stdout: false,
                        stderr: false,
                        ..sent
                    })
                }
            }),
    {
        match self.due_signal(now) {
            DueSignal::Nothing => {},
            DueSignal::Term => {
                match signalled {
                    Err(e) => {
                        return Err(e);
                    },
                    Ok(_) => {
                        self.termination = Some(
                            Termination {
                                outcome: CommandOutcome::TimedOut,
                                kill_at: now + TERM_GRACE,
                            },
                        );
                    },
                }
            },
            DueSignal::Kill => {
                match signalled {
                    Err(e) => {
                        return Err(e);
                    },
                    Ok(_) => {},
                }
            },
        }
        match self.termination {
            Some(t) => {
                if now < t.kill_at {
                    if self.pid.is_some() {
                        return Ok(None);
                    }
                    match group {
                        Err(e) => {
                            return Err(e);
                        },
                        Ok(there) => {
                            if there {
                                return Ok(None);
                            }
                        },
                    }
                }
            },
            None => {},
        }
        let own: CommandOutcome = match self.reaped {
            Some(outcome) => outcome,
            None => {
                return Ok(None);
            },
        };
        if self.stdout || self.stderr {
            let waiting: bool = match self.drain_deadline {
                None => true,
                Some(at) => now < at,
            };
            if waiting {
                return Ok(None);
            }
        }
        self.stdout = false;
        self.stderr = false;
        match self.termination {
            Some(t) => Ok(Some(t.outcome)),
            None => Ok(Some(own)),
        }
    }

    /// Takes what a read of the output gave.
    pub fn output(&mut self, stderr: bool, read: OutputRead) -> (r: Result<
        Option<CommandEvent>,
        ExecutionDomainError,
    >)
        ensures
            ({
                let open = if stderr {
                    old(self).stderr
                } else {
                    old(self).stdout
                };
                let nothing = Ok::<Option<CommandEvent>, ExecutionDomainError>(None);
                if !open {
                    r == nothing && *final(self) == *old(self)
                } else {
                    match read {
                        OutputRead::Closed => r == nothing && *final(self) == (if stderr {
                            RunningCommand { stderr: false, ..*old(self) }
                        } else {
                            RunningCommand { stdout: false, ..*old(self) }
                        }),
                        OutputRead::Bytes(b) => *final(self) == *old(self) && r == Ok::<
                            Option<CommandEvent>,
                            ExecutionDomainError,
                        >(
                            Some(
                                if stderr {
                                    CommandEvent::Stderr(b)
                                } else {
                                    CommandEvent::Stdout(b)
                                },
                            ),
                        ),
                        OutputRead::Again => r == nothing && *final(self) == *old(self),
                        OutputRead::Failed(errno) => *final(self) == *old(self) && r == Err::<
                            Option<CommandEvent>,
                            ExecutionDomainError,
                        >(hardening::hardening_error(FailureCategory::Io, errno)),
                    }
                }
            }),
    {
        let open: bool = if stderr {
            self.stderr
        } else {
            self.stdout
        };
        if !open {
            return Ok(None);
        }
        match read {
            OutputRead::Closed => {
                if stderr {
                    self.stderr = false;
                } else {
                    self.stdout = false;
                }
                Ok(None)
            },
            OutputRead::Bytes(b) => {
                if stderr {
                    Ok(Some(CommandEvent::Stderr(b)))
                } else {
                    Ok(Some(CommandEvent::Stdout(b)))
                }
            },
            OutputRead::Again => Ok(None),
            OutputRead::Failed(errno) => Err(hardening::failure(FailureCategory::Io, errno)),
        }
    }
}

/// What sending a signal gave. A process that is not there needs none.
pub fn signal_sent(result: i32, errno: Option<i32>) -> (r: Result<(), ExecutionDomainError>)
    ensures
        r == (if result < 0 && errno != Some(ESRCH) {
            Err::<(), ExecutionDomainError>(hardening::hardening_error(FailureCategory::Io, errno))
        } else {
            Ok(())
        }),
{
    let gone: bool = match errno {
        Some(n) => n == ESRCH,
        None => false,
    };
    if result < 0 && !gone {
        return Err(hardening::failure(FailureCategory::Io, errno));
    }
    Ok(())
}

/// Whether a new process has a group of its own, given what giving it one gave. One
/// that has begun to run, or is gone, has seen to it itself.
pub fn grouped(result: i32, errno: Option<i32>) -> (r: bool)
    ensures
        r == (result >= 0 || errno == Some(EACCES) || errno == Some(ESRCH)),
{
    if result >= 0 {
        return true;
    }
    match errno {
        Some(n) => n == EACCES || n == ESRCH,
        None => false,
    }
}

/// What asking for a process group gave.
pub fn group_exists(result: i32, errno: Option<i32>) -> (r: Result<bool, ExecutionDomainError>)
    ensures
        r == (if result == 0 {
            Ok::<bool, ExecutionDomainError>(true)
        } else if errno == Some(ESRCH) {
            Ok(false)
        } else {
            Err(hardening::hardening_error(FailureCategory::Io, errno))
        }),
{
    if result == 0 {
        return Ok(true);
    }
    match errno {
        Some(n) => {
            if n == ESRCH {
                return Ok(false);
            }
        },
        None => {},
    }
    Err(hardening::failure(FailureCategory::Io, errno))
}

/// A command that was told to end stays told so, for the first reason, whatever
/// happens to it afterwards; and once its grace is over every look at it is a kill,
/// until it was reaped.
pub proof fn law_cancelled_commands_stay_cancelled(c: RunningCommand, now: u128)
    requires
        c.termination is Some,
    ensures
        c.signalled(now) == c,
        c.outcome() == c.termination->0.outcome,
        now >= c.termination->0.kill_at ==> c.due(now) == DueSignal::Kill && !c.ending(now, true),
{
}

/// A command that was reaped is over once the time for its output is, unless it was
/// told to end and its group has time left to.
pub proof fn law_output_cannot_hold_a_command(c: RunningCommand, now: u128, at: u128)
    requires
        c.reaped is Some,
        c.drain_deadline == Some(at),
        now >= at,
    ensures
        !c.draining(now),
        c.termination is None ==> !c.ending(now, true),
{
}

/// A process that exits with a code is said to have exited with that code, and one that
/// a signal ended to have been ended by that signal, whether or not it left a core
/// behind.
pub proof fn law_every_end_is_told(code: i32, signal: i32, status: i32, r: CommandOutcome)
    requires
        call_ensures(decode_wait_status, (status,), r),
        0 <= code <= 255,
        1 <= signal <= 126,
    ensures
        status == code * 256 ==> r == CommandOutcome::Exited(code),
        status == signal || status == signal + 128 ==> r == CommandOutcome::Signalled(signal),
{
    if status == code * 256 {
        assert(status & 0x7f == 0 && (status >> 8u32) & 0xff == code) by (bit_vector)
            requires
                status == code * 256,
                0 <= code <= 255,
        ;
    }
    if status == signal || status == signal + 128 {
        assert(status & 0x7f == signal && status & 0x7f != 0) by (bit_vector)
            requires
                status == signal || status == signal + 128,
                1 <= signal <= 126,
        ;
    }
}

/// A command that exited is reaped with its code, and its output has two more seconds.
pub proof fn law_reaped_commands_keep_their_code(
    c: &mut RunningCommand,
    code: i32,
    status: i32,
    now: u128,
)
    requires
        call_ensures(RunningCommand::exited, (c, status, now), ()),
        now <= LAST_INSTANT,
        0 <= code <= 255,
        status == code * 256,
    ensures
        final(c).reaped == Some(CommandOutcome::Exited(code)),
        final(c).pid is None,
        final(c).drain_deadline == Some((now + 2_000_000_000) as u128),
        final(c).id == old(c).id,
        final(c).group == old(c).group,
        final(c).deadline == old(c).deadline,
        final(c).termination == old(c).termination,
        final(c).stdout == old(c).stdout,
        final(c).stderr == old(c).stderr,
{
    assert(status & 0x7f == 0 && (status >> 8u32) & 0xff == code) by (bit_vector)
        requires
            status == code * 256,
            0 <= code <= 255,
    ;
}

/// A command that nobody has told to end is told at its deadline, unless it has ended
/// by itself, and killed five seconds after it was told.
pub proof fn law_commands_are_told_and_then_killed(c: RunningCommand, now: u128, r: DueSignal)
    requires
        call_ensures(RunningCommand::due_signal, (&c, now), r),
    ensures
        r == DueSignal::Term <==> c.termination is None && c.reaped is None && now >= c.deadline,
        r == DueSignal::Kill <==> (c.termination matches Some(t) && now >= t.kill_at),
{
}

/// A cancelled command counts as cancelled, or as timed out where that is the reason,
/// and is killed after five seconds. A second cancellation changes nothing.
pub proof fn law_cancellations_count_once(
    c: &mut RunningCommand,
    reason: CancelReason,
    now: u128,
    signalled: Result<(), ExecutionDomainError>,
    r: Result<(), ExecutionDomainError>,
)
    requires
        call_ensures(RunningCommand::cancel, (c, reason, now, signalled), r),
        now <= LAST_INSTANT,
    ensures
        old(c).termination is Some ==> r is Ok && *final(c) == *old(c),
        old(c).termination is None && signalled is Ok ==> r is Ok
            && (final(c).termination matches Some(t) && t.kill_at == now + 5_000_000_000
            && t.outcome == (
        match reason {
            CancelReason::Timeout => CommandOutcome::TimedOut,
            _ => CommandOutcome::Cancelled,
        })),
        old(c).termination is None && signalled is Err ==> r == signalled && *final(c) == *old(c),
        final(c).id == old(c).id,
        final(c).pid == old(c).pid,
        final(c).group == old(c).group,
        final(c).deadline == old(c).deadline,
        final(c).reaped == old(c).reaped,
        final(c).stdout == old(c).stdout,
        final(c).stderr == old(c).stderr,
        final(c).drain_deadline == old(c).drain_deadline,
{
}

/// Whether a command has been told to end only counts in what it is reported as: a
/// command that nobody told to end, whose output is over, is reported as it ended.
pub proof fn law_ended_commands_are_reported(
    c: &mut RunningCommand,
    now: u128,
    signalled: Result<(), ExecutionDomainError>,
    group: Result<bool, ExecutionDomainError>,
    r: Result<Option<CommandOutcome>, ExecutionDomainError>,
)
    requires
        call_ensures(RunningCommand::tick, (c, now, signalled, group), r),
        now <= LAST_INSTANT,
    ensures
        old(c).termination is None && old(c).reaped is Some && !old(c).stdout && !old(c).stderr
            ==> r == Ok::<Option<CommandOutcome>, ExecutionDomainError>(old(c).reaped),
        old(c).termination is None && old(c).reaped is Some
            && (old(c).drain_deadline matches Some(at) && now >= at) ==> r == Ok::<
            Option<CommandOutcome>,
            ExecutionDomainError,
        >(old(c).reaped),
        old(c).termination is None && old(c).reaped is Some && (old(c).stdout || old(c).stderr)
            && (old(c).drain_deadline matches Some(at) ==> now < at) ==> r == Ok::<
            Option<CommandOutcome>,
            ExecutionDomainError,
        >(None),
        old(c).reaped is None && r is Ok ==> r == Ok::<Option<CommandOutcome>, ExecutionDomainError>(
            None,
        ),
        old(c).reaped is None && old(c).termination is None && now < old(c).deadline ==> r is Ok
            && *final(c) == *old(c),
{
}

/// A command that was told to end is reported as cancelled or timed out once it and its
/// group are gone, or its time to end is over; not before.
pub proof fn law_told_commands_are_reported_as_told(
    c: &mut RunningCommand,
    told: Termination,
    now: u128,
    signalled: Result<(), ExecutionDomainError>,
    group: Result<bool, ExecutionDomainError>,
    r: Result<Option<CommandOutcome>, ExecutionDomainError>,
)
    requires
        call_ensures(RunningCommand::tick, (c, now, signalled, group), r),
        now <= LAST_INSTANT,
        old(c).termination == Some(told),
        old(c).reaped is Some,
        old(c).pid is None,
        !old(c).stdout,
        !old(c).stderr,
    ensures
        now < told.kill_at && group == Ok::<bool, ExecutionDomainError>(true) ==> r == Ok::<
            Option<CommandOutcome>,
            ExecutionDomainError,
        >(None),
        now < told.kill_at && group == Ok::<bool, ExecutionDomainError>(false) ==> r == Ok::<
            Option<CommandOutcome>,
            ExecutionDomainError,
        >(Some(told.outcome)),
        now < told.kill_at && group is Err ==> r is Err && r->Err_0 == group->Err_0,
        now >= told.kill_at && signalled is Ok ==> r == Ok::<
            Option<CommandOutcome>,
            ExecutionDomainError,
        >(Some(told.outcome)),
        now >= told.kill_at && signalled is Err ==> r is Err && r->Err_0 == signalled->Err_0,
{
}

/// At its deadline a command counts as timed out, and is killed five seconds later.
pub proof fn law_late_commands_time_out(
    c: &mut RunningCommand,
    now: u128,
    signalled: Result<(), ExecutionDomainError>,
    group: Result<bool, ExecutionDomainError>,
    r: Result<Option<CommandOutcome>, ExecutionDomainError>,
)
    requires
        call_ensures(RunningCommand::tick, (c, now, signalled, group), r),
        now <= LAST_INSTANT,
        old(c).termination is None,
        old(c).reaped is None,
        old(c).pid is Some,
        now >= old(c).deadline,
    ensures
        signalled is Ok ==> r == Ok::<Option<CommandOutcome>, ExecutionDomainError>(None)
            && (final(c).termination matches Some(t) && t.outcome == CommandOutcome::TimedOut
            && t.kill_at == now
            + 5_000_000_000),
        signalled is Err ==> r is Err && r->Err_0 == signalled->Err_0 && *final(c) == *old(c),
{
}

/// Output is handed on as it was read, from the stream that it was read from, and a
/// closed stream stays closed.
pub proof fn law_output_is_handed_on(
    c: &mut RunningCommand,
    stderr: bool,
    read: OutputRead,
    r: Result<Option<CommandEvent>, ExecutionDomainError>,
)
    requires
        call_ensures(RunningCommand::output, (c, stderr, read), r),
    ensures
        stderr ==> final(c).stdout == old(c).stdout && final(c).stderr == (old(c).stderr
            && !(read is Closed)),
        !stderr ==> final(c).stderr == old(c).stderr && final(c).stdout == (old(c).stdout
            && !(read is Closed)),
        read matches OutputRead::Bytes(b) ==> {
            &&& stderr && old(c).stderr ==> r == Ok::<Option<CommandEvent>, ExecutionDomainError>(
                Some(CommandEvent::Stderr(b)),
            )
            &&& !stderr && old(c).stdout ==> r == Ok::<Option<CommandEvent>, ExecutionDomainError>(
                Some(CommandEvent::Stdout(b)),
            )
        },
        read is Closed || read is Again ==> r == Ok::<Option<CommandEvent>, ExecutionDomainError>(
            None,
        ),
        r is Err ==> read is Failed,
        read is Failed && (if stderr {
            old(c).stderr
        } else {
            old(c).stdout
        }) ==> r is Err,
        final(c).reaped == old(c).reaped,
        final(c).termination == old(c).termination,
        final(c).pid == old(c).pid,
{
}

/// A command that was started runs under its own process, with both streams open.
pub proof fn law_started_commands_run(id: u64, pid: i32, deadline: u128, r: RunningCommand)
    requires
        call_ensures(RunningCommand::started, (id, pid, deadline), r),
    ensures
        r.id == id,
        r.pid == Some(pid),
        r.group == pid,
        r.stdout && r.stderr,
        r.deadline == deadline,
        r.termination is None,
        r.reaped is None,
        r.drain_deadline is None,
{
}

/// A process that is gone need not be signalled, and a group without processes is gone.
pub proof fn law_missing_processes_are_no_failure(
    result: i32,
    errno: Option<i32>,
    sent: Result<(), ExecutionDomainError>,
    joined: bool,
    there: Result<bool, ExecutionDomainError>,
)
    requires
        call_ensures(signal_sent, (result, errno), sent),
        call_ensures(grouped, (result, errno), joined),
        call_ensures(group_exists, (result, errno), there),
    ensures
        sent is Ok <==> result >= 0 || errno == Some(3i32),
        joined <==> result >= 0 || errno == Some(3i32) || errno == Some(13i32),
        result == 0 ==> there == Ok::<bool, ExecutionDomainError>(true),
        result != 0 && errno == Some(3i32) ==> there == Ok::<bool, ExecutionDomainError>(false),
        result != 0 && errno != Some(3i32) ==> there is Err,
{
}

/// A command of the domain whose program can be run, whose directory could be entered
/// and whose arguments and variables are text without NUL, is prepared; its deadline is
/// its limit from now.
pub proof fn law_runnable_commands_are_prepared(
    spec: CommandSpec,
    now: u128,
    opened: Opened,
    r: Result<PreparedCommand, ExecutionDomainError>,
)
    requires
        call_ensures(PreparedCommand::new, (spec, now, &opened), r),
        spec.state is None,
        forall|name: Seq<char>| #[trigger]
            spec.env@.contains_key(name) ==> name.len() > 0 && !name.contains('=')
                && !name.contains('\0') && !spec.env@[name].contains('\0') && (
            crate::contracts::reserved_variables().contains_key(name) ==> spec.env@[name]
                == crate::contracts::reserved_variables()[name]),
        forall|name: Seq<char>| #[trigger]
            crate::contracts::reserved_variables().contains_key(name) ==> name.len() > 0
                && !name.contains('=') && !name.contains('\0')
                && !crate::contracts::reserved_variables()[name].contains('\0'),
        spec.target matches CommandTarget::Sandboxed { args, .. } && (forall|i: int|
            0 <= i < args@.len() ==> !(#[trigger] args@[i])@.contains('\0')),
        0 < spec.timeout,
        now + spec.timeout <= LAST_INSTANT,
        opened.program matches Some(mode) && mode & 0o170000 == 0o100000 && mode & 0o111 != 0,
        opened.cwd,
    ensures
        r matches Ok(c) && c.deadline == now + spec.timeout && (
        spec.target matches CommandTarget::Sandboxed { program, args, cwd } && c.program == program
            && c.cwd == cwd && c.args@.len() == args@.len() + 1 && c.args@[0]@ == program@ && (
        forall|i: int| 0 <= i < args@.len() ==> (#[trigger] c.args@[i + 1])@ == args@[i]@)),
{
    let reserved = crate::contracts::reserved_variables();
    let merged = spec.env@.union_prefer_right(reserved);
    assert(preparation_error(spec.target, spec.timeout, now, opened) is None);
    assert(all_valid(merged));
    assert forall|name: Seq<char>|
        !crate::contracts::conflicts_at(reserved, spec.env@, name) by {}
    match r {
        Ok(c) => {
            match spec.target {
                CommandTarget::Sandboxed { program, args, cwd } => {
                    let all = seq![program@] + texts(args@);
                    assert(texts(c.args@) == all);
                    assert(texts(c.args@).len() == c.args@.len());
                    assert(c.args@[0]@ == texts(c.args@)[0]);
                    assert forall|i: int| 0 <= i < args@.len() implies (#[trigger] c.args@[i + 1])@
                        == args@[i]@ by {
                        assert(texts(c.args@)[i + 1] == all[i + 1]);
                        assert(all[i + 1] == texts(args@)[i]);
                    }
                },
                CommandTarget::Trusted { .. } => {},
            }
        },
        Err(_) => {},
    }
}

/// A command without a program that can be run, without a directory, without a limit
/// that the clock can tell, or with a NUL in an argument, is refused.
pub proof fn law_other_commands_are_refused(
    spec: CommandSpec,
    now: u128,
    opened: Opened,
    r: Result<PreparedCommand, ExecutionDomainError>,
)
    requires
        call_ensures(PreparedCommand::new, (spec, now, &opened), r),
        ({
            ||| spec.target is Trusted
            ||| spec.state is Some
            ||| spec.timeout == 0
            ||| now + spec.timeout > LAST_INSTANT
            ||| opened.program is None
            ||| opened.program->0 & 0o170000 != 0o100000
            ||| opened.program->0 & 0o111 == 0
            ||| !opened.cwd
            ||| spec.target matches CommandTarget::Sandboxed { args, .. } && exists|i: int|
                0 <= i < args@.len() && (#[trigger] args@[i])@.contains('\0')
        }),
    ensures
        r is Err,
        (spec.target is Trusted || spec.state is None) && (spec.target is Trusted || spec.timeout
            == 0 || now + spec.timeout > LAST_INSTANT) ==> (
        r->Err_0 matches ExecutionDomainError::Backend { category, .. } && category
            == FailureCategory::InvalidInput),
{
}

/// The variables of a command are its environment, each once, as `name=value`.
pub proof fn law_variables_are_the_environment(
    env: Environment,
    errno: Option<i32>,
    r: Result<Vec<String>, ExecutionDomainError>,
)
    requires
        call_ensures(variables, (&env, errno), r),
    ensures
        r is Ok <==> (forall|name: Seq<char>| #[trigger]
            env@.contains_key(name) ==> name.len() > 0 && !name.contains('=') && !name.contains(
                '\0',
            ) && !env@[name].contains('\0')),
        r matches Ok(v) ==> (forall|i: int|
            0 <= i < v@.len() ==> exists|name: Seq<char>| #[trigger]
                env@.contains_key(name) && (#[trigger] v@[i])@ == name + "="@ + env@[name]),
{
    match r {
        Ok(v) => {
            let list = choose|list: Seq<(String, String)>|
                environment::names_distinct(list) && environment::entry_map(list) == env@ && texts(
                    v@,
                ) == #[trigger] variable_texts(list);
            environment::lemma_entry_map(list);
            assert(texts(v@).len() == v@.len());
            assert(variable_texts(list).len() == list.len());
            assert forall|i: int| 0 <= i < v@.len() implies exists|name: Seq<char>| #[trigger]
                env@.contains_key(name) && (#[trigger] v@[i])@ == name + "="@ + env@[name] by {
                assert(texts(v@)[i] == v@[i]@);
                assert(variable_texts(list)[i] == list[i].0@ + "="@ + list[i].1@);
                assert(env@.contains_key(list[i].0@));
            }
        },
        Err(_) => {},
    }
}

/// A command of a step is prepared only with the files of that step at hand and verified,
/// and sees them: it is told apart from a command without a step, and none of the step's
/// variables may be replaced.
pub proof fn law_commands_of_a_step_need_its_files(
    spec: CommandSpec,
    now: u128,
    opened: Opened,
    steps: StepFiles,
    verified: Result<(), ExecutionDomainError>,
    r: Result<PreparedCommand, ExecutionDomainError>,
)
    requires
        call_ensures(PreparedCommand::with_state, (spec, now, &opened, &steps, verified), r),
    ensures
        spec.state is None || spec.target is Trusted ==> r is Err,
        r is Ok ==> spec.state is Some && steps@.contains(spec.state->0@) && verified is Ok
            && step_files::replaces_nothing(spec.env@, spec.state->0@),
        r is Ok ==> preparation_error(spec.target, spec.timeout, now, opened) is None,
        spec.state is Some && !(spec.target is Trusted) && preparation_error(
            spec.target,
            spec.timeout,
            now,
            opened,
        ) is None && steps@.contains(spec.state->0@) && verified is Err ==> r is Err && r->Err_0
            == verified->Err_0,
{
}

/// A cancellation signals a command that was not told to end before.
pub proof fn law_cancellations_signal_once(command: RunningCommand, r: bool)
    requires
        call_ensures(RunningCommand::cancel_signals, (&command,), r),
    ensures
        r <==> command.termination is None,
{
}

} // verus!
