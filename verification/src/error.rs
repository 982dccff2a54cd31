//! What can go wrong with an execution domain, and how it is reported.

use vstd::prelude::*;

use crate::contracts::{FailureCategory, Stage};
use crate::ids;
use crate::journal::DomainState;
use crate::text;

verus! {

/// A failed system call: its number, where there is one, and its description.
#[derive(Debug, PartialEq, Eq)]
pub struct IoFailure {
    pub errno: Option<i32>,
    pub description: String,
}

/// A failure of an execution domain. Paths are held as they are displayed.
#[derive(Debug)]
#[allow(inconsistent_fields)]
pub enum ExecutionDomainError {
    InvalidTransition { from: DomainState, to: DomainState },
    InvalidJournal { path: String, source: String },
    UnsupportedJournalVersion { path: String, version: u32 },
    QuarantineFailed { cleanup: Box<ExecutionDomainError>, quarantine: Box<ExecutionDomainError> },
    LifecycleAndDestroyFailed {
        lifecycle: Box<ExecutionDomainError>,
        destroy: Box<ExecutionDomainError>,
    },
    StaleJobResources { path: String },
    StaleLegacyJobData { path: String },
    UnsafeRoot { path: String, reason: &'static str },
    ChimeraRootUnderHostTmp { path: String },
    PoisonedRoot { path: String },
    AdmissionClosed { path: String },
    AttemptCollision { attempt_id: u128 },
    UnsafeEntry { path: String },
    InvalidAttemptIdentity,
    InvalidStepFilesIdentity,
    InvalidDomainPath,
    ReservedEnvironmentOverride { source: &'static str },
    ReservedDomainEnvironment { key: String, source: &'static str },
    ImplicitCredentialStore { helper: &'static str },
    Io { operation: &'static str, path: String, source: IoFailure },
    Cleanup { path: String, source: IoFailure },
    CreationRollback { path: String, create: Box<ExecutionDomainError>, cleanup: IoFailure },
    Backend {
        attempt: Option<u128>,
        stage: Stage,
        category: FailureCategory,
        errno: Option<i32>,
    },
}

/// What an error came from.
pub enum ErrorSource<'a> {
    /// A system call.
    Io(&'a IoFailure),
    /// The parser of a journal.
    Journal(&'a str),
    /// Another failure of the domain.
    Domain(&'a ExecutionDomainError),
}

/// The refusal of the entry at the given path.
pub open spec fn is_unsafe_entry(e: ExecutionDomainError, at: Seq<char>) -> bool {
    e matches ExecutionDomainError::UnsafeEntry { path } && path@ == at
}

/// The refusal of the record at the given path for its version.
pub open spec fn is_unsupported_version(
    e: ExecutionDomainError,
    at: Seq<char>,
    found: u32,
) -> bool {
    e matches ExecutionDomainError::UnsupportedJournalVersion { path, version } && path@ == at
        && version == found
}

/// The refusal of the root at the given path for the given reason.
pub open spec fn is_unsafe_root(e: ExecutionDomainError, at: Seq<char>, why: Seq<char>) -> bool {
    e matches ExecutionDomainError::UnsafeRoot { path, reason } && path@ == at && reason@ == why
}

/// The backend failure with no attempt and no system call behind it.
pub open spec fn backend(stage: Stage, category: FailureCategory) -> ExecutionDomainError {
    ExecutionDomainError::Backend { attempt: None, stage, category, errno: None }
}

/// Reports a backend failure with no attempt and no system call behind it.
pub fn backend_failure(stage: Stage, category: FailureCategory) -> (e: ExecutionDomainError)
    ensures
        e == backend(stage, category),
{
    ExecutionDomainError::Backend { attempt: None, stage, category, errno: None }
}

/// The report of a failed system call of the backend.
pub open spec fn backend_io(stage: Stage, errno: Option<i32>) -> ExecutionDomainError {
    ExecutionDomainError::Backend { attempt: None, stage, category: FailureCategory::Io, errno }
}

/// Reports a failed system call of the backend.
pub fn backend_io_failure(stage: Stage, errno: Option<i32>) -> (e: ExecutionDomainError)
    ensures
        e == (ExecutionDomainError::Backend {
            attempt: None,
            stage,
            category: FailureCategory::Io,
            errno,
        }),
{
    ExecutionDomainError::Backend { attempt: None, stage, category: FailureCategory::Io, errno }
}

impl ExecutionDomainError {
    /// The report of the error: what failed and where, and nothing of the data
    /// that was handled.
    pub open spec fn report(self) -> Seq<char>
        decreases self,
    {
        match self {
            ExecutionDomainError::InvalidTransition { from, to } => "invalid-domain-transition: "@
                + from.label() + " to "@ + to.label(),
            ExecutionDomainError::InvalidJournal { path, source } => "invalid-lifecycle-journal: "@
                + path@,
            ExecutionDomainError::UnsupportedJournalVersion { path, version } =>
                "unsupported-lifecycle-journal-version: "@ + text::decimal(version as nat) + ": "@
                + path@,
            ExecutionDomainError::QuarantineFailed { cleanup, quarantine } => cleanup.report()
                + "; lifecycle quarantine failed: "@ + quarantine.report(),
            ExecutionDomainError::LifecycleAndDestroyFailed { lifecycle, destroy } =>
                lifecycle.report() + "; destroy failed: "@ + destroy.report(),
            ExecutionDomainError::StaleJobResources { path } =>
                "stale-job-resources: resource root is not empty: "@ + path@,
            ExecutionDomainError::StaleLegacyJobData { path } =>
                "stale-legacy-job-data: refusing jobs until the legacy path is recovered: "@
                + path@,
            ExecutionDomainError::UnsafeRoot { path, reason } => "unsafe-job-resource-root: "@
                + reason@ + ": "@ + path@,
            ExecutionDomainError::ChimeraRootUnderHostTmp { path } =>
                "chimera-root-under-host-tmp: Linux host-job isolation hides /tmp; move the Chimera root outside /tmp: "@
                + path@,
            ExecutionDomainError::PoisonedRoot { path } =>
                "poisoned-job-resource-root: cleanup failed; refusing new jobs: "@ + path@,
            ExecutionDomainError::AdmissionClosed { path } =>
                "admission-closed: no capacity is handed out for "@ + path@,
            ExecutionDomainError::AttemptCollision { attempt_id } =>
                "job-resource-collision: generated attempt id already exists: "@
                + ids::hyphenated_text(attempt_id),
            ExecutionDomainError::UnsafeEntry { path } =>
                "unsafe-job-resource-path: refusing replaced, symlink, or special file: "@ + path@,
            ExecutionDomainError::InvalidAttemptIdentity => "invalid-attempt-identity"@,
            ExecutionDomainError::InvalidStepFilesIdentity => "invalid-step-files-identity"@,
            ExecutionDomainError::InvalidDomainPath => "invalid-domain-path"@,
            ExecutionDomainError::ReservedEnvironmentOverride { source } =>
                "reserved-environment-variable: DOCKER_CONFIG cannot be changed by "@ + source@,
            ExecutionDomainError::ReservedDomainEnvironment { key, source } =>
                "reserved-environment-variable: "@ + key@ + " cannot be changed by "@ + source@,
            ExecutionDomainError::ImplicitCredentialStore { helper } =>
                "reserved-host-capability: implicit Docker credential helper "@ + helper@
                + " is not supported in host step PATH"@,
            ExecutionDomainError::Io { operation, path, source } => "job-docker-config-io: "@
                + operation@ + " failed for "@ + path@,
            ExecutionDomainError::Cleanup { path, source } =>
                "job-resource-cleanup: cleanup failed for "@ + path@,
            ExecutionDomainError::CreationRollback { path, create, cleanup } =>
                "job-resource-rollback: creation failed for "@ + path@ + ": "@ + create.report()
                + "; rollback failed: "@ + cleanup.description@,
            ExecutionDomainError::Backend { attempt, stage, category, errno } =>
                "execution-domain-backend: "@ + stage.label() + " "@ + category.label()
                + attempt_note(attempt) + errno_note(errno),
        }
    }

    /// Renders the report of the error.
    pub fn message(&self) -> (out: String)
        ensures
            out@ == self.report(),
        decreases self,
    {
        let mut out: String = String::new();
        match self {
            ExecutionDomainError::InvalidTransition { from, to } => {
                out = "invalid-domain-transition: ".to_owned();
                out.append(from.name());
                out.append(" to ");
                out.append(to.name());
            },
            ExecutionDomainError::InvalidJournal { path, source } => {
                out = "invalid-lifecycle-journal: ".to_owned();
                out.append(path.as_str());
            },
            ExecutionDomainError::UnsupportedJournalVersion { path, version } => {
                out = "unsupported-lifecycle-journal-version: ".to_owned();
                let digits: Vec<char> = text::render(*version as u64);
                let digits: String = text::string(digits.as_slice());
                out.append(digits.as_str());
                out.append(": ");
                out.append(path.as_str());
            },
            ExecutionDomainError::QuarantineFailed { cleanup, quarantine } => {
                out = cleanup.message();
                out.append("; lifecycle quarantine failed: ");
                let rest: String = quarantine.message();
                out.append(rest.as_str());
            },
            ExecutionDomainError::LifecycleAndDestroyFailed { lifecycle, destroy } => {
                out = lifecycle.message();
                out.append("; destroy failed: ");
                let rest: String = destroy.message();
                out.append(rest.as_str());
            },
            ExecutionDomainError::StaleJobResources { path } => {
                out = "stale-job-resources: resource root is not empty: ".to_owned();
                out.append(path.as_str());
            },
            ExecutionDomainError::StaleLegacyJobData { path } => {
                out =
                "stale-legacy-job-data: refusing jobs until the legacy path is recovered: ".to_owned();
                out.append(path.as_str());
            },
            ExecutionDomainError::UnsafeRoot { path, reason } => {
                out = "unsafe-job-resource-root: ".to_owned();
                out.append(reason);
                out.append(": ");
                out.append(path.as_str());
            },
            ExecutionDomainError::ChimeraRootUnderHostTmp { path } => {
                out =
                "chimera-root-under-host-tmp: Linux host-job isolation hides /tmp; move the Chimera root outside /tmp: ".to_owned();
                out.append(path.as_str());
            },
            ExecutionDomainError::PoisonedRoot { path } => {
                out = "poisoned-job-resource-root: cleanup failed; refusing new jobs: ".to_owned();
                out.append(path.as_str());
            },
            ExecutionDomainError::AdmissionClosed { path } => {
                out = "admission-closed: no capacity is handed out for ".to_owned();
                out.append(path.as_str());
            },
            ExecutionDomainError::AttemptCollision { attempt_id } => {
                out = "job-resource-collision: generated attempt id already exists: ".to_owned();
                let id: String = ids::hyphenated_form(*attempt_id);
                out.append(id.as_str());
            },
            ExecutionDomainError::UnsafeEntry { path } => {
                out =
                "unsafe-job-resource-path: refusing replaced, symlink, or special file: ".to_owned();
                out.append(path.as_str());
            },
            ExecutionDomainError::InvalidAttemptIdentity => {
                out = "invalid-attempt-identity".to_owned();
            },
            ExecutionDomainError::InvalidStepFilesIdentity => {
                out = "invalid-step-files-identity".to_owned();
            },
            ExecutionDomainError::InvalidDomainPath => {
                out = "invalid-domain-path".to_owned();
            },
            ExecutionDomainError::ReservedEnvironmentOverride { source } => {
                out =
                "reserved-environment-variable: DOCKER_CONFIG cannot be changed by ".to_owned();
                out.append(source);
            },
            ExecutionDomainError::ReservedDomainEnvironment { key, source } => {
                out = "reserved-environment-variable: ".to_owned();
                out.append(key.as_str());
                out.append(" cannot be changed by ");
                out.append(source);
            },
            ExecutionDomainError::ImplicitCredentialStore { helper } => {
                out = "reserved-host-capability: implicit Docker credential helper ".to_owned();
                out.append(helper);
                out.append(" is not supported in host step PATH");
            },
            ExecutionDomainError::Io { operation, path, source } => {
                out = "job-docker-config-io: ".to_owned();
                out.append(operation);
                out.append(" failed for ");
                out.append(path.as_str());
            },
            ExecutionDomainError::Cleanup { path, source } => {
                out = "job-resource-cleanup: cleanup failed for ".to_owned();
                out.append(path.as_str());
            },
            ExecutionDomainError::CreationRollback { path, create, cleanup } => {
                out = "job-resource-rollback: creation failed for ".to_owned();
                out.append(path.as_str());
                out.append(": ");
                let first: String = create.message();
                out.append(first.as_str());
                out.append("; rollback failed: ");
                out.append(cleanup.description.as_str());
            },
            ExecutionDomainError::Backend { attempt, stage, category, errno } => {
                out = "execution-domain-backend: ".to_owned();
                out.append(stage.name());
                out.append(" ");
                out.append(category.name());
                match attempt {
                    Some(id) => {
                        let id: String = ids::hyphenated_form(*id);
                        let note: String = text::concat(" attempt ", id.as_str());
                        out.append(note.as_str());
                    },
                    None => {
                        out.append("");
                    },
                }
                match errno {
                    Some(number) => {
                        let digits: Vec<char> = text::render_signed(*number);
                        let digits: String = text::string(digits.as_slice());
                        let note: String = text::concat(" errno ", digits.as_str());
                        out.append(note.as_str());
                    },
                    None => {
                        out.append("");
                    },
                }
            },
        }
        out
    }

    /// The failure behind this one, where there is one.
    pub fn source(&self) -> (r: Option<ErrorSource<'_>>)
        ensures
            match *self {
                ExecutionDomainError::Io { operation, path, source } => r == Some(
                    ErrorSource::Io(&source),
                ),
                ExecutionDomainError::Cleanup { path, source } => r == Some(
                    ErrorSource::Io(&source),
                ),
                ExecutionDomainError::CreationRollback { path, create, cleanup } => r == Some(
                    ErrorSource::Domain(&*create),
                ),
                ExecutionDomainError::InvalidJournal { path, source } => r matches Some(
                    ErrorSource::Journal(s),
                ) && s@ == source@,
                ExecutionDomainError::QuarantineFailed { cleanup, quarantine } => r == Some(
                    ErrorSource::Domain(&*cleanup),
                ),
                _ => r is None,
            },
    {
        match self {
            ExecutionDomainError::Io { operation, path, source } => Some(ErrorSource::Io(source)),
            ExecutionDomainError::Cleanup { path, source } => Some(ErrorSource::Io(source)),
            ExecutionDomainError::CreationRollback { path, create, cleanup } => Some(
                ErrorSource::Domain(&**create),
            ),
            ExecutionDomainError::InvalidJournal { path, source } => Some(
                ErrorSource::Journal(source.as_str()),
            ),
            ExecutionDomainError::QuarantineFailed { cleanup, quarantine } => Some(
                ErrorSource::Domain(&**cleanup),
            ),
            _ => None,
        }
    }
}

/// How a report names the attempt.
pub open spec fn attempt_note(attempt: Option<u128>) -> Seq<char> {
    match attempt {
        Some(id) => " attempt "@ + ids::hyphenated_text(id),
        None => ""@,
    }
}

/// How a report names the system error.
pub open spec fn errno_note(errno: Option<i32>) -> Seq<char> {
    match errno {
        Some(number) => " errno "@ + text::signed_decimal(number as int),
        None => ""@,
    }
}

/// A job completed and its completion was published, but the cleanup of its
/// resources failed. The resource root can no longer be trusted, so the runner
/// must stop.
#[derive(Debug)]
pub struct ExecutionDomainCleanupFatalError {
    pub source: ExecutionDomainError,
}

impl ExecutionDomainCleanupFatalError {
    /// Renders the report of the error.
    pub fn message(&self) -> (out: String)
        ensures
            out@ == "job-resource-cleanup-fatal: completion published after cleanup failed: "@
                + self.source.report(),
    {
        let rest: String = self.source.message();
        text::concat(
            "job-resource-cleanup-fatal: completion published after cleanup failed: ",
            rest.as_str(),
        )
    }

    /// The cleanup failure behind this error.
    pub fn cause(&self) -> (r: &ExecutionDomainError)
        ensures
            *r == self.source,
    {
        &self.source
    }
}

/// What led to an error is the failure that it carries: of two that met, the first.
pub proof fn law_errors_name_what_led_to_them(e: ExecutionDomainError, r: Option<ErrorSource>)
    requires
        call_ensures(ExecutionDomainError::source, (&e,), r),
    ensures
        e is Io ==> r == Some(ErrorSource::Io(&e->Io_source)),
        e is Cleanup ==> r == Some(ErrorSource::Io(&e->Cleanup_source)),
        e is CreationRollback ==> r == Some(ErrorSource::Domain(&*e->create)),
        e is QuarantineFailed ==> r == Some(ErrorSource::Domain(&*e->QuarantineFailed_cleanup)),
        e is InvalidJournal ==> (r matches Some(ErrorSource::Journal(s)) && s@
            == e->InvalidJournal_source@),
        r is Some <==> e is Io || e is Cleanup || e is CreationRollback || e is QuarantineFailed
            || e is InvalidJournal,
{
}

/// Errors of the backend keep their stage, their kind and the number they came with, and
/// belong to no attempt yet.
pub proof fn law_backend_errors_keep_what_they_are_about(
    stage: Stage,
    category: FailureCategory,
    errno: Option<i32>,
    a: ExecutionDomainError,
    b: ExecutionDomainError,
)
    requires
        call_ensures(backend_failure, (stage, category), a),
        call_ensures(backend_io_failure, (stage, errno), b),
    ensures
        a matches ExecutionDomainError::Backend { attempt, stage: s, category: c, errno: n } && s
            == stage && c == category && attempt is None && n is None,
        b matches ExecutionDomainError::Backend { attempt, stage: s, category: c, errno: n } && s
            == stage && c == FailureCategory::Io && attempt is None && n == errno,
{
}

/// The message of an error that is about a path ends with that path.
pub proof fn law_messages_name_the_path(e: ExecutionDomainError, at: Seq<char>, m: String)
    requires
        call_ensures(ExecutionDomainError::message, (&e,), m),
        match e {
            ExecutionDomainError::InvalidJournal { path, .. } => path@ == at,
            ExecutionDomainError::UnsupportedJournalVersion { path, .. } => path@ == at,
            ExecutionDomainError::StaleJobResources { path } => path@ == at,
            ExecutionDomainError::StaleLegacyJobData { path } => path@ == at,
            ExecutionDomainError::UnsafeRoot { path, .. } => path@ == at,
            ExecutionDomainError::ChimeraRootUnderHostTmp { path } => path@ == at,
            ExecutionDomainError::PoisonedRoot { path } => path@ == at,
            ExecutionDomainError::AdmissionClosed { path } => path@ == at,
            ExecutionDomainError::UnsafeEntry { path } => path@ == at,
            ExecutionDomainError::Io { path, .. } => path@ == at,
            ExecutionDomainError::Cleanup { path, .. } => path@ == at,
            _ => at.len() == 0,
        },
    ensures
        at.is_suffix_of(m@),
{
    assert(m@.skip(m@.len() - at.len()) =~= at);
}

/// Where two errors met, the message tells both in the order in which they came.
pub proof fn law_messages_tell_both_errors(
    first: ExecutionDomainError,
    second: ExecutionDomainError,
    e: ExecutionDomainError,
    a: String,
    b: String,
    m: String,
)
    requires
        call_ensures(ExecutionDomainError::message, (&first,), a),
        call_ensures(ExecutionDomainError::message, (&second,), b),
        call_ensures(ExecutionDomainError::message, (&e,), m),
        e == (ExecutionDomainError::QuarantineFailed {
            cleanup: Box::new(first),
            quarantine: Box::new(second),
        }) || e == (ExecutionDomainError::LifecycleAndDestroyFailed {
            lifecycle: Box::new(first),
            destroy: Box::new(second),
        }),
    ensures
        a@.is_prefix_of(m@),
        b@.is_suffix_of(m@),
        a@.len() + b@.len() < m@.len(),
{
    reveal_strlit("; lifecycle quarantine failed: ");
    reveal_strlit("; destroy failed: ");
    assert(m@.take(a@.len() as int) =~= a@);
    assert(m@.skip(m@.len() - b@.len()) =~= b@);
}

} // verus!
