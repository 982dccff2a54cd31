//! The lifecycle journal of a domain.
//!
//! A domain records each state it enters before it acts in that state. The
//! functions here decide which moves are allowed, which records are believed,
//! and in which order a move touches the disk; the disk itself is elsewhere.

use vstd::prelude::*;

use crate::contracts::AttemptIdentity;
use crate::error;
use crate::error::{ExecutionDomainError, IoFailure};
use crate::filesystem;
use crate::text;

verus! {

/// The version of the records of a domain that shares the host.
pub const TRUSTED_JOURNAL_VERSION: u32 = 1;

/// The version of the records of a sandboxed domain.
pub const LINUX_JOURNAL_VERSION: u32 = 2;

/// The version of the layout of a sandboxed domain's directory.
pub const LINUX_LAYOUT_VERSION: u32 = 1;

/// The largest record that is read, in bytes.
pub const JOURNAL_LIMIT: u64 = 4096;

/// Where a domain stands in its life.
#[derive(Debug, Clone, Copy, PartialEq, Eq, Structural)]
pub enum DomainState {
    Provisioning,
    Ready,
    Running,
    Cleaning,
    Destroying,
    Destroyed,
    Quarantined,
}

impl DomainState {
    pub open spec fn label(self) -> Seq<char> {
        match self {
            DomainState::Provisioning => "Provisioning"@,
            DomainState::Ready => "Ready"@,
            DomainState::Running => "Running"@,
            DomainState::Cleaning => "Cleaning"@,
            DomainState::Destroying => "Destroying"@,
            DomainState::Destroyed => "Destroyed"@,
            DomainState::Quarantined => "Quarantined"@,
        }
    }

    /// The name of the state.
    pub fn name(&self) -> (r: &'static str)
        ensures
            r@ == self.label(),
    {
        match self {
            DomainState::Provisioning => "Provisioning",
            DomainState::Ready => "Ready",
            DomainState::Running => "Running",
            DomainState::Cleaning => "Cleaning",
            DomainState::Destroying => "Destroying",
            DomainState::Destroyed => "Destroyed",
            DomainState::Quarantined => "Quarantined",
        }
    }

    /// How far along its life a domain is. Every move goes up.
    pub open spec fn rank(self) -> int {
        match self {
            DomainState::Provisioning => 0,
            DomainState::Ready => 1,
            DomainState::Running => 2,
            DomainState::Cleaning => 3,
            DomainState::Destroying => 4,
            DomainState::Quarantined => 5,
            DomainState::Destroyed => 6,
        }
    }
}

/// The moves that a journal records.
pub open spec fn may_move(from: DomainState, to: DomainState) -> bool {
    match from {
        DomainState::Provisioning => to == DomainState::Ready || to == DomainState::Destroying,
        DomainState::Ready => to == DomainState::Running || to == DomainState::Destroying,
        DomainState::Running => to == DomainState::Cleaning || to == DomainState::Destroying,
        DomainState::Cleaning => to == DomainState::Destroying,
        DomainState::Destroying => to == DomainState::Quarantined,
        DomainState::Destroyed => false,
        DomainState::Quarantined => false,
    }
}

/// Whether a domain may move from one state to another.
pub fn transition_allowed(from: DomainState, to: DomainState) -> (r: bool)
    ensures
        r == may_move(from, to),
{
    match from {
        DomainState::Provisioning => to == DomainState::Ready || to == DomainState::Destroying,
        DomainState::Ready => to == DomainState::Running || to == DomainState::Destroying,
        DomainState::Running => to == DomainState::Cleaning || to == DomainState::Destroying,
        DomainState::Cleaning => to == DomainState::Destroying,
        DomainState::Destroying => to == DomainState::Quarantined,
        DomainState::Destroyed => false,
        DomainState::Quarantined => false,
    }
}

/// A domain never returns to a state it has left, and never stays in one by a
/// move.
pub proof fn law_moves_only_go_forward(from: DomainState, to: DomainState)
    requires
        may_move(from, to),
    ensures
        from.rank() < to.rank(),
        to != DomainState::Provisioning,
        to != DomainState::Destroyed,
{
}

/// A quarantined or destroyed domain makes no further recorded move.
pub proof fn law_last_states_are_final(to: DomainState)
    ensures
        !may_move(DomainState::Quarantined, to),
        !may_move(DomainState::Destroyed, to),
{
}

/// A domain can be destroyed from every state in which it was alive.
pub proof fn law_every_live_state_can_be_destroyed(from: DomainState)
    requires
        from.rank() < DomainState::Destroying.rank(),
    ensures
        may_move(from, DomainState::Destroying),
{
}

/// The record of a domain that shares the host.
#[derive(Debug, Clone, Copy, PartialEq, Eq, Structural)]
pub struct TrustedJournalRecord {
    pub version: u32,
    pub attempt_id: u128,
    pub state: DomainState,
}

/// The record of a sandboxed domain.
#[derive(Debug, PartialEq, Eq)]
pub struct LinuxJournalRecord {
    pub version: u32,
    pub backend: String,
    pub attempt_id: u128,
    pub state: DomainState,
    pub layout_version: u32,
}

/// What is believed of a record of a domain that shares the host.
pub open spec fn trusted_belief(record: TrustedJournalRecord) -> Option<TrustedJournalRecord> {
    if record.version == TRUSTED_JOURNAL_VERSION {
        Some(record)
    } else {
        None
    }
}

/// Believes a record of a domain that shares the host if its version is known.
pub fn accept_trusted_record(path: &str, record: TrustedJournalRecord) -> (r: Result<
    TrustedJournalRecord,
    ExecutionDomainError,
>)
    ensures
        match r {
            Ok(accepted) => trusted_belief(record) == Some(accepted),
            Err(e) => trusted_belief(record) is None && error::is_unsupported_version(
                e,
                path@,
                record.version,
            ),
        },
{
    if record.version != TRUSTED_JOURNAL_VERSION {
        return Err(
            ExecutionDomainError::UnsupportedJournalVersion {
                path: path.to_owned(),
                version: record.version,
            },
        );
    }
    Ok(record)
}

/// Whether a record of a sandboxed domain describes this backend and layout.
pub open spec fn linux_record_fits(record: LinuxJournalRecord) -> bool {
    record.backend@ == "linux"@ && record.layout_version == LINUX_LAYOUT_VERSION
}

/// What is believed of a record of a sandboxed domain.
pub open spec fn linux_belief(record: LinuxJournalRecord) -> Option<TrustedJournalRecord> {
    if record.version == LINUX_JOURNAL_VERSION && linux_record_fits(record) {
        Some(
            TrustedJournalRecord {
                version: record.version,
                attempt_id: record.attempt_id,
                state: record.state,
            },
        )
    } else {
        None
    }
}

/// Believes a record of a sandboxed domain if its version, backend and layout are
/// known.
pub fn accept_linux_record(path: &str, record: LinuxJournalRecord) -> (r: Result<
    TrustedJournalRecord,
    ExecutionDomainError,
>)
    ensures
        match r {
            Ok(accepted) => linux_belief(record) == Some(accepted),
            Err(e) => linux_belief(record) is None && if record.version != LINUX_JOURNAL_VERSION {
                error::is_unsupported_version(e, path@, record.version)
            } else {
                error::is_unsafe_entry(e, path@)
            },
        },
{
    if record.version != LINUX_JOURNAL_VERSION {
        return Err(
            ExecutionDomainError::UnsupportedJournalVersion {
                path: path.to_owned(),
                version: record.version,
            },
        );
    }
    if !text::same_str(record.backend.as_str(), "linux") || record.layout_version
        != LINUX_LAYOUT_VERSION {
        return Err(ExecutionDomainError::UnsafeEntry { path: path.to_owned() });
    }
    Ok(
        TrustedJournalRecord {
            version: record.version,
            attempt_id: record.attempt_id,
            state: record.state,
        },
    )
}

/// The record that a domain writes when it shares the host.
pub open spec fn trusted_written(attempt_id: u128, state: DomainState) -> TrustedJournalRecord {
    TrustedJournalRecord { version: TRUSTED_JOURNAL_VERSION, attempt_id, state }
}

/// The record that a domain writes when it shares the host.
pub fn trusted_record(attempt_id: u128, state: DomainState) -> (r: TrustedJournalRecord)
    ensures
        r == trusted_written(attempt_id, state),
{
    TrustedJournalRecord { version: TRUSTED_JOURNAL_VERSION, attempt_id, state }
}

/// Whether a record is the one that a sandboxed domain writes.
pub open spec fn linux_written(
    record: LinuxJournalRecord,
    attempt_id: u128,
    state: DomainState,
) -> bool {
    &&& record.version == LINUX_JOURNAL_VERSION
    &&& record.backend@ == "linux"@
    &&& record.attempt_id == attempt_id
    &&& record.state == state
    &&& record.layout_version == LINUX_LAYOUT_VERSION
}

/// The record that a sandboxed domain writes.
pub fn linux_record(attempt_id: u128, state: DomainState) -> (r: LinuxJournalRecord)
    ensures
        linux_written(r, attempt_id, state),
{
    LinuxJournalRecord {
        version: LINUX_JOURNAL_VERSION,
        backend: "linux".to_owned(),
        attempt_id,
        state,
        layout_version: LINUX_LAYOUT_VERSION,
    }
}

/// What a domain writes is believed when it is read back, with the attempt and the
/// state that were written.
pub proof fn law_written_records_are_believed(
    record: LinuxJournalRecord,
    attempt_id: u128,
    state: DomainState,
)
    requires
        linux_written(record, attempt_id, state),
    ensures
        linux_belief(record) == Some(
            TrustedJournalRecord { version: LINUX_JOURNAL_VERSION, attempt_id, state },
        ),
        trusted_belief(trusted_written(attempt_id, state)) == Some(
            trusted_written(attempt_id, state),
        ),
{
}

/// A record of one kind is never believed as one of the other.
pub proof fn law_records_are_told_apart(linux: LinuxJournalRecord, trusted: TrustedJournalRecord)
    requires
        linux.version == trusted.version,
    ensures
        linux_belief(linux) is None || trusted_belief(trusted) is None,
{
}

/// What was found where the journal of a sandboxed domain should be.
pub enum JournalContents {
    /// No journal.
    Missing,
    /// A record that declares the version of a domain that shares the host.
    Trusted(TrustedJournalRecord),
    /// A record that declares the version of a sandboxed domain.
    Linux(LinuxJournalRecord),
    /// A record of some other version.
    Unknown(u32),
}

/// What a journal proves about an attempt that is being recovered.
#[derive(Debug, Clone, Copy, PartialEq, Eq, Structural)]
pub enum LinuxJournalEvidence {
    Missing,
    TrustedV1Diagnostic,
    Recoverable(DomainState),
}

/// Judges the journal of an attempt that is being recovered.
pub fn inspect_linux_journal(path: &str, contents: JournalContents, attempt: AttemptIdentity) -> (r:
    Result<LinuxJournalEvidence, ExecutionDomainError>)
    ensures
        match contents {
            JournalContents::Missing => r matches Ok(LinuxJournalEvidence::Missing),
            JournalContents::Trusted(record) => if record.version != TRUSTED_JOURNAL_VERSION {
                r matches Err(e) && error::is_unsupported_version(e, path@, record.version)
            } else if record.attempt_id != attempt@ {
                r matches Err(e) && error::is_unsafe_entry(e, path@)
            } else {
                r matches Ok(LinuxJournalEvidence::TrustedV1Diagnostic)
            },
            JournalContents::Linux(record) => if record.version != LINUX_JOURNAL_VERSION {
                r matches Err(e) && error::is_unsupported_version(e, path@, record.version)
            } else if !linux_record_fits(record) || record.attempt_id != attempt@ || record.state
                == DomainState::Destroyed {
                r matches Err(e) && error::is_unsafe_entry(e, path@)
            } else {
                r matches Ok(LinuxJournalEvidence::Recoverable(s)) && s == record.state
            },
            JournalContents::Unknown(found) => r matches Err(e) && error::is_unsupported_version(e, path@, found),
        },
{
    match contents {
        JournalContents::Missing => Ok(LinuxJournalEvidence::Missing),
        JournalContents::Trusted(record) => {
            match accept_trusted_record(path, record) {
                Ok(record) => {
                    if record.attempt_id != attempt.uuid() {
                        return Err(ExecutionDomainError::UnsafeEntry { path: path.to_owned() });
                    }
                    Ok(LinuxJournalEvidence::TrustedV1Diagnostic)
                },
                Err(e) => Err(e),
            }
        },
        JournalContents::Linux(record) => {
            match accept_linux_record(path, record) {
                Ok(record) => {
                    if record.attempt_id != attempt.uuid() || record.state
                        == DomainState::Destroyed {
                        return Err(ExecutionDomainError::UnsafeEntry { path: path.to_owned() });
                    }
                    Ok(LinuxJournalEvidence::Recoverable(record.state))
                },
                Err(e) => Err(e),
            }
        },
        JournalContents::Unknown(version) => Err(
            ExecutionDomainError::UnsupportedJournalVersion { path: path.to_owned(), version },
        ),
    }
}

/// What is known of the file that holds a record.
#[derive(Debug, Clone, Copy)]
pub struct RecordFile {
    pub is_regular: bool,
    pub links: u64,
    pub size: u64,
}

impl RecordFile {
    /// Whether the file is a regular file with a single name and a bounded size.
    pub open spec fn acceptable(self) -> bool {
        self.is_regular && self.links == 1 && self.size <= JOURNAL_LIMIT
    }
}

/// Refuses a record that is not a regular file with a single name and a bounded
/// size.
pub fn check_record_file(path: &str, file: RecordFile) -> (r: Result<(), ExecutionDomainError>)
    ensures
        match r {
            Ok(_) => file.acceptable(),
            Err(e) => !file.acceptable() && error::is_unsafe_entry(e, path@),
        },
{
    if !file.is_regular || file.links != 1 || file.size > JOURNAL_LIMIT {
        return Err(ExecutionDomainError::UnsafeEntry { path: path.to_owned() });
    }
    Ok(())
}

/// What is known of the directory in which a journal is kept.
pub struct JournalPlace<'a> {
    /// The path of the directory, as it was given.
    pub path: &'a str,
    pub is_directory: bool,
    pub is_symlink: bool,
    /// Whether each step on the way to the directory is a symbolic link.
    pub links: &'a [bool],
    /// What the path resolves to.
    pub canonical: Result<String, IoFailure>,
}

impl<'a> JournalPlace<'a> {
    /// Whether the directory is a real one, and its path leads there without symbolic
    /// links.
    pub open spec fn unlinked(self) -> bool {
        &&& self.is_directory
        &&& !self.is_symlink
        &&& forall|i: int| 0 <= i < self.links@.len() ==> !#[trigger] self.links@[i]
    }

    /// Whether a journal can be kept in the directory with the given resolved path.
    pub open spec fn binds_to(self, dir: Seq<char>) -> bool {
        self.unlinked() && (self.canonical matches Ok(found) && found@ == dir)
    }

    /// Whether an error is why no journal can be kept in the directory.
    pub open spec fn refused_with(self, e: ExecutionDomainError) -> bool {
        if !self.unlinked() {
            error::is_unsafe_entry(e, self.path@)
        } else {
            self.canonical matches Err(failure) && filesystem::is_io_error(
                e,
                "canonicalizing journal directory"@,
                self.path@,
                failure,
            )
        }
    }
}

/// The path of the record in a directory.
pub open spec fn record_path_in(dir: Seq<char>) -> Seq<char> {
    text::below(dir, "journal.json"@)
}

/// The path of the record of a move that is under way in a directory.
pub open spec fn next_path_in(dir: Seq<char>) -> Seq<char> {
    text::below(dir, "journal.json.next"@)
}

/// Whether an error is why a journal in a directory cannot be used, given whether a
/// move was left half done there.
pub open spec fn pending_refusal(
    dir: Seq<char>,
    pending: Result<bool, IoFailure>,
    e: ExecutionDomainError,
) -> bool {
    match pending {
        Ok(there) => there && error::is_unsafe_entry(e, next_path_in(dir)),
        Err(failure) => filesystem::is_io_error(
            e,
            "checking pending lifecycle journal"@,
            next_path_in(dir),
            failure,
        ),
    }
}

/// What opening a record showed of its file, and what reading it gave.
pub struct JournalReading {
    pub file: RecordFile,
    pub record: Result<TrustedJournalRecord, ExecutionDomainError>,
}

/// Whether an error is why the record in a directory is not believed.
pub open spec fn record_refusal(
    dir: Seq<char>,
    reading: Result<JournalReading, ExecutionDomainError>,
    e: ExecutionDomainError,
) -> bool {
    match reading {
        Err(problem) => e == problem,
        Ok(found) => if !found.file.acceptable() {
            error::is_unsafe_entry(e, record_path_in(dir))
        } else {
            match found.record {
                Err(problem) => e == problem,
                Ok(read) => trusted_belief(read) is None && error::is_unsupported_version(
                    e,
                    record_path_in(dir),
                    read.version,
                ),
            }
        },
    }
}

/// Whether a record is believed by what was opened and read.
pub open spec fn record_believed(
    reading: Result<JournalReading, ExecutionDomainError>,
    record: TrustedJournalRecord,
) -> bool {
    &&& reading matches Ok(found)
    &&& found.file.acceptable()
    &&& found.record == Ok::<TrustedJournalRecord, ExecutionDomainError>(record)
    &&& trusted_belief(record) is Some
}

/// The part of a move that touches the disk next.
#[derive(Debug, Clone, Copy, PartialEq, Eq, Structural)]
pub enum TransitionStage {
    /// Check that the directory is the one that was bound.
    Directory,
    /// Check that no earlier move was left half done.
    Pending,
    /// Read the current record.
    Record,
    /// Replace the record.
    Write,
}

/// A move that has begun.
#[derive(Debug, Clone, Copy, PartialEq, Eq, Structural)]
pub struct Transition {
    pub to: DomainState,
    pub stage: TransitionStage,
}

/// What a stage of a move found.
pub enum JournalEvent {
    Passed,
    Failed(ExecutionDomainError),
    Record(TrustedJournalRecord),
}

/// What follows a stage of a move.
pub enum TransitionStep {
    Next(Transition),
    Finished(Result<(), ExecutionDomainError>),
}

/// Whether the stage can report the event.
pub open spec fn event_fits(stage: TransitionStage, event: JournalEvent) -> bool {
    match event {
        JournalEvent::Passed => stage != TransitionStage::Record,
        JournalEvent::Failed(_) => true,
        JournalEvent::Record(_) => stage == TransitionStage::Record,
    }
}

/// The journal of one attempt, as its owner believes it to be.
#[derive(Debug)]
pub struct DomainLifecycle {
    attempt_dir: String,
    attempt_id: u128,
    state: DomainState,
}

impl DomainLifecycle {
    pub closed spec fn dir(self) -> Seq<char> {
        self.attempt_dir@
    }

    pub closed spec fn attempt(self) -> u128 {
        self.attempt_id
    }

    pub closed spec fn at(self) -> DomainState {
        self.state
    }

    /// The path of the record.
    pub open spec fn record_path(self) -> Seq<char> {
        record_path_in(self.dir())
    }

    /// The record that says what the owner of a domain that shares the host believes.
    pub open spec fn written(self) -> TrustedJournalRecord {
        trusted_written(self.attempt(), self.at())
    }

    /// Binds a journal to the directory of an attempt. The directory must be a
    /// real directory, and its path must lead there without symbolic links. The
    /// journal goes on with the resolved path.
    pub fn bind(place: JournalPlace, attempt_id: u128, state: DomainState) -> (r: Result<
        DomainLifecycle,
        ExecutionDomainError,
    >)
        ensures
            match r {
                Ok(lifecycle) => place.binds_to(lifecycle.dir()) && lifecycle.attempt()
                    == attempt_id && lifecycle.at() == state,
                Err(e) => place.refused_with(e),
            },
    {
        let mut linked: bool = place.is_symlink;
        for i in 0..place.links.len()
            invariant
                linked == (place.is_symlink || exists|k: int|
                    0 <= k < i && #[trigger] place.links@[k]),
        {
            if place.links[i] {
                linked = true;
            }
        }
        if !place.is_directory || linked {
            return Err(ExecutionDomainError::UnsafeEntry { path: place.path.to_owned() });
        }
        match place.canonical {
            Ok(attempt_dir) => Ok(DomainLifecycle { attempt_dir, attempt_id, state }),
            Err(failure) => Err(
                filesystem::io_error("canonicalizing journal directory", place.path, failure),
            ),
        }
    }

    /// Refuses a journal in whose directory a move was left half done.
    pub fn refuse_next(&self, pending: Result<bool, IoFailure>) -> (r: Result<
        (),
        ExecutionDomainError,
    >)
        ensures
            match r {
                Ok(_) => pending == Ok::<bool, IoFailure>(false),
                Err(e) => pending_refusal(self.dir(), pending, e),
            },
    {
        match pending {
            Ok(false) => Ok(()),
            Ok(true) => {
                let path: String = text::join_below(self.attempt_dir.as_str(), "journal.json.next");
                Err(ExecutionDomainError::UnsafeEntry { path })
            },
            Err(failure) => {
                let path: String = text::join_below(self.attempt_dir.as_str(), "journal.json.next");
                Err(
                    filesystem::io_error(
                        "checking pending lifecycle journal",
                        path.as_str(),
                        failure,
                    ),
                )
            },
        }
    }

    /// Begins the journal of a new attempt, before its first record is written. The
    /// directory must be one that a journal binds to, with no move left half done.
    pub fn create(place: JournalPlace, attempt_id: u128, pending: Result<bool, IoFailure>) -> (r:
        Result<DomainLifecycle, ExecutionDomainError>)
        ensures
            match r {
                Ok(lifecycle) => {
                    &&& place.binds_to(lifecycle.dir())
                    &&& pending == Ok::<bool, IoFailure>(false)
                    &&& lifecycle.attempt() == attempt_id
                    &&& lifecycle.at() == DomainState::Provisioning
                },
                Err(e) => place.refused_with(e) || (exists|dir: Seq<char>| #[trigger]
                    place.binds_to(dir) && pending_refusal(dir, pending, e)),
            },
    {
        match Self::bind(place, attempt_id, DomainState::Provisioning) {
            Ok(lifecycle) => match lifecycle.refuse_next(pending) {
                Ok(_) => Ok(lifecycle),
                Err(e) => {
                    assert(place.binds_to(lifecycle.dir()));
                    Err(e)
                },
            },
            Err(e) => Err(e),
        }
    }

    /// Reads the journal of an attempt. Besides what a new journal needs, the record
    /// must be a regular file with a single name and a bounded size, and of a known
    /// version.
    pub fn load(
        place: JournalPlace,
        pending: Result<bool, IoFailure>,
        reading: Result<JournalReading, ExecutionDomainError>,
    ) -> (r: Result<DomainLifecycle, ExecutionDomainError>)
        ensures
            match r {
                Ok(lifecycle) => {
                    &&& place.binds_to(lifecycle.dir())
                    &&& pending == Ok::<bool, IoFailure>(false)
                    &&& record_believed(reading, lifecycle.written())
                },
                Err(e) => place.refused_with(e) || (exists|dir: Seq<char>| #[trigger]
                    place.binds_to(dir) && if pending == Ok::<bool, IoFailure>(false) {
                        record_refusal(dir, reading, e)
                    } else {
                        pending_refusal(dir, pending, e)
                    }),
            },
    {
        let mut lifecycle: DomainLifecycle = match Self::bind(
            place,
            0,
            DomainState::Provisioning,
        ) {
            Ok(lifecycle) => lifecycle,
            Err(e) => {
                return Err(e);
            },
        };
        assert(place.binds_to(lifecycle.dir()));
        match lifecycle.refuse_next(pending) {
            Ok(_) => {},
            Err(e) => {
                return Err(e);
            },
        }
        let found: JournalReading = match reading {
            Ok(found) => found,
            Err(e) => {
                return Err(e);
            },
        };
        let path: String = text::join_below(lifecycle.attempt_dir.as_str(), "journal.json");
        match check_record_file(path.as_str(), found.file) {
            Ok(_) => {},
            Err(e) => {
                return Err(e);
            },
        }
        let read: TrustedJournalRecord = match found.record {
            Ok(read) => read,
            Err(e) => {
                return Err(e);
            },
        };
        match accept_trusted_record(path.as_str(), read) {
            Ok(believed) => {
                lifecycle.attempt_id = believed.attempt_id;
                lifecycle.state = believed.state;
                Ok(lifecycle)
            },
            Err(e) => Err(e),
        }
    }

    /// Begins the journal of a new sandboxed attempt in a held directory, before its
    /// first record is written. It needs that the directory could be held and that no
    /// move was left half done.
    pub fn create_strict(
        attempt_dir: &str,
        attempt_id: u128,
        held: Result<(), ExecutionDomainError>,
        pending: Result<(), ExecutionDomainError>,
    ) -> (r: Result<DomainLifecycle, ExecutionDomainError>)
        ensures
            match (held, pending) {
                (Err(e), _) => r == Err::<DomainLifecycle, ExecutionDomainError>(e),
                (Ok(_), Err(e)) => r == Err::<DomainLifecycle, ExecutionDomainError>(e),
                (Ok(_), Ok(_)) => r matches Ok(lifecycle) && lifecycle.dir() == attempt_dir@
                    && lifecycle.attempt() == attempt_id && lifecycle.at()
                    == DomainState::Provisioning,
            },
    {
        match held {
            Ok(_) => {},
            Err(e) => {
                return Err(e);
            },
        }
        match pending {
            Ok(_) => Ok(
                DomainLifecycle {
                    attempt_dir: attempt_dir.to_owned(),
                    attempt_id,
                    state: DomainState::Provisioning,
                },
            ),
            Err(e) => Err(e),
        }
    }

    /// Reads the journal of a sandboxed attempt in a held directory. The record must be
    /// of a known version, backend and layout.
    pub fn load_strict(
        attempt_dir: &str,
        held: Result<(), ExecutionDomainError>,
        pending: Result<(), ExecutionDomainError>,
        record: Result<LinuxJournalRecord, ExecutionDomainError>,
    ) -> (r: Result<DomainLifecycle, ExecutionDomainError>)
        ensures
            match (held, pending, record) {
                (Err(e), _, _) => r == Err::<DomainLifecycle, ExecutionDomainError>(e),
                (Ok(_), Err(e), _) => r == Err::<DomainLifecycle, ExecutionDomainError>(e),
                (Ok(_), Ok(_), Err(e)) => r == Err::<DomainLifecycle, ExecutionDomainError>(e),
                (Ok(_), Ok(_), Ok(read)) => match r {
                    Ok(lifecycle) => linux_belief(read) is Some && lifecycle.dir() == attempt_dir@
                        && lifecycle.attempt() == read.attempt_id && lifecycle.at() == read.state,
                    Err(e) => linux_belief(read) is None && if read.version
                        != LINUX_JOURNAL_VERSION {
                        error::is_unsupported_version(
                            e,
                            record_path_in(attempt_dir@),
                            read.version,
                        )
                    } else {
                        error::is_unsafe_entry(e, record_path_in(attempt_dir@))
                    },
                },
            },
    {
        let mut lifecycle: DomainLifecycle = match Self::create_strict(
            attempt_dir,
            0,
            held,
            pending,
        ) {
            Ok(lifecycle) => lifecycle,
            Err(e) => {
                return Err(e);
            },
        };
        let read: LinuxJournalRecord = match record {
            Ok(read) => read,
            Err(e) => {
                return Err(e);
            },
        };
        let path: String = text::join_below(attempt_dir, "journal.json");
        match accept_linux_record(path.as_str(), read) {
            Ok(believed) => {
                lifecycle.attempt_id = believed.attempt_id;
                lifecycle.state = believed.state;
                Ok(lifecycle)
            },
            Err(e) => Err(e),
        }
    }

    /// The state that the owner believes in.
    pub fn state(&self) -> (r: DomainState)
        ensures
            r == self.at(),
    {
        self.state
    }

    /// Begins a move, if it is allowed.
    pub fn begin_transition(&self, to: DomainState) -> (r: Result<Transition, ExecutionDomainError>)
        ensures
            match r {
                Ok(t) => may_move(self.at(), to) && t == (Transition {
                    to,
                    stage: TransitionStage::Directory,
                }),
                Err(e) => !may_move(self.at(), to) && e
                    == (ExecutionDomainError::InvalidTransition { from: self.at(), to }),
            },
    {
        if !transition_allowed(self.state, to) {
            return Err(ExecutionDomainError::InvalidTransition { from: self.state, to });
        }
        Ok(Transition { to, stage: TransitionStage::Directory })
    }

    /// Carries a move on after one of its stages. The owner's belief changes only
    /// when the new record is written, and a record that does not say what the
    /// owner believes ends the move before anything is written.
    pub fn transition(&mut self, move_: Transition, event: JournalEvent) -> (r: TransitionStep)
        requires
            event_fits(move_.stage, event),
        ensures
            final(self).dir() == old(self).dir(),
            final(self).attempt() == old(self).attempt(),
            match event {
                JournalEvent::Failed(error) => r == TransitionStep::Finished(Err(error))
                    && final(self).at() == old(self).at(),
                JournalEvent::Passed => match move_.stage {
                    TransitionStage::Directory => final(self).at() == old(self).at() && r
                        == TransitionStep::Next(
                        (Transition { to: move_.to, stage: TransitionStage::Pending }),
                    ),
                    TransitionStage::Pending => final(self).at() == old(self).at() && r
                        == TransitionStep::Next(
                        (Transition { to: move_.to, stage: TransitionStage::Record }),
                    ),
                    TransitionStage::Write => final(self).at() == move_.to && r
                        == TransitionStep::Finished(Ok(())),
                    TransitionStage::Record => true,
                },
                JournalEvent::Record(record) => final(self).at() == old(self).at() && (if record.attempt_id
                    == old(self).attempt() && record.state == old(self).at() {
                    r == TransitionStep::Next(
                        (Transition { to: move_.to, stage: TransitionStage::Write }),
                    )
                } else {
                    r matches TransitionStep::Finished(Err(e)) && error::is_unsafe_entry(
                        e,
                        old(self).record_path(),
                    )
                }),
            },
    {
        match event {
            JournalEvent::Failed(error) => TransitionStep::Finished(Err(error)),
            JournalEvent::Passed => match move_.stage {
                TransitionStage::Directory => TransitionStep::Next(
                    Transition { to: move_.to, stage: TransitionStage::Pending },
                ),
                TransitionStage::Pending => TransitionStep::Next(
                    Transition { to: move_.to, stage: TransitionStage::Record },
                ),
                TransitionStage::Record => TransitionStep::Finished(Ok(())),
                TransitionStage::Write => {
                    self.state = move_.to;
                    TransitionStep::Finished(Ok(()))
                },
            },
            JournalEvent::Record(record) => {
                if record.attempt_id != self.attempt_id || record.state != self.state {
                    let path: String = text::join_below(self.attempt_dir.as_str(), "journal.json");
                    return TransitionStep::Finished(
                        Err(ExecutionDomainError::UnsafeEntry { path }),
                    );
                }
                TransitionStep::Next(Transition { to: move_.to, stage: TransitionStage::Write })
            },
        }
    }

    /// Notes that the directory of the attempt is gone.
    pub fn complete_destroyed(&mut self) -> (r: Result<(), ExecutionDomainError>)
        ensures
            final(self).dir() == old(self).dir(),
            final(self).attempt() == old(self).attempt(),
            match r {
                Ok(_) => (old(self).at() == DomainState::Destroying || old(self).at()
                    == DomainState::Quarantined) && final(self).at() == DomainState::Destroyed,
                Err(e) => old(self).at() != DomainState::Destroying && old(self).at()
                    != DomainState::Quarantined && final(self).at() == old(self).at() && e
                    == (ExecutionDomainError::InvalidTransition {
                    from: old(self).at(),
                    to: DomainState::Destroyed,
                }),
            },
    {
        if self.state != DomainState::Destroying && self.state != DomainState::Quarantined {
            return Err(
                ExecutionDomainError::InvalidTransition {
                    from: self.state,
                    to: DomainState::Destroyed,
                },
            );
        }
        self.state = DomainState::Destroyed;
        Ok(())
    }

    /// Begins the move that precedes destruction. Nothing is left to record where
    /// the domain is already being destroyed, quarantined or destroyed.
    pub fn begin_destroying(&self) -> (r: Result<Option<Transition>, ExecutionDomainError>)
        ensures
            r matches Ok(begun) && match begun {
                Some(t) => self.at().rank() < DomainState::Destroying.rank() && t == (Transition {
                    to: DomainState::Destroying,
                    stage: TransitionStage::Directory,
                }),
                None => self.at().rank() >= DomainState::Destroying.rank(),
            },
    {
        match self.state {
            DomainState::Destroying | DomainState::Destroyed | DomainState::Quarantined => Ok(None),
            _ => {
                match self.begin_transition(DomainState::Destroying) {
                    Ok(t) => Ok(Some(t)),
                    Err(e) => Err(e),
                }
            },
        }
    }
}

/// A domain becomes ready, runs and is cleaned in that order; from each of these it can
/// be destroyed, and only a destruction can be given up. No other move is allowed.
pub proof fn law_domains_live_in_order(from: DomainState, to: DomainState, r: bool)
    requires
        call_ensures(transition_allowed, (from, to), r),
    ensures
        r <==> ({
            ||| from is Provisioning && to is Ready
            ||| from is Ready && to is Running
            ||| from is Running && to is Cleaning
            ||| from is Provisioning && to is Destroying
            ||| from is Ready && to is Destroying
            ||| from is Running && to is Destroying
            ||| from is Cleaning && to is Destroying
            ||| from is Destroying && to is Quarantined
        }),
{
}

/// What was written of a sandboxed domain is read back: its attempt and its state.
pub proof fn law_written_domains_are_read_back(
    attempt_id: u128,
    state: DomainState,
    record: LinuxJournalRecord,
    path: &str,
    r: Result<TrustedJournalRecord, ExecutionDomainError>,
)
    requires
        call_ensures(linux_record, (attempt_id, state), record),
        call_ensures(accept_linux_record, (path, record), r),
    ensures
        r matches Ok(read) && read.attempt_id == attempt_id && read.state == state,
        record.version == 2,
        record.layout_version == 1,
        record.backend@ == "linux"@,
{
}

/// What was written of a domain that shares the host is read back: its attempt and its
/// state.
pub proof fn law_written_records_are_read_back(
    attempt_id: u128,
    state: DomainState,
    record: TrustedJournalRecord,
    path: &str,
    r: Result<TrustedJournalRecord, ExecutionDomainError>,
)
    requires
        call_ensures(trusted_record, (attempt_id, state), record),
        call_ensures(accept_trusted_record, (path, record), r),
    ensures
        r matches Ok(read) && read.attempt_id == attempt_id && read.state == state,
        record.version == 1,
{
}

/// Records of another version, backend or layout are not believed.
pub proof fn law_foreign_records_are_refused(
    path: &str,
    trusted: TrustedJournalRecord,
    linux: LinuxJournalRecord,
    a: Result<TrustedJournalRecord, ExecutionDomainError>,
    b: Result<TrustedJournalRecord, ExecutionDomainError>,
)
    requires
        call_ensures(accept_trusted_record, (path, trusted), a),
        call_ensures(accept_linux_record, (path, linux), b),
    ensures
        a is Ok <==> trusted.version == 1,
        b is Ok <==> linux.version == 2 && linux.layout_version == 1 && linux.backend@ == "linux"@,
{
}

/// The journal of a sandboxed domain says what can be recovered: nothing where there is
/// none, its state where it is the attempt's own and not yet gone, and that the domain
/// shares the host where it says so.
pub proof fn law_journals_say_what_can_be_recovered(
    path: &str,
    contents: JournalContents,
    attempt: AttemptIdentity,
    r: Result<LinuxJournalEvidence, ExecutionDomainError>,
)
    requires
        call_ensures(inspect_linux_journal, (path, contents, attempt), r),
    ensures
        contents is Missing ==> r == Ok::<LinuxJournalEvidence, ExecutionDomainError>(
            LinuxJournalEvidence::Missing,
        ),
        contents matches JournalContents::Linux(record) ==> (if record.version == 2
            && record.layout_version == 1 && record.backend@ == "linux"@ && record.attempt_id
            == attempt@ && record.state != DomainState::Destroyed {
            r == Ok::<LinuxJournalEvidence, ExecutionDomainError>(
                LinuxJournalEvidence::Recoverable(record.state),
            )
        } else {
            r is Err
        }),
        contents matches JournalContents::Trusted(record) ==> (if record.version == 1
            && record.attempt_id == attempt@ {
            r == Ok::<LinuxJournalEvidence, ExecutionDomainError>(
                LinuxJournalEvidence::TrustedV1Diagnostic,
            )
        } else {
            r is Err
        }),
        contents is Unknown ==> r is Err,
{
}

/// A journal is a plain file with one name and at most four kibibytes.
pub proof fn law_journals_are_small_plain_files(
    path: &str,
    file: RecordFile,
    r: Result<(), ExecutionDomainError>,
)
    requires
        call_ensures(check_record_file, (path, file), r),
    ensures
        r is Ok <==> file.is_regular && file.links == 1 && file.size <= 4096,
        r matches Err(ExecutionDomainError::UnsafeEntry { path: named }) ==> named@ == path@,
        r is Err ==> r->Err_0 is UnsafeEntry,
{
}

/// A journal is kept in a directory that no link leads to, under its full name.
pub proof fn law_journals_are_bound_to_a_directory(
    place: JournalPlace,
    attempt_id: u128,
    state: DomainState,
    r: Result<DomainLifecycle, ExecutionDomainError>,
)
    requires
        call_ensures(DomainLifecycle::bind, (place, attempt_id, state), r),
    ensures
        ({
            let plain = place.is_directory && !place.is_symlink && (forall|i: int|
                0 <= i < place.links@.len() ==> !#[trigger] place.links@[i]);
            &&& plain && place.canonical is Ok ==> (r matches Ok(l) && l.dir()
                == place.canonical->Ok_0@ && l.attempt() == attempt_id && l.at() == state
                && l.record_path() == text::below(place.canonical->Ok_0@, "journal.json"@))
            &&& !plain ==> (r matches Err(ExecutionDomainError::UnsafeEntry { path }) && path@
                == place.path@)
            &&& plain && place.canonical is Err ==> r is Err
        }),
{
}

/// A new journal begins with a domain that is being made, where no half-written record
/// stands in its way.
pub proof fn law_new_journals_begin_provisioning(
    place: JournalPlace,
    attempt_id: u128,
    pending: Result<bool, IoFailure>,
    r: Result<DomainLifecycle, ExecutionDomainError>,
)
    requires
        call_ensures(DomainLifecycle::create, (place, attempt_id, pending), r),
    ensures
        place.is_directory && !place.is_symlink && (forall|i: int|
            0 <= i < place.links@.len() ==> !#[trigger] place.links@[i]) && place.canonical is Ok
            && pending == Ok::<bool, IoFailure>(false) ==> (r matches Ok(l) && l.attempt()
            == attempt_id && l.at() == DomainState::Provisioning && l.dir()
            == place.canonical->Ok_0@),
        pending != Ok::<bool, IoFailure>(false) ==> r is Err,
{
}

/// A journal that is read gives the attempt and the state that were written.
pub proof fn law_read_journals_give_what_was_written(
    place: JournalPlace,
    pending: Result<bool, IoFailure>,
    file: RecordFile,
    attempt_id: u128,
    state: DomainState,
    record: TrustedJournalRecord,
    r: Result<DomainLifecycle, ExecutionDomainError>,
)
    requires
        call_ensures(trusted_record, (attempt_id, state), record),
        call_ensures(
            DomainLifecycle::load,
            (place, pending, Ok(JournalReading { file, record: Ok(record) })),
            r,
        ),
        place.is_directory,
        !place.is_symlink,
        forall|i: int| 0 <= i < place.links@.len() ==> !#[trigger] place.links@[i],
        place.canonical is Ok,
        pending == Ok::<bool, IoFailure>(false),
        file.is_regular,
        file.links == 1,
        file.size <= 4096,
    ensures
        r matches Ok(l) && l.attempt() == attempt_id && l.at() == state && l.dir()
            == place.canonical->Ok_0@,
{
}

/// The journal of a sandboxed domain gives the attempt and the state that were written.
pub proof fn law_read_domains_give_what_was_written(
    attempt_dir: &str,
    held: Result<(), ExecutionDomainError>,
    pending: Result<(), ExecutionDomainError>,
    attempt_id: u128,
    state: DomainState,
    record: LinuxJournalRecord,
    made: Result<DomainLifecycle, ExecutionDomainError>,
    r: Result<DomainLifecycle, ExecutionDomainError>,
)
    requires
        call_ensures(linux_record, (attempt_id, state), record),
        call_ensures(DomainLifecycle::load_strict, (attempt_dir, held, pending, Ok(record)), r),
        call_ensures(DomainLifecycle::create_strict, (attempt_dir, attempt_id, held, pending), made),
    ensures
        held is Ok && pending is Ok ==> (r matches Ok(l) && l.attempt() == attempt_id && l.at()
            == state && l.dir() == attempt_dir@),
        held is Ok && pending is Ok ==> (made matches Ok(l) && l.attempt() == attempt_id && l.at()
            == DomainState::Provisioning && l.dir() == attempt_dir@),
        held is Err ==> r is Err && r->Err_0 == held->Err_0 && made is Err && made->Err_0
            == held->Err_0,
        held is Ok && pending is Err ==> r is Err && r->Err_0 == pending->Err_0,
{
}

/// A move is begun where it is allowed, and refused with both states named elsewhere.
pub proof fn law_forbidden_moves_are_named(
    l: DomainLifecycle,
    to: DomainState,
    r: Result<Transition, ExecutionDomainError>,
    allowed: bool,
)
    requires
        call_ensures(DomainLifecycle::begin_transition, (&l, to), r),
        call_ensures(transition_allowed, (l.at(), to), allowed),
    ensures
        allowed ==> (r matches Ok(t) && t.to == to && t.stage == TransitionStage::Directory),
        !allowed ==> r == Err::<Transition, ExecutionDomainError>(
            ExecutionDomainError::InvalidTransition { from: l.at(), to },
        ),
{
}

/// A move looks at the directory, at what is pending and at the record before it writes,
/// and the state changes only with the write; any failure leaves it as it was.
pub proof fn law_moves_are_written_last(
    l: &mut DomainLifecycle,
    t: Transition,
    event: JournalEvent,
    r: TransitionStep,
)
    requires
        call_ensures(DomainLifecycle::transition, (l, t, event), r),
        event_fits(t.stage, event),
    ensures
        final(l).at() == (if t.stage == TransitionStage::Write && event is Passed {
            t.to
        } else {
            old(l).at()
        }),
        final(l).attempt() == old(l).attempt(),
        final(l).dir() == old(l).dir(),
        event matches JournalEvent::Failed(e) ==> r == TransitionStep::Finished(Err(e)),
        t.stage == TransitionStage::Directory && event is Passed ==> (
        r matches TransitionStep::Next(n) && n.to == t.to && n.stage == TransitionStage::Pending),
        t.stage == TransitionStage::Pending && event is Passed ==> (
        r matches TransitionStep::Next(n) && n.to == t.to && n.stage == TransitionStage::Record),
        event matches JournalEvent::Record(record) ==> (if record.attempt_id == old(l).attempt()
            && record.state == old(l).at() {
            r matches TransitionStep::Next(n) && n.to == t.to && n.stage == TransitionStage::Write
        } else {
            r matches TransitionStep::Finished(Err(_))
        }),
        t.stage == TransitionStage::Write && event is Passed ==> (
        r matches TransitionStep::Finished(Ok(_))),
{
}

/// Only a domain that is being destroyed, or was given up, comes to be gone.
pub proof fn law_only_destroyed_domains_are_gone(
    l: &mut DomainLifecycle,
    r: Result<(), ExecutionDomainError>,
)
    requires
        call_ensures(DomainLifecycle::complete_destroyed, (l,), r),
    ensures
        r is Ok <==> old(l).at() is Destroying || old(l).at() is Quarantined,
        r is Ok ==> final(l).at() is Destroyed,
        r is Err ==> final(l).at() == old(l).at(),
{
}

/// A destruction is written down once: not where the domain is being destroyed already,
/// was given up, or is gone.
pub proof fn law_destructions_are_begun_once(
    l: DomainLifecycle,
    r: Result<Option<Transition>, ExecutionDomainError>,
)
    requires
        call_ensures(DomainLifecycle::begin_destroying, (&l,), r),
    ensures
        r is Ok,
        l.at() is Provisioning || l.at() is Ready || l.at() is Running || l.at() is Cleaning ==> (
        r->Ok_0 matches Some(t) && t.to is Destroying && t.stage == TransitionStage::Directory),
        l.at() is Destroying || l.at() is Destroyed || l.at() is Quarantined ==> r->Ok_0 is None,
{
}

/// No two states share a name.
pub proof fn law_states_have_their_own_names(
    a: DomainState,
    b: DomainState,
    left: &'static str,
    right: &'static str,
)
    requires
        call_ensures(DomainState::name, (&a,), left),
        call_ensures(DomainState::name, (&b,), right),
    ensures
        left@ == right@ <==> a == b,
{
    reveal_strlit("Provisioning");
    reveal_strlit("Ready");
    reveal_strlit("Running");
    reveal_strlit("Cleaning");
    reveal_strlit("Destroying");
    reveal_strlit("Destroyed");
    reveal_strlit("Quarantined");
    assert(a != b ==> left@.len() != right@.len());
}

/// A half-written record refuses whatever would be written next, under its own path.
pub proof fn law_half_written_records_refuse(
    l: DomainLifecycle,
    pending: Result<bool, IoFailure>,
    r: Result<(), ExecutionDomainError>,
    state: DomainState,
)
    requires
        call_ensures(DomainLifecycle::refuse_next, (&l, pending), r),
        call_ensures(DomainLifecycle::state, (&l,), state),
    ensures
        r is Ok <==> pending is Ok && !pending->Ok_0,
        pending == Ok::<bool, IoFailure>(true) ==> (r matches Err(
            ExecutionDomainError::UnsafeEntry { path },
        ) && path@ == text::below(l.dir(), "journal.json.next"@)),
        pending is Err ==> (r matches Err(ExecutionDomainError::Io { path, source, .. }) && source
            == pending->Err_0 && path@ == text::below(l.dir(), "journal.json.next"@)),
        state == l.at(),
{
    if pending is Ok {
        assert(pending == Ok::<bool, IoFailure>(pending->Ok_0));
    }
}

} // verus!
