use execution_domain::contracts::AttemptIdentity;
use execution_domain::error::{ExecutionDomainError, IoFailure};
use execution_domain::journal::{
    accept_linux_record, accept_trusted_record, check_record_file, inspect_linux_journal,
    linux_record, trusted_record, DomainLifecycle, DomainState, JournalContents, JournalEvent,
    JournalPlace, JournalReading, LinuxJournalEvidence, LinuxJournalRecord, RecordFile,
    TransitionStage, TransitionStep, TrustedJournalRecord, JOURNAL_LIMIT,
};
use uuid::Uuid;

const PLAIN: RecordFile = RecordFile { is_regular: true, links: 1, size: 90 };

fn denied() -> IoFailure {
    IoFailure { errno: Some(13), description: "denied".to_owned() }
}

/// A real directory that resolves to `/attempt`.
fn place<'a>(path: &'a str, links: &'a [bool]) -> JournalPlace<'a> {
    JournalPlace {
        path,
        is_directory: true,
        is_symlink: false,
        links,
        canonical: Ok("/attempt".to_owned()),
    }
}

fn create(id: u128) -> DomainLifecycle {
    DomainLifecycle::create(place("/attempt", &[false, false]), id, Ok(false)).unwrap()
}

fn load_from(file: RecordFile, record: TrustedJournalRecord) -> Result<DomainLifecycle, ExecutionDomainError> {
    DomainLifecycle::load(
        place("/attempt", &[false, false]),
        Ok(false),
        Ok(JournalReading { file, record: Ok(record) }),
    )
}

fn load(record: TrustedJournalRecord) -> DomainLifecycle {
    load_from(PLAIN, record).unwrap()
}

/// Moves a journal whose record on disk says `stored`.
fn transition(
    lifecycle: &mut DomainLifecycle,
    stored: &mut TrustedJournalRecord,
    to: DomainState,
) -> Result<(), ExecutionDomainError> {
    let mut move_ = lifecycle.begin_transition(to)?;
    loop {
        let event = match move_.stage {
            TransitionStage::Directory | TransitionStage::Pending => JournalEvent::Passed,
            TransitionStage::Record => JournalEvent::Record(trusted_record(
                stored.attempt_id,
                stored.state,
            )),
            TransitionStage::Write => {
                *stored = trusted_record(stored.attempt_id, to);
                JournalEvent::Passed
            }
        };
        match lifecycle.transition(move_, event) {
            TransitionStep::Next(next) => move_ = next,
            TransitionStep::Finished(result) => return result,
        }
    }
}

#[test]
fn rejects_skipped_transition() {
    let id = Uuid::from_u128(8).as_u128();
    let mut lifecycle = create(id);
    let mut stored = trusted_record(id, DomainState::Provisioning);
    let error = transition(&mut lifecycle, &mut stored, DomainState::Running).unwrap_err();
    assert!(matches!(error, ExecutionDomainError::InvalidTransition { .. }));
    assert_eq!(load(stored).state(), DomainState::Provisioning);
    assert!(lifecycle.complete_destroyed().is_err());
}

#[test]
fn a_whole_life_passes_through_every_state() {
    let id = Uuid::from_u128(7).as_u128();
    let mut lifecycle = create(id);
    let mut stored = trusted_record(id, DomainState::Provisioning);
    for state in [
        DomainState::Ready,
        DomainState::Running,
        DomainState::Cleaning,
        DomainState::Destroying,
    ] {
        transition(&mut lifecycle, &mut stored, state).unwrap();
        assert_eq!(stored.state, state);
        assert_eq!(lifecycle.state(), state);
    }
    lifecycle.complete_destroyed().unwrap();
    assert_eq!(lifecycle.state(), DomainState::Destroyed);
    assert!(matches!(lifecycle.begin_destroying(), Ok(None)));
}

#[test]
fn exactly_the_allowed_moves_are_made() {
    let states = [DomainState::Provisioning, DomainState::Ready, DomainState::Running, DomainState::Cleaning, DomainState::Destroying, DomainState::Destroyed, DomainState::Quarantined];
    let allowed = [
        (DomainState::Provisioning, DomainState::Ready),
        (DomainState::Provisioning, DomainState::Destroying),
        (DomainState::Ready, DomainState::Running),
        (DomainState::Ready, DomainState::Destroying),
        (DomainState::Running, DomainState::Cleaning),
        (DomainState::Running, DomainState::Destroying),
        (DomainState::Cleaning, DomainState::Destroying),
        (DomainState::Destroying, DomainState::Quarantined),
    ];
    for from in states {
        for to in states {
            let mut stored = trusted_record(9, from);
            let mut lifecycle = load(trusted_record(9, from));
            let result = transition(&mut lifecycle, &mut stored, to);
            assert_eq!(result.is_ok(), allowed.contains(&(from, to)), "{from:?} -> {to:?}");
            assert_eq!(stored.state, if result.is_ok() { to } else { from });
        }
    }
}

#[test]
fn a_record_of_somebody_else_stops_a_move() {
    for (id, state) in [(0x99, DomainState::Provisioning), (9, DomainState::Running)] {
        let mut lifecycle = create(9);
        let mut stored = trusted_record(id, state);
        let error = transition(&mut lifecycle, &mut stored, DomainState::Ready).unwrap_err();
        assert!(matches!(
            error,
            ExecutionDomainError::UnsafeEntry { path } if path == "/attempt/journal.json"
        ));
        assert_eq!(lifecycle.state(), DomainState::Provisioning);
        assert_eq!(stored.state, state);
    }
}

#[test]
fn a_failed_stage_ends_the_move_with_its_error() {
    let mut lifecycle = create(9);
    let move_ = lifecycle.begin_transition(DomainState::Ready).unwrap();
    let failed = JournalEvent::Failed(ExecutionDomainError::InvalidDomainPath);
    assert!(matches!(
        lifecycle.transition(move_, failed),
        TransitionStep::Finished(Err(ExecutionDomainError::InvalidDomainPath))
    ));
    assert_eq!(lifecycle.state(), DomainState::Provisioning);
}

#[test]
fn journals_bind_only_to_their_real_directory() {
    let bind = |place| DomainLifecycle::bind(place, 5, DomainState::Ready);
    for path in ["/attempt", "/attempt/", "/x/../attempt", "attempt"] {
        assert_eq!(bind(place(path, &[false, false])).unwrap().state(), DomainState::Ready);
    }
    for refused in [
        bind(JournalPlace { is_directory: false, ..place("/a", &[]) }),
        bind(JournalPlace { is_symlink: true, ..place("/a", &[]) }),
        bind(place("/a", &[false, true, false])),
    ] {
        assert!(matches!(
            refused,
            Err(ExecutionDomainError::UnsafeEntry { path }) if path == "/a"
        ));
    }
    assert!(matches!(
        bind(JournalPlace { canonical: Err(denied()), ..place("/a", &[]) }),
        Err(ExecutionDomainError::Io { operation: "canonicalizing journal directory", path, .. })
            if path == "/a"
    ));
}

#[test]
fn linux_initial_journal_refuses_symlinked_parent() {
    let linked = DomainLifecycle::create(place("/active/attempt", &[false, true, false]), 4, Ok(false));
    assert!(linked.is_err());
}

#[test]
fn linux_journal_refuses_hardlinked_or_oversized_record() {
    for hardlink in [true, false] {
        let file = if hardlink {
            RecordFile { links: 2, ..PLAIN }
        } else {
            RecordFile { size: 81 + 16 * 1024, ..PLAIN }
        };
        assert!(load_from(file, trusted_record(9, DomainState::Ready)).is_err());
    }
}

#[test]
fn moves_left_half_done_keep_a_journal_from_being_used() {
    let here = || place("/attempt/", &[false, false]);
    assert!(matches!(
        DomainLifecycle::create(here(), 4, Ok(true)),
        Err(ExecutionDomainError::UnsafeEntry { path }) if path == "/attempt/journal.json.next"
    ));
    assert!(matches!(
        DomainLifecycle::create(here(), 4, Err(denied())),
        Err(ExecutionDomainError::Io { operation: "checking pending lifecycle journal", path, .. })
            if path == "/attempt/journal.json.next"
    ));
    let reading = || {
        Ok(JournalReading { file: PLAIN, record: Ok(trusted_record(9, DomainState::Ready)) })
    };
    assert!(DomainLifecycle::load(here(), Ok(true), reading()).is_err());
    let loaded = DomainLifecycle::load(here(), Ok(false), reading()).unwrap();
    assert_eq!(loaded.state(), DomainState::Ready);
}

#[test]
fn unreadable_and_unknown_records_are_not_loaded() {
    let load = |reading| DomainLifecycle::load(place("/attempt", &[]), Ok(false), reading);
    assert!(matches!(
        load(Err(ExecutionDomainError::InvalidDomainPath)),
        Err(ExecutionDomainError::InvalidDomainPath)
    ));
    assert!(matches!(
        load(Ok(JournalReading { file: PLAIN, record: Err(ExecutionDomainError::InvalidDomainPath) })),
        Err(ExecutionDomainError::InvalidDomainPath)
    ));
    let unknown = TrustedJournalRecord { version: 2, ..trusted_record(9, DomainState::Ready) };
    assert!(matches!(
        load_from(PLAIN, unknown),
        Err(ExecutionDomainError::UnsupportedJournalVersion { version: 2, path })
            if path == "/attempt/journal.json"
    ));
}

#[test]
fn sandboxed_journals_need_a_held_directory_and_a_known_record() {
    let failed = || Err(ExecutionDomainError::InvalidDomainPath);
    let begun = DomainLifecycle::create_strict("/attempt", 7, Ok(()), Ok(())).unwrap();
    assert_eq!(begun.state(), DomainState::Provisioning);
    assert!(DomainLifecycle::create_strict("/attempt", 7, failed(), Ok(())).is_err());
    assert!(DomainLifecycle::create_strict("/attempt", 7, Ok(()), failed()).is_err());
    let written = || linux_record(7, DomainState::Cleaning);
    let loaded = DomainLifecycle::load_strict("/attempt", Ok(()), Ok(()), Ok(written())).unwrap();
    assert_eq!(loaded.state(), DomainState::Cleaning);
    let other = LinuxJournalRecord { backend: "other".to_owned(), ..written() };
    assert!(matches!(
        DomainLifecycle::load_strict("/attempt", Ok(()), Ok(()), Ok(other)),
        Err(ExecutionDomainError::UnsafeEntry { path }) if path == "/attempt/journal.json"
    ));
    assert!(DomainLifecycle::load_strict("/attempt", failed(), Ok(()), Ok(written())).is_err());
}

#[test]
fn records_of_another_version_are_refused() {
    let mut record = trusted_record(3, DomainState::Running);
    record.version = 7;
    assert!(matches!(
        accept_trusted_record("/j", record),
        Err(ExecutionDomainError::UnsupportedJournalVersion { path, version: 7 }) if path == "/j"
    ));
    let accepted = accept_trusted_record("/j", trusted_record(3, DomainState::Running)).unwrap();
    assert_eq!(accepted.attempt_id, 3);
    assert_eq!(accepted.state, DomainState::Running);
}

#[test]
fn a_written_linux_record_is_believed_and_a_changed_one_is_not() {
    let attempt = AttemptIdentity::from_uuid(21).unwrap();
    let written = linux_record(21, DomainState::Cleaning);
    assert_eq!((written.version, written.layout_version), (2, 1));
    assert!(accept_linux_record("/j", written).is_ok());
    assert!(matches!(
        inspect_linux_journal(
            "/j",
            JournalContents::Linux(linux_record(21, DomainState::Cleaning)),
            attempt
        ),
        Ok(LinuxJournalEvidence::Recoverable(DomainState::Cleaning))
    ));
    assert!(matches!(
        inspect_linux_journal("/j", JournalContents::Missing, attempt),
        Ok(LinuxJournalEvidence::Missing)
    ));
    for change in 0..4 {
        let mut record: LinuxJournalRecord = linux_record(21, DomainState::Cleaning);
        match change {
            0 => record.version = 1,
            1 => record.backend = "other".to_owned(),
            2 => record.layout_version = 2,
            _ => record.attempt_id = 22,
        }
        assert!(
            inspect_linux_journal("/j", JournalContents::Linux(record), attempt).is_err(),
            "{change}"
        );
    }
    assert!(inspect_linux_journal("/j", JournalContents::Unknown(9), attempt).is_err());
}

#[test]
fn only_a_single_small_regular_file_is_a_record() {
    let file = |is_regular, links, size| check_record_file("/j", RecordFile { is_regular, links, size });
    assert!(file(true, 1, JOURNAL_LIMIT).is_ok());
    assert!(file(true, 1, JOURNAL_LIMIT + 1).is_err());
    assert!(file(true, 2, 1).is_err());
    assert!(file(false, 1, 1).is_err());
}
