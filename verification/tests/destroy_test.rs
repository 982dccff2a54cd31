use execution_domain::clock::LAST_INSTANT;
use execution_domain::contracts::{AttemptIdentity, DestroyReport, FailureCategory};
use execution_domain::error::ExecutionDomainError;
use execution_domain::linux::destroy::{
    failure, DestroyOperation, DestroyStep, Destruction, ShutdownBounds,
};
use uuid::Uuid;

struct Harness {
    events: Vec<&'static str>,
    empty_before_kill: bool,
    empty_after_kill: bool,
    killed: bool,
    term_error: bool,
    fail_at: Option<&'static str>,
    empty_calls: usize,
}

impl Harness {
    fn new(empty_before_kill: bool, empty_after_kill: bool) -> Self {
        Self {
            events: Vec::new(),
            empty_before_kill,
            empty_after_kill,
            killed: false,
            term_error: false,
            fail_at: None,
            empty_calls: 0,
        }
    }

    fn event(&mut self, name: &'static str) -> Result<(), ExecutionDomainError> {
        self.events.push(name);
        if self.fail_at == Some(name) {
            Err(failure(FailureCategory::Io))
        } else {
            Ok(())
        }
    }

    fn empty(&mut self) -> Result<bool, ExecutionDomainError> {
        self.events.push("empty");
        self.empty_calls += 1;
        if self.fail_at == Some("first-empty") && self.empty_calls == 1
            || self.fail_at == Some("second-empty") && self.empty_calls == 2
        {
            return Err(failure(FailureCategory::Io));
        }
        Ok(if self.killed { self.empty_after_kill } else { self.empty_before_kill })
    }

    fn perform(&mut self, operation: DestroyOperation) -> Result<bool, ExecutionDomainError> {
        match operation {
            DestroyOperation::CloseAdmission => self.event("close-admission"),
            DestroyOperation::PersistDestroying => self.event("persist-destroying"),
            DestroyOperation::GracefulShutdown => self.event("shutdown-init"),
            DestroyOperation::TermMembers => {
                let sent = self.event("term");
                if sent.is_ok() && self.term_error {
                    Err(failure(FailureCategory::Io))
                } else {
                    sent
                }
            }
            DestroyOperation::FirstEmpty | DestroyOperation::SecondEmpty => return self.empty(),
            DestroyOperation::KillAll => {
                let sent = self.event("kill");
                self.killed = sent.is_ok();
                sent
            }
            DestroyOperation::ReapLauncher => self.event("reap"),
            DestroyOperation::DrainDiagnostics => self.event("drain"),
            DestroyOperation::CloseHandles => self.event("close-handles"),
            DestroyOperation::ProveNoMounts => self.event("no-mounts"),
            DestroyOperation::RemoveRuntimeSocket => self.event("socket"),
            DestroyOperation::RemoveFilesystem => self.event("unlink-state"),
            DestroyOperation::RemoveCgroup => self.event("remove-cgroup"),
            DestroyOperation::FsyncRoot => self.event("fsync-root"),
            DestroyOperation::MarkDestroyed => self.event("destroyed"),
        }
        .map(|()| true)
    }
}

fn destroy_kernel(
    harness: &mut Harness,
    attempt: AttemptIdentity,
    bounds: ShutdownBounds,
) -> Result<DestroyReport, ExecutionDomainError> {
    let mut destruction = Destruction::begin(attempt, 1_000, bounds)?;
    loop {
        let outcome = harness.perform(destruction.operation());
        match destruction.advance(outcome) {
            DestroyStep::Continue(next) => destruction = next,
            DestroyStep::Done(result) => return result,
        }
    }
}

fn attempt() -> AttemptIdentity {
    AttemptIdentity::from_uuid(Uuid::from_u128(10).as_u128()).unwrap()
}

#[test]
fn destroy_kills_before_removing_files_and_reports_forced_kill() {
    let mut harness = Harness::new(false, true);

    let report = destroy_kernel(&mut harness, attempt(), ShutdownBounds::default()).unwrap();

    assert!(report.forced_kill);
    assert_eq!(report.attempt, attempt());
    assert_eq!(
        harness.events,
        [
            "close-admission",
            "persist-destroying",
            "shutdown-init",
            "term",
            "empty",
            "kill",
            "empty",
            "reap",
            "drain",
            "close-handles",
            "no-mounts",
            "socket",
            "unlink-state",
            "remove-cgroup",
            "fsync-root",
            "destroyed",
        ]
    );
}

#[test]
fn graceful_empty_skips_cgroup_kill() {
    let mut harness = Harness::new(true, true);

    let report = destroy_kernel(&mut harness, attempt(), ShutdownBounds::default()).unwrap();

    assert!(!report.forced_kill);
    assert!(!harness.events.contains(&"kill"));
}

#[test]
fn term_error_still_reaches_kill_but_never_unlinks() {
    let mut harness = Harness::new(true, true);
    harness.term_error = true;

    assert!(destroy_kernel(&mut harness, attempt(), ShutdownBounds::default()).is_err());

    assert!(harness.events.contains(&"kill"));
    assert!(!harness.events.contains(&"unlink-state"));
}

#[test]
fn failed_empty_proof_never_unlinks() {
    let mut harness = Harness::new(false, false);

    assert!(destroy_kernel(&mut harness, attempt(), ShutdownBounds::default()).is_err());

    assert!(harness.events.contains(&"close-handles"));
    assert!(!harness.events.contains(&"unlink-state"));
}

#[test]
fn cgroup_read_error_is_retained_while_kill_and_safe_close_continue() {
    let mut harness = Harness::new(false, true);
    harness.fail_at = Some("first-empty");

    assert!(destroy_kernel(&mut harness, attempt(), ShutdownBounds::default()).is_err());

    assert!(harness.events.contains(&"kill"));
    assert!(harness.events.contains(&"close-handles"));
    assert!(harness.events.contains(&"no-mounts"));
    assert!(!harness.events.contains(&"unlink-state"));
}

#[test]
fn every_proof_failure_blocks_filesystem_mutation() {
    for stage in [
        "close-admission",
        "persist-destroying",
        "shutdown-init",
        "term",
        "kill",
        "reap",
        "drain",
        "close-handles",
        "no-mounts",
    ] {
        let mut harness = Harness::new(false, true);
        harness.fail_at = Some(stage);

        assert!(
            destroy_kernel(&mut harness, attempt(), ShutdownBounds::default()).is_err(),
            "{stage}"
        );
        assert!(!harness.events.contains(&"unlink-state"), "{stage}");
    }
}

#[test]
fn every_destructive_failure_is_reported_without_marking_destroyed() {
    for stage in ["socket", "unlink-state", "remove-cgroup", "fsync-root"] {
        let mut harness = Harness::new(false, true);
        harness.fail_at = Some(stage);

        assert!(
            destroy_kernel(&mut harness, attempt(), ShutdownBounds::default()).is_err(),
            "{stage}"
        );
        assert!(!harness.events.contains(&"destroyed"), "{stage}");
    }
}

#[test]
fn deadlines_follow_one_another() {
    let bounds = ShutdownBounds { term: 10, kill: 20, drain: 30 };
    let mut destruction = Destruction::begin(attempt(), 100, bounds).unwrap_or_else(|e| panic!("{e:?}"));
    let mut limits = Vec::new();
    loop {
        if let Some(limit) = destruction.deadline() {
            limits.push((destruction.operation(), limit));
        }
        let outcome = Ok(destruction.operation() != DestroyOperation::FirstEmpty);
        match destruction.advance(outcome) {
            DestroyStep::Continue(next) => destruction = next,
            DestroyStep::Done(result) => {
                assert!(result.unwrap().forced_kill);
                break;
            }
        }
    }
    assert_eq!(
        limits,
        [
            (DestroyOperation::GracefulShutdown, 110),
            (DestroyOperation::TermMembers, 110),
            (DestroyOperation::FirstEmpty, 110),
            (DestroyOperation::KillAll, 130),
            (DestroyOperation::SecondEmpty, 130),
            (DestroyOperation::ReapLauncher, 160),
            (DestroyOperation::DrainDiagnostics, 160),
        ]
    );
}

#[test]
fn a_destruction_ends_before_the_clock_does() {
    let bounds = || ShutdownBounds { term: 10, kill: 20, drain: 30 };
    assert!(Destruction::begin(attempt(), LAST_INSTANT - 60, bounds()).is_ok());
    for late in [59, 29, 9] {
        assert!(matches!(
            Destruction::begin(attempt(), LAST_INSTANT - late, bounds()),
            Err(ExecutionDomainError::Backend { category: FailureCategory::InvalidInput, .. })
        ));
    }
}
