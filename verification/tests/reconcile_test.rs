use execution_domain::attempts::AttemptSet;
use execution_domain::contracts::{AttemptIdentity, FailureCategory};
use execution_domain::error::ExecutionDomainError;
use execution_domain::linux::destroy;
use execution_domain::linux::reconcile::{
    classify_directory, classify_group, owned_attempts, parse_owned_name, required_proof,
    retain_optional, DirectoryProof, GroupEntry,
    Inventory, OwnedKind, ReconcileKind, ReconcileOperation, ReconcileStep, Reconciliation,
};
use execution_domain::journal::{DomainState, LinuxJournalEvidence};
use uuid::Uuid;

fn attempt(value: u128) -> AttemptIdentity {
    AttemptIdentity::from_uuid(Uuid::from_u128(value).as_u128()).unwrap()
}

fn set(list: &[AttemptIdentity]) -> AttemptSet {
    let mut result = AttemptSet::new();
    for id in list {
        result.insert(*id);
    }
    result
}

#[test]
fn owned_attempts_unions_sorts_and_deduplicates_both_roots() {
    let first = attempt(1);
    let second = attempt(2);
    let found = owned_attempts(
        &[second.component(), first.component()],
        &[
            format!("attempt-{}", second.component()),
            format!("cleanup-{}", first.component()),
            "supervisor".to_owned(),
        ],
    )
    .unwrap();

    assert_eq!(found, vec![first, second]);
}

#[test]
fn owned_attempts_refuses_nil_noncanonical_traversal_and_unknown_names() {
    for name in [
        "00000000000000000000000000000000",
        "0000000000000000000000000000000A",
        "../outside",
        "not-an-attempt",
        "attempt-00000000000000000000000000000001",
    ] {
        assert!(owned_attempts(&[name.to_owned()], &[]).is_err(), "{name}");
    }
    for name in [
        "attempt-00000000000000000000000000000000",
        "attempt-0000000000000000000000000000000A",
        "cleanup-../outside",
        "not-an-attempt",
    ] {
        assert!(owned_attempts(&[], &[name.to_owned()]).is_err(), "{name}");
    }
}

struct FakeRecovery {
    events: Vec<String>,
    fail: Option<&'static str>,
    final_inventory: Inventory,
}

impl FakeRecovery {
    fn new() -> Self {
        Self { events: Vec::new(), fail: None, final_inventory: Inventory::new() }
    }

    fn event(&mut self, value: String) -> Result<bool, ExecutionDomainError> {
        self.events.push(value.clone());
        if self.fail == Some(value.as_str()) {
            return Err(destroy::failure(FailureCategory::Unavailable));
        }
        Ok(true)
    }

    fn perform(&mut self, operation: ReconcileOperation) -> Result<bool, ExecutionDomainError> {
        let name = match operation.kind {
            ReconcileKind::NeutralizeCleanup => "neutralize-cleanup",
            ReconcileKind::NeutralizeAttempt => "neutralize-attempt",
            ReconcileKind::ProveFilesystem => "prove-filesystem",
            ReconcileKind::RemoveCleanupCgroup => "remove-cleanup-cgroup",
            ReconcileKind::RemoveCleanupBootstrap => "remove-cleanup-bootstrap",
            ReconcileKind::RemoveAttemptFilesystem => "remove-filesystem",
            ReconcileKind::RemoveAttemptCgroup => "remove-cgroup",
            ReconcileKind::FsyncActiveRoot => return self.event("fsync-active".into()),
            ReconcileKind::Reinventory => {
                self.event("reinventoried".into())?;
                return Ok(self.final_inventory.is_empty());
            }
        };
        self.event(format!("{name}-{}", operation.attempt.unwrap().component()))
    }
}

fn reconcile_inventory(
    inventory: &Inventory,
    recovery: &mut FakeRecovery,
) -> Result<(), ExecutionDomainError> {
    let mut step = Reconciliation::begin(inventory, None);
    loop {
        match step {
            ReconcileStep::Done(result) => return result,
            ReconcileStep::Continue(run) => {
                let outcome = recovery.perform(run.operation());
                step = run.advance(outcome);
            }
        }
    }
}

#[test]
fn reconcile_neutralizes_all_cgroups_before_any_filesystem_mutation() {
    let first = attempt(1);
    let second = attempt(2);
    let inventory = Inventory {
        attempts: set(&[first, second]),
        attempt_directories: set(&[first, second]),
        attempt_cgroups: set(&[first, second]),
        cleanup_directories: set(&[first]),
        cleanup_cgroups: set(&[first]),
    };
    let mut recovery = FakeRecovery::new();

    reconcile_inventory(&inventory, &mut recovery).unwrap();

    let first_filesystem = recovery
        .events
        .iter()
        .position(|event| event.starts_with("prove-filesystem"))
        .unwrap();
    assert!(recovery.events[..first_filesystem]
        .iter()
        .any(|event| event.starts_with("neutralize-attempt")));
    assert!(!recovery.events[first_filesystem..]
        .iter()
        .any(|event| event.starts_with("neutralize-")));
    assert_eq!(recovery.events.last().unwrap(), "reinventoried");
}

#[test]
fn reconcile_failure_never_mutates_filesystem_or_removes_cgroup() {
    let id = attempt(3);
    let inventory = Inventory {
        attempts: set(&[id]),
        attempt_directories: set(&[id]),
        attempt_cgroups: set(&[id]),
        cleanup_directories: AttemptSet::new(),
        cleanup_cgroups: AttemptSet::new(),
    };
    let mut recovery = FakeRecovery {
        fail: Some("neutralize-attempt-00000000000000000000000000000003"),
        ..FakeRecovery::new()
    };

    assert!(reconcile_inventory(&inventory, &mut recovery).is_err());
    assert!(!recovery.events.iter().any(|event| event.starts_with("remove-")));
}

#[test]
fn a_recovery_of_nothing_only_settles_the_root_and_looks_again() {
    let mut recovery = FakeRecovery::new();
    assert!(Inventory::new().is_empty());
    reconcile_inventory(&Inventory::new(), &mut recovery).unwrap();
    assert_eq!(recovery.events, ["fsync-active", "reinventoried"]);
}

#[test]
fn reconcile_final_union_race_fails_closed() {
    let id = attempt(4);
    let inventory = Inventory {
        attempts: set(&[id]),
        attempt_directories: AttemptSet::new(),
        attempt_cgroups: set(&[id]),
        cleanup_directories: AttemptSet::new(),
        cleanup_cgroups: AttemptSet::new(),
    };
    let mut recovery = FakeRecovery {
        final_inventory: Inventory { attempts: set(&[attempt(5)]), ..Inventory::new() },
        ..FakeRecovery::new()
    };

    assert!(reconcile_inventory(&inventory, &mut recovery).is_err());
}

#[test]
fn names_of_groups_and_directories_are_told_apart() {
    let id = attempt(0xabc);
    let own = id.component();
    assert_eq!(parse_owned_name(&own, true).unwrap(), (OwnedKind::Attempt, id));
    assert_eq!(
        parse_owned_name(&format!("cleanup-{own}"), true).unwrap(),
        (OwnedKind::Cleanup, id)
    );
    assert!(parse_owned_name(&own, false).is_err());
    assert_eq!(
        parse_owned_name(&format!("attempt-{own}"), false).unwrap(),
        (OwnedKind::Attempt, id)
    );
    assert!(parse_owned_name(&Uuid::from_u128(0xabc).to_string(), true).is_err());
}

#[test]
fn only_directories_count_as_groups() {
    assert!(matches!(classify_group(Ok(false), Some("cgroup.procs")), GroupEntry::Ignored));
    assert!(matches!(classify_group(Ok(true), Some("supervisor")), GroupEntry::Ignored));
    assert!(matches!(classify_group(Ok(true), None), GroupEntry::Refused(_)));
    assert!(matches!(classify_group(Ok(true), Some("other")), GroupEntry::Refused(_)));
    assert!(matches!(
        classify_group(Ok(true), Some("attempt-00000000000000000000000000000007")),
        GroupEntry::Owned(OwnedKind::Attempt, id) if id == attempt(7)
    ));
    assert!(matches!(
        classify_group(Err(destroy::failure(FailureCategory::Io)), Some("attempt")),
        GroupEntry::Refused(_)
    ));
}

#[test]
fn evidence_decides_what_must_be_proved() {
    assert!(matches!(
        required_proof(LinuxJournalEvidence::Recoverable(DomainState::Running)),
        Ok(DirectoryProof::RemovableTree)
    ));
    assert!(matches!(
        required_proof(LinuxJournalEvidence::Missing),
        Ok(DirectoryProof::Empty)
    ));
    assert!(required_proof(LinuxJournalEvidence::TrustedV1Diagnostic).is_err());
}

#[test]
fn an_earlier_failure_lets_nothing_be_removed() {
    let id = attempt(6);
    let inventory = Inventory {
        attempts: set(&[id]),
        attempt_directories: set(&[id]),
        attempt_cgroups: set(&[id]),
        cleanup_directories: AttemptSet::new(),
        cleanup_cgroups: AttemptSet::new(),
    };
    let mut step =
        Reconciliation::begin(&inventory, Some(destroy::failure(FailureCategory::Timeout)));
    let mut seen = Vec::new();
    let result = loop {
        match step {
            ReconcileStep::Done(result) => break result,
            ReconcileStep::Continue(run) => {
                seen.push(run.operation().kind);
                step = run.advance(Ok(true));
            }
        }
    };
    assert!(matches!(
        result,
        Err(ExecutionDomainError::Backend { category: FailureCategory::Timeout, .. })
    ));
    assert!(seen.contains(&ReconcileKind::NeutralizeAttempt));
    assert!(!seen.contains(&ReconcileKind::RemoveAttemptFilesystem));
    assert!(!seen.contains(&ReconcileKind::RemoveAttemptCgroup));
}

#[test]
fn the_first_unreadable_name_decides_and_directories_come_first() {
    let good = attempt(1).component();
    let nil = "0".repeat(32);
    let foreign = "not-an-attempt".to_owned();
    let is_nil = |result| matches!(result, Err(ExecutionDomainError::InvalidAttemptIdentity));
    assert!(is_nil(owned_attempts(&[good.clone(), nil.clone(), foreign.clone()], &[])));
    assert!(!is_nil(owned_attempts(&[good.clone(), foreign.clone(), nil.clone()], &[])));
    assert!(is_nil(owned_attempts(&[nil.clone()], &[foreign.clone()])));
    let group = format!("attempt-{nil}");
    assert!(!is_nil(owned_attempts(&[foreign], &[group.clone()])));
    assert!(is_nil(owned_attempts(&[good], &["supervisor".to_owned(), group])));
}

#[test]
fn an_entry_that_failed_is_left_out_and_the_first_error_stays() {
    let (own, broken) = (attempt(1), attempt(2));
    let mut inventory = Inventory::default();
    let mut first = None;
    inventory.take_directory(&mut first, classify_directory(Some(&own.component())));
    assert!(first.is_none());
    inventory.take_directory(&mut first, Err(destroy::failure(FailureCategory::Timeout)));
    inventory.take_directory(&mut first, classify_directory(None));
    let cleanup = format!("cleanup-{}", broken.component());
    inventory.take_directory(&mut first, classify_directory(Some(&cleanup)));
    retain_optional(&mut first, Some(destroy::failure(FailureCategory::Io)));
    retain_optional(&mut first, None);
    assert!(matches!(
        first,
        Some(ExecutionDomainError::Backend { category: FailureCategory::Timeout, .. })
    ));
    let expected = Inventory {
        attempts: set(&[own, broken]),
        attempt_directories: set(&[own]),
        cleanup_directories: set(&[broken]),
        attempt_cgroups: AttemptSet::default(),
        cleanup_cgroups: AttemptSet::default(),
    };
    assert_eq!(inventory, expected);
    assert_eq!(inventory.clone(), expected);
    assert_ne!(inventory, Inventory::default());
}
