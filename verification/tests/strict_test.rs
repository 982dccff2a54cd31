use execution_domain::contracts::{AttemptIdentity, DestroyReport, FailureCategory};
use execution_domain::error::ExecutionDomainError;
use execution_domain::journal::DomainState;
use execution_domain::linux::cleanup::CleanupRootKind;
use execution_domain::linux::destroy::failure;
use execution_domain::linux::strict::{
    attempt_directories, cleanup_kind, mounted_there, prove_no_mount_below, reap_launcher,
    unescape_mountinfo, CreatedStage, CreatedStageStack, ExternalRevocationState, Provision,
    ProvisionStep, ReapStep, SocketAction, StrictCleanupRecord, StrictProvisionFailure,
};

fn attempt() -> AttemptIdentity {
    AttemptIdentity::from_uuid(7).unwrap()
}

#[test]
fn stages_are_discharged_in_reverse() {
    let mut stack = CreatedStageStack::new(vec![]);
    stack.push(CreatedStage::AttemptCgroup);
    stack.push(CreatedStage::AttemptFilesystem);
    assert!(stack.contains(CreatedStage::AttemptCgroup));
    assert!(stack.discharge(CreatedStage::AttemptCgroup).is_err());
    stack.discharge(CreatedStage::AttemptFilesystem).unwrap();
    stack.discharge(CreatedStage::AttemptCgroup).unwrap();
    assert!(stack.is_empty());
}

#[test]
fn cleanup_waits_for_what_was_published() {
    let mut state = ExternalRevocationState::Unpublished;
    assert!(state.cleanup_allowed());
    state.publish();
    assert!(!state.cleanup_allowed());
    state.prove();
    assert!(state.cleanup_allowed());
}

fn provision(fail_at: Option<usize>) -> (usize, ProvisionStep) {
    let mut run = Provision::begin(true, true);
    let mut done = 0;
    loop {
        let outcome = if fail_at == Some(done) {
            Err(failure(FailureCategory::Io))
        } else {
            Ok(())
        };
        match run.advance(outcome) {
            ProvisionStep::Continue(next) => {
                run = next;
                done += 1;
            }
            end => return (done, end),
        }
    }
}

#[test]
fn a_failed_provision_is_rolled_back_with_what_it_made() {
    let (operations, end) = provision(None);
    match end {
        ProvisionStep::Done(stages) => {
            assert!(stages.contains(CreatedStage::AttemptCgroup));
            assert!(stages.contains(CreatedStage::KernelDomain));
            assert!(stages.contains(CreatedStage::Evacuated));
        }
        _ => panic!("the provision did not complete"),
    }
    for at in 0..=operations {
        match provision(Some(at)).1 {
            ProvisionStep::RemoveCgroup(_) | ProvisionStep::Rollback(_, _) => {}
            _ => panic!("failure {at} was lost"),
        }
    }
}

#[test]
fn a_failed_rollback_is_quarantined() {
    let source = || failure(FailureCategory::Io);
    let clean = StrictProvisionFailure::rollback(source(), Ok(()));
    assert!(!clean.quarantine && !clean.retained);
    let lost = StrictProvisionFailure::rollback(source(), Err(source()));
    assert!(lost.quarantine && lost.retained);
    assert!(matches!(lost.error, ExecutionDomainError::LifecycleAndDestroyFailed { .. }));
    let partial = StrictProvisionFailure::rollback_partial_cgroup(source(), Ok(()));
    assert!(partial.quarantine && !partial.retained);
    assert!(StrictProvisionFailure::unknown(source()).quarantine);
}

fn record(stages: Vec<CreatedStage>, lifecycle: Option<DomainState>) -> StrictCleanupRecord {
    StrictCleanupRecord::new(
        attempt(),
        CreatedStageStack::new(stages),
        lifecycle,
        true,
        true,
        false,
    )
}

#[test]
fn a_record_is_destroyed_step_by_step() {
    let mut held = record(
        vec![
            CreatedStage::AttemptCgroup,
            CreatedStage::AttemptFilesystem,
            CreatedStage::LifecycleJournal,
            CreatedStage::RootlessKitSocket,
            CreatedStage::KernelDomain,
            CreatedStage::Evacuated,
        ],
        Some(DomainState::Ready),
    );
    assert!(held.close_admission().is_ok());
    assert!(held.needs_destroying());
    held.persist_destroying(Ok(()), Some(DomainState::Destroying)).unwrap();
    assert_eq!(held.lifecycle, Some(DomainState::Destroying));
    assert!(held.close_handles(Ok(false)).is_err());
    held.close_handles(Ok(true)).unwrap();
    assert!(!held.kernel && held.handles_closed);
    assert_eq!(held.control_action(), SocketAction::Remove);
    assert_eq!(held.runtime_action(false), SocketAction::Skip);
    held.remove_runtime_socket(Ok(()), Ok(())).unwrap();
    assert!(held.filesystem_due());
    held.remove_filesystem(Ok(()), Ok(())).unwrap();
    assert!(held.cgroup_due());
    held.remove_cgroup(Ok(())).unwrap();
    assert!(held.stages.is_empty());
    held.mark_destroyed(Ok(())).unwrap();
    let report = DestroyReport { attempt: attempt(), forced_kill: true };
    assert!(!held.finish_destroy(&Ok(report)));
    assert_eq!(held.earlier_report(), Some(report));
}

#[test]
fn a_published_record_waits_for_its_revocation() {
    let mut held = record(vec![CreatedStage::AttemptCgroup], None);
    held.mark_published();
    assert!(held.close_admission().is_err());
    held.authorize_external_revocation();
    assert!(held.close_admission().is_ok());
    assert!(held.finish_destroy(&Err(failure(FailureCategory::Io))) == false);
}

#[test]
fn every_mount_below_a_path_is_found() {
    let info = b"1 0 8:2 / / rw - ext4 d rw\n2 1 8:2 /x /srv/a\\040b/c rw - ext4 d rw\n";
    assert!(prove_no_mount_below(b"/srv/a b", info).is_err());
    assert!(prove_no_mount_below(b"/srv/a", info).is_ok());
    assert!(prove_no_mount_below(b"/srv", b"too few fields\n").is_ok());
    assert!(prove_no_mount_below(b"/srv", b"1 0 8:2 / /x\\04 rw\n").is_err());
    assert!(mounted_there(b"2 1 8:2 /x /srv rw - ext4 d rw", b"/srv").unwrap());
    assert!(!mounted_there(b"2 1 8:2 /x /srv2 rw - ext4 d rw", b"/srv").unwrap());
    assert_eq!(unescape_mountinfo(b"a\\011b").unwrap(), b"a\tb");
    assert!(unescape_mountinfo(b"a\\01").is_err());
    assert!(unescape_mountinfo(b"a\\777").is_err());
}

#[test]
fn the_launcher_is_looked_at_until_the_deadline() {
    assert!(matches!(reap_launcher(Ok(true), 1, 10), ReapStep::Ended));
    assert!(matches!(reap_launcher(Ok(false), 1, 10), ReapStep::Pause(9)));
    assert!(matches!(reap_launcher(Ok(false), 10, 10), ReapStep::Failed(_)));
    assert!(matches!(reap_launcher(Err(Some(5)), 1, 10), ReapStep::Failed(_)));
}

#[test]
fn staging_roots_lie_in_their_attempt() {
    let root = b"/srv/active/00000000000000000000000000000007/rootfs";
    let found = attempt_directories(root, attempt()).unwrap();
    assert!(found.active.named("active"));
    assert!(found.attempt.named("00000000000000000000000000000007"));
    assert!(attempt_directories(b"/srv/active/other/rootfs", attempt()).is_err());
    assert_eq!(cleanup_kind("/work"), Some(CleanupRootKind::Work));
    assert_eq!(cleanup_kind("/etc"), None);
}

#[test]
fn mounts_are_looked_for_only_once_handles_are_closed() {
    let stages = CreatedStageStack::new(vec![
        CreatedStage::AttemptCgroup,
        CreatedStage::AttemptFilesystem,
    ]);
    let mut record = StrictCleanupRecord::new(attempt(), stages, None, false, false, false);
    let clean = || Ok(b"1 0 8:1 / / rw - ext4 /dev/sda1 rw\n".to_vec());
    let prove = |record: &StrictCleanupRecord, rootfs, mountinfo| {
        record.prove_no_mounts(Ok(()), Ok(()), rootfs, b"/srv/active/one", mountinfo)
    };
    assert!(prove(&record, Ok(()), clean()).is_err());
    record.close_handles(Ok(true)).unwrap();
    assert!(prove(&record, Ok(()), clean()).is_ok());
    assert!(prove(&record, Err(failure(FailureCategory::IdentityMismatch)), clean()).is_err());
    assert!(prove(&record, Ok(()), Err(Some(5))).is_err());
    let mounted = b"2 1 8:2 / /srv/active/one/tmp rw - tmpfs tmpfs rw\n".to_vec();
    assert!(prove(&record, Ok(()), Ok(mounted)).is_err());
}
