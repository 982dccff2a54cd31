use execution_domain::contracts::{FailureCategory, StepFilesId};
use execution_domain::error::ExecutionDomainError;
use execution_domain::linux::cgroup::{
    capture_failure, check_delegated, check_supervisor_start, SupervisorStage,
};
use execution_domain::linux::cleanup::{
    failure, verify_empty_supplementary_groups, CleanupRootKind,
};
use execution_domain::linux::cleanup_protocol::{
    after_failed_attach, bootstrap_removable, check_emptied_root, check_poll, check_received,
    check_removal_step, check_sent, helper_outcome, internal_exit, poll_limit, worker_range,
    worker_report, AttachFailure, WorkerEnd,
};
use execution_domain::linux::cleanup_tree::{identity, OwnedStep, PinnedCleanupRoot};
use execution_domain::linux::command::RunningCommand;
use execution_domain::linux::dirfd::{Metadata, S_IFDIR, S_IFREG};
use execution_domain::linux::init::{
    EventNext, Incoming, InitRuntime, StateAction, StateReply, WRITE_LIMIT,
};
use execution_domain::linux::mounts::parse_mountinfo;
use execution_domain::linux::native::{NativeSnapshot, MAX_GROUPS, MAX_GROUP_DEPTH};
use execution_domain::linux::reconcile::{Inventory, OwnedKind};
use execution_domain::linux::rootfs::device_mount;
use execution_domain::linux::step_files::check_step_file;

const MILLI: u128 = 1_000_000;

fn category(error: &ExecutionDomainError) -> Option<FailureCategory> {
    match error {
        ExecutionDomainError::Backend { category, .. } => Some(*category),
        _ => None,
    }
}

fn entry(kind: u16, inode: u64) -> Metadata {
    Metadata {
        mode: kind | 0o600,
        uid: 1000,
        gid: 1000,
        nlink: 1,
        mount_id: 3,
        dev_major: 8,
        dev_minor: 1,
        inode,
        size: 0,
        ctime_sec: 1,
        ctime_nsec: 1,
        mtime_sec: 1,
        mtime_nsec: 1,
    }
}

#[test]
fn packets_are_sent_and_received_whole() {
    assert!(check_sent(3, 3, None).is_ok());
    let short = check_sent(2, 3, None).err().unwrap();
    assert_eq!(category(&short), Some(FailureCategory::Protocol));
    let failed = check_sent(-1, 3, Some(libc::EPIPE)).err().unwrap();
    assert_eq!(category(&failed), Some(FailureCategory::Io));
    assert!(check_received(1, false, None).is_ok());
    for (count, truncated) in [(0, false), (1, true)] {
        let error = check_received(count, truncated, None).err().unwrap();
        assert_eq!(category(&error), Some(FailureCategory::Protocol));
    }
    assert_eq!(
        category(&check_received(-1, false, Some(libc::EIO)).err().unwrap()),
        Some(FailureCategory::Io)
    );
}

#[test]
fn waits_on_the_socket_end_at_the_deadline() {
    assert_eq!(poll_limit(10 * MILLI, 3 * MILLI).unwrap(), 7);
    assert_eq!(poll_limit(MILLI, MILLI - 1).unwrap(), 0);
    assert_eq!(poll_limit(u128::MAX, 0).unwrap(), i32::MAX);
    let late = poll_limit(5, 5).err().unwrap();
    assert_eq!(category(&late), Some(FailureCategory::Timeout));
    assert!(check_poll(1, true, false, None).unwrap());
    assert!(!check_poll(1, false, false, None).unwrap());
    assert!(!check_poll(-1, false, true, Some(libc::EINTR)).unwrap());
    let nothing = check_poll(0, false, false, None).err().unwrap();
    assert_eq!(category(&nothing), Some(FailureCategory::Timeout));
    let failed = check_poll(-1, false, false, Some(libc::EBADF)).err().unwrap();
    assert_eq!(category(&failed), Some(FailureCategory::Io));
}

#[test]
fn a_worker_sees_its_users_from_one() {
    let map = worker_range(65536, 65536).unwrap();
    assert!(map.owns(0, 0));
    assert!(map.owns(65536, 1));
    assert!(!map.owns(65537, 1));
    assert!(worker_range(0, 65536).is_err());
    assert!(worker_range(65536, u32::MAX).is_err());
}

#[test]
fn a_removal_goes_only_by_what_was_listed() {
    let root = entry(S_IFDIR, 1);
    let file = entry(S_IFREG, 5);
    let step = OwnedStep::Unlink { name: b"file".to_vec(), identity: identity(&file) };
    let check = |step: &OwnedStep, named: &Metadata, opened, now| {
        check_removal_step(step, &identity(&root), named, opened, now, 10)
    };
    assert!(check(&step, &file, None, 9).is_ok());
    assert!(check(&step, &entry(S_IFREG, 6), None, 9).is_err());
    let late = check(&step, &file, None, 10).err().unwrap();
    assert_eq!(category(&late), Some(FailureCategory::Timeout));
    let inner = entry(S_IFDIR, 7);
    let enter = OwnedStep::Enter { name: b"dir".to_vec(), identity: identity(&inner) };
    let leave = OwnedStep::Leave { name: b"dir".to_vec(), identity: identity(&inner) };
    assert!(check(&enter, &inner, Some(inner), 9).is_ok());
    assert!(check(&enter, &inner, None, 9).is_err());
    assert!(check(&enter, &inner, Some(root), 9).is_err());
    assert!(check(&leave, &inner, Some(inner), 10).is_ok());
}

#[test]
fn a_worker_that_may_still_run_is_kept() {
    let error = || failure(FailureCategory::Io);
    match after_failed_attach(error(), Ok(false), Ok(false)) {
        AttachFailure::RemoveBootstrap(e) => assert_eq!(category(&e), Some(FailureCategory::Io)),
        AttachFailure::Retain(_) => panic!("an ended worker was kept"),
    }
    for running in [Ok(true), Err(failure(FailureCategory::Unavailable))] {
        match after_failed_attach(error(), Err(failure(FailureCategory::Timeout)), running) {
            AttachFailure::Retain(e) => assert!(matches!(
                e,
                ExecutionDomainError::LifecycleAndDestroyFailed { .. }
            )),
            AttachFailure::RemoveBootstrap(_) => panic!("a worker was forgotten"),
        }
    }
    assert!(matches!(helper_outcome(Ok(true), Ok(false)), (false, Ok(()))));
    assert!(matches!(helper_outcome(Ok(false), Ok(false)), (false, Err(_))));
    assert!(matches!(helper_outcome(Err(error()), Ok(true)), (true, Err(_))));
    assert!(matches!(helper_outcome(Err(error()), Ok(false)), (false, Err(_))));
    assert!(matches!(helper_outcome(Err(error()), Err(error())), (true, Err(_))));
}

#[test]
fn the_end_of_a_worker_is_summed_up() {
    let end = |cgroup: Result<(), ExecutionDomainError>, running| {
        assert_eq!(bootstrap_removable(&cgroup), cgroup.is_ok());
        worker_report(WorkerEnd {
            exchange: Ok(()),
            wait: Ok(()),
            running,
            cgroup,
            bootstrap: Ok(()),
        })
    };
    let clean = end(Ok(()), Ok(false));
    assert!(clean.result.is_ok());
    assert!(!clean.keep_child && !clean.keep_cgroup && !clean.keep_bootstrap);
    let running = end(Ok(()), Ok(true));
    assert!(running.keep_child && running.result.is_ok());
    let unknown = end(Ok(()), Err(failure(FailureCategory::Io)));
    assert!(unknown.keep_child && unknown.result.is_err());
    let held = end(Err(failure(FailureCategory::Timeout)), Ok(false));
    assert!(held.keep_cgroup && held.keep_bootstrap && held.result.is_err());
    let report = worker_report(WorkerEnd {
        exchange: Err(failure(FailureCategory::Protocol)),
        wait: Err(failure(FailureCategory::Timeout)),
        running: Ok(false),
        cgroup: Ok(()),
        bootstrap: Err(failure(FailureCategory::Io)),
    });
    assert!(report.keep_bootstrap && !report.keep_cgroup);
    assert_eq!(category(&report.result.err().unwrap()), Some(FailureCategory::Protocol));
}

#[test]
fn emptied_roots_are_the_same_and_empty() {
    let root = entry(S_IFDIR, 1);
    let pinned = PinnedCleanupRoot::from_bound(CleanupRootKind::Work, &root).unwrap();
    assert!(check_emptied_root(&pinned, &root, true).is_ok());
    assert!(check_emptied_root(&pinned, &root, false).is_err());
    assert!(check_emptied_root(&pinned, &entry(S_IFDIR, 2), true).is_err());
}

#[test]
fn only_the_worker_mode_has_an_exit_status() {
    let mode = Some(&b"--internal-mapped-cleanup"[..]);
    assert_eq!(internal_exit(mode, Ok(())), Some(0));
    assert_eq!(internal_exit(mode, Err(failure(FailureCategory::Io))), Some(78));
    assert_eq!(internal_exit(Some(b"--help"), Ok(())), None);
    assert_eq!(internal_exit(None, Ok(())), None);
}

#[test]
fn supplementary_groups_must_be_empty() {
    assert!(verify_empty_supplementary_groups(0, None).is_ok());
    let some = verify_empty_supplementary_groups(1, None).err().unwrap();
    assert_eq!(category(&some), Some(FailureCategory::IdentityMismatch));
    let failed = verify_empty_supplementary_groups(-1, Some(libc::EIO)).err().unwrap();
    assert_eq!(category(&failed), Some(FailureCategory::Io));
}

#[test]
fn members_that_are_gone_are_passed_over() {
    assert!(capture_failure(Some(libc::ESRCH)).is_ok());
    assert!(capture_failure(Some(libc::EPERM)).is_err());
    assert!(capture_failure(None).is_err());
    assert_eq!(check_supervisor_start(false).unwrap(), SupervisorStage::Limits);
    assert!(check_supervisor_start(true).is_err());
}

#[test]
fn groups_are_counted_within_bounds() {
    let mut snapshot = NativeSnapshot::new(0);
    assert!(snapshot.enter_group(MAX_GROUP_DEPTH - 1).is_ok());
    assert!(snapshot.enter_group(MAX_GROUP_DEPTH).is_err());
    assert_eq!(snapshot.cgroups, 1);
    snapshot.cgroups = MAX_GROUPS;
    assert!(snapshot.enter_group(0).is_err());
}

#[test]
fn an_inventory_holds_what_was_noted() {
    let attempt = execution_domain::contracts::AttemptIdentity::from_uuid(3).unwrap();
    let mut inventory = Inventory::new();
    assert!(inventory.is_empty());
    inventory.note_directory(OwnedKind::Cleanup, attempt);
    assert!(!inventory.is_empty());
    assert!(inventory.cleanup_directories.ids().contains(&attempt));
    assert!(!inventory.attempt_directories.ids().contains(&attempt));
    inventory.note_cgroup(OwnedKind::Attempt, attempt);
    assert!(inventory.attempt_cgroups.ids().contains(&attempt));
    assert!(inventory.attempts.ids().contains(&attempt));
}

#[test]
fn device_mounts_come_from_the_host() {
    let host = parse_mountinfo(
        "1 0 8:1 / / rw - ext4 /dev/sda1 rw\n2 1 0:5 / /dev rw - devtmpfs udev rw\n",
    )
    .unwrap_or_else(|e| panic!("{e:?}"));
    let mount = device_mount("null", &host).unwrap_or_else(|e| panic!("{e:?}"));
    assert_eq!(mount.filesystem, "devtmpfs");
    assert_eq!(mount.root.list, [b"/".to_vec(), b"null".to_vec()]);
    assert!(mount.noexec && !mount.readonly && !mount.nodev);
    assert!(device_mount("null", &[]).is_err());
}

#[test]
fn step_files_belong_to_one_step() {
    assert!(check_step_file(&entry(S_IFREG, 2)).is_ok());
    assert!(check_step_file(&Metadata { nlink: 2, ..entry(S_IFREG, 2) }).is_err());
    assert!(check_step_file(&Metadata { mode: S_IFREG | 0o644, ..entry(S_IFREG, 2) }).is_err());
}

#[test]
fn a_slow_service_is_disconnected() {
    let mut runtime = InitRuntime::new();
    assert!(runtime.check_write(u128::MAX).is_ok());
    runtime.send_started(100);
    assert!(runtime.sending);
    assert!(runtime.check_write(99 + WRITE_LIMIT).is_ok());
    let late = runtime.check_write(100 + WRITE_LIMIT).err().unwrap();
    assert_eq!(category(&late), Some(FailureCategory::Timeout));
    runtime.flushed();
    assert!(!runtime.sending);
    assert!(runtime.check_write(100 + WRITE_LIMIT).is_ok());
}

#[test]
fn output_is_read_where_there_is_room_or_nobody_listens() {
    let mut runtime = InitRuntime::new();
    assert!(!runtime.output_due(true));
    runtime.command_started(RunningCommand::started(1, 7, 10));
    assert!(runtime.output_due(true));
    assert!(!runtime.output_due(false));
    runtime.disconnect(failure(FailureCategory::Protocol));
    assert!(runtime.output_due(false));
    assert!(!runtime.command_over());
    assert!(runtime.active.is_none());
}

#[test]
fn the_files_of_a_command_without_a_step_are_discarded_once() {
    let mut runtime = InitRuntime::new();
    assert!(runtime.discard_ephemeral_step().is_none());
    let id = StepFilesId::new();
    runtime.ephemeral_step = Some(id);
    assert_eq!(runtime.discard_ephemeral_step(), Some(id));
    assert!(runtime.discard_ephemeral_step().is_none());
}

#[test]
fn a_delegated_group_has_every_controller_and_the_ordinary_kind() {
    assert!(check_delegated("cpuset cpu io memory pids\n", "domain\n").is_ok());
    for (controllers, kind) in [("cpu io memory\n", "domain\n"), ("cpu io memory pids", "threaded")] {
        let error = check_delegated(controllers, kind).err().unwrap();
        assert_eq!(category(&error), Some(FailureCategory::Unsupported));
    }
}

#[test]
fn events_arrive_in_parts() {
    let mut runtime = InitRuntime::new();
    assert_eq!(runtime.state_request(Incoming::PrepareStepChunk), StateAction::Collect);
    assert!(matches!(runtime.event_part(Ok(None)), Ok(EventNext::Await)));
    assert!(runtime.collecting);
    assert_eq!(runtime.check_run(1), Err(FailureCategory::Unavailable));
    assert_eq!(runtime.state_request(Incoming::PrepareStepChunk), StateAction::Collect);
    for message in [Incoming::PrepareStep, Incoming::ReadStep] {
        let refused = StateAction::Reject(FailureCategory::Protocol);
        assert_eq!(runtime.state_request(message), refused);
    }
    match runtime.event_part(Ok(Some(b"{}".to_vec()))) {
        Ok(EventNext::Prepare(event)) => assert_eq!(event, b"{}"),
        _ => panic!("the event is whole"),
    }
    assert!(!runtime.collecting);
    assert!(runtime.check_run(1).is_ok());
    assert_eq!(InitRuntime::files_made(true), StateReply::Prepared);
    let refused = StateReply::Reject(FailureCategory::InvalidInput);
    assert_eq!(InitRuntime::files_made(false), refused);
}

#[test]
fn a_bad_part_of_an_event_is_reported() {
    let mut runtime = InitRuntime::new();
    let error = runtime.event_part(Err(failure(FailureCategory::Protocol))).err().unwrap();
    assert_eq!(category(&error), Some(FailureCategory::Protocol));
    assert!(runtime.collecting);
    runtime.disconnect(error);
    assert!(!runtime.collecting);
}

#[test]
fn results_leave_in_parts() {
    let mut runtime = InitRuntime::new();
    assert_eq!(runtime.state_request(Incoming::ReadStep), StateAction::Read);
    let refused = StateReply::Reject(FailureCategory::InvalidInput);
    assert_eq!(runtime.begin_snapshot(None).unwrap(), refused);
    assert!(runtime.begin_snapshot(Some(Err(failure(FailureCategory::Protocol)))).is_err());
    assert_eq!(runtime.snapshot, 0);
    assert!(!runtime.send_part(true));
    assert_eq!(runtime.begin_snapshot(Some(Ok(2))).unwrap(), StateReply::Silent);
    assert_eq!(runtime.check_run(1), Err(FailureCategory::Unavailable));
    let unavailable = StateAction::Reject(FailureCategory::Unavailable);
    assert_eq!(runtime.state_request(Incoming::PrepareStepChunk), unavailable);
    assert!(!runtime.send_part(false));
    assert!(runtime.send_part(true));
    assert_eq!(runtime.snapshot, 1);
    assert!(runtime.send_part(true));
    assert!(!runtime.send_part(true));
    assert!(runtime.check_run(1).is_ok());
    assert_eq!(runtime.begin_snapshot(Some(Ok(3))).unwrap(), StateReply::Silent);
    runtime.disconnect(failure(FailureCategory::Protocol));
    assert!(!runtime.send_part(true));
    assert_eq!(runtime.snapshot, 0);
}
