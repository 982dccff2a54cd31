use execution_domain::clock::LAST_INSTANT;
use execution_domain::contracts::FailureCategory;
use execution_domain::error::ExecutionDomainError;
use execution_domain::linux::cleanup::{
    map_arguments, parse_child_pid, parse_root_kind, root_kind_byte, verify_map_text_for_test,
    verify_proc_map, verify_status_groups, verify_worker_map, CleanupRootKind, IdMapSpec,
    MappedIdRange, REAP_GRACE,
};
use execution_domain::linux::cleanup_protocol::{
    accept_control, accept_roots, check_outgoing, expect_packet, root_announcement, Control,
    ControlMessage, Packet, Supervisor, SupervisorAction, SupervisorEvent, SupervisorStep,
    WorkerStage,
};
use execution_domain::linux::cleanup_tree::{
    identity, validate_executable_metadata, Budget, InventoryLimits, InventoryWalk,
    MappedCleanupAuthority, OwnedStep, PinnedCleanupRoot, RuntimeSocketCapability,
    RuntimeSocketRootKind, SocketRemoval, VerifiedExecutable, Visit,
};
use execution_domain::linux::dirfd::{Metadata, S_IFCHR, S_IFDIR, S_IFLNK, S_IFREG, S_IFSOCK};
use execution_domain::linux::reap::{
    retry_pending_children, wait_child, ChildRetry, ChildWait, KillOutcome, PendingRetry, Retried,
    WaitStep,
};

const MILLI: u128 = 1_000_000;

struct DelayedReap {
    killed: bool,
    remaining_polls: usize,
    reaped: bool,
    try_wait_errors: usize,
}

impl DelayedReap {
    fn try_wait_status(&mut self) -> Result<Option<bool>, Option<i32>> {
        if self.try_wait_errors > 0 {
            self.try_wait_errors -= 1;
            return Err(Some(libc::EIO));
        }
        if !self.killed {
            return Ok(None);
        }
        if self.remaining_polls > 0 {
            self.remaining_polls -= 1;
            return Ok(None);
        }
        self.reaped = true;
        Ok(Some(false))
    }
}

/// Waits for a child on a clock that only the pauses move.
fn wait_status(
    child: &mut DelayedReap,
    now: &mut u128,
    deadline: u128,
) -> Result<bool, ExecutionDomainError> {
    let mut wait = ChildWait::begin(deadline)?;
    loop {
        let mut step = wait.looked(child.try_wait_status(), *now);
        if let WaitStep::Kill(next) = step {
            child.killed = true;
            step = next.kill_done(KillOutcome::Sent, *now);
        }
        match step {
            WaitStep::Finished(result) => return result,
            WaitStep::Pause(next, pause) => {
                *now += pause;
                wait = next;
            }
            WaitStep::Kill(_) => unreachable!(),
        }
    }
}

#[test]
fn timeout_uses_a_separate_bounded_window_to_prove_reap() {
    let mut child = DelayedReap {
        killed: false,
        remaining_polls: 8,
        reaped: false,
        try_wait_errors: 0,
    };
    let mut now = 0;
    let deadline = now + 5 * MILLI;

    assert!(wait_child(wait_status(&mut child, &mut now, deadline)).is_err());

    assert!(child.killed);
    assert!(child.reaped);
    assert!(now <= deadline + REAP_GRACE);
}

fn retry(
    pending: &mut Vec<DelayedReap>,
    now: &mut u128,
    deadline: u128,
) -> Result<(), ExecutionDomainError> {
    let list: Vec<ChildRetry> = pending
        .iter_mut()
        .enumerate()
        .map(|(index, child)| {
            let wait = wait_status(child, now, deadline);
            let running = match child.try_wait_status() {
                Ok(status) => Ok(status.is_none()),
                Err(errno) => Err(execution_domain::linux::cleanup::io_failure(errno)),
            };
            ChildRetry { child: index as u64, wait, running }
        })
        .collect();
    let left = retry_pending_children(list);
    let mut index = 0;
    pending.retain(|_| {
        index += 1;
        left.kept.contains(&(index - 1))
    });
    match left.error {
        Some(error) => Err(error),
        None => Ok(()),
    }
}

#[test]
fn pending_retry_reinserts_child_after_try_wait_observation_error() {
    let mut pending = vec![DelayedReap {
        killed: false,
        remaining_polls: 2,
        reaped: false,
        try_wait_errors: 2,
    }];
    let mut now = 0;

    assert!(retry(&mut pending, &mut now, 5 * MILLI).is_err());
    assert_eq!(pending.len(), 1, "observation error must retain exact child");

    let deadline = now + 20 * MILLI;
    retry(&mut pending, &mut now, deadline).unwrap();
    assert!(pending.is_empty(), "successful retry discharges child authority");
}

fn directory() -> Metadata {
    Metadata {
        mode: S_IFDIR | 0o700,
        uid: 1000,
        gid: 1000,
        nlink: 2,
        mount_id: 31,
        dev_major: 8,
        dev_minor: 1,
        inode: 70,
        size: 4096,
        ctime_sec: 10,
        ctime_nsec: 20,
        mtime_sec: 10,
        mtime_nsec: 20,
    }
}

fn fixture() -> (Metadata, MappedIdRange, PinnedCleanupRoot) {
    let metadata = directory();
    let map =
        MappedIdRange::new(metadata.uid, metadata.gid, 100_000, 65_536, 200_000, 65_536).unwrap();
    let root = PinnedCleanupRoot::from_bound(CleanupRootKind::Work, &metadata).unwrap();
    (metadata, map, root)
}

#[test]
fn exact_map_rejects_empty_overflowing_and_overlapping_ranges() {
    let _all_roots = [
        CleanupRootKind::Work,
        CleanupRootKind::Tmp,
        CleanupRootKind::Home,
        CleanupRootKind::Run,
        CleanupRootKind::DockerConfig,
        CleanupRootKind::DockerData,
        CleanupRootKind::DockerExec,
    ];
    assert!(MappedIdRange::new(1000, 1000, 100_000, 0, 200_000, 1).is_err());
    assert!(MappedIdRange::new(1000, 1000, u32::MAX, 2, 200_000, 1).is_err());
    assert!(MappedIdRange::new(1000, 1000, 999, 2, 200_000, 1).is_err());
    let map = MappedIdRange::new(1000, 1000, 100_000, 65_536, 200_000, 65_536).unwrap();
    assert!(map.owns_for_test(1000, 1000));
    assert!(map.owns_for_test(100_001, 200_001));
    assert!(!map.owns_for_test(99_999, 200_001));
    assert!(!map.owns_for_test(100_001, 265_536));
}

#[test]
fn exact_map_requires_one_static_range_for_each_id_kind() {
    let spec = IdMapSpec::parse(
        "chimera",
        1000,
        1000,
        "other:300000:65536\nchimera:100000:65536\n",
        "chimera:200000:65536\n",
    )
    .unwrap();
    assert_eq!(spec.subuid_start(), 100000);
    assert!(IdMapSpec::parse(
        "chimera",
        1000,
        1000,
        "chimera:100000:65536\nchimera:300000:65536\n",
        "chimera:200000:65536\n",
    )
    .is_err());
    assert!(IdMapSpec::parse(
        "chimera",
        1000,
        1000,
        "chimera:100000:65535\n",
        "chimera:200000:65536\n",
    )
    .is_err());
}

#[test]
fn proc_map_must_match_both_exact_extents() {
    assert!(
        verify_map_text_for_test("0 1000 1\n1 100000 65536\n", 1000, 100000, 65536).is_ok()
    );
    for changed in [
        "0 1000 1\n1 100000 65535\n",
        "0 1000 1\n1 100001 65536\n",
        "0 1000 1\n",
        "0 1000 1\n1 100000 65536\n65537 300000 1\n",
    ] {
        assert!(verify_map_text_for_test(changed, 1000, 100000, 65536).is_err(), "{changed:?}");
    }
}

#[test]
fn duplicate_root_kind_is_rejected() {
    let (metadata, map, root) = fixture();
    let second = PinnedCleanupRoot::from_bound(CleanupRootKind::Work, &metadata).unwrap();

    assert!(MappedCleanupAuthority::new(map, vec![root, second], &[metadata, metadata]).is_err());
    assert!(MappedCleanupAuthority::new(map, vec![root], &[metadata]).is_ok());
}

#[test]
fn roots_must_not_change_and_must_be_directories() {
    let (metadata, _, root) = fixture();
    assert!(root.verify(&metadata).is_ok());
    assert!(root.verify(&Metadata { inode: 71, ..metadata }).is_err());
    let file = Metadata { mode: S_IFREG | 0o600, ..metadata };
    assert!(PinnedCleanupRoot::from_bound(CleanupRootKind::Tmp, &file).is_err());
}

#[test]
fn retained_executable_refuses_in_place_content_change() {
    let metadata = Metadata { mode: S_IFREG | 0o600, nlink: 1, size: 8, ..directory() };
    let executable = VerifiedExecutable::retain(&metadata);
    assert_eq!(executable.identity, identity(&metadata));
    assert!(executable.command(&metadata).is_ok());
    let grown = Metadata { size: 15, ctime_sec: 11, ..metadata };
    assert!(executable.command(&grown).is_err());
    let touched = Metadata { ctime_nsec: 21, ..metadata };
    assert!(executable.command(&touched).is_err());
}

#[test]
fn executables_belong_to_the_operator_alone() {
    let tool = Metadata { mode: S_IFREG | 0o755, uid: 0, gid: 0, nlink: 1, ..directory() };
    assert!(validate_executable_metadata(&tool, false).is_ok());
    let shared = Metadata { mode: tool.mode | 0o022, ..tool };
    assert!(validate_executable_metadata(&shared, false).is_err());
    assert!(validate_executable_metadata(&Metadata { uid: 1000, ..tool }, false).is_err());
    assert!(validate_executable_metadata(&tool, true).is_err());
    let set_user = Metadata { mode: tool.mode | 0o4000, ..tool };
    assert!(validate_executable_metadata(&set_user, true).is_ok());
}

#[test]
fn sockets_are_removed_only_as_they_were_captured() {
    let parent = directory();
    let socket = Metadata { mode: S_IFSOCK | 0o600, inode: 90, nlink: 1, ..parent };
    let capture = |name: &[u8], m: &Metadata| {
        RuntimeSocketCapability::capture(
            RuntimeSocketRootKind::RootlessKitState,
            name,
            &parent,
            m,
            1000,
        )
    };
    let held = capture(b"api.sock", &socket).unwrap();
    assert_eq!(held.remove(&parent, Some(socket)).unwrap(), SocketRemoval::Unlink);
    assert_eq!(held.remove(&parent, None).unwrap(), SocketRemoval::SyncOnly);
    assert!(held.remove(&parent, Some(Metadata { inode: 91, ..socket })).is_err());
    assert!(held.remove(&Metadata { inode: 1, ..parent }, Some(socket)).is_err());
    assert!(capture(b"other.sock", &socket).is_err());
    assert!(capture(b"api.sock", &Metadata { uid: 7, ..socket }).is_err());
    assert!(capture(b"api.sock", &Metadata { mode: S_IFREG | 0o600, ..socket }).is_err());
}

#[test]
fn everything_is_listed_before_anything_is_removed() {
    let (metadata, map, root) = fixture();
    let limits = InventoryLimits::default();
    let mut walk = InventoryWalk::start(root.identity, map, limits, Budget::new(), 0, 10)
        .unwrap_or_else(|e| panic!("{e:?}"));
    let inside = Metadata { inode: 80, ..metadata };
    let link = Metadata { mode: S_IFLNK | 0o777, inode: 81, nlink: 1, ..metadata };
    walk.charge(3, 1, 10).unwrap();
    walk.check_entry(&inside, &inside).unwrap();
    walk.enter(b"dir".to_vec(), &inside, &inside, 1, 10).unwrap();
    walk.charge(4, 1, 10).unwrap();
    assert_eq!(walk.visit(b"link".to_vec(), &link).unwrap(), Visit::Leaf);
    assert!(walk.leave());
    assert!(!walk.leave());
    let shape: Vec<&str> = walk
        .plan
        .iter()
        .map(|step| match step {
            OwnedStep::Enter { .. } => "enter",
            OwnedStep::Unlink { .. } => "unlink",
            OwnedStep::Leave { .. } => "leave",
        })
        .collect();
    assert_eq!(shape, ["enter", "unlink", "leave"]);
}

#[test]
fn budgets_devices_and_strangers_end_the_listing() {
    let (metadata, map, root) = fixture();
    let authority = MappedCleanupAuthority::new(map, vec![root], &[metadata])
        .unwrap_or_else(|e| panic!("{e:?}"))
        .with_entry_limit_for_test(1);
    let start = || {
        InventoryWalk::start(root.identity, map, authority.limits, Budget::new(), 0, 10)
            .unwrap_or_else(|e| panic!("{e:?}"))
    };
    let mut walk = start();
    assert!(walk.charge(3, 1, 10).is_ok());
    assert!(walk.charge(3, 1, 10).is_err());
    let mut walk = start();
    assert!(matches!(
        walk.charge(3, 10, 10),
        Err(ExecutionDomainError::Backend { category: FailureCategory::Timeout, .. })
    ));
    let stranger = Metadata { uid: 4242, inode: 82, ..metadata };
    assert!(start().check_entry(&stranger, &stranger).is_err());
    let device = Metadata { mode: S_IFCHR | 0o600, inode: 83, ..metadata };
    assert!(start().visit(b"null".to_vec(), &device).is_err());
}

#[test]
fn kinds_of_roots_have_distinct_bytes() {
    let mut seen = Vec::new();
    for kind in [
        CleanupRootKind::Work,
        CleanupRootKind::Tmp,
        CleanupRootKind::Home,
        CleanupRootKind::Run,
        CleanupRootKind::DockerConfig,
        CleanupRootKind::DockerData,
        CleanupRootKind::DockerExec,
    ] {
        let byte = root_kind_byte(kind);
        assert_eq!(parse_root_kind(byte).unwrap(), kind);
        assert!(!seen.contains(&byte));
        seen.push(byte);
    }
    assert!(parse_root_kind(200).is_err());
}

#[test]
fn worker_maps_and_helper_arguments_are_exact() {
    let (_, map, _) = fixture();
    assert_eq!(
        map_arguments(77, true, &map),
        ["77", "0", "1000", "1", "1", "100000", "65536"]
    );
    assert!(verify_proc_map("0 1000 1\n1 200000 65536\n", false, &map).is_ok());
    assert!(verify_proc_map("0 1000 1\n1 200000 65536\n", true, &map).is_err());
    assert!(verify_worker_map("0 1000 1\n").is_err());
    assert!(verify_status_groups("Name:\tx\nGroups:\t\n").is_ok());
    assert!(verify_status_groups("Name:\tx\nGroups:\t27 \n").is_err());
    assert_eq!(parse_child_pid(b"123\n").unwrap(), 123);
    assert!(parse_child_pid(b"0\n").is_err());
    assert!(parse_child_pid(b"\xff").is_err());
}

#[test]
fn packets_are_small_whole_and_from_the_right_process() {
    assert!(check_outgoing(64, 8).is_ok());
    assert!(check_outgoing(65, 0).is_err());
    assert!(check_outgoing(0, 0).is_err());
    assert!(check_outgoing(1, 9).is_err());
    let good = [ControlMessage::Rights(Some(8)), ControlMessage::Credentials { exact: true, pid: 9 }];
    assert_eq!(accept_control(&good, 2).unwrap(), Control { descriptors: 2, sender: Some(9) });
    assert!(accept_control(&good, 1).is_err());
    assert!(accept_control(&[ControlMessage::Other], 1).is_err());
    let packet = Packet { bytes: b"mapped".to_vec(), descriptors: 0, sender: Some(9) };
    assert!(expect_packet(&packet, b"mapped", Some(9)).is_ok());
    assert!(expect_packet(&packet, b"mapped", Some(8)).is_err());
    assert!(expect_packet(&packet, b"commit", Some(9)).is_err());
}

#[test]
fn roots_arrive_as_they_were_announced() {
    let (metadata, _, root) = fixture();
    let bytes = root_announcement(&[root]);
    let packet = |descriptors| Packet { bytes: bytes.clone(), descriptors, sender: Some(3) };
    let accepted = accept_roots(&packet(2), 3, &[metadata]).unwrap();
    assert_eq!(accepted, [root]);
    assert!(accept_roots(&packet(3), 3, &[metadata, metadata]).is_err());
    assert!(accept_roots(&packet(2), 4, &[metadata]).is_err());
}

#[test]
fn the_first_bad_root_decides() {
    let (metadata, _, _) = fixture();
    let file = Metadata { mode: S_IFREG | 0o600, ..metadata };
    let refusal = |kinds: &[u8], found: &[Metadata]| {
        let mut bytes = vec![b'R'];
        bytes.extend_from_slice(kinds);
        let packet = Packet { descriptors: bytes.len(), bytes, sender: Some(3) };
        match accept_roots(&packet, 3, found) {
            Err(ExecutionDomainError::Backend { category, .. }) => category,
            _ => panic!("a root is bad"),
        }
    };
    let mismatch = FailureCategory::IdentityMismatch;
    assert_eq!(refusal(&[0, 1, 9], &[metadata, file, metadata]), mismatch);
    assert_eq!(refusal(&[0, 9, 1], &[metadata, metadata, file]), FailureCategory::Protocol);
    assert_eq!(refusal(&[9], &[file]), mismatch);
}

#[test]
fn a_wait_ends_before_the_clock_does() {
    assert!(ChildWait::begin(LAST_INSTANT - REAP_GRACE).is_ok());
    assert!(matches!(
        ChildWait::begin(LAST_INSTANT - REAP_GRACE + 1),
        Err(ExecutionDomainError::Backend { category: FailureCategory::InvalidInput, .. })
    ));
}

#[test]
fn the_supervisor_commits_only_after_the_whole_list() {
    let (_, map, root) = fixture();
    let mut supervisor = Supervisor::begin(12, map, vec![root]);
    let mut order = Vec::new();
    let result = loop {
        order.push(supervisor.action);
        let message = |bytes: &[u8]| {
            SupervisorEvent::Received(Packet {
                bytes: bytes.to_vec(),
                descriptors: 0,
                sender: Some(12),
            })
        };
        let event = match supervisor.action {
            SupervisorAction::AwaitUnshared => {
                message(&WorkerStage::SendUnshared.message().unwrap())
            }
            SupervisorAction::AwaitEntry => SupervisorEvent::Entry(
                Packet {
                    bytes: WorkerStage::SendDone.message().unwrap(),
                    descriptors: 0,
                    sender: Some(12),
                },
                directory(),
            ),
            SupervisorAction::AwaitRemoved => {
                message(&WorkerStage::SendRemoved.message().unwrap())
            }
            _ => SupervisorEvent::Done,
        };
        match supervisor.advance(event) {
            SupervisorStep::Continue(next) => supervisor = next,
            SupervisorStep::Done(result) => break result,
        }
    };
    assert!(result.is_ok());
    let at = |wanted| order.iter().position(|action| *action == wanted).unwrap();
    assert!(at(SupervisorAction::AwaitEntry) < at(SupervisorAction::SendCommit));
    assert!(at(SupervisorAction::VerifyGroupMap) < at(SupervisorAction::SendRoots));
}

#[test]
fn nothing_that_is_pending_is_forgotten() {
    let fine = || Ok(());
    let broken = || Err(execution_domain::linux::cleanup::failure(FailureCategory::Io));
    let retry = PendingRetry::begin(
        vec![Retried { item: 1, outcome: fine() }, Retried { item: 2, outcome: broken() }],
        vec![],
    );
    assert!(!retry.try_bootstraps());
    let (kept, result) = retry.keep_bootstraps(vec![3]);
    assert_eq!((kept.cgroups, kept.bootstraps, kept.children), (vec![2], vec![3], vec![]));
    assert!(result.is_err());

    let retry = PendingRetry::begin(vec![Retried { item: 1, outcome: fine() }], vec![]);
    assert!(retry.try_bootstraps());
    let (kept, result) = retry.finish(vec![
        Retried { item: 4, outcome: broken() },
        Retried { item: 5, outcome: fine() },
    ]);
    assert_eq!(kept.bootstraps, [4]);
    assert!(result.is_err());
}
