use execution_domain::contracts::FailureCategory;
use execution_domain::error::ExecutionDomainError;
use execution_domain::linux::cgroup::{
    check_attached, check_attempt_preconditions, check_control, check_enable, check_evacuated,
    check_emptied_removal, check_group_removal, check_idle, check_recovered_removal, combine,
    creation_operations, deadline_check, entry_is_directory, failure, io_limit_matches,
    kill_result, limit_matches, lists_busy, parse_members, parse_populated, prepare_supervisor,
    required, retain_first, says_busy, signal_order, validate_controllers, verify_limits,
    wait_emptied, wait_empty, wait_removable, AttemptCreation, CgroupOperation, CreationStep,
    EmptyScan, EmptyStep, GroupFile, Neutralization, NeutralizeStage, RemovalCheck,
    RemovalCheckStep, ScanStep, SupervisorEvent, SupervisorStage, Traversal, WaitStep, MAX_DEPTH,
    MAX_GROUPS, PAUSE,
};
use execution_domain::linux::dirfd::{Metadata, S_IFDIR, S_IFIFO, S_IFREG};

fn writes() -> Vec<(String, String)> {
    vec![
        ("memory.max".to_owned(), "536870912".to_owned()),
        ("pids.max".to_owned(), "256".to_owned()),
    ]
}

fn metadata(kind: u16, inode: u64) -> Metadata {
    Metadata {
        mode: kind | 0o644,
        uid: 1000,
        gid: 1000,
        nlink: 1,
        mount_id: 5,
        dev_major: 0,
        dev_minor: 27,
        inode,
        size: 0,
        ctime_sec: 0,
        ctime_nsec: 0,
        mtime_sec: 0,
        mtime_nsec: 0,
    }
}

#[test]
fn cgroup_order_sets_limits_before_admitting_processes() {
    let operations = creation_operations(&writes());
    assert_eq!(
        operations,
        vec![
            CgroupOperation::CreateAttempt,
            CgroupOperation::WriteLimit("memory.max".into(), "536870912".into()),
            CgroupOperation::WriteLimit("pids.max".into(), "256".into()),
            CgroupOperation::VerifyLimits,
            CgroupOperation::EnableControllers,
            CgroupOperation::CreateDomain,
            CgroupOperation::OpenMembership,
        ]
    );
}

#[test]
fn missing_controller_is_a_preflight_error() {
    assert!(validate_controllers("cpu memory pids").is_err());
    assert!(validate_controllers("cpuset cpu io memory pids").is_ok());
}

/// Creates a group in which one operation on one file fails.
fn create_attempt(fail: (&str, &str)) -> Result<(), ExecutionDomainError> {
    let mut creation = AttemptCreation::begin(&writes());
    loop {
        let touched: Vec<(&str, &str)> = match creation.current() {
            CgroupOperation::CreateAttempt => vec![("mkdir", "attempt")],
            CgroupOperation::WriteLimit(_, _) => vec![("write", "limit")],
            CgroupOperation::VerifyLimits => vec![("read", "limit")],
            CgroupOperation::EnableControllers => {
                vec![("write", "cgroup.subtree_control"), ("read", "cgroup.subtree_control")]
            }
            CgroupOperation::CreateDomain => vec![("mkdir", "domain")],
            CgroupOperation::OpenMembership => vec![("open", "cgroup.procs")],
        };
        let outcome = if touched.contains(&fail) {
            Err(failure(FailureCategory::Io))
        } else {
            Ok(())
        };
        match creation.advance(outcome) {
            CreationStep::Perform(_) => {}
            CreationStep::Undo(error) | CreationStep::Fail(error) => return Err(error),
            CreationStep::Complete => return Ok(()),
        }
    }
}

#[test]
fn subtree_write_read_and_domain_creation_fail_closed() {
    for (operation, name) in [
        ("write", "cgroup.subtree_control"),
        ("read", "cgroup.subtree_control"),
        ("mkdir", "domain"),
    ] {
        assert!(create_attempt((operation, name)).is_err());
    }
    assert!(create_attempt(("none", "none")).is_ok());
}

#[test]
fn a_failed_creation_is_undone_unless_nothing_was_created() {
    let mut creation = AttemptCreation::begin(&writes());
    assert!(matches!(
        creation.advance(Err(failure(FailureCategory::Io))),
        CreationStep::Fail(_)
    ));
    let mut creation = AttemptCreation::begin(&writes());
    assert!(matches!(creation.advance(Ok(())), CreationStep::Perform(1)));
    assert!(matches!(
        creation.advance(Err(failure(FailureCategory::Io))),
        CreationStep::Undo(_)
    ));
}

#[test]
fn traversals_are_bounded_in_width_and_depth() {
    let mut walk = Traversal::start();
    for _ in 1..MAX_DEPTH {
        walk = walk.enter().unwrap_or_else(|e| panic!("{e:?}"));
    }
    assert!(walk.enter().is_err());
    let mut walk = Traversal::start();
    let mut entered = 0;
    loop {
        match walk.enter() {
            Ok(inside) => {
                entered += 1;
                walk = inside.leave().unwrap();
            }
            Err(error) => {
                assert!(matches!(error, ExecutionDomainError::Backend { .. }));
                break;
            }
        }
    }
    assert_eq!(entered, MAX_GROUPS - 1);
    assert!(Traversal::start().leave().is_none());
}

#[test]
fn members_are_positive_numbers() {
    assert_eq!(parse_members("12\n7\n").unwrap(), [12, 7]);
    assert!(parse_members("").unwrap().is_empty());
    for malformed in ["0\n", "-3\n", "x\n", "1,2\n"] {
        assert!(parse_members(malformed).is_err(), "{malformed:?}");
    }
}

#[test]
fn population_is_known_only_from_one_exact_line() {
    assert!(!parse_populated("populated 0\nfrozen 0\n").unwrap());
    assert!(parse_populated("frozen 0\npopulated 1\n").unwrap());
    for malformed in ["", "populated\n", "populated 2\n", "populated 0\npopulated 0\n"] {
        assert!(parse_populated(malformed).is_err(), "{malformed:?}");
    }
    assert!(!says_busy(text("populated 0\n")).unwrap());
    assert!(says_busy(text("populated 1\n")).unwrap());
    assert!(lists_busy(text("9\n")).unwrap());
    assert!(!lists_busy(text("")).unwrap());
    assert!(says_busy(Err(failure(FailureCategory::Io))).is_err());
}

#[test]
fn a_group_is_empty_only_with_everything_below_it() {
    let quiet = ("populated 0\n", "");
    assert!(scan(&[quiet], quiet, None).unwrap());
    assert!(!scan(&[("populated 1\n", "")], quiet, None).unwrap());
    assert!(!scan(&[("populated 0\n", "4\n")], quiet, None).unwrap());
    assert!(!scan(&[], ("populated 0\n", "4\n"), None).unwrap());
    assert!(scan(&[("garbage", "")], quiet, None).is_err());
    // What comes after a busy group does not matter any more.
    assert!(!scan(&[("populated 1\n", "garbage"), ("garbage", "")], quiet, None).unwrap());
    assert!(scan(&[quiet], quiet, Some(9)).unwrap());
    for deadline in [0, 2, 4] {
        assert!(matches!(
            scan(&[quiet], quiet, Some(deadline)),
            Err(ExecutionDomainError::Backend { category: FailureCategory::Timeout, .. })
        ));
    }
}

fn text(value: &str) -> Result<String, ExecutionDomainError> {
    Ok(value.to_owned())
}

/// Reads the files of a hierarchy, one at every tick of the clock.
fn scan(
    groups: &[(&str, &str)],
    top: (&str, &str),
    deadline: Option<u128>,
) -> Result<bool, ExecutionDomainError> {
    let mut scan = EmptyScan::begin(groups.len(), deadline);
    let mut clock = 0;
    loop {
        scan.check_begin(clock)?;
        let group = groups.get(scan.at).unwrap_or(&top);
        clock += 1;
        match scan.advance(text(if scan.members { group.1 } else { group.0 }), clock) {
            ScanStep::Continue(next) => scan = next,
            ScanStep::Done(result) => return result,
        }
    }
}

#[test]
fn groups_are_removed_only_while_they_hold_no_process() {
    let category = |result: Result<(), ExecutionDomainError>| match result {
        Err(ExecutionDomainError::Backend { category, .. }) => Some(category),
        _ => None,
    };
    let (idle, busy) = ("populated 0\n", "populated 1\n");
    assert!(check_group_removal(text(idle), text("")).is_ok());
    assert!(check_emptied_removal(text(""), text(idle)).is_ok());
    for (events, members, unused, emptied) in [
        (busy, "", FailureCategory::Unavailable, FailureCategory::Unavailable),
        (idle, "4\n", FailureCategory::Unavailable, FailureCategory::Unavailable),
        ("garbage", "4\n", FailureCategory::IdentityMismatch, FailureCategory::Unavailable),
        (busy, "x\n", FailureCategory::Unavailable, FailureCategory::IdentityMismatch),
    ] {
        assert_eq!(category(check_group_removal(text(events), text(members))), Some(unused));
        assert_eq!(category(check_emptied_removal(text(members), text(events))), Some(emptied));
    }
    assert_eq!(RemovalCheck::begin(true).file(), GroupFile::Members);
    assert_eq!(RemovalCheck::begin(false).file(), GroupFile::Events);
    let next = match RemovalCheck::begin(true).advance(text("")) {
        RemovalCheckStep::Continue(next) => next,
        RemovalCheckStep::Done(_) => panic!("the second file was not asked for"),
    };
    assert_eq!(next.file(), GroupFile::Events);
    assert!(check_idle(Ok(true)).is_err());
}

#[test]
fn limits_are_compared_by_what_they_say() {
    assert!(limit_matches("memory.max", "536870912\n", "536870912").unwrap());
    assert!(!limit_matches("memory.max", "max\n", "536870912").unwrap());
    assert!(io_limit_matches("8:16 rbps=9\n8:0 wbps=2 rbps=1\n", "8:0 rbps=1 wbps=2").unwrap());
    assert!(!io_limit_matches("8:0 rbps=1 wbps=2 riops=4\n", "8:0 rbps=1 wbps=2").unwrap());
    assert!(io_limit_matches("8:0 rbps=1\n8:0 rbps=1\n", "8:0 rbps=1").is_err());
    assert!(!io_limit_matches("8:0 rbps=1 wbps=3\n", "8:0 rbps=1 wbps=2").unwrap());
    let readings = ["536870912\n".to_owned(), "256\n".to_owned()];
    assert_eq!(verify_limits(&writes(), &[]).unwrap(), Some(0));
    assert_eq!(verify_limits(&writes(), &readings[..1]).unwrap(), Some(1));
    assert_eq!(verify_limits(&writes(), &readings).unwrap(), None);
    assert!(verify_limits(&writes(), &readings[1..]).is_err());
    let readings = ["536870912\n".to_owned(), "257\n".to_owned()];
    assert!(matches!(
        verify_limits(&writes(), &readings),
        Err(ExecutionDomainError::Backend { category: FailureCategory::IdentityMismatch, .. })
    ));
}

#[test]
fn controls_are_single_regular_files_beside_their_group() {
    let parent = metadata(S_IFDIR, 1);
    let control = metadata(S_IFREG, 2);
    assert!(check_control(&control, &parent).is_ok());
    assert!(check_control(&metadata(S_IFIFO, 2), &parent).is_err());
    assert!(check_control(&Metadata { nlink: 2, ..control }, &parent).is_err());
    assert!(check_control(&Metadata { mount_id: 6, ..control }, &parent).is_err());
    assert!(!entry_is_directory(&control, &parent).unwrap());
    assert!(entry_is_directory(&metadata(S_IFDIR, 3), &parent).unwrap());
    assert!(entry_is_directory(&metadata(S_IFIFO, 3), &parent).is_err());
}

#[test]
fn attempts_wait_for_the_supervisor_and_an_empty_root() {
    let all = "cpu memory pids io";
    assert!(check_attempt_preconditions(true, Ok(()), all, "").is_ok());
    assert!(check_attempt_preconditions(false, Ok(()), all, "").is_err());
    assert!(check_attempt_preconditions(true, Err(failure(FailureCategory::Io)), all, "").is_err());
    assert!(check_attempt_preconditions(true, Ok(()), "cpu", "").is_err());
    assert!(check_attempt_preconditions(true, Ok(()), all, "7\n").is_err());
    assert!(check_enable(all, "").is_ok());
    assert!(check_enable(all, "1\n").is_err());
    assert!(check_evacuated("", "5\n").is_ok());
    assert!(check_evacuated("5\n", "5\n").is_err());
    assert!(check_evacuated("", "").is_err());
    assert!(check_attached(Ok(vec![4]), 4).is_ok());
    assert!(check_attached(Ok(vec![5]), 4).is_err());
}

#[test]
fn the_supervisor_moves_before_controllers_are_enabled() {
    let pid = 40;
    let mut stage = SupervisorStage::Limits;
    let mut order = Vec::new();
    while stage != SupervisorStage::Ready {
        order.push(stage);
        let event = match stage {
            SupervisorStage::RootMembers => SupervisorEvent::Members(vec![pid], false),
            SupervisorStage::SupervisorMembers => SupervisorEvent::Members(vec![], false),
            SupervisorStage::RootEmptied => SupervisorEvent::Members(vec![], false),
            SupervisorStage::SupervisorAlone => SupervisorEvent::Members(vec![pid], false),
            _ => SupervisorEvent::Passed,
        };
        stage = prepare_supervisor(stage, event, pid).unwrap();
    }
    let at = |wanted| order.iter().position(|stage| *stage == wanted).unwrap();
    assert!(at(SupervisorStage::Migrate) < at(SupervisorStage::Enable));
    assert!(prepare_supervisor(
        SupervisorStage::RootMembers,
        SupervisorEvent::Members(vec![pid, 41], false),
        pid
    )
    .is_err());
    assert!(prepare_supervisor(
        SupervisorStage::SupervisorMembers,
        SupervisorEvent::Members(vec![], true),
        pid
    )
    .is_err());
}

#[test]
fn recovery_kills_what_is_left_and_proves_it_gone() {
    let mut run = Neutralization::begin(0, 10).unwrap_or_else(|e| panic!("{e:?}"));
    assert_eq!(run.stage(), NeutralizeStage::FirstScan);
    run.scanned(Ok(false), 1, 10);
    assert_eq!(run.stage(), NeutralizeStage::Kill);
    run.killed(Ok(()));
    assert_eq!(run.stage(), NeutralizeStage::Rescan);
    run.scanned(Ok(true), 2, 10);
    assert_eq!(run.stage(), NeutralizeStage::Finished(true));
    assert!(run.finish().is_ok());

    let mut run = Neutralization::begin(0, 10).unwrap_or_else(|e| panic!("{e:?}"));
    run.scanned(Err(failure(FailureCategory::Io)), 1, 10);
    run.killed(Ok(()));
    run.scanned(Ok(true), 2, 10);
    assert!(run.finish().is_err());
    assert!(Neutralization::begin(10, 10).is_err());
    assert!(check_recovered_removal(true).is_ok());
    assert!(check_recovered_removal(false).is_err());
}

#[test]
fn waiting_ends_with_emptiness_or_the_deadline() {
    assert!(matches!(wait_empty(1, 10, Ok(true)), WaitStep::Done(Ok(()))));
    assert!(matches!(wait_empty(1, 10, Ok(false)), WaitStep::Again));
    assert!(matches!(wait_empty(10, 10, Ok(false)), WaitStep::Done(Err(_))));
    assert!(matches!(wait_removable(Ok(true), 11, 10), WaitStep::Done(Ok(()))));
    assert!(matches!(wait_removable(Ok(false), 10, 10), WaitStep::Done(Err(_))));
    assert!(matches!(wait_removable(Ok(false), 9, 10), WaitStep::Again));
    assert!(matches!(wait_emptied(10, Ok(true), 11, 10), EmptyStep::Done(Err(_))));
    assert!(matches!(wait_emptied(9, Ok(true), 11, 10), EmptyStep::Done(Ok(true))));
    assert!(matches!(wait_emptied(9, Ok(false), 10, 10), EmptyStep::Done(Ok(false))));
    assert!(matches!(wait_emptied(7, Ok(false), 8, 10), EmptyStep::Again(2)));
    assert!(matches!(wait_emptied(7, Ok(false), 8, 10 * PAUSE), EmptyStep::Again(PAUSE)));
    assert!(deadline_check(9, 10).is_ok());
    assert!(deadline_check(10, 10).is_err());
    assert!(kill_result(1, Ok(()), 2, 10).is_ok());
    assert!(kill_result(1, Ok(()), 10, 10).is_err());
    assert!(kill_result(1, Err(failure(FailureCategory::Io)), 2, 10).is_err());
}

#[test]
fn the_first_error_stays_and_undoing_is_reported_beside_it() {
    let mut first = None;
    retain_first(&mut first, failure(FailureCategory::Io));
    retain_first(&mut first, failure(FailureCategory::Timeout));
    assert!(matches!(
        first,
        Some(ExecutionDomainError::Backend { category: FailureCategory::Io, .. })
    ));
    assert!(matches!(
        combine(failure(FailureCategory::Io), Ok(())),
        ExecutionDomainError::Backend { .. }
    ));
    assert!(matches!(
        combine(failure(FailureCategory::Io), Err(failure(FailureCategory::Timeout))),
        ExecutionDomainError::LifecycleAndDestroyFailed { .. }
    ));
    assert_eq!(*required(&Some(3)).unwrap(), 3);
    assert!(required::<u8>(&None).is_err());
}

#[test]
fn signals_go_out_group_by_group() {
    let order = signal_order(&vec![vec![3, 1], vec![2]]);
    let mut sorted = order.clone();
    sorted.sort();
    assert_eq!(sorted, [1, 2, 3]);
}
