use execution_domain::contracts::AttemptIdentity;
use execution_domain::linux::dirfd::Metadata;
use execution_domain::linux::launcher::{
    canonical, check_alive, check_rootfs, dispatch_internal, duplicate_control, exit_status,
    join_cgroup, joined, launcher_environment, own_arguments, parse_attempt, rootlesskit_arguments,
    Dispatch, MembershipFacts, NetworkLaunch,
};
use execution_domain::linux::rootfs::CGROUP2_SUPER_MAGIC;
use uuid::Uuid;

fn texts(list: &[&str]) -> Vec<Vec<u8>> {
    list.iter().map(|value| value.as_bytes().to_vec()).collect()
}

#[test]
fn launcher_never_selects_host_network_or_outer_ports() {
    let args = rootlesskit_arguments(
        &AttemptIdentity::from_uuid(Uuid::from_u128(7).as_u128()).unwrap(),
        b"/test/chimera",
        b"/test/rootlesskit-state",
        NetworkLaunch::Disconnected,
    )
    .unwrap();
    let has = |wanted: &str| args.iter().any(|v| v.as_slice() == wanted.as_bytes());
    assert!(has("--subid-source=static"));
    assert!(has("--net=none"));
    assert!(has("--port-driver=none"));
    assert!(has("--evacuate-cgroup2=init"));
    for required in ["--pidns", "--cgroupns", "--ipcns", "--utsns", "--propagation=rprivate"] {
        assert!(has(required));
    }
    assert!(!args.iter().any(|v| String::from_utf8_lossy(v).contains("host")
        || String::from_utf8_lossy(v).starts_with("--publish")));
    assert_eq!(args[args.len() - 2], b"--internal-domain-bootstrap");
    assert_eq!(args[args.len() - 1], b"00000000000000000000000000000007");
}

#[test]
fn reserved_entry_fails_closed_and_trusted_cli_is_untouched() {
    for args in [vec![], vec!["run"], vec!["--help"]] {
        assert!(matches!(dispatch_internal(&texts(&args)), Dispatch::Outside));
    }
    for args in [
        vec!["--internal-domain-bootstrap"],
        vec!["--internal-domain-launch"],
        vec!["--internal-domain-bootstrap", "CANARY"],
        vec!["--internal-domain-bootstrap", "00000000-0000-0000-0000-000000000007"],
    ] {
        assert!(matches!(dispatch_internal(&texts(&args)), Dispatch::Refused(78)));
    }
    assert!(rootlesskit_arguments(
        &AttemptIdentity::new(),
        b"/test/chimera",
        b"/test/state",
        NetworkLaunch::Slirp
    )
    .is_err());
}

#[test]
fn launcher_rejects_foreign_membership_before_writing() {
    let good = MembershipFacts {
        filesystem: CGROUP2_SUPER_MAGIC,
        mode: 0o100644,
        links: 1,
        flags: libc::O_WRONLY,
        path: b"/sys/fs/cgroup/chimera/attempt-00000000000000000000000000000007/domain/cgroup.procs",
    };
    assert!(join_cgroup(&good).is_ok());
    assert!(join_cgroup(&MembershipFacts { filesystem: 0xef53, ..good }).is_err());
    assert!(join_cgroup(&MembershipFacts { flags: libc::O_RDONLY, ..good }).is_err());
    assert!(join_cgroup(&MembershipFacts { links: 0, ..good }).is_err());
    assert!(join_cgroup(&MembershipFacts { path: b"/tmp/CANARY", ..good }).is_err());
    assert!(joined(2, None).is_ok());
    assert!(joined(1, None).is_err());
    assert!(joined(-1, Some(libc::EPERM)).is_err());
}

#[test]
fn own_arguments_are_understood_again() {
    let attempt = AttemptIdentity::from_uuid(7).unwrap();
    let args = own_arguments(&attempt, b"/usr/bin/rootlesskit", b"/test/chimera", b"/test/state");
    match dispatch_internal(&args) {
        Dispatch::Launch { attempt: found, rootlesskit, executable, state } => {
            assert_eq!(found, attempt);
            assert_eq!(rootlesskit, b"/usr/bin/rootlesskit");
            assert_eq!(executable, b"/test/chimera");
            assert_eq!(state, b"/test/state");
        }
        _ => panic!("the arguments were not understood"),
    }
    let boot = texts(&["--internal-domain-bootstrap", "00000000000000000000000000000007"]);
    assert!(matches!(
        dispatch_internal(&boot),
        Dispatch::Bootstrap { attempt: found } if found == attempt
    ));
    assert!(parse_attempt(b"\xff").is_err());
    assert!(parse_attempt(b"00000000000000000000000000000000").is_err());
}

#[test]
fn the_launcher_gets_a_fixed_environment() {
    let environment = launcher_environment();
    assert!(environment.iter().any(|v| v.starts_with(b"PATH=")));
}

#[test]
fn paths_must_be_absolute_and_resolved() {
    assert!(canonical(b"/usr/bin/x", b"/usr/bin/x").is_ok());
    assert!(canonical(b"/usr/bin/x", b"/opt/x").is_err());
    assert!(canonical(b"relative", b"relative").is_err());
}

#[test]
fn the_rootfs_must_still_be_the_one_held_open() {
    let held = Metadata {
        mode: 0o040755,
        uid: 0,
        gid: 0,
        nlink: 2,
        mount_id: 9,
        dev_major: 8,
        dev_minor: 1,
        inode: 77,
        size: 0,
        ctime_sec: 0,
        ctime_nsec: 0,
        mtime_sec: 0,
        mtime_nsec: 0,
    };
    assert!(check_rootfs(2049, 77, &held).is_ok());
    assert!(check_rootfs(2050, 77, &held).is_err());
    assert!(check_rootfs(2049, 78, &held).is_err());
    assert!(check_rootfs(1, 77, &held).is_err());
}

#[test]
fn the_control_socket_is_a_connected_stream() {
    assert!(duplicate_control(libc::AF_UNIX, libc::SOCK_STREAM, libc::AF_UNIX, true).is_ok());
    assert!(duplicate_control(libc::AF_UNIX, libc::SOCK_DGRAM, libc::AF_UNIX, true).is_err());
    assert!(duplicate_control(libc::AF_INET, libc::SOCK_STREAM, libc::AF_INET, true).is_err());
    assert!(duplicate_control(libc::AF_UNIX, libc::SOCK_STREAM, libc::AF_UNIX, false).is_err());
}

#[test]
fn an_ended_launcher_is_noticed() {
    assert!(check_alive(0, None, Ok(false)).is_ok());
    assert!(check_alive(1, None, Ok(true)).is_err());
    assert!(check_alive(-1, Some(libc::EIO), Ok(false)).is_err());
    assert_eq!(exit_status(Ok(5)), 5);
    assert_eq!(exit_status(Err(execution_domain::linux::launcher::failure(
        execution_domain::contracts::FailureCategory::Io
    ))), 78);
}
