use execution_domain::contracts::CommandTarget;
use execution_domain::linux::native::{
    check_host, control_fd_probe_spec, installed_rootlesskit_235, service_user, shell_spec,
    verify_binary, verify_delegation, verify_primitive, verify_private_root, verify_root_entry,
    Findings, HostFacts, NativePrerequisites, NativeSnapshot,
};

const VALID: &str = "Package: rootlesskit\nStatus: install ok installed\nVersion: 2.3.5-1\n";

fn findings(packages: &str) -> Findings<'_> {
    Findings {
        host: HostFacts {
            euid: 1000,
            container: false,
            os_release: "ID=debian\nVERSION_ID=\"13\"\n",
            first_process: "systemd\n",
        },
        verified: Ok(()),
        passwd: "root:x:0:0::/root:/bin/sh\nchimera:x:1000:1000::/home/chimera:/bin/sh\n",
        egid: 1000,
        subuid: "chimera:100000:65536\n",
        subgid: "chimera:200000:65536\n",
        packages,
    }
}

#[test]
fn native_preflight_requires_all_three_paths() {
    assert!(NativePrerequisites::from_paths(None, None, None, (b"", b"", b""), findings(VALID))
        .is_err());
}

#[test]
fn native_preflight_requires_exact_installed_rootlesskit_package() {
    let valid = "Package: rootlesskit\nStatus: install ok installed\nVersion: 2.3.5-1\n";
    assert!(installed_rootlesskit_235(valid));
    assert!(!installed_rootlesskit_235(&valid.replace("2.3.5-1", "2.3.6-1")));
    assert!(!installed_rootlesskit_235(
        &valid.replace("install ok installed", "deinstall ok config-files")
    ));
    assert!(!installed_rootlesskit_235(&valid.replace("Package: rootlesskit", "Package: other")));
}

#[test]
fn native_preflight_accepts_a_complete_host() {
    let paths: (&[u8], &[u8], &[u8]) =
        (b"/srv/chimera", b"/sys/fs/cgroup/system.slice/chimera.service", b"/usr/bin/chimera");
    let accepted = NativePrerequisites::from_paths(
        Some(paths.0),
        Some(paths.1),
        Some(paths.2),
        paths,
        findings(VALID),
    );
    let accepted = accepted.unwrap_or_else(|e| panic!("{e:?}"));
    assert_eq!(accepted.root, paths.0);
    assert_eq!(accepted.map.subuid_start(), 100000);
    assert!(NativePrerequisites::from_paths(
        Some(paths.0),
        Some(paths.1),
        Some(paths.2),
        paths,
        findings("")
    )
    .is_err());
}

#[test]
fn the_host_is_checked_fact_by_fact() {
    let good = findings(VALID).host;
    assert!(check_host(&good).is_ok());
    assert!(check_host(&HostFacts { euid: 0, ..findings(VALID).host }).is_err());
    assert!(check_host(&HostFacts { container: true, ..findings(VALID).host }).is_err());
    assert!(check_host(&HostFacts { first_process: "init\n", ..findings(VALID).host }).is_err());
    assert_eq!(service_user(findings(VALID).passwd, 1000).unwrap(), "chimera");
    assert!(service_user(findings(VALID).passwd, 1001).is_err());
    assert!(verify_binary(true, 0o100755, false).is_ok());
    assert!(verify_binary(false, 0o100755, false).is_err());
    assert!(verify_private_root(true, 1000, 1000, 0o40700).is_ok());
    assert!(verify_private_root(true, 1000, 1000, 0o40755).is_err());
    assert!(verify_private_root(true, 1, 1000, 0o40700).is_err());
    assert!(verify_primitive(-1, Some(libc::ENOSYS)).is_err());
    assert!(verify_primitive(-1, Some(libc::EINVAL)).is_ok());
    assert!(verify_delegation(b"/tmp").is_err());
    assert!(verify_root_entry(b"unknown", true).is_err());
}

#[test]
fn a_snapshot_is_clean_with_nothing_left() {
    let mut snapshot = NativeSnapshot::new(0);
    assert!(snapshot.is_clean());
    snapshot.count_members("4\n5\n").unwrap();
    assert_eq!(snapshot.live_processes, 2);
    snapshot.count_launcher(false);
    assert_eq!(snapshot.live_processes, 2);
    let mut alone = NativeSnapshot::new(0);
    alone.count_launcher(true);
    assert!(alone.is_clean());
    alone.count_launcher(false);
    assert_eq!(alone.live_processes, 1);
    snapshot.count_mounts(b"1 0 8:2 / /srv/x rw - ext4 d rw\n", b"/srv").unwrap();
    assert_eq!(snapshot.mounts, 1);
    assert!(!snapshot.is_clean());
    assert!(!NativeSnapshot::new(1).is_clean());
}

#[test]
fn probes_are_shell_commands_of_the_domain() {
    let spec = shell_spec("exit 3");
    match spec.target {
        CommandTarget::Sandboxed { args, .. } => {
            assert_eq!(args.last().unwrap(), "set -eu\nexit 3");
        }
        CommandTarget::Trusted { .. } => panic!("a probe left the domain"),
    }
    assert!(matches!(control_fd_probe_spec().target, CommandTarget::Sandboxed { .. }));
}
