use execution_domain::contracts::DomainPath;
use execution_domain::host_path::parts_of;
use execution_domain::linux::dirfd::{Metadata, S_IFDIR, S_IFIFO, S_IFLNK, S_IFREG};
use execution_domain::linux::immutable::{
    check_start, check_unchanged, confined_symlink, readonly_superblock, required_owner,
    same_metadata, verify_snapshot, EntryKind, Walk,
};
use execution_domain::linux::mounts::{
    expected_bind, mounted, parse_mountinfo, unescape_mount, verify_mountinfo, ExpectedMount,
};
use execution_domain::linux::rootfs::{
    alias_list, alias_made, attribute_flags, check_assembling, check_descriptor, check_device,
    check_staging, check_surroundings, check_writable_source, cover_options, covering_mount, debian,
    descriptor_ranges, generated_etc, kernel_plan, mode_list, own_mounts, staging_options, system_list, validate_inputs, AliasFound,
    AssemblyStep, Covered, DirectoryFacts, EtcFile, KernelStep, MountInput, RootfsPlan, Surroundings,
    CGROUP2_SUPER_MAGIC,
};
use execution_domain::text;
use sha2::{Digest, Sha256};

fn readonly(source: &str, target: &str) -> MountInput {
    MountInput::capture(source.as_bytes().to_vec(), target, true, 1, 1).unwrap()
}

fn writable(source: &str, target: &str) -> MountInput {
    MountInput::capture(source.as_bytes().to_vec(), target, false, 1, 1).unwrap()
}

fn copy(input: &MountInput) -> MountInput {
    MountInput {
        source: input.source.clone(),
        target: input.target.clone(),
        readonly: input.readonly,
        expected_device: input.expected_device,
        expected_inode: input.expected_inode,
        immutable_fingerprint: input.immutable_fingerprint,
    }
}

#[test]
fn rootfs_rejects_broad_exports_and_writable_tools() {
    for source in ["/", "/usr", "/usr/local", "/home", "/root", "/run", "/var/run"] {
        assert!(validate_inputs(&[readonly(source, source)]).is_err());
    }
    assert!(validate_inputs(&[readonly("/usr/bin", "/usr/bin")]).is_ok());
    assert!(validate_inputs(&[writable("/usr/bin", "/usr/bin")]).is_err());
}

fn contents<'a>(files: &'a [EtcFile], name: &str) -> &'a [u8] {
    &files.iter().find(|file| file.name == name).unwrap().contents
}

#[test]
fn minimal_etc_contains_no_host_accounts_or_resolver_copy() {
    let files = generated_etc("attempt-test").unwrap();
    assert_eq!(contents(&files, "passwd"), b"root:x:0:0:root:/home/chimera:/bin/sh\n");
    assert_eq!(contents(&files, "group"), b"root:x:0:\n");
    assert_eq!(
        contents(&files, "nsswitch.conf"),
        b"passwd: files\ngroup: files\nhosts: files dns\n"
    );
    assert_eq!(files.len(), 5);
    assert!(!files.iter().any(|file| file.name == "shadow"));
    assert!(!files.iter().any(|file| file.name == "resolv.conf"));
    assert!(generated_etc("bad\n127.0.0.1 evil").is_err());
}

#[test]
fn readonly_target_aliases_and_duplicate_mounts_are_rejected() {
    for target in [
        "/etc",
        "/usr",
        "/bin",
        "/work",
        "/opt/chimera-tools",
        "/opt/chimera-tools/a/b",
    ] {
        assert!(validate_inputs(&[readonly("/usr/bin", target)]).is_err());
    }
    let input = readonly("/usr/bin", "/usr/bin");
    assert!(validate_inputs(&[copy(&input), input]).is_err());
}

fn full_plan(attempt: &str) -> RootfsPlan {
    let mut list: Vec<(String, &str, bool)> = vec![
        ("/usr/bin".to_owned(), "/usr/bin", true),
        ("/usr/lib".to_owned(), "/usr/lib", true),
        ("/var/cache/chimera/tools".to_owned(), "/opt/hostedtoolcache", true),
        ("/var/cache/chimera/actions".to_owned(), "/opt/chimera-actions", true),
        (
            "/sys/fs/cgroup/chimera/attempt-00000000000000000000000000000007/domain".to_owned(),
            "/sys/fs/cgroup",
            false,
        ),
    ];
    for (name, target) in [
        ("work", "/work"),
        ("tmp", "/tmp"),
        ("home", "/home/chimera"),
        ("run", "/run/chimera"),
        ("docker", "/home/chimera/.docker"),
        ("docker-data", "/var/lib/chimera/docker"),
        ("docker-exec", "/run/chimera/docker-exec"),
    ] {
        list.push((format!("{attempt}/{name}"), target, false));
    }
    let inputs = list
        .into_iter()
        .map(|(source, target, readonly)| MountInput {
            source: source.into_bytes(),
            target: DomainPath::parse(target).unwrap(),
            readonly,
            expected_device: 1,
            expected_inode: 1,
            immutable_fingerprint: None,
        })
        .collect();
    RootfsPlan { staging_root: format!("{attempt}/rootfs").into_bytes(), inputs }
}

#[test]
fn attempts_with_other_names_need_other_groups() {
    let other = "/var/lib/chimera/active/00000000000000000000000000000008";
    let mut plan = full_plan(other);
    assert!(plan.validate_layout().is_err());
    plan.inputs.iter_mut().find(|i| i.target.as_str() == "/sys/fs/cgroup").unwrap().source =
        b"/sys/fs/cgroup/chimera/attempt-00000000000000000000000000000008/domain".to_vec();
    plan.validate_layout().unwrap();
}

#[test]
fn full_layout_refuses_peer_control_roots_and_wrong_cgroup() {
    let attempt = "/var/lib/chimera/active/00000000000000000000000000000007";
    full_plan(attempt).validate_layout().unwrap();
    for (target, source) in [
        ("/work", format!("{attempt}/rootlesskit")),
        (
            "/work",
            "/var/lib/chimera/active/00000000000000000000000000000008/work".to_owned(),
        ),
        ("/opt/hostedtoolcache", format!("{attempt}/rootlesskit")),
        (
            "/sys/fs/cgroup",
            "/sys/fs/cgroup/chimera/attempt-00000000000000000000000000000008/domain".to_owned(),
        ),
    ] {
        let mut bad = full_plan(attempt);
        bad.inputs.iter_mut().find(|i| i.target.as_str() == target).unwrap().source =
            source.into_bytes();
        assert!(bad.validate_layout().is_err());
    }
    let mut missing = full_plan(attempt);
    missing.inputs.retain(|i| i.target.as_str() != "/tmp");
    assert!(missing.validate_layout().is_err());
}

#[test]
fn mountinfo_rejects_shared_unknown_and_writable_readonly_mounts() {
    let expected = vec![ExpectedMount {
        target: parts_of(b"/"),
        root: parts_of(b"/"),
        filesystem: "tmpfs".into(),
        readonly: true,
        nodev: true,
        noexec: false,
    }];
    let valid = "10 2 0:9 / / ro,nosuid,nodev - tmpfs chimera-rootfs ro\n";
    verify_mountinfo(valid, &expected).unwrap();
    for bad in [
        "10 2 0:9 / / rw,nosuid,nodev - tmpfs chimera-rootfs rw\n",
        "10 2 0:9 / / ro,nosuid,nodev shared:1 - tmpfs chimera-rootfs ro\n",
        "10 2 0:9 / / ro,nosuid,nodev master:1 - tmpfs chimera-rootfs ro\n",
        "10 2 0:9 /host/rootlesskit / ro,nosuid,nodev - tmpfs chimera-rootfs ro\n",
    ] {
        assert!(verify_mountinfo(bad, &expected).is_err());
    }
    assert!(verify_mountinfo(
        &format!("{valid}11 10 0:9 /secret /leak ro - tmpfs tmpfs ro\n"),
        &expected
    )
    .is_err());
}

fn entry(kind: u16, inode: u64) -> Metadata {
    Metadata {
        mode: kind | 0o755,
        uid: 0,
        gid: 0,
        nlink: 1,
        mount_id: 40,
        dev_major: 8,
        dev_minor: 2,
        inode,
        size: 6,
        ctime_sec: 1,
        ctime_nsec: 2,
        mtime_sec: 3,
        mtime_nsec: 4,
    }
}

/// Looks at a directory with a file and a link to it.
fn look(entries: usize, depth: usize) -> Result<[u8; 32], execution_domain::error::ExecutionDomainError> {
    let input = readonly("/usr/share/zoneinfo", "/opt/chimera-tools/zoneinfo");
    let mut walk = Walk::begin(&input, &entry(S_IFDIR, 1), false, 0, entries, depth, 100);
    walk.charge(0, 1)?;
    assert_eq!(walk.visit(b"", &entry(S_IFDIR, 1))?, EntryKind::Directory);
    walk.charge(1, 1)?;
    assert_eq!(walk.visit(b"UTC", &entry(S_IFREG, 2))?, EntryKind::File);
    walk.charge(1, 1)?;
    assert_eq!(walk.visit(b"link", &entry(S_IFLNK, 3))?, EntryKind::Link);
    walk.link(b"link", b"UTC")?;
    Ok(walk.fingerprint())
}

#[test]
fn operator_owned_inputs_are_accepted_and_walk_budget_is_enforced() {
    look(100_000, 128).unwrap();
    assert!(look(1, 128).is_err());
    assert!(look(100_000, 1).is_err());
}

#[test]
fn immutable_snapshot_rejects_a_changed_launch_record() {
    let mut input = readonly("/usr/share/zoneinfo/Etc", "/opt/chimera-tools/zoneinfo");
    let fingerprint = look(100_000, 128).unwrap();
    input.immutable_fingerprint = Some(fingerprint);
    verify_snapshot(&input, &fingerprint).unwrap();
    input.immutable_fingerprint.as_mut().unwrap()[0] ^= 1;
    assert!(verify_snapshot(&input, &fingerprint).is_err());
    input.immutable_fingerprint = None;
    assert!(verify_snapshot(&input, &fingerprint).is_err());
}

#[test]
fn fingerprints_are_digests_of_every_record() {
    let input = readonly("/a", "/opt/chimera-tools/a");
    let walk = Walk::begin(&input, &entry(S_IFREG, 1), false, 0, 4, 4, 100);
    let empty: [u8; 32] = Sha256::digest(b"").into();
    assert_eq!(walk.fingerprint(), empty);
    let mut walk = Walk::begin(&input, &entry(S_IFREG, 1), false, 0, 4, 4, 100);
    walk.visit(b"", &entry(S_IFREG, 1)).unwrap();
    let digest: [u8; 32] = Sha256::digest(&walk.transcript).into();
    assert_eq!(walk.fingerprint(), digest);
    assert_eq!(&walk.transcript[..8], &[0; 8]);
    assert_ne!(look(9, 9).unwrap(), walk.fingerprint());
}

#[test]
fn service_owned_shared_and_special_entries_are_refused() {
    let input = readonly("/a", "/opt/chimera-tools/a");
    let mut walk = Walk::begin(&input, &entry(S_IFDIR, 1), false, 0, 9, 9, 100);
    for refused in [
        Metadata { uid: 1000, ..entry(S_IFREG, 2) },
        Metadata { mode: S_IFREG | 0o664, ..entry(S_IFREG, 2) },
        entry(S_IFIFO, 2),
        Metadata { mount_id: 41, ..entry(S_IFREG, 2) },
    ] {
        assert!(walk.visit(b"x", &refused).is_err());
    }
    let mut walk = Walk::begin(&input, &entry(S_IFDIR, 1), true, 0, 9, 9, 100);
    assert!(walk.visit(b"x", &Metadata { uid: 1000, ..entry(S_IFREG, 2) }).is_ok());
    assert!(walk.charge(0, 100).is_err());
}

#[test]
fn links_stay_inside_the_input() {
    assert!(confined_symlink(b"/root", b"a/link", b"../b").is_ok());
    assert!(confined_symlink(b"/root", b"link", b"../b").is_err());
    assert!(confined_symlink(b"/root", b"link", b"/root/b").is_ok());
    assert!(confined_symlink(b"/root", b"link", b"/etc/passwd").is_err());
}

#[test]
fn owners_and_superblocks_decide_what_counts_as_immutable() {
    assert_eq!(required_owner(false, "", 1000, false).unwrap(), 0);
    assert!(required_owner(false, "", 0, false).is_err());
    assert_eq!(required_owner(true, "65534\n", 0, false).unwrap(), 65534);
    let list = parse_mountinfo(
        "40 2 8:2 / / ro,relatime - ext4 /dev/sda2 ro\n41 2 8:3 / /mnt rw - ext4 /dev/sda3 rw\n",
    )
    .unwrap();
    assert!(readonly_superblock(40, &list).unwrap());
    assert!(!readonly_superblock(41, &list).unwrap());
    assert!(readonly_superblock(99, &list).is_err());
}

#[test]
fn an_input_is_looked_at_where_it_was_captured() {
    let device = libc::makedev(8, 2);
    let input = MountInput::capture(b"/a".to_vec(), "/opt/chimera-tools/a", true, device, 1).unwrap();
    assert!(check_start(&input, &entry(S_IFREG, 1)).is_ok());
    assert!(check_start(&input, &entry(S_IFREG, 2)).is_err());
    assert!(check_start(&input, &Metadata { dev_minor: 3, ..entry(S_IFREG, 1) }).is_err());
    assert!(input.check_identity(device, 1).is_ok());
    assert!(input.check_identity(device + 1, 1).is_err());
    assert!(input.checked_metadata(b"/a", device, 1).is_ok());
    assert!(input.checked_metadata(b"/b", device, 1).is_err());
    assert!(same_metadata(&entry(S_IFREG, 1), &entry(S_IFREG, 1)));
    assert!(check_unchanged(&entry(S_IFREG, 1), &entry(S_IFREG, 2)).is_err());
}

#[test]
fn escaped_mount_points_are_read_and_malformed_ones_refused() {
    let unescaped = |value: &str| unescape_mount(&text::chars(value));
    assert_eq!(text::string(&unescaped("/a\\040b").unwrap()), "/a b");
    assert!(unescaped("/a\\04").is_err());
    let list = parse_mountinfo("30 2 8:2 /r /a\\040b rw - ext4 /dev/sda2 rw\n").unwrap();
    assert!(list[0].target.same(&parts_of(b"/a b")));
    assert_eq!(list[0].id, Some(30));
    assert!(!list[0].super_readonly);
    assert!(parse_mountinfo("30 2 8:2\n").is_err());
}

#[test]
fn bindings_are_expected_at_the_nearest_mount() {
    let host = parse_mountinfo(
        "1 0 8:2 / / rw - ext4 /dev/a rw\n2 1 8:3 /data /srv rw - xfs /dev/b rw\n",
    )
    .unwrap();
    let bind = expected_bind(&parts_of(b"/srv/x"), parts_of(b"/work"), false, true, &host).unwrap();
    assert!(bind.root.same(&parts_of(b"/data/x")));
    assert_eq!(bind.filesystem, "xfs");
    let bind = expected_bind(&parts_of(b"/etc"), parts_of(b"/e"), true, true, &host).unwrap();
    assert!(bind.root.same(&parts_of(b"/etc")));
    assert_eq!(bind.filesystem, "ext4");
    assert!(expected_bind(&parts_of(b"/x"), parts_of(b"/y"), true, true, &[]).is_err());
}

#[test]
fn devices_must_be_the_well_known_ones() {
    let character = 0o020000 | 0o666;
    assert!(check_device("null", character, libc::makedev(1, 3)).is_ok());
    assert!(check_device("null", character, libc::makedev(1, 5)).is_err());
    assert!(check_device("zero", character, libc::makedev(1, 5)).is_ok());
    assert!(check_device("null", 0o100666, libc::makedev(1, 3)).is_err());
}

#[test]
fn staging_and_writable_sources_are_private() {
    let facts = DirectoryFacts { is_dir: true, uid: 1000, mode: 0o40700 };
    assert!(check_staging(facts, 1000, true).is_ok());
    assert!(check_staging(facts, 1000, false).is_err());
    assert!(check_staging(DirectoryFacts { mode: 0o40755, ..facts }, 1000, true).is_err());
    assert!(check_staging(DirectoryFacts { uid: 1, ..facts }, 1000, true).is_err());
    let work = writable("/a/work", "/work");
    assert!(check_writable_source(&work, facts, 1000, 0xef53).is_ok());
    assert!(check_writable_source(&work, DirectoryFacts { uid: 1, ..facts }, 1000, 0xef53).is_err());
    let group = writable("/g", "/sys/fs/cgroup");
    let group_facts = DirectoryFacts { mode: 0o40755, ..facts };
    assert!(check_writable_source(&group, group_facts, 1000, CGROUP2_SUPER_MAGIC).is_ok());
    assert!(check_writable_source(&group, group_facts, 1000, 0xef53).is_err());
}

#[test]
fn debian_inputs_are_planned_with_their_tools() {
    let systems = system_list();
    let mut present = vec![false; systems.len()];
    let at = |name: &str| systems.iter().position(|s| *s == name).unwrap();
    present[at("/usr/bin")] = true;
    present[at("/usr/lib")] = true;
    let planned =
        debian(&present, b"/cache/tools", b"/cache/actions", &[b"/srv/node".to_vec()]).unwrap();
    let targets: Vec<&str> = planned.iter().map(|p| p.target.as_str()).collect();
    for wanted in ["/usr/bin", "/usr/lib", "/opt/hostedtoolcache", "/opt/chimera-actions"] {
        assert!(targets.contains(&wanted), "{wanted}");
    }
    assert!(targets.contains(&"/opt/chimera-tools/node"));
}

#[test]
fn aliases_are_made_only_for_the_usual_links() {
    let inputs = [readonly("/usr/bin", "/usr/bin")];
    assert!(alias_made(&AliasFound::Link(b"/usr/bin".to_vec()), "/usr/bin", &inputs).unwrap());
    assert!(!alias_made(&AliasFound::Missing, "/usr/bin", &inputs).unwrap());
    assert!(alias_made(&AliasFound::Link(b"/tmp".to_vec()), "/usr/bin", &inputs).is_err());
}

#[test]
fn mount_attributes_and_own_mounts_are_fixed() {
    assert_eq!(attribute_flags(true, true, true), 0x1 | 0x2 | 0x4 | 0x8);
    assert_eq!(attribute_flags(false, false, false), 0x2);
    let own = own_mounts();
    assert!(own.iter().any(|m| m.target.same(&parts_of(b"/")) && m.readonly));
    let proc_mount = mounted("/proc", "proc", false, true, true);
    assert!(proc_mount.target.same(&parts_of(b"/proc")) && proc_mount.noexec);
    assert!(covering_mount(Covered::Missing, "/proc/kcore", &[]).unwrap().is_none());
}

#[test]
fn descriptors_beside_the_control_socket_are_closed() {
    assert_eq!(descriptor_ranges(5).unwrap(), (Some((3, 4)), (6, u32::MAX)));
    assert_eq!(descriptor_ranges(3).unwrap(), (None, (4, u32::MAX)));
    assert!(descriptor_ranges(2).is_err());
    assert!(check_descriptor(Some(5), true, 5, b"socket:[1]").is_ok());
    assert!(check_descriptor(Some(7), true, 5, b"/etc/passwd").is_err());
}

#[test]
fn only_the_first_process_of_fresh_namespaces_assembles() {
    assert!(check_assembling(1, 1, 10, 11).is_ok());
    assert!(check_assembling(1, 1, 10, 10).is_err());
    assert!(check_assembling(2, 1, 10, 11).is_err());
    assert!(check_assembling(1, 2, 10, 11).is_err());
    let s = Surroundings {
        own_mounts: 10,
        first_mounts: 10,
        own_pids: 20,
        first_pids: 20,
        directory: b"/",
        root: b"/",
        old_root: false,
    };
    assert!(check_surroundings(&s, 10, 20).is_ok());
    assert!(check_surroundings(&s, 11, 20).is_err());
    assert!(check_surroundings(&Surroundings { old_root: true, ..s }, 10, 20).is_err());
}

#[test]
fn assembly_verifies_its_mounts_last() {
    let mut step = AssemblyStep::CheckProcess;
    let mut order = vec![step];
    while let Some(next) = step.next() {
        order.push(next);
        step = next;
    }
    assert_eq!(order.len(), 18);
    assert_eq!(*order.last().unwrap(), AssemblyStep::VerifyMounts);
    let at = |wanted| order.iter().position(|s| *s == wanted).unwrap();
    assert!(at(AssemblyStep::MakeMountsPrivate) < at(AssemblyStep::BindInputs));
    assert!(at(AssemblyStep::Pivot) < at(AssemblyStep::MakeRootReadonly));
}

#[test]
fn domains_see_of_the_kernel_only_what_is_listed() {
    let plan = kernel_plan();
    let mut devices = Vec::new();
    let mut covered = Vec::new();
    let mut mounts = Vec::new();
    for step in &plan {
        match step {
            KernelStep::Mount { place, filesystem, flags, data } => {
                mounts.push((*place, *filesystem, *flags, *data))
            }
            KernelStep::Device { name } => devices.push(*name),
            KernelStep::Cover { place } => covered.push(*place),
            KernelStep::Link { .. } | KernelStep::Seal { .. } => {}
        }
    }
    let quiet = (libc::MS_NOSUID | libc::MS_NODEV | libc::MS_NOEXEC) as u64;
    let holding = (libc::MS_NOSUID | libc::MS_NOEXEC) as u64;
    assert_eq!(
        mounts,
        vec![
            ("proc", "proc", quiet, None),
            ("dev", "tmpfs", holding, Some("mode=0755")),
            ("dev/pts", "devpts", holding, Some("newinstance,ptmxmode=0666,mode=0620")),
            ("dev/shm", "tmpfs", quiet, Some("mode=1777")),
        ]
    );
    assert_eq!(devices, ["null", "zero", "full", "random", "urandom"]);
    assert_eq!(
        covered,
        [
            "proc/sys",
            "proc/sysrq-trigger",
            "proc/kcore",
            "proc/keys",
            "proc/timer_list",
            "proc/acpi",
            "proc/scsi"
        ]
    );
    assert!(matches!(
        plan.last(),
        Some(KernelStep::Seal { place: "dev", readonly: true, nodev: false, noexec: true })
    ));
    assert_eq!(staging_options(), ((libc::MS_NOSUID | libc::MS_NODEV) as u64, "mode=0755"));
    assert_eq!(cover_options(), (quiet, "mode=000"));
    let modes: Vec<_> = mode_list().iter().map(|set| (set.place, set.mode)).collect();
    assert_eq!(modes, [("tmp", 0o1777), ("home/chimera", 0o700), ("run/chimera", 0o700)]);
    let names: Vec<_> = alias_list().iter().map(|alias| (alias.name, alias.target)).collect();
    assert_eq!(
        names,
        [("bin", "/usr/bin"), ("sbin", "/usr/sbin"), ("lib", "/usr/lib"), ("lib64", "/usr/lib64")]
    );
}

#[test]
fn plans_are_cloned_with_their_inputs() {
    let mut input = readonly("/a", "/opt/chimera-tools/a");
    input.immutable_fingerprint = Some([7; 32]);
    let plan = RootfsPlan { inputs: vec![input], staging_root: b"/srv/rootfs".to_vec() };
    let copy = plan.clone();
    assert_eq!(copy.staging_root, plan.staging_root);
    assert_eq!(copy.inputs.len(), 1);
    assert_eq!(copy.inputs[0].source, plan.inputs[0].source);
    assert_eq!(copy.inputs[0].target, plan.inputs[0].target);
    assert_eq!(copy.inputs[0].immutable_fingerprint, Some([7; 32]));
}
