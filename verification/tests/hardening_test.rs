use execution_domain::linux::hardening::{
    bounding_step, capability_words, checked, clear_groups, denied_list, landlock_abi, rule_access,
    Architecture, BoundingStep, ChildPolicy, DeniedCall, HardeningStep, SeccompPolicy,
    WorkflowPath, EXECUTE, FILE_RIGHTS, HANDLED, INIT_CAPABILITIES, READ, WRITE,
};

// Interpret the actual BPF program, rather than a separate policy model.
fn decision(policy: &SeccompPolicy, arch: u32, nr: i64, flags: u64) -> u32 {
    let mut data = [0u8; 64];
    data[..4].copy_from_slice(&(nr as u32).to_ne_bytes());
    data[4..8].copy_from_slice(&arch.to_ne_bytes());
    data[16..24].copy_from_slice(&flags.to_ne_bytes());
    let mut accumulator = 0;
    let mut pc = 0;
    loop {
        let instruction = &policy.filter[pc];
        pc += 1;
        match instruction.code {
            0x20 => {
                accumulator = u32::from_ne_bytes(
                    data[instruction.k as usize..instruction.k as usize + 4].try_into().unwrap(),
                );
            }
            0x15 => {
                pc += if accumulator == instruction.k { instruction.jt } else { instruction.jf }
                    as usize
            }
            0x45 => {
                pc += if accumulator & instruction.k != 0 {
                    instruction.jt
                } else {
                    instruction.jf
                } as usize
            }
            0x06 => return instruction.k,
            code => panic!("unexpected BPF opcode {code}"),
        }
    }
}

fn machine() -> &'static str {
    if libc::SYS_read == 0 {
        "x86_64"
    } else {
        "aarch64"
    }
}

#[test]
fn hardening_checks_architecture_clone_flags_and_dangerous_syscalls() {
    let policy = SeccompPolicy::native(machine(), None).unwrap();
    let arch = if machine() == "x86_64" { 0xc000003e } else { 0xc00000b7 };
    assert_eq!(decision(&policy, 0, libc::SYS_read, 0), 0x80000000);
    for nr in [
        libc::SYS_ptrace,
        libc::SYS_process_vm_readv,
        libc::SYS_process_vm_writev,
        libc::SYS_pidfd_getfd,
        libc::SYS_bpf,
        libc::SYS_perf_event_open,
        libc::SYS_keyctl,
        libc::SYS_add_key,
        libc::SYS_request_key,
        libc::SYS_kexec_load,
        libc::SYS_reboot,
        libc::SYS_open_by_handle_at,
        libc::SYS_name_to_handle_at,
        libc::SYS_mount,
        libc::SYS_umount2,
        libc::SYS_pivot_root,
        libc::SYS_chroot,
        libc::SYS_setns,
        libc::SYS_unshare,
        libc::SYS_open_tree,
        libc::SYS_move_mount,
        libc::SYS_fsopen,
        libc::SYS_fsconfig,
        libc::SYS_fsmount,
        libc::SYS_fspick,
        libc::SYS_mount_setattr,
    ] {
        assert_eq!(decision(&policy, arch, nr, 0), 0x50001, "syscall {nr}");
    }
    for nr in [
        libc::SYS_read,
        libc::SYS_write,
        libc::SYS_execve,
        libc::SYS_socket,
        libc::SYS_connect,
    ] {
        assert_eq!(decision(&policy, arch, nr, 0), 0x7fff0000);
    }
    for flag in [
        libc::CLONE_NEWCGROUP,
        libc::CLONE_NEWIPC,
        libc::CLONE_NEWNET,
        libc::CLONE_NEWNS,
        libc::CLONE_NEWPID,
        libc::CLONE_NEWUSER,
        libc::CLONE_NEWUTS,
        0x80,
    ] {
        assert_eq!(
            decision(&policy, arch, libc::SYS_clone, flag as u64 | libc::SIGCHLD as u64),
            0x50001
        );
    }
    assert_eq!(decision(&policy, arch, libc::SYS_clone, libc::SIGCHLD as u64), 0x7fff0000);
    assert_eq!(decision(&policy, arch, libc::SYS_clone3, 0), 0x50026);
    if machine() == "x86_64" {
        assert_eq!(decision(&policy, arch, libc::SYS_read | 0x40000000, 0), 0x80000000);
    }
}

#[test]
fn numbers_of_refused_calls_are_those_of_the_machine() {
    let own = if machine() == "x86_64" { Architecture::X86_64 } else { Architecture::Aarch64 };
    for (call, number) in [
        (DeniedCall::Ptrace, libc::SYS_ptrace),
        (DeniedCall::ProcessVmReadv, libc::SYS_process_vm_readv),
        (DeniedCall::ProcessVmWritev, libc::SYS_process_vm_writev),
        (DeniedCall::PidfdGetfd, libc::SYS_pidfd_getfd),
        (DeniedCall::Bpf, libc::SYS_bpf),
        (DeniedCall::PerfEventOpen, libc::SYS_perf_event_open),
        (DeniedCall::Keyctl, libc::SYS_keyctl),
        (DeniedCall::AddKey, libc::SYS_add_key),
        (DeniedCall::RequestKey, libc::SYS_request_key),
        (DeniedCall::KexecLoad, libc::SYS_kexec_load),
        (DeniedCall::KexecFileLoad, libc::SYS_kexec_file_load),
        (DeniedCall::Reboot, libc::SYS_reboot),
        (DeniedCall::OpenByHandleAt, libc::SYS_open_by_handle_at),
        (DeniedCall::NameToHandleAt, libc::SYS_name_to_handle_at),
        (DeniedCall::Mount, libc::SYS_mount),
        (DeniedCall::Umount2, libc::SYS_umount2),
        (DeniedCall::PivotRoot, libc::SYS_pivot_root),
        (DeniedCall::Chroot, libc::SYS_chroot),
        (DeniedCall::Setns, libc::SYS_setns),
        (DeniedCall::Unshare, libc::SYS_unshare),
        (DeniedCall::OpenTree, libc::SYS_open_tree),
        (DeniedCall::MoveMount, libc::SYS_move_mount),
        (DeniedCall::Fsopen, libc::SYS_fsopen),
        (DeniedCall::Fsconfig, libc::SYS_fsconfig),
        (DeniedCall::Fsmount, libc::SYS_fsmount),
        (DeniedCall::Fspick, libc::SYS_fspick),
        (DeniedCall::MountSetattr, libc::SYS_mount_setattr),
    ] {
        assert_eq!(i64::from(own.call_number(call)), number, "{call:?}");
    }
    assert_eq!(denied_list().len(), 27);
    assert_eq!(i64::from(own.clone_call()), libc::SYS_clone);
    assert_eq!(Architecture::X86_64.audit_code(), 0xc000003e);
    assert_eq!(Architecture::Aarch64.audit_code(), 0xc00000b7);
    assert!(SeccompPolicy::native("riscv64", None).is_err());
}

#[test]
fn missing_kernel_features_fail_closed() {
    assert!(landlock_abi(3, None).is_ok());
    assert!(landlock_abi(2, None).is_err());
    assert!(landlock_abi(-1, Some(libc::ENOSYS)).is_err());
    assert_eq!(checked(4, None).unwrap(), 4);
    assert!(checked(-1, Some(libc::EPERM)).is_err());
    assert!(clear_groups(0, 0, None).is_ok());
    assert!(clear_groups(-1, 0, Some(libc::EPERM)).is_ok());
    assert!(clear_groups(-1, 1, Some(libc::EPERM)).is_err());
}

#[test]
fn every_bounding_capability_that_is_not_kept_is_dropped() {
    assert_eq!(bounding_step(7, 1, None, INIT_CAPABILITIES).unwrap(), BoundingStep::Keep);
    assert_eq!(bounding_step(6, 1, None, INIT_CAPABILITIES).unwrap(), BoundingStep::Drop);
    assert_eq!(
        bounding_step(41, -1, Some(libc::EINVAL), INIT_CAPABILITIES).unwrap(),
        BoundingStep::Finished
    );
    assert!(bounding_step(3, -1, Some(libc::EPERM), 0).is_err());
    assert_eq!(capability_words(0x1_0000_0180), (0x180, 1));
    assert_eq!(INIT_CAPABILITIES, 1 << 7 | 1 << 8);
}

#[test]
fn rules_for_files_carry_only_rights_on_files() {
    assert_eq!(rule_access(WRITE, true), WRITE);
    assert_eq!(rule_access(WRITE, false), WRITE & FILE_RIGHTS);
    let paths = [
        WorkflowPath { path: "/usr/bin".to_owned(), readonly: true },
        WorkflowPath { path: "/work".to_owned(), readonly: false },
    ];
    let policy = ChildPolicy::workflow(5, None, machine(), &paths).unwrap();
    let access = |path: &str| policy.paths.iter().find(|r| r.path == path).unwrap().access;
    assert_eq!(access("/usr/bin"), READ | EXECUTE);
    assert_eq!(access("/work") & WRITE, WRITE);
    assert!(ChildPolicy::workflow(1, None, machine(), &paths).is_err());
}

#[test]
fn no_rule_is_about_the_groups_or_gives_more_than_is_handled() {
    let paths = [
        WorkflowPath { path: "/sys/fs/cgroup".to_owned(), readonly: false },
        WorkflowPath { path: "/work".to_owned(), readonly: false },
    ];
    let policy = ChildPolicy::workflow(5, None, machine(), &paths).unwrap();
    assert_eq!(policy.paths.len(), 11);
    for rule in &policy.paths {
        assert_ne!(rule.path, "/sys/fs/cgroup");
        for is_directory in [true, false] {
            let given = rule_access(rule.access, is_directory);
            assert_eq!(given & !HANDLED, 0);
            assert_eq!(given & (1 << 6 | 1 << 11), 0);
        }
    }
}

#[test]
fn the_filter_is_installed_last() {
    let mut step = HardeningStep::CloseDescriptors;
    let mut order = vec![step];
    while let Some(next) = step.next() {
        order.push(next);
        step = next;
    }
    assert_eq!(order.len(), 9);
    assert_eq!(*order.last().unwrap(), HardeningStep::InstallFilter);
    let at = |wanted| order.iter().position(|s| *s == wanted).unwrap();
    assert!(at(HardeningStep::SetNoNewPrivileges) < at(HardeningStep::RestrictFilesystem));
}
