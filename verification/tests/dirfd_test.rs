use execution_domain::contracts::FailureCategory;
use execution_domain::error::ExecutionDomainError;
use execution_domain::linux::dirfd::{
    check_after_read, check_before_read, check_contents, check_created_directory,
    check_new_directory, component,
    decide_removal, exact_entries, io_failure, refuse_entry, removal_plan, root_names,
    temporary_form, temporary_name, validate_regular, verify_binding, verify_chain, verify_created_file, verify_named_entry,
    verify_private_directory, Admission, AtomicWrite, ChainLink, ChildRemovalStage,
    CreatedChildRemoval, FoundEntry, Metadata, Poison, RemovalNext, RemovalPolicy, RemovalStep, WriteEvent, WriteStage, WriteStep, S_IFCHR, S_IFDIR, S_IFIFO,
    S_IFLNK, S_IFREG, S_IFSOCK,
};

fn entry(kind: u16, inode: u64) -> Metadata {
    Metadata {
        mode: kind | 0o600,
        uid: 1000,
        gid: 1000,
        nlink: 1,
        mount_id: 3,
        dev_major: 8,
        dev_minor: 1,
        inode,
        size: 3,
        ctime_sec: 1,
        ctime_nsec: 1,
        mtime_sec: 1,
        mtime_nsec: 1,
    }
}

/// Writes a record over an old one, with one stage failing.
fn write_atomic(fail: Option<WriteStage>) -> (Vec<WriteStage>, Result<(), ExecutionDomainError>) {
    let old = entry(S_IFREG, 5);
    let new = entry(S_IFREG, 6);
    let directory = entry(S_IFDIR, 1).identity();
    let mut write = AtomicWrite::begin(b"journal.json", false, 3, directory)
        .unwrap_or_else(|e| panic!("{e:?}"));
    let mut order = Vec::new();
    loop {
        order.push(write.stage);
        let event = if fail == Some(write.stage) {
            WriteEvent::Failed(io_failure(Some(libc::EIO)))
        } else {
            match write.stage {
                WriteStage::Previous | WriteStage::OldEntry => WriteEvent::Found(Some(old)),
                WriteStage::Pending => WriteEvent::Found(None),
                WriteStage::Written | WriteStage::NextEntry | WriteStage::Confirm => {
                    WriteEvent::Found(Some(new))
                }
                _ => WriteEvent::Passed,
            }
        };
        match write.advance(event) {
            WriteStep::Continue(next) => write = next,
            WriteStep::Committed => return (order, Ok(())),
            WriteStep::Failed(error) => return (order, Err(error)),
        }
    }
}

#[test]
fn atomic_directory_sync_failure_is_not_reported_as_committed() {
    let (order, result) = write_atomic(Some(WriteStage::SyncDirectory));

    assert!(result.is_err());
    assert!(order.contains(&WriteStage::Rename));
    let (poison, checked) = verify_binding(Poison { poisoned: true }, "/root", Ok(()));
    assert!(poison.poisoned);
    assert!(checked.is_err());
}

#[test]
fn a_record_is_synced_before_it_takes_its_name() {
    let (order, result) = write_atomic(None);
    assert!(result.is_ok());
    let at = |wanted| order.iter().position(|stage| *stage == wanted).unwrap();
    assert!(at(WriteStage::SyncFile) < at(WriteStage::Rename));
    assert!(at(WriteStage::OldEntry) < at(WriteStage::Rename));
    assert!(at(WriteStage::Rename) < at(WriteStage::SyncDirectory));
    assert!(at(WriteStage::SyncDirectory) < at(WriteStage::Confirm));
    let (order, result) = write_atomic(Some(WriteStage::SyncFile));
    assert!(result.is_err());
    assert!(!order.contains(&WriteStage::Rename));
}

#[test]
fn a_swapped_record_ends_the_write() {
    let directory = entry(S_IFDIR, 1).identity();
    let start = || AtomicWrite {
        stage: WriteStage::OldEntry,
        new: false,
        length: 3,
        directory,
        previous: Some(entry(S_IFREG, 5)),
        written: Some(entry(S_IFREG, 6)),
    };
    assert!(matches!(
        start().advance(WriteEvent::Found(Some(entry(S_IFREG, 5)))),
        WriteStep::Continue(_)
    ));
    assert!(matches!(
        start().advance(WriteEvent::Found(Some(entry(S_IFREG, 7)))),
        WriteStep::Failed(ExecutionDomainError::Backend {
            category: FailureCategory::IdentityMismatch,
            ..
        })
    ));
    assert!(matches!(start().advance(WriteEvent::Found(None)), WriteStep::Failed(_)));
    assert!(!start().rename_no_replace());
    assert!(AtomicWrite { previous: None, ..start() }.rename_no_replace());
    assert!(AtomicWrite::begin(b"../x", false, 3, directory).is_err());
}

#[test]
fn names_are_single_components() {
    assert!(component(b"journal.json").is_ok());
    for bad in [&b""[..], b".", b"..", b"a/b", b"/a"] {
        assert!(component(bad).is_err(), "{bad:?}");
    }
    assert!(check_new_directory(b"work", 0o700).is_ok());
    assert!(check_new_directory(b"../work", 0o700).is_err());
    assert!(refuse_entry(b"x", None).is_ok());
    assert!(refuse_entry(b"x", Some(entry(S_IFREG, 1))).is_err());
}

#[test]
fn readers_refuse_anything_but_a_stable_small_file() {
    let directory = entry(S_IFDIR, 1).identity();
    let file = entry(S_IFREG, 5);
    assert!(validate_regular(&file, 3, &directory).is_ok());
    assert!(validate_regular(&file, 2, &directory).is_err());
    assert!(validate_regular(&entry(S_IFIFO, 5), 9, &directory).is_err());
    assert!(validate_regular(&entry(S_IFLNK, 5), 9, &directory).is_err());
    assert!(validate_regular(&Metadata { nlink: 2, ..file }, 9, &directory).is_err());
    assert!(check_before_read(&file, Some(file), 9, &directory).is_ok());
    assert!(check_before_read(&file, Some(entry(S_IFREG, 6)), 9, &directory).is_err());
    assert!(check_after_read(&file, &file, 3, 9, &directory).is_ok());
    assert!(check_after_read(&file, &file, 2, 9, &directory).is_err());
    let grown = Metadata { size: 4, ..file };
    assert!(check_after_read(&file, &grown, 4, 9, &directory).is_err());
    let touched = Metadata { mtime_nsec: 2, ..file };
    assert!(check_after_read(&file, &touched, 3, 9, &directory).is_err());
    assert!(verify_named_entry(&file, &file, true).is_ok());
    assert!(verify_named_entry(&Metadata { nlink: 2, ..file }, &file, true).is_err());
    assert!(verify_named_entry(&Metadata { nlink: 2, ..file }, &file, false).is_ok());
    assert!(verify_created_file(&file, &file).is_ok());
}

#[test]
fn a_swapped_ancestor_breaks_the_chain_and_stays_broken() {
    let link = |inode| ChainLink {
        bound: entry(S_IFDIR, inode).identity(),
        held: entry(S_IFDIR, inode),
        named: Some(entry(S_IFDIR, inode)),
    };
    assert!(verify_chain(&[link(1), link(2)]).is_ok());
    let swapped = ChainLink { named: Some(entry(S_IFDIR, 9)), ..link(2) };
    let chain = verify_chain(&[link(1), swapped]);
    assert!(chain.is_err());
    let (poison, result) = verify_binding(Poison { poisoned: false }, "/root", chain);
    assert!(poison.poisoned && result.is_err());
    let (_, later) = verify_binding(poison, "/root", Ok(()));
    assert!(matches!(
        later,
        Err(ExecutionDomainError::PoisonedRoot { path }) if path == "/root"
    ));
}

#[test]
fn only_what_belongs_to_an_attempt_is_removed() {
    let directory = entry(S_IFDIR, 1).identity();
    let decide = |policy, name: &[u8], m: Metadata| {
        decide_removal(policy, name, &m, &directory, 1000)
    };
    let attempt = RemovalPolicy::Attempt;
    assert_eq!(
        decide(attempt, b"work", entry(S_IFDIR, 2)).unwrap(),
        Admission::Directory(RemovalPolicy::Writable)
    );
    assert_eq!(
        decide(attempt, b"rootfs", entry(S_IFDIR, 2)).unwrap(),
        Admission::Directory(RemovalPolicy::Supervisor)
    );
    assert!(decide(attempt, b"journal.json", entry(S_IFREG, 3)).is_ok());
    assert!(decide(attempt, b"unknown", entry(S_IFREG, 3)).is_err());
    assert!(decide(RemovalPolicy::Writable, b"link", entry(S_IFLNK, 4)).is_ok());
    assert!(decide(RemovalPolicy::Supervisor, b"link", entry(S_IFLNK, 4)).is_err());
    for policy in [attempt, RemovalPolicy::Supervisor, RemovalPolicy::Writable] {
        assert!(decide(policy, b"null", entry(S_IFCHR, 5)).is_err());
        assert!(decide(policy, b"socket", entry(S_IFSOCK, 5)).is_err());
        assert!(decide(policy, b"work", Metadata { uid: 7, ..entry(S_IFDIR, 6) }).is_err());
    }
}

#[test]
fn a_plan_covers_the_whole_tree_or_nothing() {
    let directory = entry(S_IFDIR, 1).identity();
    let leaf = |name: &[u8], kind, inode| FoundEntry {
        name: name.to_vec(),
        metadata: entry(kind, inode),
        children: vec![],
    };
    let tree = |kind| {
        vec![
            FoundEntry {
                name: b"work".to_vec(),
                metadata: entry(S_IFDIR, 2),
                children: vec![leaf(b"a", kind, 3)],
            },
            leaf(b"journal.json", S_IFREG, 4),
        ]
    };
    let plan =
        removal_plan(&tree(S_IFREG), RemovalPolicy::Attempt, &directory, 1000).unwrap();
    let shape: Vec<&[u8]> = plan
        .iter()
        .map(|step| match step {
            RemovalStep::Enter(name) => name.as_slice(),
            RemovalStep::Unlink { name, .. } => name.as_slice(),
            RemovalStep::Leave(name) => name.as_slice(),
        })
        .collect();
    assert_eq!(shape, [&b"work"[..], b"a", b"work", b"journal.json"]);
    assert!(removal_plan(&tree(S_IFCHR), RemovalPolicy::Attempt, &directory, 1000).is_err());
}

#[test]
fn private_directories_belong_to_the_service_alone() {
    let private = Metadata { mode: S_IFDIR | 0o700, ..entry(S_IFDIR, 2) };
    assert!(verify_private_directory(&private, 1000).is_ok());
    assert!(verify_private_directory(&private, 1001).is_err());
    let shared = Metadata { mode: S_IFDIR | 0o750, ..private };
    assert!(verify_private_directory(&shared, 1000).is_err());
    assert!(check_created_directory(&private.identity(), &private.identity()).is_ok());
    assert!(check_created_directory(&private.identity(), &entry(S_IFDIR, 9).identity()).is_err());
}

#[test]
fn listings_are_compared_without_order() {
    let list = |names: &[&str]| names.iter().map(|n| n.as_bytes().to_vec()).collect::<Vec<_>>();
    assert!(exact_entries(&list(&["a", "b"]), &list(&["b", "a"])));
    assert!(!exact_entries(&list(&["a"]), &list(&["b", "a"])));
    assert!(!exact_entries(&list(&["a", "b", "c"]), &list(&["b", "a"])));
}

#[test]
fn roots_are_bound_name_by_name() {
    assert_eq!(
        root_names(b"/srv//chimera/./job/").unwrap(),
        [b"srv".to_vec(), b"chimera".to_vec(), b"job".to_vec()]
    );
    assert!(root_names(b"/").unwrap().is_empty());
    for refused in [&b"srv/chimera"[..], b"", b"/srv/../etc", b"/srv/a\0b"] {
        let error = root_names(refused).err().unwrap();
        assert!(matches!(
            error,
            ExecutionDomainError::Backend { category: FailureCategory::InvalidInput, .. }
        ));
    }
}

#[test]
fn temporary_names_are_drawn_anew() {
    let name = temporary_name();
    assert!(component(name.as_bytes()).is_ok());
    assert_eq!(name.len(), ".new-".len() + 32);
    assert!(name.starts_with(".new-"));
    assert!(name[5..].bytes().all(|b| b.is_ascii_digit() || (b'a'..=b'f').contains(&b)));
    assert_ne!(name, temporary_name());
    let id = u128::from_str_radix(&name[5..], 16).unwrap();
    assert_eq!(name, temporary_form(id));
    assert_eq!((id >> 76) & 0xf, 4);
    assert_eq!((id >> 62) & 3, 2);
    assert_eq!(temporary_form(0xab), ".new-000000000000000000000000000000ab");
}

/// Takes a directory with files back, and fails at the given step, if any.
fn take_back(files: usize, fail: Option<usize>) -> (Vec<(ChildRemovalStage, usize)>, bool) {
    let mut removal = CreatedChildRemoval::begin(files);
    let mut steps = Vec::new();
    loop {
        steps.push(removal.step());
        let outcome = if fail == Some(steps.len()) { Err(io_failure(Some(5))) } else { Ok(()) };
        match removal.advance(outcome) {
            RemovalNext::Continue(next) => removal = next,
            RemovalNext::Removed => return (steps, true),
            RemovalNext::Poison(error) => {
                assert!(matches!(error, ExecutionDomainError::Backend { errno: Some(5), .. }));
                return (steps, false);
            }
        }
    }
}

#[test]
fn a_new_directory_is_taken_back_only_after_all_its_files_passed() {
    let (steps, removed) = take_back(2, None);
    assert!(removed);
    assert_eq!(
        steps,
        vec![
            (ChildRemovalStage::Name, 0),
            (ChildRemovalStage::Parent, 0),
            (ChildRemovalStage::Child, 0),
            (ChildRemovalStage::Identity, 0),
            (ChildRemovalStage::Contents, 0),
            (ChildRemovalStage::File, 0),
            (ChildRemovalStage::File, 1),
            (ChildRemovalStage::ChildAgain, 0),
            (ChildRemovalStage::FileAgain, 0),
            (ChildRemovalStage::Unlink, 0),
            (ChildRemovalStage::ChildAgain, 1),
            (ChildRemovalStage::FileAgain, 1),
            (ChildRemovalStage::Unlink, 1),
            (ChildRemovalStage::LastChild, 0),
            (ChildRemovalStage::RemoveDirectory, 0),
            (ChildRemovalStage::Sync, 0),
        ]
    );
    for fail in 1..=steps.len() {
        let (taken, removed) = take_back(2, Some(fail));
        assert!(!removed);
        assert_eq!(taken, steps[..fail]);
    }
    assert_eq!(take_back(0, None).0.len(), 8);
}

#[test]
fn a_new_directory_holds_only_its_own_files() {
    let names = |list: &[&str]| -> Vec<Vec<u8>> {
        list.iter().map(|name| name.as_bytes().to_vec()).collect()
    };
    assert!(check_contents(&names(&["b", "a"]), &names(&["a", "b"])).is_ok());
    for other in [names(&["a"]), names(&["a", "c"]), names(&["a", "b", "c"])] {
        assert!(matches!(
            check_contents(&other, &names(&["a", "b"])),
            Err(ExecutionDomainError::Backend { category: FailureCategory::IdentityMismatch, .. })
        ));
    }
}
