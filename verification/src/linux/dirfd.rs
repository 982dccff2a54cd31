//! Directories that are held open: what their entries must look like, and the
//! order in which they are written and removed.

use vstd::prelude::*;

use crate::bytes;
use crate::contracts::{FailureCategory, Stage};
use crate::error;
use crate::error::ExecutionDomainError;
use crate::host_path;
use crate::host_path::Parts;
use crate::ids;
use crate::text;

verus! {

/// The bits of a mode that hold the type of an entry.
pub const S_IFMT: u16 = 0o170000;

/// The type of a directory.
pub const S_IFDIR: u16 = 0o040000;

/// The type of a regular file.
pub const S_IFREG: u16 = 0o100000;

/// The type of a symbolic link.
pub const S_IFLNK: u16 = 0o120000;

/// The type of a named pipe.
pub const S_IFIFO: u16 = 0o010000;

/// The type of a socket.
pub const S_IFSOCK: u16 = 0o140000;

/// The type of a character device.
pub const S_IFCHR: u16 = 0o020000;

/// A failure of the filesystem stage.
pub open spec fn filesystem_error(category: FailureCategory) -> ExecutionDomainError {
    error::backend(Stage::Filesystem, category)
}

/// Reports a failure of the filesystem stage.
pub fn failure(category: FailureCategory) -> (e: ExecutionDomainError)
    ensures
        e == filesystem_error(category),
{
    error::backend_failure(Stage::Filesystem, category)
}

/// Reports a failed system call of the filesystem stage.
pub fn io_failure(errno: Option<i32>) -> (e: ExecutionDomainError)
    ensures
        e == (ExecutionDomainError::Backend {
            attempt: None,
            stage: Stage::Filesystem,
            category: FailureCategory::Io,
            errno,
        }),
{
    error::backend_io_failure(Stage::Filesystem, errno)
}

/// What the kernel reports about an entry, without following a symbolic link.
#[derive(Debug, Clone, Copy, PartialEq, Eq, Structural)]
pub struct Metadata {
    pub mode: u16,
    pub uid: u32,
    pub gid: u32,
    pub nlink: u32,
    pub mount_id: u64,
    pub dev_major: u32,
    pub dev_minor: u32,
    pub inode: u64,
    pub size: u64,
    pub ctime_sec: i64,
    pub ctime_nsec: u32,
    pub mtime_sec: i64,
    pub mtime_nsec: u32,
}

/// What names an entry for as long as it exists.
#[derive(Debug, Clone, Copy, PartialEq, Eq, Structural)]
pub struct Identity {
    pub dev_major: u32,
    pub dev_minor: u32,
    pub inode: u64,
    pub mount_id: u64,
}

impl Metadata {
    /// The identity of the entry.
    pub open spec fn id(self) -> Identity {
        Identity {
            dev_major: self.dev_major,
            dev_minor: self.dev_minor,
            inode: self.inode,
            mount_id: self.mount_id,
        }
    }

    /// The type of the entry.
    pub open spec fn kind(self) -> u16 {
        self.mode & S_IFMT
    }

    /// Whether the entry lies on the same device and mount.
    pub open spec fn beside(self, other: Identity) -> bool {
        self.mount_id == other.mount_id && self.dev_major == other.dev_major && self.dev_minor
            == other.dev_minor
    }

    /// The identity of the entry.
    pub fn identity(&self) -> (r: Identity)
        ensures
            r == self.id(),
    {
        Identity {
            dev_major: self.dev_major,
            dev_minor: self.dev_minor,
            inode: self.inode,
            mount_id: self.mount_id,
        }
    }

    /// Whether the entry lies on the same device and mount.
    pub fn is_beside(&self, other: &Identity) -> (r: bool)
        ensures
            r == self.beside(*other),
    {
        self.mount_id == other.mount_id && self.dev_major == other.dev_major && self.dev_minor
            == other.dev_minor
    }
}

/// Whether a name can be the name of an entry: not empty, not a dot or two dots,
/// and without a slash.
pub open spec fn component_valid(name: Seq<u8>) -> bool {
    &&& name.len() > 0
    &&& name != seq![0x2eu8]
    &&& name != seq![0x2eu8, 0x2eu8]
    &&& !name.contains(0x2f)
}

/// Refuses what cannot be the name of an entry.
pub fn component(name: &[u8]) -> (r: Result<(), ExecutionDomainError>)
    ensures
        match r {
            Ok(_) => component_valid(name@),
            Err(e) => !component_valid(name@) && e == filesystem_error(
                FailureCategory::InvalidInput,
            ),
        },
{
    let n: usize = name.len();
    if n == 0 {
        return Err(failure(FailureCategory::InvalidInput));
    }
    let dot: bool = n == 1 && name[0] == 0x2e;
    let dots: bool = n == 2 && name[0] == 0x2e && name[1] == 0x2e;
    proof {
        if dot {
            assert(name@ =~= seq![0x2eu8]);
        }
        if dots {
            assert(name@ =~= seq![0x2eu8, 0x2eu8]);
        }
    }
    if dot || dots || bytes::has(name, 0x2f) {
        return Err(failure(FailureCategory::InvalidInput));
    }
    Ok(())
}

/// Whether an entry is a regular file with one name, of a bounded size, on the
/// device and mount of the directory.
pub open spec fn regular_valid(m: Metadata, limit: u64, directory: Identity) -> bool {
    m.kind() == S_IFREG && m.nlink == 1 && m.size <= limit && m.beside(directory)
}

/// Refuses anything but a regular file with one name, of a bounded size, on the
/// device and mount of the directory.
pub fn validate_regular(m: &Metadata, limit: u64, directory: &Identity) -> (r: Result<
    (),
    ExecutionDomainError,
>)
    ensures
        match r {
            Ok(_) => regular_valid(*m, limit, *directory),
            Err(e) => !regular_valid(*m, limit, *directory) && e == filesystem_error(
                FailureCategory::IdentityMismatch,
            ),
        },
{
    if m.mode & S_IFMT != S_IFREG || m.nlink != 1 || m.size > limit || !m.is_beside(directory) {
        return Err(failure(FailureCategory::IdentityMismatch));
    }
    Ok(())
}

/// Whether an entry is still the one that was seen before.
pub open spec fn entry_unchanged(current: Metadata, expected: Metadata, check_links: bool) -> bool {
    current.id() == expected.id() && current.mode == expected.mode && (check_links ==> current.nlink
        == expected.nlink)
}

/// Refuses an entry that is not the one that was seen before.
pub fn verify_named_entry(current: &Metadata, expected: &Metadata, check_links: bool) -> (r: Result<
    (),
    ExecutionDomainError,
>)
    ensures
        match r {
            Ok(_) => entry_unchanged(*current, *expected, check_links),
            Err(e) => !entry_unchanged(*current, *expected, check_links) && e == filesystem_error(
                FailureCategory::IdentityMismatch,
            ),
        },
{
    let a: Identity = current.identity();
    let b: Identity = expected.identity();
    if a != b || current.mode != expected.mode || (check_links && current.nlink
        != expected.nlink) {
        return Err(failure(FailureCategory::IdentityMismatch));
    }
    Ok(())
}

/// One directory on the way to a held directory.
#[derive(Debug, Clone, Copy)]
pub struct ChainLink {
    /// What the directory was when it was bound.
    pub bound: Identity,
    /// What the open descriptor refers to.
    pub held: Metadata,
    /// What the name in the directory above refers to; the first link has none.
    pub named: Option<Metadata>,
}

impl ChainLink {
    /// Whether descriptor and name still lead to the directory that was bound.
    pub open spec fn holds(self) -> bool {
        &&& self.held.id() == self.bound
        &&& self.held.kind() == S_IFDIR
        &&& (self.named matches Some(named) ==> named.id() == self.bound && named.kind()
            == S_IFDIR)
    }
}

/// Whether every directory of a chain is still the one that was bound.
pub open spec fn all_hold(links: Seq<ChainLink>) -> bool {
    forall|i: int| 0 <= i < links.len() ==> (#[trigger] links[i]).holds()
}

/// Refuses a chain in which some directory is no longer the one that was bound.
pub fn verify_chain(links: &[ChainLink]) -> (r: Result<(), ExecutionDomainError>)
    ensures
        match r {
            Ok(_) => all_hold(links@),
            Err(e) => e == filesystem_error(FailureCategory::IdentityMismatch) && !all_hold(links@),
        },
{
    for i in 0..links.len()
        invariant
            forall|k: int| 0 <= k < i ==> (#[trigger] links@[k]).holds(),
    {
        let link: ChainLink = links[i];
        let held: Identity = link.held.identity();
        let named_ok: bool = match link.named {
            Some(named) => {
                let id: Identity = named.identity();
                id == link.bound && named.mode & S_IFMT == S_IFDIR
            },
            None => true,
        };
        if held != link.bound || link.held.mode & S_IFMT != S_IFDIR || !named_ok {
            assert(!links@[i as int].holds());
            return Err(failure(FailureCategory::IdentityMismatch));
        }
    }
    Ok(())
}

/// Whether a held directory may still be used. All directories below one root
/// share this mark.
#[derive(Debug, Clone, Copy, PartialEq, Eq, Structural)]
pub struct Poison {
    pub poisoned: bool,
}

/// Checks the binding of a held directory: a poisoned root is refused, and a
/// failed check poisons it.
pub fn verify_binding(
    mark: Poison,
    root_path: &str,
    chain: Result<(), ExecutionDomainError>,
) -> (r: (Poison, Result<(), ExecutionDomainError>))
    ensures
        if mark.poisoned {
            r.0 == mark && (r.1 matches Err(ExecutionDomainError::PoisonedRoot { path }) && path@
                == root_path@)
        } else {
            match chain {
                Ok(_) => r.0 == mark && r.1 is Ok,
                Err(e) => r.0.poisoned && r.1 == Err::<(), ExecutionDomainError>(e),
            }
        },
{
    if mark.poisoned {
        return (mark, Err(ExecutionDomainError::PoisonedRoot { path: root_path.to_owned() }));
    }
    match chain {
        Ok(_) => (mark, Ok(())),
        Err(e) => (Poison { poisoned: true }, Err(e)),
    }
}

/// Whether a file that was read is the file that was opened, unchanged and wholly
/// read.
pub open spec fn read_stable(
    before: Metadata,
    after: Metadata,
    read: u64,
    limit: u64,
    directory: Identity,
) -> bool {
    &&& regular_valid(after, limit, directory)
    &&& read <= limit
    &&& read == after.size
    &&& before.size == after.size
    &&& before.mtime_sec == after.mtime_sec
    &&& before.mtime_nsec == after.mtime_nsec
    &&& before.ctime_sec == after.ctime_sec
    &&& before.ctime_nsec == after.ctime_nsec
}

/// Accepts a file for reading: the original one, where one is named, and a
/// regular file within the limit.
pub fn check_before_read(
    before: &Metadata,
    original: Option<Metadata>,
    limit: u64,
    directory: &Identity,
) -> (r: Result<(), ExecutionDomainError>)
    ensures
        match r {
            Ok(_) => regular_valid(*before, limit, *directory) && (original matches Some(o)
                ==> before.id() == o.id()),
            Err(e) => !(regular_valid(*before, limit, *directory) && (original matches Some(o)
                ==> before.id() == o.id())) && e == filesystem_error(
                FailureCategory::IdentityMismatch,
            ),
        },
{
    match original {
        Some(o) => {
            let a: Identity = before.identity();
            let b: Identity = o.identity();
            if a != b {
                return Err(failure(FailureCategory::IdentityMismatch));
            }
        },
        None => {},
    }
    validate_regular(before, limit, directory)
}

/// Accepts what was read only if the file did not change meanwhile.
pub fn check_after_read(
    before: &Metadata,
    after: &Metadata,
    read: u64,
    limit: u64,
    directory: &Identity,
) -> (r: Result<(), ExecutionDomainError>)
    ensures
        match r {
            Ok(_) => read_stable(*before, *after, read, limit, *directory),
            Err(e) => !read_stable(*before, *after, read, limit, *directory) && e
                == filesystem_error(FailureCategory::IdentityMismatch),
        },
{
    match validate_regular(after, limit, directory) {
        Ok(_) => {},
        Err(e) => {
            return Err(e);
        },
    }
    if read > limit || read != after.size || before.size != after.size || before.mtime_sec
        != after.mtime_sec || before.mtime_nsec != after.mtime_nsec || before.ctime_sec
        != after.ctime_sec || before.ctime_nsec != after.ctime_nsec {
        return Err(failure(FailureCategory::IdentityMismatch));
    }
    Ok(())
}

/// Accepts a directory only if it is private to the given user.
pub fn verify_private_directory(m: &Metadata, euid: u32) -> (r: Result<(), ExecutionDomainError>)
    ensures
        match r {
            Ok(_) => m.kind() == S_IFDIR && m.mode & 0o777 == 0o700 && m.uid == euid,
            Err(e) => !(m.kind() == S_IFDIR && m.mode & 0o777 == 0o700 && m.uid == euid) && e
                == filesystem_error(FailureCategory::IdentityMismatch),
        },
{
    if m.mode & S_IFMT != S_IFDIR || m.mode & 0o777 != 0o700 || m.uid != euid {
        return Err(failure(FailureCategory::IdentityMismatch));
    }
    Ok(())
}

/// What may be found in a directory that is to be removed.
#[derive(Debug, Clone, Copy, PartialEq, Eq, Structural)]
pub enum RemovalPolicy {
    /// The directory of an attempt: its known directories and its journal.
    Attempt,
    /// A directory that only the supervisor writes: directories and files with one
    /// name.
    Supervisor,
    /// A directory that the workflow writes: also links, pipes and further names.
    Writable,
}

/// How an entry that may be removed is removed.
#[derive(Debug, Clone, Copy, PartialEq, Eq, Structural)]
pub enum Admission {
    /// A directory, whose contents fall under the given policy.
    Directory(RemovalPolicy),
    /// An entry to unlink. Its link count must be unchanged unless the workflow
    /// could write here.
    Leaf { check_links: bool },
}

/// Whether the name is that of a directory of an attempt.
pub open spec fn attempt_directory(name: Seq<u8>) -> bool {
    ||| supervisor_directory(name)
    ||| name == bytes::encoded("work"@)
    ||| name == bytes::encoded("tmp"@)
    ||| name == bytes::encoded("home"@)
    ||| name == bytes::encoded("run"@)
    ||| name == bytes::encoded("docker"@)
    ||| name == bytes::encoded("docker-data"@)
    ||| name == bytes::encoded("docker-exec"@)
}

/// Whether the name is that of a directory of an attempt that only the supervisor
/// writes.
pub open spec fn supervisor_directory(name: Seq<u8>) -> bool {
    name == bytes::encoded("rootlesskit"@) || name == bytes::encoded("rootfs"@)
}

/// How an entry is removed, if it may be.
pub open spec fn admission(
    policy: RemovalPolicy,
    name: Seq<u8>,
    m: Metadata,
    directory: Identity,
    euid: u32,
) -> Option<Admission> {
    if !m.beside(directory) || m.uid != euid {
        None
    } else if policy == RemovalPolicy::Attempt && !(attempt_directory(name) && m.kind() == S_IFDIR)
        && !(name == bytes::encoded("journal.json"@) && m.kind() == S_IFREG && m.nlink == 1) {
        None
    } else if m.kind() == S_IFDIR {
        Some(
            Admission::Directory(
                if policy != RemovalPolicy::Attempt {
                    policy
                } else if supervisor_directory(name) {
                    RemovalPolicy::Supervisor
                } else {
                    RemovalPolicy::Writable
                },
            ),
        )
    } else if policy == RemovalPolicy::Writable {
        if m.kind() == S_IFREG || m.kind() == S_IFLNK || m.kind() == S_IFIFO {
            Some(Admission::Leaf { check_links: false })
        } else {
            None
        }
    } else if m.kind() == S_IFREG && m.nlink == 1 {
        Some(Admission::Leaf { check_links: true })
    } else {
        None
    }
}

fn is_supervisor_directory(name: &[u8]) -> (r: bool)
    ensures
        r == supervisor_directory(name@),
{
    bytes::are(name, "rootlesskit") || bytes::are(name, "rootfs")
}

fn is_attempt_directory(name: &[u8]) -> (r: bool)
    ensures
        r == attempt_directory(name@),
{
    is_supervisor_directory(name) || bytes::are(name, "work") || bytes::are(name, "tmp")
        || bytes::are(name, "home") || bytes::are(name, "run") || bytes::are(name, "docker")
        || bytes::are(name, "docker-data") || bytes::are(name, "docker-exec")
}

/// Decides how an entry is removed, and refuses what may not be.
pub fn decide_removal(
    policy: RemovalPolicy,
    name: &[u8],
    m: &Metadata,
    directory: &Identity,
    euid: u32,
) -> (r: Result<Admission, ExecutionDomainError>)
    ensures
        match r {
            Ok(a) => admission(policy, name@, *m, *directory, euid) == Some(a),
            Err(e) => admission(policy, name@, *m, *directory, euid) is None && e
                == filesystem_error(FailureCategory::IdentityMismatch),
        },
{
    if !m.is_beside(directory) || m.uid != euid {
        return Err(failure(FailureCategory::IdentityMismatch));
    }
    let kind: u16 = m.mode & S_IFMT;
    if policy == RemovalPolicy::Attempt && !(is_attempt_directory(name) && kind == S_IFDIR) && !(
    bytes::are(name, "journal.json") && kind == S_IFREG && m.nlink == 1) {
        return Err(failure(FailureCategory::IdentityMismatch));
    }
    if kind == S_IFDIR {
        let inner: RemovalPolicy = if policy != RemovalPolicy::Attempt {
            policy
        } else if is_supervisor_directory(name) {
            RemovalPolicy::Supervisor
        } else {
            RemovalPolicy::Writable
        };
        return Ok(Admission::Directory(inner));
    }
    if policy == RemovalPolicy::Writable {
        if kind == S_IFREG || kind == S_IFLNK || kind == S_IFIFO {
            return Ok(Admission::Leaf { check_links: false });
        }
    } else if kind == S_IFREG && m.nlink == 1 {
        return Ok(Admission::Leaf { check_links: true });
    }
    Err(failure(FailureCategory::IdentityMismatch))
}

/// An entry that was found, and for a directory what was found below it.
pub struct FoundEntry {
    pub name: Vec<u8>,
    pub metadata: Metadata,
    pub children: Vec<FoundEntry>,
}

/// A step of a removal, relative to the directory that the steps before have
/// entered.
pub enum RemovalStep {
    /// Go into the named directory.
    Enter(Vec<u8>),
    /// Remove the named entry, after checking that it is the one that was found.
    Unlink { name: Vec<u8>, expected: Metadata, check_links: bool },
    /// Go back out of the named directory, which is empty now, and remove it.
    Leave(Vec<u8>),
}

/// A step of a removal, with its name as a sequence.
pub ghost enum Step {
    Enter(Seq<u8>),
    Unlink { name: Seq<u8>, expected: Metadata, check_links: bool },
    Leave(Seq<u8>),
}

impl View for RemovalStep {
    type V = Step;

    open spec fn view(&self) -> Step {
        match *self {
            RemovalStep::Enter(name) => Step::Enter(name@),
            RemovalStep::Unlink { name, expected, check_links } => Step::Unlink {
                name: name@,
                expected,
                check_links,
            },
            RemovalStep::Leave(name) => Step::Leave(name@),
        }
    }
}

/// The steps of a list.
pub open spec fn steps(v: Seq<RemovalStep>) -> Seq<Step> {
    Seq::new(v.len(), |i: int| v[i]@)
}

/// The steps that remove an entry and everything below it, if all of it may be
/// removed.
pub open spec fn plan_entry(
    e: FoundEntry,
    policy: RemovalPolicy,
    directory: Identity,
    euid: u32,
) -> Option<Seq<Step>>
    decreases e, 1int,
{
    match admission(policy, e.name@, e.metadata, directory, euid) {
        None => None,
        Some(Admission::Leaf { check_links }) => Some(
            seq![Step::Unlink { name: e.name@, expected: e.metadata, check_links }],
        ),
        Some(Admission::Directory(inner)) => match plan_all(
            e.children@,
            inner,
            e.metadata.id(),
            euid,
        ) {
            None => None,
            Some(below) => Some((seq![Step::Enter(e.name@)] + below).push(Step::Leave(e.name@))),
        },
    }
}

/// The steps that remove several entries in order, if all of them may be removed.
pub open spec fn plan_all(
    entries: Seq<FoundEntry>,
    policy: RemovalPolicy,
    directory: Identity,
    euid: u32,
) -> Option<Seq<Step>>
    decreases entries, 0int,
{
    if entries.len() == 0 {
        Some(Seq::empty())
    } else {
        match (
            plan_entry(entries[0], policy, directory, euid),
            plan_all(entries.drop_first(), policy, directory, euid),
        ) {
            (Some(first), Some(rest)) => Some(first + rest),
            _ => None,
        }
    }
}

proof fn lemma_plan_all_refused(
    entries: Seq<FoundEntry>,
    i: int,
    policy: RemovalPolicy,
    directory: Identity,
    euid: u32,
)
    requires
        0 <= i < entries.len(),
        plan_entry(entries[i], policy, directory, euid) is None,
    ensures
        plan_all(entries, policy, directory, euid) is None,
    decreases i,
{
    if i > 0 {
        assert(entries.drop_first()[i - 1] == entries[i]);
        lemma_plan_all_refused(entries.drop_first(), i - 1, policy, directory, euid);
    }
}

fn append_entry_plan(
    out: &mut Vec<RemovalStep>,
    e: &FoundEntry,
    policy: RemovalPolicy,
    directory: &Identity,
    euid: u32,
) -> (r: Result<(), ExecutionDomainError>)
    ensures
        match r {
            Ok(_) => plan_entry(*e, policy, *directory, euid) is Some && steps(final(out)@)
                == steps(old(out)@) + plan_entry(*e, policy, *directory, euid)->0,
            Err(err) => plan_entry(*e, policy, *directory, euid) is None && err
                == filesystem_error(FailureCategory::IdentityMismatch),
        },
    decreases e, 1int,
{
    let ghost before = out@;
    match decide_removal(policy, e.name.as_slice(), &e.metadata, directory, euid) {
        Ok(Admission::Leaf { check_links }) => {
            let name: Vec<u8> = vstd::slice::slice_to_vec(e.name.as_slice());
            out.push(RemovalStep::Unlink { name, expected: e.metadata, check_links });
            proof {
                assert(steps(out@) =~= steps(before) + seq![
                    Step::Unlink { name: e.name@, expected: e.metadata, check_links },
                ]);
            }
            Ok(())
        },
        Ok(Admission::Directory(inner)) => {
            let entered: Vec<u8> = vstd::slice::slice_to_vec(e.name.as_slice());
            let left: Vec<u8> = vstd::slice::slice_to_vec(e.name.as_slice());
            out.push(RemovalStep::Enter(entered));
            let ghost opened = out@;
            assert(steps(opened) =~= steps(before).push(Step::Enter(e.name@)));
            let id: Identity = e.metadata.identity();
            match append_plan(out, &e.children, inner, &id, euid) {
                Ok(_) => {
                    let ghost filled = out@;
                    let ghost below = plan_all(e.children@, inner, id, euid)->0;
                    out.push(RemovalStep::Leave(left));
                    proof {
                        assert(steps(out@) =~= steps(filled).push(Step::Leave(e.name@)));
                        assert(steps(out@) =~= steps(before) + (seq![Step::Enter(e.name@)]
                            + below).push(Step::Leave(e.name@)));
                    }
                    Ok(())
                },
                Err(err) => Err(err),
            }
        },
        Err(err) => Err(err),
    }
}

fn append_plan(
    out: &mut Vec<RemovalStep>,
    entries: &Vec<FoundEntry>,
    policy: RemovalPolicy,
    directory: &Identity,
    euid: u32,
) -> (r: Result<(), ExecutionDomainError>)
    ensures
        match r {
            Ok(_) => plan_all(entries@, policy, *directory, euid) is Some && steps(final(out)@)
                == steps(old(out)@) + plan_all(entries@, policy, *directory, euid)->0,
            Err(err) => plan_all(entries@, policy, *directory, euid) is None && err
                == filesystem_error(FailureCategory::IdentityMismatch),
        },
    decreases entries@, 0int,
{
    let ghost whole = plan_all(entries@, policy, *directory, euid);
    let ghost start = steps(out@);
    let ghost mut done: Seq<Step> = Seq::empty();
    proof {
        assert(entries@.skip(0) =~= entries@);
        assert(steps(out@) =~= start + done);
    }
    for i in 0..entries.len()
        invariant
            whole == plan_all(entries@, policy, *directory, euid),
            steps(out@) == start + done,
            whole == (match plan_all(entries@.skip(i as int), policy, *directory, euid) {
                Some(rest) => Some(done + rest),
                None => None,
            }),
    {
        let ghost rest = entries@.skip(i as int);
        proof {
            assert(rest[0] == entries@[i as int]);
            assert(rest.drop_first() =~= entries@.skip(i + 1));
            assert(decreases_to!(entries@ => entries@[i as int]));
        }
        match append_entry_plan(out, &entries[i], policy, directory, euid) {
            Ok(_) => {
                proof {
                    let here = plan_entry(entries@[i as int], policy, *directory, euid)->0;
                    match plan_all(entries@.skip(i + 1), policy, *directory, euid) {
                        Some(after) => {
                            assert(done + (here + after) =~= (done + here) + after);
                        },
                        None => {},
                    }
                    assert(start + done + here =~= start + (done + here));
                    done = done + here;
                }
            },
            Err(err) => {
                proof {
                    lemma_plan_all_refused(entries@, i as int, policy, *directory, euid);
                }
                return Err(err);
            },
        }
    }
    assert(entries@.skip(entries@.len() as int) =~= Seq::empty());
    assert(done + Seq::<Step>::empty() =~= done);
    Ok(())
}

/// Plans the removal of everything that was found in a directory. There is a plan
/// only if every entry, at any depth, may be removed; nothing is removed before
/// the plan is complete.
pub fn removal_plan(
    entries: &Vec<FoundEntry>,
    policy: RemovalPolicy,
    directory: &Identity,
    euid: u32,
) -> (r: Result<Vec<RemovalStep>, ExecutionDomainError>)
    ensures
        match r {
            Ok(plan) => plan_all(entries@, policy, *directory, euid) == Some(steps(plan@)),
            Err(e) => plan_all(entries@, policy, *directory, euid) is None && e
                == filesystem_error(FailureCategory::IdentityMismatch),
        },
{
    let mut out: Vec<RemovalStep> = Vec::new();
    match append_plan(&mut out, entries, policy, directory, euid) {
        Ok(_) => {
            proof {
                let plan = plan_all(entries@, policy, *directory, euid)->0;
                assert(steps(Seq::<RemovalStep>::empty()) + plan =~= plan);
            }
            Ok(out)
        },
        Err(e) => Err(e),
    }
}

/// How deep the steps lead, starting at the given depth.
pub open spec fn depth_after(plan: Seq<Step>, start: int) -> int
    decreases plan.len(),
{
    if plan.len() == 0 {
        start
    } else {
        let before = depth_after(plan.drop_last(), start);
        match plan.last() {
            Step::Enter(_) => before + 1,
            Step::Unlink { .. } => before,
            Step::Leave(_) => before - 1,
        }
    }
}

proof fn lemma_depth_concat(a: Seq<Step>, b: Seq<Step>, start: int)
    ensures
        depth_after(a + b, start) == depth_after(b, depth_after(a, start)),
    decreases b.len(),
{
    if b.len() == 0 {
        assert(a + b =~= a);
    } else {
        assert((a + b).drop_last() =~= a + b.drop_last());
        lemma_depth_concat(a, b.drop_last(), start);
    }
}

/// A plan for the contents of a directory ends where it began, and on the way it
/// never leaves that directory: nothing outside it is touched.
pub proof fn law_plans_stay_inside(
    entries: Seq<FoundEntry>,
    policy: RemovalPolicy,
    directory: Identity,
    euid: u32,
    start: int,
)
    requires
        plan_all(entries, policy, directory, euid) is Some,
    ensures
        depth_after(plan_all(entries, policy, directory, euid)->0, start) == start,
        forall|n: int|
            0 <= n <= plan_all(entries, policy, directory, euid)->0.len() ==> depth_after(
                #[trigger] plan_all(entries, policy, directory, euid)->0.take(n),
                start,
            ) >= start,
    decreases entries, 0int,
{
    let plan = plan_all(entries, policy, directory, euid)->0;
    if entries.len() == 0 {
        assert(plan.take(0) =~= plan);
    } else {
        let first = plan_entry(entries[0], policy, directory, euid)->0;
        let rest = plan_all(entries.drop_first(), policy, directory, euid)->0;
        lemma_entry_plan_stays_inside(entries[0], policy, directory, euid, start);
        law_plans_stay_inside(entries.drop_first(), policy, directory, euid, start);
        lemma_depth_concat(first, rest, start);
        assert forall|n: int| 0 <= n <= plan.len() implies depth_after(#[trigger] plan.take(n), start)
            >= start by {
            if n <= first.len() {
                assert(plan.take(n) =~= first.take(n));
            } else {
                assert(plan.take(n) =~= first + rest.take(n - first.len()));
                lemma_depth_concat(first, rest.take(n - first.len()), start);
            }
        }
    }
}

proof fn lemma_entry_plan_stays_inside(
    e: FoundEntry,
    policy: RemovalPolicy,
    directory: Identity,
    euid: u32,
    start: int,
)
    requires
        plan_entry(e, policy, directory, euid) is Some,
    ensures
        depth_after(plan_entry(e, policy, directory, euid)->0, start) == start,
        forall|n: int|
            0 <= n <= plan_entry(e, policy, directory, euid)->0.len() ==> depth_after(
                #[trigger] plan_entry(e, policy, directory, euid)->0.take(n),
                start,
            ) >= start,
    decreases e, 1int,
{
    reveal_with_fuel(depth_after, 2);
    let plan = plan_entry(e, policy, directory, euid)->0;
    match admission(policy, e.name@, e.metadata, directory, euid)->0 {
        Admission::Leaf { check_links } => {
            assert(plan.drop_last() =~= Seq::empty());
            assert(plan.take(0) =~= Seq::empty());
            assert(plan.take(1) =~= plan);
        },
        Admission::Directory(inner) => {
            let below = plan_all(e.children@, inner, e.metadata.id(), euid)->0;
            let enter = seq![Step::Enter(e.name@)];
            law_plans_stay_inside(e.children@, inner, e.metadata.id(), euid, start + 1);
            assert(enter.drop_last() =~= Seq::empty());
            assert(depth_after(enter, start) == start + 1);
            lemma_depth_concat(enter, below, start);
            assert(plan.drop_last() =~= enter + below);
            assert forall|n: int| 0 <= n <= plan.len() implies depth_after(
                #[trigger] plan.take(n),
                start,
            ) >= start by {
                if n == 0 {
                    assert(plan.take(n) =~= Seq::empty());
                } else if n <= below.len() + 1 {
                    assert(plan.take(n) =~= enter + below.take(n - 1));
                    lemma_depth_concat(enter, below.take(n - 1), start);
                } else {
                    assert(plan.take(n) =~= plan);
                }
            }
        },
    }
}

/// The part of an atomic write that comes next.
#[derive(Debug, Clone, Copy, PartialEq, Eq, Structural)]
pub enum WriteStage {
    /// Look at the record that is there now.
    Previous,
    /// Look for the remains of an earlier write.
    Pending,
    /// Create the new file and fill it.
    Create,
    /// Flush the new file to disk.
    SyncFile,
    /// Look at the new file through its descriptor.
    Written,
    /// Look at the new file through its name.
    NextEntry,
    /// Look at the old record again.
    OldEntry,
    /// Give the new file the name of the record.
    Rename,
    /// Flush the directory to disk.
    SyncDirectory,
    /// Look at the record through its name.
    Confirm,
}

impl WriteStage {
    /// The position of the stage in the order of a write.
    pub open spec fn rank(self) -> int {
        match self {
            WriteStage::Previous => 0,
            WriteStage::Pending => 1,
            WriteStage::Create => 2,
            WriteStage::SyncFile => 3,
            WriteStage::Written => 4,
            WriteStage::NextEntry => 5,
            WriteStage::OldEntry => 6,
            WriteStage::Rename => 7,
            WriteStage::SyncDirectory => 8,
            WriteStage::Confirm => 9,
        }
    }

    /// Whether the stage looks at an entry, rather than changing something.
    pub open spec fn looks(self) -> bool {
        match self {
            WriteStage::Create | WriteStage::SyncFile | WriteStage::Rename
            | WriteStage::SyncDirectory => false,
            _ => true,
        }
    }
}

/// What a stage of a write found.
pub enum WriteEvent {
    /// The change was made.
    Passed,
    /// A system call or a binding check failed.
    Failed(ExecutionDomainError),
    /// The entry that was looked at, if it is there.
    Found(Option<Metadata>),
}

/// A record that is being replaced, or created where it must not exist yet.
#[derive(Debug, Clone, Copy)]
pub struct AtomicWrite {
    pub stage: WriteStage,
    /// Whether the record must not exist yet.
    pub new: bool,
    /// The number of bytes of the record.
    pub length: u64,
    /// The directory that holds the record.
    pub directory: Identity,
    /// The record that was there before.
    pub previous: Option<Metadata>,
    /// The new file as it was written.
    pub written: Option<Metadata>,
}

/// What follows a stage of a write.
pub enum WriteStep {
    Continue(AtomicWrite),
    Committed,
    Failed(ExecutionDomainError),
}

impl AtomicWrite {
    /// Whether what was found at this stage lets the write go on.
    pub open spec fn accepts(self, found: Option<Metadata>) -> bool {
        match self.stage {
            WriteStage::Previous => match found {
                Some(m) => !self.new && regular_valid(m, u64::MAX, self.directory),
                None => true,
            },
            WriteStage::Pending => found is None,
            WriteStage::Written => found matches Some(m) && regular_valid(
                m,
                self.length,
                self.directory,
            ),
            WriteStage::NextEntry | WriteStage::Confirm => match (found, self.written) {
                (Some(m), Some(w)) => entry_unchanged(m, w, true),
                _ => false,
            },
            WriteStage::OldEntry => match (found, self.previous) {
                (Some(m), Some(p)) => entry_unchanged(m, p, true),
                (None, None) => true,
                _ => false,
            },
            _ => false,
        }
    }

    /// The write at its next stage, with what was found remembered.
    pub open spec fn moved_on(self, found: Option<Metadata>) -> AtomicWrite {
        AtomicWrite {
            stage: match self.stage {
                WriteStage::Previous => WriteStage::Pending,
                WriteStage::Pending => WriteStage::Create,
                WriteStage::Create => WriteStage::SyncFile,
                WriteStage::SyncFile => WriteStage::Written,
                WriteStage::Written => WriteStage::NextEntry,
                WriteStage::NextEntry => WriteStage::OldEntry,
                WriteStage::OldEntry => WriteStage::Rename,
                WriteStage::Rename => WriteStage::SyncDirectory,
                WriteStage::SyncDirectory => WriteStage::Confirm,
                WriteStage::Confirm => WriteStage::Confirm,
            },
            previous: if self.stage == WriteStage::Previous {
                found
            } else {
                self.previous
            },
            written: if self.stage == WriteStage::Written {
                found
            } else {
                self.written
            },
            ..self
        }
    }

    /// Begins to write the named record.
    pub fn begin(name: &[u8], new: bool, length: u64, directory: Identity) -> (r: Result<
        AtomicWrite,
        ExecutionDomainError,
    >)
        ensures
            match r {
                Ok(w) => component_valid(name@) && w == (AtomicWrite {
                    stage: WriteStage::Previous,
                    new,
                    length,
                    directory,
                    previous: None,
                    written: None,
                }),
                Err(e) => !component_valid(name@) && e == filesystem_error(
                    FailureCategory::InvalidInput,
                ),
            },
    {
        match component(name) {
            Ok(_) => Ok(
                AtomicWrite {
                    stage: WriteStage::Previous,
                    new,
                    length,
                    directory,
                    previous: None,
                    written: None,
                },
            ),
            Err(e) => Err(e),
        }
    }

    fn accepted(&self, found: &Option<Metadata>) -> (r: bool)
        ensures
            r == self.accepts(*found),
    {
        match self.stage {
            WriteStage::Previous => match found {
                Some(m) => !self.new && validate_regular(m, u64::MAX, &self.directory).is_ok(),
                None => true,
            },
            WriteStage::Pending => found.is_none(),
            WriteStage::Written => match found {
                Some(m) => validate_regular(m, self.length, &self.directory).is_ok(),
                None => false,
            },
            WriteStage::NextEntry | WriteStage::Confirm => match (found, &self.written) {
                (Some(m), Some(w)) => verify_named_entry(m, w, true).is_ok(),
                _ => false,
            },
            WriteStage::OldEntry => match (found, &self.previous) {
                (Some(m), Some(p)) => verify_named_entry(m, p, true).is_ok(),
                (None, None) => true,
                _ => false,
            },
            _ => false,
        }
    }

    /// Carries the write on after one of its stages. A failure at any stage ends
    /// it, and the caller poisons the directory.
    pub fn advance(self, event: WriteEvent) -> (r: WriteStep)
        requires
            self.stage.looks() ==> !(event is Passed),
            !self.stage.looks() ==> !(event is Found),
        ensures
            match event {
                WriteEvent::Failed(e) => r == WriteStep::Failed(e),
                WriteEvent::Passed => r == WriteStep::Continue(self.moved_on(None)),
                WriteEvent::Found(found) => if !self.accepts(found) {
                    r == WriteStep::Failed(filesystem_error(FailureCategory::IdentityMismatch))
                } else if self.stage == WriteStage::Confirm {
                    r == WriteStep::Committed
                } else {
                    r == WriteStep::Continue(self.moved_on(found))
                },
            },
    {
        let found: Option<Metadata> = match event {
            WriteEvent::Failed(e) => {
                return WriteStep::Failed(e);
            },
            WriteEvent::Passed => None,
            WriteEvent::Found(found) => {
                if !self.accepted(&found) {
                    return WriteStep::Failed(failure(FailureCategory::IdentityMismatch));
                }
                if self.stage == WriteStage::Confirm {
                    return WriteStep::Committed;
                }
                found
            },
        };
        let stage: WriteStage = match self.stage {
            WriteStage::Previous => WriteStage::Pending,
            WriteStage::Pending => WriteStage::Create,
            WriteStage::Create => WriteStage::SyncFile,
            WriteStage::SyncFile => WriteStage::Written,
            WriteStage::Written => WriteStage::NextEntry,
            WriteStage::NextEntry => WriteStage::OldEntry,
            WriteStage::OldEntry => WriteStage::Rename,
            WriteStage::Rename => WriteStage::SyncDirectory,
            WriteStage::SyncDirectory => WriteStage::Confirm,
            WriteStage::Confirm => WriteStage::Confirm,
        };
        let previous: Option<Metadata> = if self.stage == WriteStage::Previous {
            found
        } else {
            self.previous
        };
        let written: Option<Metadata> = if self.stage == WriteStage::Written {
            found
        } else {
            self.written
        };
        WriteStep::Continue(
            AtomicWrite {
                stage,
                new: self.new,
                length: self.length,
                directory: self.directory,
                previous,
                written,
            },
        )
    }

    /// Whether the rename must not replace an existing entry: exactly where no
    /// record was there before.
    pub fn rename_no_replace(&self) -> (r: bool)
        ensures
            r == (self.previous is None),
    {
        self.previous.is_none()
    }
}

/// Every stage of a write comes after the one before it, so the record is renamed
/// only after the new file was flushed and checked, and a write is committed only
/// after the directory was flushed and the record was checked.
pub proof fn law_writes_go_stage_by_stage(w: AtomicWrite, found: Option<Metadata>)
    ensures
        w.stage != WriteStage::Confirm ==> w.moved_on(found).stage.rank() == w.stage.rank() + 1,
        w.stage == WriteStage::Confirm ==> w.moved_on(found).stage == WriteStage::Confirm,
{
}

/// A write that may only create never goes past a record that is already there.
pub proof fn law_new_records_replace_nothing(w: AtomicWrite, m: Metadata)
    requires
        w.stage == WriteStage::Previous,
        w.new,
    ensures
        !w.accepts(Some(m)),
{
}

/// Whether there are as many entries as names, each of them one of the names.
pub open spec fn exactly(found: Seq<Seq<u8>>, names: Seq<Seq<u8>>) -> bool {
    found.len() == names.len() && forall|i: int|
        0 <= i < found.len() ==> names.contains(#[trigger] found[i])
}

/// Whether a directory holds as many entries as there are names, each of them under one
/// of the names.
pub fn exact_entries(found: &Vec<Vec<u8>>, files: &Vec<Vec<u8>>) -> (r: bool)
    ensures
        r == exactly(bytes::views(found@), bytes::views(files@)),
{
    if found.len() != files.len() {
        return false;
    }
    for i in 0..found.len()
        invariant
            found@.len() == files@.len(),
            forall|k: int|
                0 <= k < i ==> bytes::views(files@).contains(#[trigger] bytes::views(found@)[k]),
    {
        let mut known: bool = false;
        for j in 0..files.len()
            invariant
                i < found@.len(),
                known == (exists|k: int| 0 <= k < j && (#[trigger] files@[k])@ == found@[i as int]@),
        {
            if bytes::same(files[j].as_slice(), found[i].as_slice()) {
                known = true;
            }
        }
        proof {
            assert(bytes::views(found@)[i as int] == found@[i as int]@);
            if known {
                let k = choose|k: int|
                    0 <= k < files@.len() && (#[trigger] files@[k])@ == found@[i as int]@;
                assert(bytes::views(files@)[k] == found@[i as int]@);
            } else {
                if bytes::views(files@).contains(found@[i as int]@) {
                    let k = choose|k: int|
                        0 <= k < files@.len() && bytes::views(files@)[k] == found@[i as int]@;
                    assert(files@[k]@ == found@[i as int]@);
                }
            }
        }
        if !known {
            return false;
        }
    }
    true
}

/// Refuses a new directory that holds anything but the files that were made in it.
pub fn check_contents(found: &Vec<Vec<u8>>, files: &Vec<Vec<u8>>) -> (r: Result<
    (),
    ExecutionDomainError,
>)
    ensures
        ({
            let exact = exactly(bytes::views(found@), bytes::views(files@));
            match r {
                Ok(_) => exact,
                Err(e) => !exact && e == filesystem_error(FailureCategory::IdentityMismatch),
            }
        }),
{
    if !exact_entries(found, files) {
        return Err(failure(FailureCategory::IdentityMismatch));
    }
    Ok(())
}

/// Accepts a file of a new directory for removal only if it is still the file
/// that was created, under its only name.
pub fn verify_created_file(current: &Metadata, original: &Metadata) -> (r: Result<
    (),
    ExecutionDomainError,
>)
    ensures
        match r {
            Ok(_) => current.id() == original.id() && current.mode == original.mode
                && current.nlink == 1,
            Err(e) => !(current.id() == original.id() && current.mode == original.mode
                && current.nlink == 1) && e == filesystem_error(FailureCategory::IdentityMismatch),
        },
{
    let a: Identity = current.identity();
    let b: Identity = original.identity();
    if a != b || current.mode != original.mode || current.nlink != 1 {
        return Err(failure(FailureCategory::IdentityMismatch));
    }
    Ok(())
}

/// The steps by which a directory that was just made is taken back, with the files that
/// were made in it.
#[derive(Debug, Clone, Copy, PartialEq, Eq, Structural)]
pub enum ChildRemovalStage {
    /// Check the name of the directory.
    Name,
    /// Check that the directory above is the one that was bound.
    Parent,
    /// Check that the directory is the one that was bound.
    Child,
    /// Check that its name leads to it.
    Identity,
    /// Check that it holds exactly the files.
    Contents,
    /// Check a file.
    File,
    /// Check the directory again, before a file is removed.
    ChildAgain,
    /// Check the file again.
    FileAgain,
    /// Remove the file.
    Unlink,
    /// Check the directory a last time.
    LastChild,
    /// Remove the directory.
    RemoveDirectory,
    /// Flush the directory above.
    Sync,
}

/// The step after one that passed, with the number of the file that it is about.
pub open spec fn child_removal_after(stage: ChildRemovalStage, at: int, files: int) -> Option<
    (ChildRemovalStage, int),
> {
    match stage {
        ChildRemovalStage::Name => Some((ChildRemovalStage::Parent, 0)),
        ChildRemovalStage::Parent => Some((ChildRemovalStage::Child, 0)),
        ChildRemovalStage::Child => Some((ChildRemovalStage::Identity, 0)),
        ChildRemovalStage::Identity => Some((ChildRemovalStage::Contents, 0)),
        ChildRemovalStage::Contents => if files > 0 {
            Some((ChildRemovalStage::File, 0))
        } else {
            Some((ChildRemovalStage::LastChild, 0))
        },
        ChildRemovalStage::File => if at + 1 < files {
            Some((ChildRemovalStage::File, at + 1))
        } else {
            Some((ChildRemovalStage::ChildAgain, 0))
        },
        ChildRemovalStage::ChildAgain => Some((ChildRemovalStage::FileAgain, at)),
        ChildRemovalStage::FileAgain => Some((ChildRemovalStage::Unlink, at)),
        ChildRemovalStage::Unlink => if at + 1 < files {
            Some((ChildRemovalStage::ChildAgain, at + 1))
        } else {
            Some((ChildRemovalStage::LastChild, 0))
        },
        ChildRemovalStage::LastChild => Some((ChildRemovalStage::RemoveDirectory, 0)),
        ChildRemovalStage::RemoveDirectory => Some((ChildRemovalStage::Sync, 0)),
        ChildRemovalStage::Sync => None,
    }
}

/// A directory that was just made, being taken back. Whether the root was poisoned
/// before does not matter: everything is checked afresh.
pub struct CreatedChildRemoval {
    files: usize,
    stage: ChildRemovalStage,
    at: usize,
    checked: usize,
    removed: usize,
}

/// What follows a step of taking a directory back.
pub enum RemovalNext {
    Continue(CreatedChildRemoval),
    /// The directory is gone, and that is on disk.
    Removed,
    /// The step failed, and the root is poisoned.
    Poison(ExecutionDomainError),
}

impl CreatedChildRemoval {
    /// The number of files that were made in the directory.
    pub closed spec fn files(self) -> int {
        self.files as int
    }

    /// The step to take now.
    pub closed spec fn at_stage(self) -> ChildRemovalStage {
        self.stage
    }

    /// The number of the file that the step is about; zero where it is about none.
    pub closed spec fn at_file(self) -> int {
        self.at as int
    }

    /// The number of files that passed their first check.
    pub closed spec fn passed(self) -> int {
        self.checked as int
    }

    /// The number of files that were removed.
    pub closed spec fn gone(self) -> int {
        self.removed as int
    }

    #[verifier::type_invariant]
    spec fn inv(self) -> bool {
        &&& self.at <= self.files
        &&& match self.stage {
            ChildRemovalStage::Name | ChildRemovalStage::Parent | ChildRemovalStage::Child
            | ChildRemovalStage::Identity | ChildRemovalStage::Contents => self.at == 0
                && self.checked == 0 && self.removed == 0,
            ChildRemovalStage::File => self.at < self.files && self.checked == self.at
                && self.removed == 0,
            ChildRemovalStage::ChildAgain | ChildRemovalStage::FileAgain
            | ChildRemovalStage::Unlink => self.at < self.files && self.checked == self.files
                && self.removed == self.at,
            ChildRemovalStage::LastChild | ChildRemovalStage::RemoveDirectory
            | ChildRemovalStage::Sync => self.at == 0 && self.checked == self.files
                && self.removed == self.files,
        }
    }

    /// Begins to take back a directory with the given number of files.
    pub fn begin(files: usize) -> (r: CreatedChildRemoval)
        ensures
            r.files() == files,
            r.at_stage() == ChildRemovalStage::Name,
            r.at_file() == 0,
            r.passed() == 0,
            r.gone() == 0,
    {
        CreatedChildRemoval {
            files,
            stage: ChildRemovalStage::Name,
            at: 0,
            checked: 0,
            removed: 0,
        }
    }

    /// The step to take now, and the number of the file that it is about. No file is
    /// removed before all of them passed, and the directory only after all files were
    /// removed.
    pub fn step(&self) -> (r: (ChildRemovalStage, usize))
        ensures
            r.0 == self.at_stage(),
            r.1 == self.at_file(),
            r.0 == ChildRemovalStage::Unlink ==> self.passed() == self.files() && self.gone()
                == r.1 < self.files(),
            r.0 == ChildRemovalStage::RemoveDirectory ==> self.passed() == self.files()
                && self.gone() == self.files(),
            r.0 == ChildRemovalStage::File || r.0 == ChildRemovalStage::FileAgain ==> r.1
                < self.files(),
    {
        proof {
            use_type_invariant(self);
        }
        (self.stage, self.at)
    }

    /// Goes on from the outcome of the step. Every failure ends in poisoning.
    pub fn advance(self, outcome: Result<(), ExecutionDomainError>) -> (r: RemovalNext)
        ensures
            match outcome {
                Err(e) => r == RemovalNext::Poison(e),
                Ok(_) => match child_removal_after(self.at_stage(), self.at_file(), self.files()) {
                    None => r is Removed && self.passed() == self.files() && self.gone()
                        == self.files(),
                    Some((stage, at)) => {
                        &&& r matches RemovalNext::Continue(next)
                        &&& next.files() == self.files()
                        &&& next.at_stage() == stage
                        &&& next.at_file() == at
                        &&& next.passed() == self.passed() + (if self.at_stage()
                            == ChildRemovalStage::File {
                            1int
                        } else {
                            0
                        })
                        &&& next.gone() == self.gone() + (if self.at_stage()
                            == ChildRemovalStage::Unlink {
                            1int
                        } else {
                            0
                        })
                    },
                },
            },
    {
        proof {
            use_type_invariant(&self);
        }
        match outcome {
            Ok(_) => {},
            Err(e) => {
                return RemovalNext::Poison(e);
            },
        }
        let CreatedChildRemoval { files, stage, at, checked, removed } = self;
        let mut checked: usize = checked;
        let mut removed: usize = removed;
        let following: (ChildRemovalStage, usize) = match stage {
            ChildRemovalStage::Name => (ChildRemovalStage::Parent, 0),
            ChildRemovalStage::Parent => (ChildRemovalStage::Child, 0),
            ChildRemovalStage::Child => (ChildRemovalStage::Identity, 0),
            ChildRemovalStage::Identity => (ChildRemovalStage::Contents, 0),
            ChildRemovalStage::Contents => {
                if files > 0 {
                    (ChildRemovalStage::File, 0)
                } else {
                    (ChildRemovalStage::LastChild, 0)
                }
            },
            ChildRemovalStage::File => {
                checked = checked + 1;
                if at + 1 < files {
                    (ChildRemovalStage::File, at + 1)
                } else {
                    (ChildRemovalStage::ChildAgain, 0)
                }
            },
            ChildRemovalStage::ChildAgain => (ChildRemovalStage::FileAgain, at),
            ChildRemovalStage::FileAgain => (ChildRemovalStage::Unlink, at),
            ChildRemovalStage::Unlink => {
                removed = removed + 1;
                if at + 1 < files {
                    (ChildRemovalStage::ChildAgain, at + 1)
                } else {
                    (ChildRemovalStage::LastChild, 0)
                }
            },
            ChildRemovalStage::LastChild => (ChildRemovalStage::RemoveDirectory, 0),
            ChildRemovalStage::RemoveDirectory => (ChildRemovalStage::Sync, 0),
            ChildRemovalStage::Sync => {
                return RemovalNext::Removed;
            },
        };
        RemovalNext::Continue(
            CreatedChildRemoval { files, stage: following.0, at: following.1, checked, removed },
        )
    }
}

/// Every file is checked right before it is removed, and the directory before that, and
/// no file comes up for removal twice.
pub proof fn law_files_are_checked_before_removal(
    stage: ChildRemovalStage,
    at: int,
    files: int,
    file: int,
)
    requires
        child_removal_after(stage, at, files) == Some((ChildRemovalStage::Unlink, file)),
    ensures
        stage == ChildRemovalStage::FileAgain,
        at == file,
        forall|before: ChildRemovalStage, k: int|
            child_removal_after(before, k, files) == Some((ChildRemovalStage::FileAgain, file))
                ==> before == ChildRemovalStage::ChildAgain && k == file,
        forall|before: ChildRemovalStage, k: int|
            child_removal_after(before, k, files) == Some((ChildRemovalStage::ChildAgain, file))
                ==> (before == ChildRemovalStage::File && file == 0) || (before
                == ChildRemovalStage::Unlink && k == file - 1),
{
}

/// Accepts the creation of a directory only under a valid name and with a private
/// mode.
pub fn check_new_directory(name: &[u8], mode: u32) -> (r: Result<(), ExecutionDomainError>)
    ensures
        match r {
            Ok(_) => component_valid(name@) && mode == 0o700,
            Err(e) => !(component_valid(name@) && mode == 0o700) && e == filesystem_error(
                FailureCategory::InvalidInput,
            ),
        },
{
    match component(name) {
        Ok(_) => {},
        Err(e) => {
            return Err(e);
        },
    }
    if mode != 0o700 {
        return Err(failure(FailureCategory::InvalidInput));
    }
    Ok(())
}

/// Accepts a new directory only if its final name leads to the directory that was
/// created under a temporary one.
pub fn check_created_directory(created: &Identity, named: &Identity) -> (r: Result<
    (),
    ExecutionDomainError,
>)
    ensures
        match r {
            Ok(_) => *created == *named,
            Err(e) => *created != *named && e == filesystem_error(
                FailureCategory::IdentityMismatch,
            ),
        },
{
    if *created != *named {
        return Err(failure(FailureCategory::IdentityMismatch));
    }
    Ok(())
}

/// Refuses an entry that must not exist.
pub fn refuse_entry(name: &[u8], found: Option<Metadata>) -> (r: Result<(), ExecutionDomainError>)
    ensures
        match r {
            Ok(_) => component_valid(name@) && found is None,
            Err(e) => if !component_valid(name@) {
                e == filesystem_error(FailureCategory::InvalidInput)
            } else {
                found is Some && e == filesystem_error(FailureCategory::IdentityMismatch)
            },
        },
{
    match component(name) {
        Ok(_) => {},
        Err(e) => {
            return Err(e);
        },
    }
    if found.is_some() {
        return Err(failure(FailureCategory::IdentityMismatch));
    }
    Ok(())
}

/// Whether a directory can be bound by its path: from the root down, name by name.
pub open spec fn bindable(path: Seq<u8>) -> bool {
    &&& host_path::absolute(path)
    &&& forall|i: int|
        1 <= i < host_path::components(path).len() ==> {
            let name = #[trigger] host_path::components(path)[i];
            name != host_path::dot_dot() && !name.contains(0)
        }
}

/// The names that lead from the root to a directory that is to be bound.
pub fn root_names(path: &[u8]) -> (r: Result<Vec<Vec<u8>>, ExecutionDomainError>)
    ensures
        match r {
            Ok(names) => bindable(path@) && bytes::views(names@) == host_path::components(
                path@,
            ).skip(1),
            Err(e) => !bindable(path@) && e == filesystem_error(FailureCategory::InvalidInput),
        },
{
    if path.len() == 0 || path[0] != 0x2f {
        return Err(failure(FailureCategory::InvalidInput));
    }
    let parts: Parts = host_path::parts_of(path);
    let ghost all = host_path::components(path@);
    proof {
        assert(parts@ == all);
        assert(parts.list@.len() == all.len());
    }
    let mut names: Vec<Vec<u8>> = Vec::new();
    proof {
        assert(all.skip(1).take(0) =~= Seq::empty());
        assert(bytes::views(names@) =~= Seq::empty());
    }
    for i in 1..parts.list.len()
        invariant
            all == host_path::components(path@),
            parts@ == all,
            parts.list@.len() == all.len() >= 1,
            bytes::views(names@) == all.skip(1).take(i - 1),
            forall|k: int|
                1 <= k < i ==> (#[trigger] all[k]) != host_path::dot_dot() && !all[k].contains(0),
    {
        let name: &Vec<u8> = &parts.list[i];
        assert(all[i as int] == name@);
        let up: bool = name.len() == 2 && name[0] == 0x2e && name[1] == 0x2e;
        if up || bytes::has(name.as_slice(), 0) {
            proof {
                if up {
                    assert(name@ =~= host_path::dot_dot());
                }
            }
            return Err(failure(FailureCategory::InvalidInput));
        }
        assert(name@ != host_path::dot_dot()) by {
            if name@ == host_path::dot_dot() {
                assert(name@.len() == 2 && name@[0] == 0x2e && name@[1] == 0x2e);
            }
        }
        let ghost held = names@;
        let copy: Vec<u8> = vstd::slice::slice_to_vec(name.as_slice());
        names.push(copy);
        assert(bytes::views(names@) =~= bytes::views(held).push(copy@));
        assert(bytes::views(names@) =~= all.skip(1).take(i as int));
    }
    assert(all.skip(1).take(all.len() - 1) =~= all.skip(1));
    Ok(names)
}

/// The temporary name of a new directory.
pub open spec fn temporary_text(id: u128) -> Seq<char> {
    ".new-"@ + ids::simple_text(id)
}

/// Writes the temporary name that an id gives.
pub fn temporary_form(id: u128) -> (r: String)
    ensures
        r@ == temporary_text(id),
{
    let digits: String = ids::simple_form(id);
    text::concat(".new-", digits.as_str())
}

/// Draws a temporary name for a new directory. Its id has the version and the variant
/// of a random one.
pub fn temporary_name() -> (r: String)
    ensures
        exists|id: u128|
            id & 0xf000_c000_0000_0000_0000 == 0x4000_8000_0000_0000_0000
                && #[trigger] temporary_text(id) == r@,
{
    let id: u128 = ids::random_id();
    temporary_form(id)
}

/// The kind of an entry is the top four bits of its mode; nobody but its owner may write
/// it where two of the lower ones are clear.
pub proof fn lemma_kind_bits(mode: u16)
    ensures
        mode & 0o170000 == 4096 * (mode / 4096),
        mode & 0o022 == 0 <==> mode / 16 % 2 == 0 && mode / 2 % 2 == 0,
{
    assert(mode & 0o170000 == 4096 * (mode / 4096)) by (bit_vector);
    assert(mode & 0o022 == 0 <==> mode / 16 % 2 == 0 && mode / 2 % 2 == 0) by (bit_vector);
}

/// What names an entry is its device, its inode and its mount, and two lie beside each
/// other on the same device and mount.
pub proof fn law_entries_are_named_by_where_they_are(
    a: Metadata,
    b: Metadata,
    left: Identity,
    right: Identity,
    beside: bool,
)
    requires
        call_ensures(Metadata::identity, (&a,), left),
        call_ensures(Metadata::identity, (&b,), right),
        call_ensures(Metadata::is_beside, (&a, &right), beside),
    ensures
        left == right <==> a.dev_major == b.dev_major && a.dev_minor == b.dev_minor && a.inode
            == b.inode && a.mount_id == b.mount_id,
        beside <==> a.dev_major == b.dev_major && a.dev_minor == b.dev_minor && a.mount_id
            == b.mount_id,
{
}

/// A name of an entry is not empty, leads neither nowhere nor up, and holds no slash.
pub proof fn law_names_lead_to_one_entry(name: &[u8], r: Result<(), ExecutionDomainError>)
    requires
        call_ensures(component, (name,), r),
    ensures
        r is Ok <==> name@.len() > 0 && !(name@.len() == 1 && name@[0] == 46) && !(name@.len() == 2
            && name@[0] == 46 && name@[1] == 46) && (forall|i: int|
            0 <= i < name@.len() ==> #[trigger] name@[i] != 47),
        r matches Err(e) ==> e == (ExecutionDomainError::Backend {
            attempt: None,
            stage: Stage::Filesystem,
            category: FailureCategory::InvalidInput,
            errno: None,
        }),
{
    if name@.len() == 1 && name@[0] == 46 {
        assert(name@ =~= seq![46u8]);
    }
    if name@.len() == 2 && name@[0] == 46 && name@[1] == 46 {
        assert(name@ =~= seq![46u8, 46u8]);
    }
    if name@.contains(47) {
        let i = choose|i: int| 0 <= i < name@.len() && name@[i] == 47;
        assert(name@[i] == 47);
    }
}

/// A record is a plain file with one name, no longer than its limit, beside its directory.
pub proof fn law_records_are_plain_files(
    m: Metadata,
    limit: u64,
    directory: Identity,
    r: Result<(), ExecutionDomainError>,
)
    requires
        call_ensures(validate_regular, (&m, limit, &directory), r),
    ensures
        r is Ok <==> m.mode / 4096 == 8 && m.nlink == 1 && m.size <= limit && m.dev_major
            == directory.dev_major && m.dev_minor == directory.dev_minor && m.mount_id
            == directory.mount_id,
{
    lemma_kind_bits(m.mode);
}

/// A name still means the same entry where its identity and mode agree, and its number of
/// names too where that is asked.
pub proof fn law_named_entries_are_the_same(
    current: Metadata,
    expected: Metadata,
    check_links: bool,
    r: Result<(), ExecutionDomainError>,
)
    requires
        call_ensures(verify_named_entry, (&current, &expected, check_links), r),
    ensures
        r is Ok <==> current.inode == expected.inode && current.dev_major == expected.dev_major
            && current.dev_minor == expected.dev_minor && current.mount_id == expected.mount_id
            && current.mode == expected.mode && (!check_links || current.nlink == expected.nlink),
{
}

/// A chain holds where every directory that is held, and everything that is found under
/// its name, is still the directory that was bound.
pub proof fn law_chains_hold_whole(
    links: &[ChainLink],
    i: int,
    r: Result<(), ExecutionDomainError>,
)
    requires
        call_ensures(verify_chain, (links,), r),
    ensures
        0 <= i < links@.len() && (links@[i].held.inode != links@[i].bound.inode
            || links@[i].held.mount_id != links@[i].bound.mount_id || links@[i].held.mode / 4096
            != 4) ==> r is Err,
        0 <= i < links@.len() && links@[i].named is Some && (links@[i].named->0.inode
            != links@[i].bound.inode || links@[i].named->0.mount_id != links@[i].bound.mount_id
            || links@[i].named->0.mode / 4096 != 4) ==> r is Err,
        (forall|k: int|
            0 <= k < links@.len() ==> (#[trigger] links@[k]).held.mode / 4096 == 4
                && links@[k].held.id() == links@[k].bound && (links@[k].named is None
                || links@[k].named == Some(links@[k].held))) ==> r is Ok,
        r matches Err(e) ==> e == (ExecutionDomainError::Backend {
            attempt: None,
            stage: Stage::Filesystem,
            category: FailureCategory::IdentityMismatch,
            errno: None,
        }),
{
    if 0 <= i < links@.len() {
        lemma_kind_bits(links@[i].held.mode);
        if links@[i].named is Some {
            lemma_kind_bits(links@[i].named->0.mode);
        }
        if r is Ok {
            assert(links@[i].holds());
        }
    }
    if forall|k: int|
        0 <= k < links@.len() ==> (#[trigger] links@[k]).held.mode / 4096 == 4 && links@[k].held.id()
            == links@[k].bound && (links@[k].named is None || links@[k].named == Some(
            links@[k].held,
        )) {
        assert forall|k: int| 0 <= k < links@.len() implies (#[trigger] links@[k]).holds() by {
            lemma_kind_bits(links@[k].held.mode);
        }
    }
}

/// A root whose chain broke is given up and stays so: it is refused from then on, even
/// where the chain holds again.
pub proof fn law_broken_chains_give_a_root_up(
    mark: Poison,
    root: &str,
    e: ExecutionDomainError,
    later: Result<(), ExecutionDomainError>,
    first: (Poison, Result<(), ExecutionDomainError>),
    second: (Poison, Result<(), ExecutionDomainError>),
    sound: (Poison, Result<(), ExecutionDomainError>),
)
    requires
        call_ensures(verify_binding, (mark, root, Err(e)), first),
        call_ensures(verify_binding, (first.0, root, later), second),
        call_ensures(verify_binding, (mark, root, Ok(())), sound),
    ensures
        first.0.poisoned && first.1 is Err,
        !mark.poisoned ==> first.1->Err_0 == e,
        second.0.poisoned,
        second.1 matches Err(ExecutionDomainError::PoisonedRoot { path }) && path@ == root@,
        sound.1 is Ok <==> !mark.poisoned,
        sound.0 == mark,
{
}

/// What is read of a record is believed where the record was sound before and after, and
/// neither its size nor its times changed in between.
pub proof fn law_stable_reads_are_believed(
    before: Metadata,
    original: Option<Metadata>,
    after: Metadata,
    read: u64,
    limit: u64,
    directory: Identity,
    sound: Result<(), ExecutionDomainError>,
    sound_after: Result<(), ExecutionDomainError>,
    r: Result<(), ExecutionDomainError>,
    s: Result<(), ExecutionDomainError>,
)
    requires
        call_ensures(validate_regular, (&before, limit, &directory), sound),
        call_ensures(validate_regular, (&after, limit, &directory), sound_after),
        call_ensures(check_before_read, (&before, original, limit, &directory), r),
        call_ensures(check_after_read, (&before, &after, read, limit, &directory), s),
    ensures
        r is Ok <==> sound is Ok && (original is None || original->0.inode == before.inode
            && original->0.dev_major == before.dev_major && original->0.dev_minor
            == before.dev_minor && original->0.mount_id == before.mount_id),
        s is Ok <==> sound_after is Ok && read == after.size && before.size == after.size
            && before.mtime_sec == after.mtime_sec && before.mtime_nsec == after.mtime_nsec
            && before.ctime_sec == after.ctime_sec && before.ctime_nsec == after.ctime_nsec,
{
}

/// A private directory is one of the caller's own that nobody else can enter.
pub proof fn law_private_directories_are_closed(
    m: Metadata,
    euid: u32,
    r: Result<(), ExecutionDomainError>,
)
    requires
        call_ensures(verify_private_directory, (&m, euid), r),
    ensures
        r is Ok <==> m.mode / 4096 == 4 && m.mode % 512 == 448 && m.uid == euid,
{
    lemma_kind_bits(m.mode);
    let mode = m.mode;
    assert(mode & 0o777 == mode % 512) by (bit_vector);
}

/// Nothing of another user or another mount is removed, whatever it is.
pub proof fn law_only_own_entries_are_removed(
    policy: RemovalPolicy,
    name: &[u8],
    m: Metadata,
    directory: Identity,
    euid: u32,
    r: Result<Admission, ExecutionDomainError>,
)
    requires
        call_ensures(decide_removal, (policy, name, &m, &directory, euid), r),
    ensures
        r is Ok ==> m.uid == euid && m.mount_id == directory.mount_id && m.dev_major
            == directory.dev_major && m.dev_minor == directory.dev_minor,
        r matches Ok(Admission::Directory(_)) ==> m.mode / 4096 == 4,
        r matches Ok(Admission::Leaf { check_links }) ==> (if policy == RemovalPolicy::Writable {
            !check_links && (m.mode / 4096 == 8 || m.mode / 4096 == 10 || m.mode / 4096 == 1)
        } else {
            check_links && m.mode / 4096 == 8 && m.nlink == 1
        }),
{
    lemma_kind_bits(m.mode);
}

/// What may be removed: in the attempt's own directory only what an attempt makes there;
/// below the supervisor's directories plain files; and below the writable ones files,
/// links and pipes; directories everywhere, each with what it holds.
pub proof fn law_removals_go_by_place(
    policy: RemovalPolicy,
    name: &[u8],
    m: Metadata,
    directory: Identity,
    euid: u32,
    r: Result<Admission, ExecutionDomainError>,
)
    requires
        call_ensures(decide_removal, (policy, name, &m, &directory, euid), r),
        m.uid == euid,
        m.mount_id == directory.mount_id,
        m.dev_major == directory.dev_major,
        m.dev_minor == directory.dev_minor,
    ensures
        ({
            let kind = m.mode / 4096;
            let supervised = name@ == vstd::utf8::encode_utf8("rootlesskit"@) || name@
                == vstd::utf8::encode_utf8("rootfs"@);
            let writable = name@ == vstd::utf8::encode_utf8("work"@) || name@
                == vstd::utf8::encode_utf8("tmp"@) || name@ == vstd::utf8::encode_utf8("home"@)
                || name@ == vstd::utf8::encode_utf8("run"@) || name@ == vstd::utf8::encode_utf8(
                "docker"@,
            ) || name@ == vstd::utf8::encode_utf8("docker-data"@) || name@
                == vstd::utf8::encode_utf8("docker-exec"@);
            match policy {
                RemovalPolicy::Attempt => {
                    &&& kind == 4 && supervised ==> r == Ok::<Admission, ExecutionDomainError>(
                        Admission::Directory(RemovalPolicy::Supervisor),
                    )
                    &&& kind == 4 && writable && !supervised ==> r == Ok::<
                        Admission,
                        ExecutionDomainError,
                    >(Admission::Directory(RemovalPolicy::Writable))
                    &&& kind == 4 && !supervised && !writable ==> r is Err
                    &&& kind != 4 ==> (r is Ok <==> name@ == vstd::utf8::encode_utf8(
                        "journal.json"@,
                    ) && kind == 8 && m.nlink == 1)
                },
                RemovalPolicy::Supervisor => {
                    &&& kind == 4 <==> r == Ok::<Admission, ExecutionDomainError>(
                        Admission::Directory(RemovalPolicy::Supervisor),
                    )
                    &&& kind != 4 ==> (r is Ok <==> kind == 8 && m.nlink == 1)
                },
                RemovalPolicy::Writable => {
                    &&& kind == 4 <==> r == Ok::<Admission, ExecutionDomainError>(
                        Admission::Directory(RemovalPolicy::Writable),
                    )
                    &&& kind != 4 ==> (r is Ok <==> kind == 8 || kind == 10 || kind == 1)
                },
            }
        }),
{
    lemma_kind_bits(m.mode);
}

/// A plan for one entry follows from what is decided of it: a leaf is unlinked as it was
/// found, and a directory is entered, emptied by the plan for what it holds, and left.
pub proof fn law_plans_follow_the_decisions(
    entries: &Vec<FoundEntry>,
    policy: RemovalPolicy,
    directory: Identity,
    euid: u32,
    name: &[u8],
    inner: RemovalPolicy,
    own: Identity,
    decided: Result<Admission, ExecutionDomainError>,
    below: Result<Vec<RemovalStep>, ExecutionDomainError>,
    r: Result<Vec<RemovalStep>, ExecutionDomainError>,
)
    requires
        entries@.len() == 1,
        name@ == entries@[0].name@,
        call_ensures(removal_plan, (entries, policy, &directory, euid), r),
        call_ensures(
            decide_removal,
            (policy, name, &entries@[0].metadata, &directory, euid),
            decided,
        ),
        call_ensures(Metadata::identity, (&entries@[0].metadata,), own),
        call_ensures(removal_plan, (&entries@[0].children, inner, &own, euid), below),
        decided is Ok && decided->Ok_0 is Directory ==> inner == decided->Ok_0->Directory_0,
    ensures
        decided is Err ==> r is Err,
        decided is Ok && decided->Ok_0 is Leaf ==> (r matches Ok(plan) && plan@.len() == 1 && (
        plan@[0] matches RemovalStep::Unlink { name: n, expected, check_links } && n@ == name@
            && expected == entries@[0].metadata && check_links == decided->Ok_0->check_links)),
        decided is Ok && decided->Ok_0 is Directory ==> (r is Ok <==> below is Ok),
        decided is Ok && decided->Ok_0 is Directory && below is Ok ==> ({
            let plan = r->Ok_0@;
            let inside = below->Ok_0@;
            &&& plan.len() == inside.len() + 2
            &&& plan[0] matches RemovalStep::Enter(n) && n@ == name@
            &&& plan[inside.len() as int + 1] matches RemovalStep::Leave(n) && n@ == name@
            &&& forall|k: int| 0 <= k < inside.len() ==> plan[k + 1]@ == #[trigger] inside[k]@
        }),
{
    let e = entries@[0];
    assert(entries@.drop_first() =~= Seq::empty());
    assert(plan_all(entries@.drop_first(), policy, directory, euid) == Some(Seq::<Step>::empty()));
    if let Some(first) = plan_entry(e, policy, directory, euid) {
        assert(first + Seq::<Step>::empty() =~= first);
        assert(plan_all(entries@, policy, directory, euid) == Some(first));
        if r is Ok {
            let plan = r->Ok_0@;
            assert(steps(plan) == first);
            assert(steps(plan).len() == plan.len());
            if decided->Ok_0 is Leaf {
                assert(steps(plan)[0] == plan[0]@);
            } else {
                let inside = below->Ok_0@;
                assert(first == (seq![Step::Enter(e.name@)] + steps(inside)).push(
                    Step::Leave(e.name@),
                ));
                assert(steps(plan)[0] == plan[0]@);
                assert(steps(plan)[inside.len() as int + 1] == plan[inside.len() as int + 1]@);
                assert forall|k: int| 0 <= k < inside.len() implies plan[k + 1]@
                    == #[trigger] inside[k]@ by {
                    assert(steps(plan)[k + 1] == plan[k + 1]@);
                    assert(steps(inside)[k] == inside[k]@);
                }
            }
        }
    }
}

/// A plan for several entries is the plan for the first followed by the plan for the rest,
/// and one refused entry refuses them all.
pub proof fn law_plans_add_up(
    entries: &Vec<FoundEntry>,
    first: &Vec<FoundEntry>,
    rest: &Vec<FoundEntry>,
    policy: RemovalPolicy,
    directory: Identity,
    euid: u32,
    a: Result<Vec<RemovalStep>, ExecutionDomainError>,
    b: Result<Vec<RemovalStep>, ExecutionDomainError>,
    r: Result<Vec<RemovalStep>, ExecutionDomainError>,
)
    requires
        first@.len() == 1,
        entries@ == first@ + rest@,
        call_ensures(removal_plan, (first, policy, &directory, euid), a),
        call_ensures(removal_plan, (rest, policy, &directory, euid), b),
        call_ensures(removal_plan, (entries, policy, &directory, euid), r),
    ensures
        r is Ok <==> a is Ok && b is Ok,
        r is Ok ==> steps(r->Ok_0@) == steps(a->Ok_0@) + steps(b->Ok_0@),
{
    assert(entries@.drop_first() =~= rest@);
    assert(entries@[0] == first@[0]);
    assert(first@.drop_first() =~= Seq::empty());
    assert(plan_all(first@.drop_first(), policy, directory, euid) == Some(Seq::<Step>::empty()));
    if let Some(plan) = plan_entry(first@[0], policy, directory, euid) {
        assert(plan + Seq::<Step>::empty() =~= plan);
    }
}

/// A record is written under a name of its own, in stages: what was there before and what
/// was left over are looked at, the new file is made and synced and looked at again, only
/// then does it take the old one's place, and the directory is synced before it counts.
pub proof fn law_records_are_written_in_stages(w: AtomicWrite, r: WriteStep)
    requires
        w.stage is Create || w.stage is SyncFile || w.stage is Rename || w.stage is SyncDirectory,
        call_ensures(AtomicWrite::advance, (w, WriteEvent::Passed), r),
    ensures
        r matches WriteStep::Continue(n) && n.previous == w.previous && n.written == w.written
            && n.new == w.new && n.length == w.length && n.directory == w.directory,
        w.stage is Create ==> r->Continue_0.stage is SyncFile,
        w.stage is SyncFile ==> r->Continue_0.stage is Written,
        w.stage is Rename ==> r->Continue_0.stage is SyncDirectory,
        w.stage is SyncDirectory ==> r->Continue_0.stage is Confirm,
{
}

/// What is found at each look decides: an old record must be sound and may not stand where
/// a new one begins, nothing may be left over, what was made must be whole, and what is
/// named must be what was made or seen before.
pub proof fn law_looks_decide_a_write(w: AtomicWrite, found: Option<Metadata>, r: WriteStep)
    requires
        w.stage is Previous || w.stage is Pending || w.stage is Written || w.stage is NextEntry
            || w.stage is OldEntry || w.stage is Confirm,
        call_ensures(AtomicWrite::advance, (w, WriteEvent::Found(found)), r),
    ensures
        ({
            let sound = found is Some && found->0.mode / 4096 == 8 && found->0.nlink == 1
                && found->0.mount_id == w.directory.mount_id && found->0.dev_major
                == w.directory.dev_major && found->0.dev_minor == w.directory.dev_minor;
            &&& w.stage is Previous ==> (if found is None || !w.new && sound {
                r matches WriteStep::Continue(n) && n.stage is Pending && n.previous == found
            } else {
                r is Failed
            })
            &&& w.stage is Pending ==> (if found is None {
                r matches WriteStep::Continue(n) && n.stage is Create && n.previous == w.previous
            } else {
                r is Failed
            })
            &&& w.stage is Written ==> (if sound && found->0.size <= w.length {
                r matches WriteStep::Continue(n) && n.stage is NextEntry && n.written == found
                    && n.previous == w.previous
            } else {
                r is Failed
            })
        }),
        ({
            let made = found is Some && w.written is Some && found->0.id() == w.written->0.id()
                && found->0.mode == w.written->0.mode && found->0.nlink == w.written->0.nlink;
            let old = found is Some && w.previous is Some && found->0.id() == w.previous->0.id()
                && found->0.mode == w.previous->0.mode && found->0.nlink == w.previous->0.nlink;
            &&& w.stage is NextEntry ==> (if made {
                r matches WriteStep::Continue(n) && n.stage is OldEntry && n.previous == w.previous
                    && n.written == w.written
            } else {
                r is Failed
            })
            &&& w.stage is OldEntry ==> (if old || found is None && w.previous is None {
                r matches WriteStep::Continue(n) && n.stage is Rename && n.written == w.written
            } else {
                r is Failed
            })
            &&& w.stage is Confirm ==> (if made {
                r is Committed
            } else {
                r is Failed
            })
        }),
{
    if found is Some {
        lemma_kind_bits(found->0.mode);
    }
}

/// A write begins with a look at what was there, keeps what it was begun with, fails with
/// whatever fails, and replaces nothing where nothing was there.
pub proof fn law_writes_begin_with_a_look(
    name: &[u8],
    new: bool,
    length: u64,
    directory: Identity,
    r: Result<AtomicWrite, ExecutionDomainError>,
    named: Result<(), ExecutionDomainError>,
    w: AtomicWrite,
    e: ExecutionDomainError,
    failed: WriteStep,
    keep: bool,
)
    requires
        call_ensures(AtomicWrite::begin, (name, new, length, directory), r),
        call_ensures(component, (name,), named),
        call_ensures(AtomicWrite::advance, (w, WriteEvent::Failed(e)), failed),
        call_ensures(AtomicWrite::rename_no_replace, (&w,), keep),
    ensures
        r is Ok <==> named is Ok,
        r matches Ok(b) ==> b.stage is Previous && b.new == new && b.length == length && b.directory
            == directory && b.previous is None && b.written is None,
        failed == WriteStep::Failed(e),
        keep <==> w.previous is None,
{
}

/// A directory holds exactly the files where there are as many and each is one of them.
pub proof fn law_contents_are_exact(
    found: &Vec<Vec<u8>>,
    files: &Vec<Vec<u8>>,
    i: int,
    exact: bool,
    r: Result<(), ExecutionDomainError>,
)
    requires
        call_ensures(exact_entries, (found, files), exact),
        call_ensures(check_contents, (found, files), r),
    ensures
        r is Ok <==> exact,
        found@.len() != files@.len() ==> !exact,
        exact && 0 <= i < found@.len() ==> exists|j: int|
            0 <= j < files@.len() && (#[trigger] files@[j])@ == found@[i]@,
        found@ == files@ ==> exact,
{
    let f = bytes::views(found@);
    let g = bytes::views(files@);
    if exact && 0 <= i < found@.len() {
        assert(f[i] == found@[i]@);
        assert(g.contains(f[i]));
        let j = choose|j: int| 0 <= j < g.len() && g[j] == f[i];
        assert(files@[j]@ == found@[i]@);
    }
    if found@ == files@ {
        assert forall|k: int| 0 <= k < f.len() implies g.contains(#[trigger] f[k]) by {
            assert(g[k] == f[k]);
        }
    }
}

/// A file that was made is still the same where nothing that names it changed and it has
/// one name.
pub proof fn law_created_files_stay_the_same(
    current: Metadata,
    original: Metadata,
    r: Result<(), ExecutionDomainError>,
)
    requires
        call_ensures(verify_created_file, (&current, &original), r),
    ensures
        r is Ok <==> current.inode == original.inode && current.dev_major == original.dev_major
            && current.dev_minor == original.dev_minor && current.mount_id == original.mount_id
            && current.mode == original.mode && current.nlink == 1,
{
}

/// A directory that was made is removed in one order: every file is looked at before the
/// first is unlinked, each again right before it is, and the directory goes once they are
/// gone.
pub proof fn law_created_directories_are_removed_in_order(
    files: usize,
    begun: CreatedChildRemoval,
    c: CreatedChildRemoval,
    e: ExecutionDomainError,
    failed: RemovalNext,
    r: RemovalNext,
)
    requires
        call_ensures(CreatedChildRemoval::begin, (files,), begun),
        call_ensures(CreatedChildRemoval::advance, (c, Ok(())), r),
        call_ensures(CreatedChildRemoval::advance, (c, Err(e)), failed),
    ensures
        begun.at_stage() is Name && begun.files() == files && begun.gone() == 0,
        failed == RemovalNext::Poison(e),
        r is Removed <==> c.at_stage() is Sync,
        r is Removed ==> c.passed() == c.files() && c.gone() == c.files(),
        r matches RemovalNext::Continue(n) ==> n.files() == c.files() && match c.at_stage() {
            ChildRemovalStage::Name => n.at_stage() is Parent,
            ChildRemovalStage::Parent => n.at_stage() is Child,
            ChildRemovalStage::Child => n.at_stage() is Identity,
            ChildRemovalStage::Identity => n.at_stage() is Contents,
            ChildRemovalStage::Contents => if c.files() > 0 {
                n.at_stage() is File && n.at_file() == 0
            } else {
                n.at_stage() is LastChild
            },
            ChildRemovalStage::File => n.passed() == c.passed() + 1 && (if c.at_file() + 1
                < c.files() {
                n.at_stage() is File && n.at_file() == c.at_file() + 1
            } else {
                n.at_stage() is ChildAgain && n.at_file() == 0
            }),
            ChildRemovalStage::ChildAgain => n.at_stage() is FileAgain && n.at_file()
                == c.at_file(),
            ChildRemovalStage::FileAgain => n.at_stage() is Unlink && n.at_file() == c.at_file(),
            ChildRemovalStage::Unlink => n.gone() == c.gone() + 1 && (if c.at_file() + 1
                < c.files() {
                n.at_stage() is ChildAgain && n.at_file() == c.at_file() + 1
            } else {
                n.at_stage() is LastChild
            }),
            ChildRemovalStage::LastChild => n.at_stage() is RemoveDirectory,
            ChildRemovalStage::RemoveDirectory => n.at_stage() is Sync,
            ChildRemovalStage::Sync => false,
        },
{
}

/// A new directory is made under a plain name, for its owner alone, and must then be the
/// one that its name leads to.
pub proof fn law_new_directories_are_private(
    name: &[u8],
    mode: u32,
    created: Identity,
    seen: Identity,
    named: Result<(), ExecutionDomainError>,
    r: Result<(), ExecutionDomainError>,
    s: Result<(), ExecutionDomainError>,
)
    requires
        call_ensures(component, (name,), named),
        call_ensures(check_new_directory, (name, mode), r),
        call_ensures(check_created_directory, (&created, &seen), s),
    ensures
        r is Ok <==> named is Ok && mode == 448,
        s is Ok <==> created.inode == seen.inode && created.dev_major == seen.dev_major
            && created.dev_minor == seen.dev_minor && created.mount_id == seen.mount_id,
{
}

/// A name is free where it is a plain one and nothing was found under it.
pub proof fn law_free_names_have_nothing(
    name: &[u8],
    found: Option<Metadata>,
    named: Result<(), ExecutionDomainError>,
    r: Result<(), ExecutionDomainError>,
)
    requires
        call_ensures(component, (name,), named),
        call_ensures(refuse_entry, (name, found), r),
    ensures
        r is Ok <==> named is Ok && found is None,
        named is Err ==> r->Err_0 == named->Err_0,
{
}

/// A root is bound along its full path, name by name, with no step up.
pub proof fn law_roots_are_bound_name_by_name(
    path: &[u8],
    i: int,
    r: Result<Vec<Vec<u8>>, ExecutionDomainError>,
)
    requires
        call_ensures(root_names, (path,), r),
    ensures
        r is Ok ==> host_path::absolute(path@) && r->Ok_0@.len() == host_path::components(
            path@,
        ).len() - 1,
        r is Ok && 0 <= i < r->Ok_0@.len() ==> r->Ok_0@[i]@ == host_path::components(path@)[i + 1]
            && r->Ok_0@[i]@ != seq![46u8, 46u8] && !r->Ok_0@[i]@.contains(0),
        !host_path::absolute(path@) ==> r is Err,
        host_path::absolute(path@) && (forall|k: int|
            1 <= k < host_path::components(path@).len() ==> #[trigger] host_path::components(
                path@,
            )[k] != seq![46u8, 46u8] && !host_path::components(path@)[k].contains(0)) ==> r is Ok,
{
    if r is Ok {
        let names = bytes::views(r->Ok_0@);
        let all = host_path::components(path@);
        assert(names.len() == r->Ok_0@.len());
        if 0 <= i < names.len() {
            assert(names[i] == all.skip(1)[i]);
            assert(all.skip(1)[i] == all[i + 1]);
            assert(names[i] == r->Ok_0@[i]@);
        }
    }
}

/// A name for something new begins with a dot and ends with an identity, so that two
/// identities never share one.
pub proof fn law_temporary_names_are_their_own(a: u128, b: u128, left: String, right: String)
    requires
        call_ensures(temporary_form, (a,), left),
        call_ensures(temporary_form, (b,), right),
    ensures
        left@.len() > 5 && left@[0] == '.',
        left@ == right@ ==> a == b,
        ids::simple_text(a).is_suffix_of(left@),
{
    reveal_strlit(".new-");
    assert(left@.skip(5) =~= ids::simple_text(a));
    assert(right@.skip(5) =~= ids::simple_text(b));
    ids::law_identifiers_are_written_in_base_sixteen(a, 0);
    if left@ == right@ {
        ids::lemma_simple_text_injective(a, b);
    }
}

} // verus!
