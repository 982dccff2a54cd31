//! Whether a read-only input of a domain really cannot change: nobody that the
//! domain can become may write it, and a fingerprint tells if it changed all the
//! same.

use vstd::prelude::*;

use crate::contracts::FailureCategory;
use crate::error::ExecutionDomainError;
use crate::host_path;
use crate::host_path::Parts;
use crate::linux::dirfd::{lemma_kind_bits, Metadata, S_IFDIR, S_IFLNK, S_IFMT, S_IFREG};
use crate::linux::mounts;
use crate::linux::mounts::{Mount, MountLine};
use crate::linux::rootfs;
use crate::linux::rootfs::MountInput;
use crate::text;

verus! {

/// The largest number of entries of one input.
pub const MAX_ENTRIES: usize = 10_000_000;

/// The number of levels of one input.
pub const MAX_DEPTH: usize = 128;

/// How long looking at one input may take, in nanoseconds.
pub const MAX_DURATION: u128 = 30_000_000_000;

/// The length at which the target of a link may have been cut off.
pub const LINK_LIMIT: usize = 4096;

/// What SHA-256 makes of bytes.
pub uninterp spec fn sha256(data: Seq<u8>) -> Seq<u8>;

/// `sha2::Sha256::digest` hashes the bytes; the hash depends on them alone.
#[verifier::external_body]
pub(crate) fn digest(data: &[u8]) -> (r: [u8; 32])
    ensures
        r@ == sha256(data@),
{
    <sha2::Sha256 as sha2::Digest>::digest(data).into()
}

/// `libc::makedev` puts a device number together: the low twelve bits of the major
/// number from bit 8 on and the others from bit 44 on, the low eight bits of the
/// minor number at the start and the others from bit 20 on.
#[verifier::external_body]
pub(crate) fn device_number(major: u32, minor: u32) -> (r: u64)
    ensures
        r == made_device(major, minor),
{
    libc::makedev(major, minor)
}

/// The number of a device, out of its major and minor numbers.
pub open spec fn made_device(major: u32, minor: u32) -> u64 {
    (major as u64 & 0x0fff) << 8u64 | (major as u64 & 0xffff_f000) << 32u64 | (minor as u64 & 0xff) | (
    minor as u64 & 0xffff_ff00) << 12u64
}

/// Accepts the start of an input only if it is the one that was accepted before.
pub fn check_start(input: &MountInput, m: &Metadata) -> (r: Result<(), ExecutionDomainError>)
    ensures
        ({
            let same = input.identified(made_device(m.dev_major, m.dev_minor), m.inode);
            match r {
                Ok(_) => same,
                Err(e) => !same && e == mounts::rootfs_error(FailureCategory::IdentityMismatch),
            }
        }),
{
    let device: u64 = device_number(m.dev_major, m.dev_minor);
    input.check_identity(device, m.inode)
}

/// Whether the file system of a mount is read-only, for the first mount with the
/// number, among the first `n`.
pub open spec fn superblock(list: Seq<Mount>, id: u64, n: int) -> Option<bool>
    decreases n,
{
    if n <= 0 {
        None
    } else {
        match superblock(list, id, n - 1) {
            Some(flag) => Some(flag),
            None => if list[n - 1].id == Some(id as nat) {
                Some(list[n - 1].super_readonly)
            } else {
                None
            },
        }
    }
}

/// Whether the file system of a mount is read-only. That the mount alone is does not
/// count, since the domain could undo it.
pub fn readonly_superblock(id: u64, list: &[MountLine]) -> (r: Result<bool, ExecutionDomainError>)
    ensures
        match superblock(mounts::mounts(list@), id, list@.len() as int) {
            Some(flag) => r == Ok::<bool, ExecutionDomainError>(flag),
            None => r == Err::<bool, ExecutionDomainError>(mounts::invalid_error()),
        },
{
    let mut found: Option<bool> = None;
    for i in 0..list.len()
        invariant
            found == superblock(mounts::mounts(list@), id, i as int),
    {
        assert(mounts::mounts(list@)[i as int] == list@[i as int]@);
        if found.is_none() {
            match list[i].id {
                Some(n) => {
                    if n == id {
                        found = Some(list[i].super_readonly);
                    }
                },
                None => {},
            }
        }
    }
    match found {
        Some(flag) => Ok(flag),
        None => Err(mounts::invalid()),
    }
}

/// Who must own every file of an input that could be written. Outside the domain
/// that is the administrator, and the administrator cannot be asked to hold to it;
/// inside, it is whom the kernel shows for users that are not mapped.
pub fn required_owner(namespace: bool, overflow: &str, euid: u32, readonly: bool) -> (r: Result<
    u32,
    ExecutionDomainError,
>)
    ensures
        ({
            let number = text::unsigned(text::trimmed(overflow@), u32::MAX as nat);
            match r {
                Ok(owner) => if namespace {
                    number == Some(owner as nat)
                } else {
                    owner == 0 && (euid != 0 || readonly)
                },
                Err(e) => (if namespace {
                    number is None
                } else {
                    euid == 0 && !readonly
                }) && e == mounts::invalid_error(),
            }
        }),
{
    if namespace {
        let all: Vec<char> = text::chars(overflow);
        let trimmed: Vec<char> = text::trim(all.as_slice());
        match text::number_u32(trimmed.as_slice()) {
            Some(owner) => Ok(owner),
            None => Err(mounts::invalid()),
        }
    } else {
        if euid == 0 && !readonly {
            return Err(mounts::invalid());
        }
        Ok(0)
    }
}

/// Whether an entry is the same, unchanged.
pub open spec fn unchanged(a: Metadata, b: Metadata) -> bool {
    a == b
}

/// Whether an entry is the same, unchanged.
pub fn same_metadata(a: &Metadata, b: &Metadata) -> (r: bool)
    ensures
        r == unchanged(*a, *b),
{
    a.inode == b.inode && a.dev_major == b.dev_major && a.dev_minor == b.dev_minor && a.mount_id
        == b.mount_id && a.mode == b.mode && a.uid == b.uid && a.gid == b.gid && a.size == b.size
        && a.nlink == b.nlink && a.ctime_sec == b.ctime_sec && a.ctime_nsec == b.ctime_nsec
        && a.mtime_sec == b.mtime_sec && a.mtime_nsec == b.mtime_nsec
}

/// Accepts an entry only if it is the same, unchanged.
pub fn check_unchanged(a: &Metadata, b: &Metadata) -> (r: Result<(), ExecutionDomainError>)
    ensures
        match r {
            Ok(_) => unchanged(*a, *b),
            Err(e) => !unchanged(*a, *b) && e == mounts::rootfs_error(
                FailureCategory::IdentityMismatch,
            ),
        },
{
    if !same_metadata(a, b) {
        return Err(mounts::failure(FailureCategory::IdentityMismatch));
    }
    Ok(())
}

/// How deep below the start a path ends, where it never leads above it.
pub open spec fn depth_after(parts: Seq<Seq<u8>>, n: int) -> Option<nat>
    decreases n,
{
    if n <= 0 {
        Some(0)
    } else {
        match depth_after(parts, n - 1) {
            None => None,
            Some(depth) => if parts[n - 1] == host_path::root_part() {
                None
            } else if parts[n - 1] == host_path::dot() {
                Some(depth)
            } else if parts[n - 1] == host_path::dot_dot() {
                if depth > 0 {
                    Some((depth - 1) as nat)
                } else {
                    None
                }
            } else {
                Some(depth + 1)
            },
        }
    }
}

/// The path that a link leads to, from the start of the input: an absolute link must
/// go through the start itself.
pub open spec fn link_path(
    root: Seq<Seq<u8>>,
    relative: Seq<Seq<u8>>,
    target: Seq<u8>,
) -> Option<Seq<Seq<u8>>> {
    let parts = host_path::components(target);
    if host_path::absolute(target) {
        if root.is_prefix_of(parts) {
            Some(parts.skip(root.len() as int))
        } else {
            None
        }
    } else {
        Some(
            (match host_path::parent(relative) {
                Some(above) => above,
                None => Seq::empty(),
            }) + parts,
        )
    }
}

/// Whether a link stays within the input.
pub open spec fn confined(root: Seq<Seq<u8>>, relative: Seq<Seq<u8>>, target: Seq<u8>) -> bool {
    link_path(root, relative, target) matches Some(path) && depth_after(path, path.len() as int) is Some
}

proof fn lemma_lost(parts: Seq<Seq<u8>>, n: int, all: int)
    requires
        0 <= n <= all,
        depth_after(parts, n) is None,
    ensures
        depth_after(parts, all) is None,
    decreases all,
{
    if n < all {
        lemma_lost(parts, n, all - 1);
    }
}

fn special(part: &[u8]) -> (r: (bool, bool, bool))
    ensures
        r.0 == (part@ == host_path::root_part()),
        r.1 == (part@ == host_path::dot()),
        r.2 == (part@ == host_path::dot_dot()),
{
    let root: bool = part.len() == 1 && part[0] == 0x2f;
    let dot: bool = part.len() == 1 && part[0] == 0x2e;
    let dots: bool = part.len() == 2 && part[0] == 0x2e && part[1] == 0x2e;
    proof {
        if root {
            assert(part@ =~= host_path::root_part());
        }
        if dot {
            assert(part@ =~= host_path::dot());
        }
        if dots {
            assert(part@ =~= host_path::dot_dot());
        }
    }
    (root, dot, dots)
}

/// Accepts a link only if it stays within the input.
pub fn confined_symlink(root: &[u8], relative: &[u8], target: &[u8]) -> (r: Result<
    (),
    ExecutionDomainError,
>)
    ensures
        ({
            let fine = confined(
                host_path::components(root@),
                host_path::components(relative@),
                target@,
            );
            match r {
                Ok(_) => fine,
                Err(e) => !fine && e == mounts::invalid_error(),
            }
        }),
{
    let start: Parts = host_path::parts_of(root);
    let own: Parts = host_path::parts_of(relative);
    let parts: Parts = host_path::parts_of(target);
    let empty: Parts = Parts { list: Vec::new() };
    proof {
        assert(empty@ =~= Seq::empty());
    }
    let path: Parts = if target.len() > 0 && target[0] == 0x2f {
        if !parts.starts_with(&start) {
            return Err(mounts::invalid());
        }
        let path: Parts = empty.joined(&parts, start.list.len());
        proof {
            assert(path@ =~= parts@.skip(start@.len() as int));
        }
        path
    } else {
        match own.parent() {
            Some(above) => {
                let path: Parts = above.joined(&parts, 0);
                proof {
                    assert(parts@.skip(0) =~= parts@);
                }
                path
            },
            None => {
                let path: Parts = empty.joined(&parts, 0);
                proof {
                    assert(parts@.skip(0) =~= parts@);
                    assert(path@ =~= Seq::<Seq<u8>>::empty() + parts@);
                }
                path
            },
        }
    };
    let ghost all = path@;
    proof {
        assert(link_path(start@, own@, target@) == Some(all));
    }
    let mut depth: usize = 0;
    for i in 0..path.list.len()
        invariant
            all == path@,
            link_path(
                host_path::components(root@),
                host_path::components(relative@),
                target@,
            ) == Some(all),
            depth <= i,
            depth_after(all, i as int) == Some(depth as nat),
    {
        assert(all[i as int] == path.list@[i as int]@);
        let (is_root, is_dot, is_dots): (bool, bool, bool) = special(path.list[i].as_slice());
        if is_root || (is_dots && depth == 0) {
            proof {
                lemma_lost(all, i + 1, all.len() as int);
            }
            return Err(mounts::invalid());
        }
        if is_dots {
            depth = depth - 1;
        } else if !is_dot {
            depth = depth + 1;
        }
    }
    Ok(())
}

/// The numbers of an entry that go into the fingerprint. Owners and mounts look
/// different from inside a domain, and are left out.
pub open spec fn hashed_fields(m: Metadata) -> Seq<u64> {
    seq![
        m.inode,
        m.dev_major as u64,
        m.dev_minor as u64,
        m.mode as u64,
        m.size,
        m.nlink as u64,
        m.ctime_sec as u64,
        m.ctime_nsec as u64,
        m.mtime_sec as u64,
        m.mtime_nsec as u64,
    ]
}

/// Numbers as bytes, the least significant first.
pub open spec fn little_endian(v: Seq<u64>) -> Seq<u8>
    decreases v.len(),
{
    if v.len() == 0 {
        seq![]
    } else {
        little_endian(v.drop_last()) + vstd::bytes::spec_u64_to_le_bytes(v.last())
    }
}

/// What an entry adds to the fingerprint: its path, with its length, and its numbers.
pub open spec fn entry_record(name: Seq<u8>, m: Metadata) -> Seq<u8> {
    vstd::bytes::spec_u64_to_le_bytes(name.len() as u64) + name + little_endian(hashed_fields(m))
}

/// What the target of a link adds to the fingerprint.
pub open spec fn link_record(target: Seq<u8>) -> Seq<u8> {
    vstd::bytes::spec_u64_to_le_bytes(target.len() as u64) + target
}

fn append(out: &mut Vec<u8>, more: &[u8])
    ensures
        final(out)@ == old(out)@ + more@,
{
    let ghost before = out@;
    for i in 0..more.len()
        invariant
            out@ == before + more@.take(i as int),
    {
        out.push(more[i]);
        assert(out@ =~= before + more@.take(i + 1));
    }
    assert(more@.take(more@.len() as int) =~= more@);
}

fn append_number(out: &mut Vec<u8>, n: u64)
    ensures
        final(out)@ == old(out)@ + vstd::bytes::spec_u64_to_le_bytes(n),
{
    let encoded: Vec<u8> = vstd::bytes::u64_to_le_bytes(n);
    append(out, encoded.as_slice());
}

fn hash_metadata(out: &mut Vec<u8>, m: &Metadata)
    ensures
        final(out)@ == old(out)@ + little_endian(hashed_fields(*m)),
{
    let ghost before = out@;
    let mut fields: Vec<u64> = Vec::new();
    fields.push(m.inode);
    fields.push(m.dev_major as u64);
    fields.push(m.dev_minor as u64);
    fields.push(m.mode as u64);
    fields.push(m.size);
    fields.push(m.nlink as u64);
    fields.push(m.ctime_sec as u64);
    fields.push(m.ctime_nsec as u64);
    fields.push(m.mtime_sec as u64);
    fields.push(m.mtime_nsec as u64);
    proof {
        assert(fields@ =~= hashed_fields(*m));
        assert(fields@.take(0) =~= seq![]);
        assert(out@ =~= before + little_endian(fields@.take(0)));
    }
    for i in 0..fields.len()
        invariant
            out@ == before + little_endian(fields@.take(i as int)),
    {
        append_number(out, fields[i]);
        proof {
            assert(fields@.take(i + 1).drop_last() =~= fields@.take(i as int));
            assert(fields@.take(i + 1).last() == fields@[i as int]);
            assert(out@ =~= before + little_endian(fields@.take(i + 1)));
        }
    }
    assert(fields@.take(fields@.len() as int) =~= fields@);
}

/// What an entry of an input is.
#[derive(Debug, Clone, Copy, PartialEq, Eq, Structural)]
pub enum EntryKind {
    File,
    Directory,
    Link,
}

/// A look at every entry of an input.
pub struct Walk {
    pub remaining: usize,
    pub max_depth: usize,
    pub deadline: u128,
    pub mount_id: u64,
    pub dev_major: u32,
    pub dev_minor: u32,
    /// Whether the whole file system is read-only.
    pub readonly: bool,
    pub owner: u32,
    /// Whether the input is part of the system, whose links may lead anywhere.
    pub system: bool,
    pub source: Vec<u8>,
    /// What has gone into the fingerprint.
    pub transcript: Vec<u8>,
}

impl Walk {
    /// Begins a look at an input.
    pub fn begin(
        input: &MountInput,
        start: &Metadata,
        readonly: bool,
        owner: u32,
        entries: usize,
        depth: usize,
        deadline: u128,
    ) -> (r: Walk)
        ensures
            r.remaining == entries,
            r.max_depth == depth,
            r.deadline == deadline,
            r.mount_id == start.mount_id,
            r.dev_major == start.dev_major,
            r.dev_minor == start.dev_minor,
            r.readonly == readonly,
            r.owner == owner,
            r.system == rootfs::system_inputs().contains(input.target@),
            r.source@ == input.source@,
            r.transcript@ == Seq::<u8>::empty(),
    {
        let systems: Vec<&'static str> = rootfs::system_list();
        let mut system: bool = false;
        proof {
            assert(rootfs::names(systems@).len() == systems@.len());
        }
        for i in 0..systems.len()
            invariant
                rootfs::names(systems@) == rootfs::system_inputs(),
                systems@.len() == rootfs::system_inputs().len(),
                system == exists|k: int|
                    0 <= k < i && #[trigger] rootfs::system_inputs()[k] == input.target@,
        {
            assert(rootfs::system_inputs()[i as int] == systems@[i as int]@);
            if text::same_str(systems[i], input.target.as_str()) {
                system = true;
            }
        }
        Walk {
            remaining: entries,
            max_depth: depth,
            deadline,
            mount_id: start.mount_id,
            dev_major: start.dev_major,
            dev_minor: start.dev_minor,
            readonly,
            owner,
            system,
            source: vstd::slice::slice_to_vec(input.source.as_slice()),
            transcript: Vec::new(),
        }
    }

    /// Pays for an entry before it is looked at.
    pub fn charge(&mut self, depth: usize, now: u128) -> (r: Result<(), ExecutionDomainError>)
        ensures
            if old(self).remaining == 0 || depth >= old(self).max_depth || now >= old(self).deadline {
                *final(self) == *old(self) && r == Err::<(), ExecutionDomainError>(
                    mounts::rootfs_error(FailureCategory::Unavailable),
                )
            } else {
                r is Ok && *final(self) == (Walk {
                    remaining: (old(self).remaining - 1) as usize,
                    ..*old(self)
                })
            },
    {
        if self.remaining == 0 || depth >= self.max_depth || now >= self.deadline {
            return Err(mounts::failure(FailureCategory::Unavailable));
        }
        self.remaining = self.remaining - 1;
        Ok(())
    }

    /// Whether an entry may be part of a read-only input: a file, directory or link
    /// in the same place, which nobody but its owner can write, and whose owner is
    /// not the service, unless the whole file system is read-only.
    pub open spec fn entry_immutable(self, m: Metadata) -> bool {
        let kind = m.mode & S_IFMT;
        &&& kind == S_IFDIR || kind == S_IFREG || kind == S_IFLNK
        &&& m.mount_id == self.mount_id
        &&& m.dev_major == self.dev_major
        &&& m.dev_minor == self.dev_minor
        &&& self.readonly || (m.uid == self.owner && (kind == S_IFLNK || m.mode & 0o022 == 0))
    }

    /// Looks at an entry.
    pub fn visit(&mut self, relative: &[u8], m: &Metadata) -> (r: Result<
        EntryKind,
        ExecutionDomainError,
    >)
        ensures
            final(self).remaining == old(self).remaining,
            final(self).max_depth == old(self).max_depth,
            final(self).deadline == old(self).deadline,
            final(self).mount_id == old(self).mount_id,
            final(self).dev_major == old(self).dev_major,
            final(self).dev_minor == old(self).dev_minor,
            final(self).readonly == old(self).readonly,
            final(self).owner == old(self).owner,
            final(self).system == old(self).system,
            final(self).source == old(self).source,
            if old(self).entry_immutable(*m) {
                &&& final(self).transcript@ == old(self).transcript@ + entry_record(relative@, *m)
                &&& r == Ok::<EntryKind, ExecutionDomainError>(
                    if m.mode & S_IFMT == S_IFLNK {
                        EntryKind::Link
                    } else if m.mode & S_IFMT == S_IFDIR {
                        EntryKind::Directory
                    } else {
                        EntryKind::File
                    },
                )
            } else {
                final(self).transcript@ == old(self).transcript@ && r == Err::<
                    EntryKind,
                    ExecutionDomainError,
                >(mounts::invalid_error())
            },
    {
        let kind: u16 = m.mode & S_IFMT;
        if !(kind == S_IFDIR || kind == S_IFREG || kind == S_IFLNK) || m.mount_id != self.mount_id
            || m.dev_major != self.dev_major || m.dev_minor != self.dev_minor || (!self.readonly && (
        m.uid != self.owner || (kind != S_IFLNK && m.mode & 0o022 != 0))) {
            return Err(mounts::invalid());
        }
        let ghost before = self.transcript@;
        append_number(&mut self.transcript, relative.len() as u64);
        append(&mut self.transcript, relative);
        hash_metadata(&mut self.transcript, m);
        proof {
            assert(self.transcript@ =~= before + entry_record(relative@, *m));
        }
        if kind == S_IFLNK {
            Ok(EntryKind::Link)
        } else if kind == S_IFDIR {
            Ok(EntryKind::Directory)
        } else {
            Ok(EntryKind::File)
        }
    }

    /// Looks at where a link leads. It must stay within the input, unless that is
    /// part of the system, and its target must not have been cut off.
    pub fn link(&mut self, relative: &[u8], target: &[u8]) -> (r: Result<(), ExecutionDomainError>)
        ensures
            final(self).remaining == old(self).remaining,
            final(self).max_depth == old(self).max_depth,
            final(self).deadline == old(self).deadline,
            final(self).mount_id == old(self).mount_id,
            final(self).dev_major == old(self).dev_major,
            final(self).dev_minor == old(self).dev_minor,
            final(self).readonly == old(self).readonly,
            final(self).owner == old(self).owner,
            final(self).system == old(self).system,
            final(self).source == old(self).source,
            ({
                let fine = target@.len() < LINK_LIMIT && (old(self).system || confined(
                    host_path::components(old(self).source@),
                    host_path::components(relative@),
                    target@,
                ));
                if fine {
                    r is Ok && final(self).transcript@ == old(self).transcript@ + link_record(
                        target@,
                    )
                } else {
                    r == Err::<(), ExecutionDomainError>(mounts::invalid_error()) && final(self).transcript@ == old(self).transcript@
                }
            }),
    {
        if target.len() >= LINK_LIMIT {
            return Err(mounts::invalid());
        }
        if !self.system {
            match confined_symlink(self.source.as_slice(), relative, target) {
                Ok(_) => {},
                Err(e) => {
                    return Err(e);
                },
            }
        }
        let ghost before = self.transcript@;
        append_number(&mut self.transcript, target.len() as u64);
        append(&mut self.transcript, target);
        proof {
            assert(self.transcript@ =~= before + link_record(target@));
        }
        Ok(())
    }

    /// The fingerprint of everything that was looked at.
    pub fn fingerprint(&self) -> (r: [u8; 32])
        ensures
            r@ == sha256(self.transcript@),
    {
        digest(self.transcript.as_slice())
    }
}

/// Accepts an input only if it looks as it did when it was accepted.
pub fn verify_snapshot(input: &MountInput, fingerprint: &[u8; 32]) -> (r: Result<
    (),
    ExecutionDomainError,
>)
    ensures
        ({
            let same = input.immutable_fingerprint matches Some(known) && known@ == fingerprint@;
            match r {
                Ok(_) => same,
                Err(e) => !same && e == mounts::rootfs_error(FailureCategory::IdentityMismatch),
            }
        }),
{
    match &input.immutable_fingerprint {
        None => Err(mounts::failure(FailureCategory::IdentityMismatch)),
        Some(known) => {
            for i in 0..32
                invariant
                    input.immutable_fingerprint == Some(*known),
                    forall|k: int| 0 <= k < i ==> known@[k] == fingerprint@[k],
            {
                if known[i] != fingerprint[i] {
                    assert(known@[i as int] != fingerprint@[i as int]);
                    return Err(mounts::failure(FailureCategory::IdentityMismatch));
                }
            }
            assert(known@ =~= fingerprint@);
            Ok(())
        },
    }
}

/// Whatever lets an entry pass outside a read-only file system, a domain whose users
/// do not include its owner cannot write it: it belongs to that owner, and neither a
/// group nor others can write it.
pub proof fn law_accepted_entries_cannot_be_written(walk: Walk, m: Metadata)
    requires
        walk.entry_immutable(m),
        !walk.readonly,
    ensures
        m.uid == walk.owner,
        m.mode & S_IFMT != S_IFLNK ==> m.mode & 0o022 == 0,
{
}

/// What an entry adds to the fingerprint tells its path and its numbers: two entries
/// that add the same are the same in all of them.
pub proof fn law_records_tell_entries_apart(
    name: Seq<u8>,
    m: Metadata,
    other_name: Seq<u8>,
    other: Metadata,
)
    requires
        name.len() <= u64::MAX,
        other_name.len() <= u64::MAX,
        entry_record(name, m) == entry_record(other_name, other),
    ensures
        name == other_name,
        hashed_fields(m) == hashed_fields(other),
{
    vstd::bytes::lemma_auto_spec_u64_to_from_le_bytes();
    let a = entry_record(name, m);
    let b = entry_record(other_name, other);
    let first = vstd::bytes::spec_u64_to_le_bytes(name.len() as u64);
    let second = vstd::bytes::spec_u64_to_le_bytes(other_name.len() as u64);
    assert(a.take(8) =~= first);
    assert(b.take(8) =~= second);
    assert(name.len() == other_name.len()) by {
        assert(vstd::bytes::spec_u64_from_le_bytes(first) == name.len() as u64);
        assert(vstd::bytes::spec_u64_from_le_bytes(second) == other_name.len() as u64);
    }
    assert(a.subrange(8, 8 + name.len() as int) =~= name);
    assert(b.subrange(8, 8 + name.len() as int) =~= other_name);
    let x = little_endian(hashed_fields(m));
    let y = little_endian(hashed_fields(other));
    assert(a.skip(8 + name.len() as int) =~= x);
    assert(b.skip(8 + name.len() as int) =~= y);
    lemma_numbers_tell_apart(hashed_fields(m), hashed_fields(other));
}

proof fn lemma_numbers_length(v: Seq<u64>)
    ensures
        little_endian(v).len() == 8 * v.len(),
    decreases v.len(),
{
    vstd::bytes::lemma_auto_spec_u64_to_from_le_bytes();
    if v.len() > 0 {
        lemma_numbers_length(v.drop_last());
    }
}

proof fn lemma_numbers_tell_apart(a: Seq<u64>, b: Seq<u64>)
    requires
        a.len() == b.len(),
        little_endian(a) == little_endian(b),
    ensures
        a == b,
    decreases a.len(),
{
    if a.len() == 0 {
        assert(a =~= b);
    } else {
        vstd::bytes::lemma_auto_spec_u64_to_from_le_bytes();
        lemma_numbers_length(a.drop_last());
        lemma_numbers_length(b.drop_last());
        let n = 8 * (a.len() - 1);
        assert(little_endian(a).take(n) =~= little_endian(a.drop_last()));
        assert(little_endian(b).take(n) =~= little_endian(b.drop_last()));
        assert(little_endian(a).skip(n) =~= vstd::bytes::spec_u64_to_le_bytes(a.last()));
        assert(little_endian(b).skip(n) =~= vstd::bytes::spec_u64_to_le_bytes(b.last()));
        lemma_numbers_tell_apart(a.drop_last(), b.drop_last());
        assert(a.last() == b.last()) by {
            assert(vstd::bytes::spec_u64_from_le_bytes(
                vstd::bytes::spec_u64_to_le_bytes(a.last()),
            ) == a.last());
        }
        assert(a =~= a.drop_last().push(a.last()));
        assert(b =~= b.drop_last().push(b.last()));
    }
}

/// An input is the one that was captured where its device and its inode are; small
/// device numbers are told by their two parts.
pub proof fn law_inputs_start_where_captured(
    input: MountInput,
    m: Metadata,
    r: Result<(), ExecutionDomainError>,
)
    requires
        call_ensures(check_start, (&input, &m), r),
        m.dev_major < 4096,
        m.dev_minor < 256,
    ensures
        r is Ok <==> input.expected_device == 256 * m.dev_major + m.dev_minor
            && input.expected_inode == m.inode,
{
    let major = m.dev_major as u64;
    let minor = m.dev_minor as u64;
    assert((major & 0x0fff) << 8u64 | (major & 0xffff_f000) << 32u64 | (minor & 0xff) | (minor
        & 0xffff_ff00) << 12u64 == 256 * major + minor) by (bit_vector)
        requires
            major < 4096,
            minor < 256,
    ;
}

/// Whether a file system is read-only is told by the first line of the mount it is under.
pub proof fn law_the_first_line_tells_the_superblock(
    id: u64,
    list: &[MountLine],
    k: int,
    r: Result<bool, ExecutionDomainError>,
)
    requires
        call_ensures(readonly_superblock, (id, list), r),
    ensures
        0 <= k < list@.len() && mounts::mounts(list@)[k].id == Some(id as nat) && (forall|j: int|
            0 <= j < k ==> (#[trigger] mounts::mounts(list@)[j]).id != Some(id as nat)) ==> r == Ok::<
            bool,
            ExecutionDomainError,
        >(mounts::mounts(list@)[k].super_readonly),
        (forall|j: int|
            0 <= j < list@.len() ==> (#[trigger] mounts::mounts(list@)[j]).id != Some(id as nat))
            <==> r is Err,
{
    let all = mounts::mounts(list@);
    lemma_superblock(all, id, list@.len() as int, k);
    if r is Ok {
        lemma_superblock_found(all, id, list@.len() as int);
    } else {
        assert forall|j: int| 0 <= j < list@.len() implies (#[trigger] all[j]).id != Some(
            id as nat,
        ) by {
            lemma_superblock_present(all, id, list@.len() as int, j);
        }
    }
}

proof fn lemma_superblock(list: Seq<Mount>, id: u64, n: int, k: int)
    ensures
        0 <= k < n && list[k].id == Some(id as nat) && (forall|j: int|
            0 <= j < k ==> (#[trigger] list[j]).id != Some(id as nat)) ==> superblock(list, id, n)
            == Some(list[k].super_readonly),
    decreases n,
{
    if n > 0 {
        lemma_superblock(list, id, n - 1, k);
        if superblock(list, id, n - 1) is Some {
            lemma_superblock_found(list, id, n - 1);
        }
    }
}

proof fn lemma_superblock_found(list: Seq<Mount>, id: u64, n: int)
    requires
        superblock(list, id, n) is Some,
    ensures
        exists|j: int| 0 <= j < n && (#[trigger] list[j]).id == Some(id as nat),
    decreases n,
{
    if n > 0 {
        if superblock(list, id, n - 1) is Some {
            lemma_superblock_found(list, id, n - 1);
        } else {
            assert(list[n - 1].id == Some(id as nat));
        }
    }
}

proof fn lemma_superblock_present(list: Seq<Mount>, id: u64, n: int, j: int)
    requires
        0 <= j < n,
        superblock(list, id, n) is None,
    ensures
        list[j].id != Some(id as nat),
    decreases n,
{
    if j < n - 1 {
        lemma_superblock_present(list, id, n - 1, j);
    }
}

/// Outside a namespace of its own an input belongs to the first user, and to be safe from
/// that user it must be read-only; inside one it belongs to whom the kernel shows for
/// everyone else.
pub proof fn law_inputs_belong_to_someone_else(
    namespace: bool,
    overflow: &str,
    euid: u32,
    readonly: bool,
    r: Result<u32, ExecutionDomainError>,
)
    requires
        call_ensures(required_owner, (namespace, overflow, euid, readonly), r),
    ensures
        !namespace && (readonly || euid != 0) ==> r == Ok::<u32, ExecutionDomainError>(0),
        !namespace && !readonly && euid == 0 ==> r is Err,
        namespace ==> (r matches Ok(owner) ==> text::unsigned(
            text::trimmed(overflow@),
            u32::MAX as nat,
        ) == Some(owner as nat)),
        namespace ==> (r is Err <==> text::unsigned(text::trimmed(overflow@), u32::MAX as nat)
            is None),
{
}

/// Nothing of what is known of an entry may have changed.
pub proof fn law_any_change_is_seen(
    a: Metadata,
    b: Metadata,
    same: bool,
    r: Result<(), ExecutionDomainError>,
)
    requires
        call_ensures(same_metadata, (&a, &b), same),
        call_ensures(check_unchanged, (&a, &b), r),
    ensures
        same <==> r is Ok,
        same <==> a.mode == b.mode && a.uid == b.uid && a.gid == b.gid && a.nlink == b.nlink
            && a.mount_id == b.mount_id && a.dev_major == b.dev_major && a.dev_minor == b.dev_minor
            && a.inode == b.inode && a.size == b.size && a.ctime_sec == b.ctime_sec && a.ctime_nsec
            == b.ctime_nsec && a.mtime_sec == b.mtime_sec && a.mtime_nsec == b.mtime_nsec,
{
}

/// How many of the first parts lead up.
pub open spec fn ups(parts: Seq<Seq<u8>>, n: int) -> nat
    decreases n,
{
    if n <= 0 {
        0
    } else {
        ups(parts, n - 1) + (if parts[n - 1] == host_path::dot_dot() {
            1nat
        } else {
            0
        })
    }
}

/// How many of the first parts lead down.
pub open spec fn downs(parts: Seq<Seq<u8>>, n: int) -> nat
    decreases n,
{
    if n <= 0 {
        0
    } else {
        downs(parts, n - 1) + (if parts[n - 1] == host_path::dot_dot() || parts[n - 1]
            == host_path::dot() {
            0nat
        } else {
            1
        })
    }
}

/// Whether following the parts never leads up more often than down.
pub open spec fn never_above(parts: Seq<Seq<u8>>) -> bool {
    forall|k: int| 0 <= k <= parts.len() ==> #[trigger] ups(parts, k) <= downs(parts, k)
}

proof fn lemma_depth_is_balance(parts: Seq<Seq<u8>>, n: int)
    requires
        0 <= n <= parts.len(),
        depth_after(parts, n) is Some,
    ensures
        depth_after(parts, n)->0 == downs(parts, n) - ups(parts, n),
        forall|k: int| 0 <= k <= n ==> #[trigger] ups(parts, k) <= downs(parts, k),
    decreases n,
{
    if n > 0 {
        lemma_depth_is_balance(parts, n - 1);
        assert(host_path::dot_dot().len() != host_path::dot().len());
        assert forall|k: int| 0 <= k <= n implies #[trigger] ups(parts, k) <= downs(parts, k) by {
            if k < n {
                assert(0 <= k <= n - 1);
            }
        }
    }
}

proof fn lemma_balance_has_depth(parts: Seq<Seq<u8>>, n: int)
    requires
        0 <= n <= parts.len(),
        !parts.contains(host_path::root_part()),
        never_above(parts),
    ensures
        depth_after(parts, n) is Some,
    decreases n,
{
    if n > 0 {
        lemma_balance_has_depth(parts, n - 1);
        lemma_depth_is_balance(parts, n - 1);
        assert(parts.contains(parts[n - 1]));
        assert(ups(parts, n) <= downs(parts, n));
        assert(host_path::dot_dot().len() != host_path::dot().len());
    }
}

/// A link inside an input is agreed to where following it from its own directory never
/// leads up more often than down.
pub proof fn law_links_stay_inside(
    root: &[u8],
    relative: &[u8],
    target: &[u8],
    above: Seq<Seq<u8>>,
    r: Result<(), ExecutionDomainError>,
)
    requires
        call_ensures(confined_symlink, (root, relative, target), r),
        host_path::parent(host_path::components(relative@)) == Some(above),
        !host_path::absolute(target@),
    ensures
        r is Ok ==> never_above(above + host_path::components(target@)),
        never_above(above + host_path::components(target@)) && !(above + host_path::components(
            target@,
        )).contains(host_path::root_part()) ==> r is Ok,
{
    let inside = above + host_path::components(target@);
    if r is Ok {
        lemma_depth_is_balance(inside, inside.len() as int);
    } else if never_above(inside) && !inside.contains(host_path::root_part()) {
        lemma_balance_has_depth(inside, inside.len() as int);
    }
}

/// A link that starts at the root must start with the input's own path and stay below it.
pub proof fn law_links_from_the_root_stay_inside(
    root: &[u8],
    relative: &[u8],
    target: &[u8],
    below: Seq<Seq<u8>>,
    r: Result<(), ExecutionDomainError>,
)
    requires
        call_ensures(confined_symlink, (root, relative, target), r),
        host_path::absolute(target@),
    ensures
        r is Ok ==> exists|rest: Seq<Seq<u8>>|
            host_path::components(target@) == host_path::components(root@) + rest
                && #[trigger] never_above(rest),
        host_path::components(target@) == host_path::components(root@) + below && never_above(below)
            && !below.contains(host_path::root_part()) ==> r is Ok,
{
    let parts = host_path::components(target@);
    let own = host_path::components(root@);
    if r is Ok {
        let rest = parts.skip(own.len() as int);
        lemma_depth_is_balance(rest, rest.len() as int);
        assert(parts =~= own + rest);
        assert(never_above(rest));
    } else if parts == own + below && never_above(below) && !below.contains(
        host_path::root_part(),
    ) {
        assert(parts.skip(own.len() as int) =~= below);
        assert(own.is_prefix_of(parts));
        lemma_balance_has_depth(below, below.len() as int);
    }
}

/// A walk knows where it began and has found nothing yet; only the parts of the system
/// may hold links that lead elsewhere.
pub proof fn law_walks_begin_at_their_input(
    input: MountInput,
    start: Metadata,
    readonly: bool,
    owner: u32,
    entries: usize,
    depth: usize,
    deadline: u128,
    walk: Walk,
)
    requires
        call_ensures(
            Walk::begin,
            (&input, &start, readonly, owner, entries, depth, deadline),
            walk,
        ),
    ensures
        walk.remaining == entries && walk.max_depth == depth && walk.deadline == deadline,
        walk.mount_id == start.mount_id && walk.dev_major == start.dev_major && walk.dev_minor
            == start.dev_minor,
        walk.readonly == readonly && walk.owner == owner && walk.transcript@.len() == 0,
        walk.source@ == input.source@,
        walk.system <==> input.target@ == "/usr/bin"@ || input.target@ == "/usr/sbin"@
            || input.target@ == "/usr/lib"@ || input.target@ == "/usr/lib64"@ || input.target@
            == "/usr/share/zoneinfo"@ || input.target@ == "/usr/share/locale"@ || input.target@
            == "/etc/ssl/certs/ca-certificates.crt"@,
{
    let all = rootfs::system_inputs();
    assert(all[0] == "/usr/bin"@ && all[1] == "/usr/sbin"@ && all[2] == "/usr/lib"@ && all[3]
        == "/usr/lib64"@ && all[4] == "/usr/share/zoneinfo"@ && all[5] == "/usr/share/locale"@
        && all[6] == "/etc/ssl/certs/ca-certificates.crt"@);
}

/// Every entry is paid for: a walk ends once its entries are used up, it goes too deep or
/// its time is over, and otherwise it has one entry less left.
pub proof fn law_walks_pay_for_every_entry(
    walk: &mut Walk,
    depth: usize,
    now: u128,
    r: Result<(), ExecutionDomainError>,
)
    requires
        call_ensures(Walk::charge, (walk, depth, now), r),
    ensures
        r is Ok <==> old(walk).remaining > 0 && depth < old(walk).max_depth && now
            < old(walk).deadline,
        final(walk).remaining == old(walk).remaining - (if r is Ok {
            1int
        } else {
            0
        }),
        final(walk).transcript@ == old(walk).transcript@,
        r matches Err(e) ==> (e matches ExecutionDomainError::Backend { category, .. } && category
            == FailureCategory::Unavailable),
{
}

/// An entry is seen where it is a file, a directory or a link of the same mount and
/// device, and nobody that the domain can become may write it.
pub proof fn law_entries_cannot_change(
    walk: &mut Walk,
    relative: &[u8],
    m: Metadata,
    r: Result<EntryKind, ExecutionDomainError>,
)
    requires
        call_ensures(Walk::visit, (walk, relative, &m), r),
    ensures
        r is Ok <==> m.mount_id == old(walk).mount_id && m.dev_major == old(walk).dev_major
            && m.dev_minor == old(walk).dev_minor && (m.mode / 4096 == 4 || m.mode / 4096 == 8
            || m.mode / 4096 == 10) && (old(walk).readonly || m.uid == old(walk).owner && (m.mode
            / 4096 == 10 || m.mode / 16 % 2 == 0 && m.mode / 2 % 2 == 0)),
        r matches Ok(kind) ==> (kind == EntryKind::Directory <==> m.mode / 4096 == 4) && (kind
            == EntryKind::File <==> m.mode / 4096 == 8) && (kind == EntryKind::Link <==> m.mode
            / 4096 == 10),
        r is Err ==> final(walk).transcript@ == old(walk).transcript@,
{
    lemma_kind_bits(m.mode);
}

/// What a walk writes down of an entry tells every change of it: two entries that leave
/// the same transcript have the same name and agree in all that a change would touch.
pub proof fn law_transcripts_tell_every_change(
    a: &mut Walk,
    b: &mut Walk,
    name: &[u8],
    m: Metadata,
    other_name: &[u8],
    other: Metadata,
    r: Result<EntryKind, ExecutionDomainError>,
    s: Result<EntryKind, ExecutionDomainError>,
)
    requires
        call_ensures(Walk::visit, (a, name, &m), r),
        call_ensures(Walk::visit, (b, other_name, &other), s),
        r is Ok,
        s is Ok,
        old(a).transcript@ == old(b).transcript@,
        final(a).transcript@ == final(b).transcript@,
        name@.len() <= u64::MAX,
        other_name@.len() <= u64::MAX,
    ensures
        name@ == other_name@,
        m.inode == other.inode,
        m.dev_major == other.dev_major && m.dev_minor == other.dev_minor,
        m.mode == other.mode,
        m.size == other.size,
        m.nlink == other.nlink,
        m.ctime_sec == other.ctime_sec && m.ctime_nsec == other.ctime_nsec,
        m.mtime_sec == other.mtime_sec && m.mtime_nsec == other.mtime_nsec,
{
    let before = old(a).transcript@;
    let one = entry_record(name@, m);
    let two = entry_record(other_name@, other);
    assert((before + one).skip(before.len() as int) =~= one);
    assert((before + two).skip(before.len() as int) =~= two);
    law_records_tell_entries_apart(name@, m, other_name@, other);
    let f = hashed_fields(m);
    let g = hashed_fields(other);
    assert(f[0] == g[0] && f[1] == g[1] && f[2] == g[2] && f[3] == g[3] && f[4] == g[4] && f[5]
        == g[5] && f[6] == g[6] && f[7] == g[7] && f[8] == g[8] && f[9] == g[9]);
    let (c, d) = (m.ctime_sec, other.ctime_sec);
    let (e, h) = (m.mtime_sec, other.mtime_sec);
    assert(c as u64 == d as u64 ==> c == d) by (bit_vector);
    assert(e as u64 == h as u64 ==> e == h) by (bit_vector);
}

/// A link adds its target to the transcript after its length, so that two targets never
/// leave the same; one that may have been cut off, or that leads out of an input that is
/// no part of the system, is refused.
pub proof fn law_links_are_written_down(
    walk: &mut Walk,
    relative: &[u8],
    target: &[u8],
    r: Result<(), ExecutionDomainError>,
    inside: Result<(), ExecutionDomainError>,
)
    requires
        call_ensures(Walk::link, (walk, relative, target), r),
        exists|source: &[u8]| source@ == old(walk).source@ && #[trigger] call_ensures(
            confined_symlink,
            (source, relative, target),
            inside,
        ),
    ensures
        r is Ok <==> target@.len() < 4096 && (old(walk).system || inside is Ok),
        r is Ok ==> final(walk).transcript@.len() == old(walk).transcript@.len() + 8 + target@.len()
            && old(walk).transcript@.is_prefix_of(final(walk).transcript@)
            && target@.is_suffix_of(final(walk).transcript@),
        r is Err ==> final(walk).transcript@ == old(walk).transcript@,
{
    vstd::bytes::lemma_auto_spec_u64_to_from_le_bytes();
    if r is Ok {
        let t = final(walk).transcript@;
        assert(t.take(old(walk).transcript@.len() as int) =~= old(walk).transcript@);
        assert(t.skip(t.len() - target@.len()) =~= target@);
    }
}

/// An input is unchanged where its fingerprint is the one that was kept; one without a
/// fingerprint is never taken for unchanged.
pub proof fn law_fingerprints_decide(
    input: MountInput,
    walk: Walk,
    print: [u8; 32],
    r: Result<(), ExecutionDomainError>,
)
    requires
        call_ensures(Walk::fingerprint, (&walk,), print),
        call_ensures(verify_snapshot, (&input, &print), r),
    ensures
        input.immutable_fingerprint is None ==> r is Err,
        input.immutable_fingerprint matches Some(known) ==> (r is Ok <==> known@ == sha256(
            walk.transcript@,
        )),
{
}

} // verus!
