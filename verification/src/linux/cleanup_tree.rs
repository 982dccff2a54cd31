//! What a cleanup finds below its roots, and what it may remove of it.

use vstd::prelude::*;

use crate::bytes;
use crate::contracts::FailureCategory;
use crate::error::ExecutionDomainError;
use crate::linux::cleanup;
use crate::linux::cleanup::{CleanupRootKind, MappedIdRange, MAX_DEPTH, MAX_ENTRIES, MAX_PATH_BYTES};
use crate::linux::dirfd::{
    lemma_kind_bits, Metadata, S_IFDIR, S_IFIFO, S_IFLNK, S_IFMT, S_IFREG, S_IFSOCK,
};

verus! {

/// What names an entry for as long as it exists, with its type, permissions and
/// owner.
#[derive(Debug, Clone, Copy, PartialEq, Eq, Structural)]
pub struct OwnedIdentity {
    pub dev_major: u32,
    pub dev_minor: u32,
    pub inode: u64,
    pub mount_id: u64,
    pub mode: u16,
    pub uid: u32,
    pub gid: u32,
}

impl OwnedIdentity {
    /// The type of the entry.
    pub open spec fn kind(self) -> u16 {
        self.mode & S_IFMT
    }

    /// Whether the entry lies on the same device and mount.
    pub open spec fn beside(self, other: OwnedIdentity) -> bool {
        self.dev_major == other.dev_major && self.dev_minor == other.dev_minor && self.mount_id
            == other.mount_id
    }

    /// Whether the entry lies on the same device and mount.
    pub fn is_beside(&self, other: &OwnedIdentity) -> (r: bool)
        ensures
            r == self.beside(*other),
    {
        self.dev_major == other.dev_major && self.dev_minor == other.dev_minor && self.mount_id
            == other.mount_id
    }
}

/// The identity that an entry has.
pub open spec fn owned_identity(m: Metadata) -> OwnedIdentity {
    OwnedIdentity {
        dev_major: m.dev_major,
        dev_minor: m.dev_minor,
        inode: m.inode,
        mount_id: m.mount_id,
        mode: m.mode,
        uid: m.uid,
        gid: m.gid,
    }
}

/// The identity of an entry.
pub fn identity(m: &Metadata) -> (r: OwnedIdentity)
    ensures
        r == owned_identity(*m),
{
    OwnedIdentity {
        dev_major: m.dev_major,
        dev_minor: m.dev_minor,
        inode: m.inode,
        mount_id: m.mount_id,
        mode: m.mode,
        uid: m.uid,
        gid: m.gid,
    }
}

/// The refusal of an entry that is not what it should be.
pub open spec fn mismatch() -> ExecutionDomainError {
    cleanup::cleanup_error(FailureCategory::IdentityMismatch)
}

/// A root of a cleanup, held open.
#[derive(Debug, Clone, Copy, PartialEq, Eq, Structural)]
pub struct PinnedCleanupRoot {
    pub kind: CleanupRootKind,
    pub identity: OwnedIdentity,
}

impl PinnedCleanupRoot {
    /// Takes a directory as a root.
    pub fn from_bound(kind: CleanupRootKind, m: &Metadata) -> (r: Result<
        PinnedCleanupRoot,
        ExecutionDomainError,
    >)
        ensures
            match r {
                Ok(root) => m.kind() == S_IFDIR && root == (PinnedCleanupRoot {
                    kind,
                    identity: owned_identity(*m),
                }),
                Err(e) => m.kind() != S_IFDIR && e == mismatch(),
            },
    {
        let identity: OwnedIdentity = identity(m);
        if identity.mode & S_IFMT != S_IFDIR {
            return Err(cleanup::failure(FailureCategory::IdentityMismatch));
        }
        Ok(PinnedCleanupRoot { kind, identity })
    }

    /// Accepts the root only if it is still what it was when it was taken.
    pub fn verify(&self, current: &Metadata) -> (r: Result<(), ExecutionDomainError>)
        ensures
            match r {
                Ok(_) => owned_identity(*current) == self.identity,
                Err(e) => owned_identity(*current) != self.identity && e == mismatch(),
            },
    {
        let now: OwnedIdentity = identity(current);
        if now != self.identity {
            return Err(cleanup::failure(FailureCategory::IdentityMismatch));
        }
        Ok(())
    }
}

/// Where a socket of the run-time lies.
#[derive(Debug, Clone, Copy, PartialEq, Eq, Structural)]
pub enum RuntimeSocketRootKind {
    RootlessKitState,
}

/// The one name that a socket of this scope may have.
pub open spec fn socket_name(scope: RuntimeSocketRootKind) -> Seq<char> {
    match scope {
        RuntimeSocketRootKind::RootlessKitState => "api.sock"@,
    }
}

/// The right to remove one socket: exactly the one that was captured.
pub struct RuntimeSocketCapability {
    pub parent: PinnedCleanupRoot,
    pub expected: OwnedIdentity,
    pub scope: RuntimeSocketRootKind,
}

/// What is to be done with a captured socket.
#[derive(Debug, Clone, Copy, PartialEq, Eq, Structural)]
pub enum SocketRemoval {
    /// It is gone already; make that durable.
    SyncOnly,
    /// It is the captured socket; unlink it.
    Unlink,
}

impl RuntimeSocketCapability {
    /// Whether an entry can be captured as a socket below the given directory.
    pub open spec fn capturable(m: Metadata, parent: Metadata, euid: u32) -> bool {
        m.kind() == S_IFSOCK && m.beside(parent.id()) && m.uid == euid
    }

    /// Captures a socket: it must have the one name of its scope, be a socket beside
    /// its directory, and belong to the service.
    pub fn capture(
        scope: RuntimeSocketRootKind,
        name: &[u8],
        parent: &Metadata,
        m: &Metadata,
        euid: u32,
    ) -> (r: Result<RuntimeSocketCapability, ExecutionDomainError>)
        ensures
            if name@ != bytes::encoded(socket_name(scope)) {
                r == Err::<RuntimeSocketCapability, ExecutionDomainError>(
                    cleanup::cleanup_error(FailureCategory::InvalidInput),
                )
            } else if parent.kind() != S_IFDIR || !Self::capturable(*m, *parent, euid) {
                r == Err::<RuntimeSocketCapability, ExecutionDomainError>(mismatch())
            } else {
                r matches Ok(c) && c.scope == scope && c.expected == owned_identity(*m) && c.parent
                    == (PinnedCleanupRoot {
                    kind: CleanupRootKind::Run,
                    identity: owned_identity(*parent),
                })
            },
    {
        if !bytes::are(name, "api.sock") {
            return Err(cleanup::failure(FailureCategory::InvalidInput));
        }
        let root: PinnedCleanupRoot = match PinnedCleanupRoot::from_bound(
            CleanupRootKind::Run,
            parent,
        ) {
            Ok(root) => root,
            Err(e) => {
                return Err(e);
            },
        };
        let expected: OwnedIdentity = identity(m);
        if expected.mode & S_IFMT != S_IFSOCK || !expected.is_beside(&root.identity)
            || expected.uid != euid {
            return Err(cleanup::failure(FailureCategory::IdentityMismatch));
        }
        Ok(RuntimeSocketCapability { parent: root, expected, scope })
    }

    /// Decides how the socket is removed, given what its directory and its name lead
    /// to now. A replaced socket is never touched.
    pub fn remove(&self, parent: &Metadata, found: Option<Metadata>) -> (r: Result<
        SocketRemoval,
        ExecutionDomainError,
    >)
        ensures
            if owned_identity(*parent) != self.parent.identity {
                r == Err::<SocketRemoval, ExecutionDomainError>(mismatch())
            } else {
                match found {
                    None => r == Ok::<SocketRemoval, ExecutionDomainError>(SocketRemoval::SyncOnly),
                    Some(m) => if named_matches(m, self.expected, self.parent.identity) {
                        r == Ok::<SocketRemoval, ExecutionDomainError>(SocketRemoval::Unlink)
                    } else {
                        r == Err::<SocketRemoval, ExecutionDomainError>(mismatch())
                    },
                }
            },
    {
        match self.parent.verify(parent) {
            Ok(_) => {},
            Err(e) => {
                return Err(e);
            },
        }
        match found {
            None => Ok(SocketRemoval::SyncOnly),
            Some(m) => {
                match verify_named(&m, &self.expected, &self.parent.identity) {
                    Ok(_) => Ok(SocketRemoval::Unlink),
                    Err(e) => Err(e),
                }
            },
        }
    }
}

/// Whether a name leads to the expected entry, on the device and mount of the root.
pub open spec fn named_matches(m: Metadata, expected: OwnedIdentity, root: OwnedIdentity) -> bool {
    owned_identity(m) == expected && expected.beside(root)
}

/// Accepts a name only if it leads to the expected entry, on the device and mount
/// of the root.
pub fn verify_named(m: &Metadata, expected: &OwnedIdentity, root: &OwnedIdentity) -> (r: Result<
    (),
    ExecutionDomainError,
>)
    ensures
        match r {
            Ok(_) => named_matches(*m, *expected, *root),
            Err(e) => !named_matches(*m, *expected, *root) && e == mismatch(),
        },
{
    let actual: OwnedIdentity = identity(m);
    if actual != *expected || !actual.is_beside(root) {
        return Err(cleanup::failure(FailureCategory::IdentityMismatch));
    }
    Ok(())
}

/// Accepts a directory only if its name and its open descriptor lead to the
/// expected one.
pub fn verify_open_directory(
    named: &Metadata,
    opened: &Metadata,
    expected: &OwnedIdentity,
    root: &OwnedIdentity,
) -> (r: Result<(), ExecutionDomainError>)
    ensures
        ({
            let held = named_matches(*named, *expected, *root) && owned_identity(*opened)
                == *expected && expected.kind() == S_IFDIR;
            match r {
                Ok(_) => held,
                Err(e) => !held && e == mismatch(),
            }
        }),
{
    match verify_named(named, expected, root) {
        Ok(_) => {},
        Err(e) => {
            return Err(e);
        },
    }
    let actual: OwnedIdentity = identity(opened);
    if actual != *expected || actual.mode & S_IFMT != S_IFDIR {
        return Err(cleanup::failure(FailureCategory::IdentityMismatch));
    }
    Ok(())
}

/// Whether an entry may be part of a cleanup: on the device and mount of the root,
/// and owned by the attempt.
pub open spec fn entry_owned(id: OwnedIdentity, root: OwnedIdentity, map: MappedIdRange) -> bool {
    id.beside(root) && map.owner(id.uid, id.gid)
}

/// Whether an entry is unlinked by its name.
pub open spec fn leaf_kind(kind: u16) -> bool {
    kind == S_IFREG || kind == S_IFLNK || kind == S_IFIFO
}

/// Accepts an entry that the worker has reported only if it belongs to the attempt,
/// as seen from the host, and is neither a socket nor a device.
pub fn validate_host_entry(m: &Metadata, root: &OwnedIdentity, map: &MappedIdRange) -> (r: Result<
    (),
    ExecutionDomainError,
>)
    ensures
        ({
            let fine = entry_owned(owned_identity(*m), *root, *map) && (m.kind() == S_IFDIR
                || leaf_kind(m.kind()));
            match r {
                Ok(_) => fine,
                Err(e) => !fine && e == mismatch(),
            }
        }),
{
    let actual: OwnedIdentity = identity(m);
    if !actual.is_beside(root) || !map.owns(actual.uid, actual.gid) {
        return Err(cleanup::failure(FailureCategory::IdentityMismatch));
    }
    let kind: u16 = actual.mode & S_IFMT;
    if kind == S_IFDIR || kind == S_IFREG || kind == S_IFLNK || kind == S_IFIFO {
        Ok(())
    } else {
        Err(cleanup::failure(FailureCategory::IdentityMismatch))
    }
}

/// What one cleanup may look at.
#[derive(Debug, Clone, Copy, PartialEq, Eq, Structural)]
pub struct InventoryLimits {
    pub entries: usize,
    pub depth: usize,
    pub path_bytes: usize,
}

impl Default for InventoryLimits {
    fn default() -> (r: InventoryLimits)
        ensures
            r.entries == MAX_ENTRIES,
            r.depth == MAX_DEPTH,
            r.path_bytes == MAX_PATH_BYTES,
    {
        InventoryLimits { entries: MAX_ENTRIES, depth: MAX_DEPTH, path_bytes: MAX_PATH_BYTES }
    }
}

/// What one cleanup has looked at, over all its roots.
#[derive(Debug, Clone, Copy, PartialEq, Eq, Structural)]
pub struct Budget {
    pub entries: usize,
    pub path_bytes: usize,
}

impl Budget {
    /// Nothing looked at yet.
    pub fn new() -> (r: Budget)
        ensures
            r == (Budget { entries: 0, path_bytes: 0 }),
    {
        Budget { entries: 0, path_bytes: 0 }
    }
}

impl Default for Budget {
    fn default() -> (r: Budget)
        ensures
            r == (Budget { entries: 0, path_bytes: 0 }),
    {
        Budget::new()
    }
}

/// A step of a removal, relative to the directory that the steps before have
/// entered.
pub enum OwnedStep {
    /// Go into the named directory.
    Enter { name: Vec<u8>, identity: OwnedIdentity },
    /// Remove the named entry.
    Unlink { name: Vec<u8>, identity: OwnedIdentity },
    /// Go back out of the named directory, and remove it.
    Leave { name: Vec<u8>, identity: OwnedIdentity },
}

/// A step of a removal, with its name as a sequence.
pub ghost enum OwnedMove {
    Enter { name: Seq<u8>, identity: OwnedIdentity },
    Unlink { name: Seq<u8>, identity: OwnedIdentity },
    Leave { name: Seq<u8>, identity: OwnedIdentity },
}

impl View for OwnedStep {
    type V = OwnedMove;

    open spec fn view(&self) -> OwnedMove {
        match *self {
            OwnedStep::Enter { name, identity } => OwnedMove::Enter { name: name@, identity },
            OwnedStep::Unlink { name, identity } => OwnedMove::Unlink { name: name@, identity },
            OwnedStep::Leave { name, identity } => OwnedMove::Leave { name: name@, identity },
        }
    }
}

/// The steps of a list.
pub open spec fn moves(v: Seq<OwnedStep>) -> Seq<OwnedMove> {
    Seq::new(v.len(), |i: int| v[i]@)
}

/// Whether a step touches only what belongs to the attempt and may be removed.
pub open spec fn move_allowed(m: OwnedMove, root: OwnedIdentity, map: MappedIdRange) -> bool {
    match m {
        OwnedMove::Enter { name, identity } => entry_owned(identity, root, map) && identity.kind()
            == S_IFDIR,
        OwnedMove::Unlink { name, identity } => entry_owned(identity, root, map) && leaf_kind(
            identity.kind(),
        ),
        OwnedMove::Leave { name, identity } => entry_owned(identity, root, map) && identity.kind()
            == S_IFDIR,
    }
}

/// How many directories the steps have entered and not left.
pub open spec fn open_after(plan: Seq<OwnedMove>) -> int
    decreases plan.len(),
{
    if plan.len() == 0 {
        0
    } else {
        let before = open_after(plan.drop_last());
        match plan.last() {
            OwnedMove::Enter { .. } => before + 1,
            OwnedMove::Unlink { .. } => before,
            OwnedMove::Leave { .. } => before - 1,
        }
    }
}

/// What an entry is to the walk.
#[derive(Debug, Clone, Copy, PartialEq, Eq, Structural)]
pub enum Visit {
    /// A directory, to be opened and gone into.
    Directory,
    /// An entry that was added to the plan.
    Leaf,
}

/// A walk over everything below one root, which makes the plan for its removal.
pub struct InventoryWalk {
    pub root: OwnedIdentity,
    pub map: MappedIdRange,
    pub limits: InventoryLimits,
    pub budget: Budget,
    pub plan: Vec<OwnedStep>,
    /// The directories that were gone into and not left.
    pub open: Vec<(Vec<u8>, OwnedIdentity)>,
}

impl InventoryWalk {
    /// The plan so far.
    pub open spec fn moves(self) -> Seq<OwnedMove> {
        moves(self.plan@)
    }

    /// Whether the walk has kept to its limits, and its plan touches only what
    /// belongs to the attempt and never leads out of the root.
    pub open spec fn wf(self) -> bool {
        &&& self.open@.len() <= self.limits.depth
        &&& open_after(self.moves()) == self.open@.len()
        &&& forall|i: int|
            0 <= i < self.open@.len() ==> entry_owned(
                (#[trigger] self.open@[i]).1,
                self.root,
                self.map,
            ) && self.open@[i].1.kind() == S_IFDIR
        &&& forall|i: int|
            0 <= i < self.moves().len() ==> move_allowed(
                #[trigger] self.moves()[i],
                self.root,
                self.map,
            )
        &&& forall|n: int|
            0 <= n <= self.moves().len() ==> open_after(#[trigger] self.moves().take(n)) >= 0
    }

    /// Begins a walk below a root. It fails where the time is up.
    pub fn start(
        root: OwnedIdentity,
        map: MappedIdRange,
        limits: InventoryLimits,
        budget: Budget,
        now: u128,
        deadline: u128,
    ) -> (r: Result<InventoryWalk, ExecutionDomainError>)
        ensures
            match r {
                Ok(w) => now < deadline && w.wf() && w.root == root && w.map == map && w.limits
                    == limits && w.budget == budget && w.moves() == Seq::<OwnedMove>::empty()
                    && w.open@.len() == 0,
                Err(e) => now >= deadline && e == cleanup::cleanup_error(FailureCategory::Timeout),
            },
    {
        if now >= deadline {
            return Err(cleanup::failure(FailureCategory::Timeout));
        }
        let w = InventoryWalk {
            root,
            map,
            limits,
            budget,
            plan: Vec::new(),
            open: Vec::new(),
        };
        assert(w.moves() =~= Seq::empty());
        assert(w.moves().take(0) =~= Seq::empty());
        Ok(w)
    }

    /// Pays for one entry with a name of the given length, before it is looked at.
    pub fn charge(&mut self, name_length: usize, now: u128, deadline: u128) -> (r: Result<
        (),
        ExecutionDomainError,
    >)
        ensures
            final(self).root == old(self).root,
            final(self).map == old(self).map,
            final(self).limits == old(self).limits,
            final(self).plan == old(self).plan,
            final(self).open == old(self).open,
            ({
                let entries = old(self).budget.entries + 1;
                let path_bytes = old(self).budget.path_bytes + name_length;
                let overflow = Err::<(), ExecutionDomainError>(
                    cleanup::cleanup_error(FailureCategory::InvalidInput),
                );
                if entries > usize::MAX {
                    r == overflow && final(self).budget == old(self).budget
                } else if path_bytes > usize::MAX {
                    r == overflow && final(self).budget == (Budget {
                        entries: entries as usize,
                        ..old(self).budget
                    })
                } else {
                    &&& final(self).budget == (Budget {
                        entries: entries as usize,
                        path_bytes: path_bytes as usize,
                    })
                    &&& r == (if entries > old(self).limits.entries
                        || path_bytes > old(self).limits.path_bytes {
                        Err::<(), ExecutionDomainError>(
                            cleanup::cleanup_error(FailureCategory::Unavailable),
                        )
                    } else if now >= deadline {
                        Err(cleanup::cleanup_error(FailureCategory::Timeout))
                    } else {
                        Ok(())
                    })
                }
            }),
    {
        let entries: usize = match self.budget.entries.checked_add(1) {
            Some(n) => n,
            None => {
                return Err(cleanup::failure(FailureCategory::InvalidInput));
            },
        };
        self.budget.entries = entries;
        let path_bytes: usize = match self.budget.path_bytes.checked_add(name_length) {
            Some(n) => n,
            None => {
                return Err(cleanup::failure(FailureCategory::InvalidInput));
            },
        };
        self.budget.path_bytes = path_bytes;
        if entries > self.limits.entries || path_bytes > self.limits.path_bytes {
            return Err(cleanup::failure(FailureCategory::Unavailable));
        }
        if now >= deadline {
            return Err(cleanup::failure(FailureCategory::Timeout));
        }
        Ok(())
    }

    /// Whether an entry may be part of the cleanup: owned, and still the same entry
    /// through the descriptor that pins it.
    pub open spec fn entry_fits(self, current: Metadata, pinned: Metadata) -> bool {
        entry_owned(owned_identity(current), self.root, self.map) && owned_identity(pinned)
            == owned_identity(current)
    }

    /// Accepts an entry before it is reported to the supervisor.
    pub fn check_entry(&self, current: &Metadata, pinned: &Metadata) -> (r: Result<
        (),
        ExecutionDomainError,
    >)
        ensures
            match r {
                Ok(_) => self.entry_fits(*current, *pinned),
                Err(e) => !self.entry_fits(*current, *pinned) && e == mismatch(),
            },
    {
        let id: OwnedIdentity = identity(current);
        if !id.is_beside(&self.root) || !self.map.owns(id.uid, id.gid) {
            return Err(cleanup::failure(FailureCategory::IdentityMismatch));
        }
        let held: OwnedIdentity = identity(pinned);
        if held != id {
            return Err(cleanup::failure(FailureCategory::IdentityMismatch));
        }
        Ok(())
    }

    /// Takes an entry that was accepted: a directory is to be gone into, any other
    /// removable entry is added to the plan, and everything else is refused.
    pub fn visit(&mut self, name: Vec<u8>, current: &Metadata) -> (r: Result<
        Visit,
        ExecutionDomainError,
    >)
        requires
            old(self).wf(),
            entry_owned(owned_identity(*current), old(self).root, old(self).map),
        ensures
            final(self).wf(),
            final(self).root == old(self).root,
            final(self).map == old(self).map,
            final(self).limits == old(self).limits,
            final(self).budget == old(self).budget,
            final(self).open == old(self).open,
            if current.kind() == S_IFDIR {
                r == Ok::<Visit, ExecutionDomainError>(Visit::Directory) && final(self).plan
                    == old(self).plan
            } else if leaf_kind(current.kind()) {
                r == Ok::<Visit, ExecutionDomainError>(Visit::Leaf) && final(self).moves()
                    == old(self).moves().push(
                    OwnedMove::Unlink { name: name@, identity: owned_identity(*current) },
                )
            } else {
                r == Err::<Visit, ExecutionDomainError>(mismatch()) && final(self).plan
                    == old(self).plan
            },
    {
        let id: OwnedIdentity = identity(current);
        let kind: u16 = id.mode & S_IFMT;
        if kind == S_IFDIR {
            return Ok(Visit::Directory);
        }
        if kind == S_IFREG || kind == S_IFLNK || kind == S_IFIFO {
            let ghost before = self.moves();
            let ghost step = OwnedMove::Unlink { name: name@, identity: id };
            self.plan.push(OwnedStep::Unlink { name, identity: id });
            proof {
                assert(self.moves() =~= before.push(step));
                lemma_plan_grows(before, step, self.root, self.map);
            }
            return Ok(Visit::Leaf);
        }
        Err(cleanup::failure(FailureCategory::IdentityMismatch))
    }

    /// Goes into a directory that was opened. The descriptor must lead to the entry
    /// that was accepted, and the walk must not be too deep or too late.
    pub fn enter(
        &mut self,
        name: Vec<u8>,
        current: &Metadata,
        opened: &Metadata,
        now: u128,
        deadline: u128,
    ) -> (r: Result<(), ExecutionDomainError>)
        requires
            old(self).wf(),
            entry_owned(owned_identity(*current), old(self).root, old(self).map),
            current.kind() == S_IFDIR,
        ensures
            final(self).wf(),
            final(self).root == old(self).root,
            final(self).map == old(self).map,
            final(self).limits == old(self).limits,
            final(self).budget == old(self).budget,
            if owned_identity(*opened) != owned_identity(*current) {
                r == Err::<(), ExecutionDomainError>(mismatch()) && final(self).plan
                    == old(self).plan && final(self).open == old(self).open
            } else if old(self).open@.len() + 1 > old(self).limits.depth || now >= deadline {
                r == Err::<(), ExecutionDomainError>(
                    cleanup::cleanup_error(FailureCategory::Timeout),
                ) && final(self).plan == old(self).plan && final(self).open == old(self).open
            } else {
                &&& r is Ok
                &&& final(self).moves() == old(self).moves().push(
                    OwnedMove::Enter { name: name@, identity: owned_identity(*current) },
                )
                &&& final(self).open@.len() == old(self).open@.len() + 1
                &&& final(self).open@.drop_last() == old(self).open@
                &&& final(self).open@.last().0@ == name@
                &&& final(self).open@.last().1 == owned_identity(*current)
            },
    {
        let id: OwnedIdentity = identity(current);
        let held: OwnedIdentity = identity(opened);
        if held != id {
            return Err(cleanup::failure(FailureCategory::IdentityMismatch));
        }
        if self.open.len() >= self.limits.depth || now >= deadline {
            return Err(cleanup::failure(FailureCategory::Timeout));
        }
        let ghost before = self.moves();
        let ghost opened_before = self.open@;
        let ghost step = OwnedMove::Enter { name: name@, identity: id };
        let again: Vec<u8> = vstd::slice::slice_to_vec(name.as_slice());
        self.plan.push(OwnedStep::Enter { name, identity: id });
        self.open.push((again, id));
        proof {
            assert(self.moves() =~= before.push(step));
            lemma_plan_grows(before, step, self.root, self.map);
            assert(self.open@.drop_last() =~= opened_before);
        }
        Ok(())
    }

    /// Goes back out of the directory that was gone into last. Nothing happens at
    /// the root itself.
    pub fn leave(&mut self) -> (r: bool)
        requires
            old(self).wf(),
        ensures
            final(self).wf(),
            final(self).root == old(self).root,
            final(self).map == old(self).map,
            final(self).limits == old(self).limits,
            final(self).budget == old(self).budget,
            r == (old(self).open@.len() > 0),
            if r {
                final(self).open@ == old(self).open@.drop_last() && final(self).moves()
                    == old(self).moves().push(
                    OwnedMove::Leave {
                        name: old(self).open@.last().0@,
                        identity: old(self).open@.last().1,
                    },
                )
            } else {
                final(self).open == old(self).open && final(self).plan == old(self).plan
            },
    {
        if self.open.len() == 0 {
            return false;
        }
        let ghost before = self.moves();
        let ghost opened_before = self.open@;
        match self.open.pop() {
            Some((name, id)) => {
                let ghost step = OwnedMove::Leave { name: name@, identity: id };
                proof {
                    assert(opened_before[opened_before.len() - 1].1 == id);
                }
                self.plan.push(OwnedStep::Leave { name, identity: id });
                proof {
                    assert(self.moves() =~= before.push(step));
                    lemma_plan_grows(before, step, self.root, self.map);
                }
                true
            },
            None => false,
        }
    }
}

proof fn lemma_plan_grows(
    before: Seq<OwnedMove>,
    step: OwnedMove,
    root: OwnedIdentity,
    map: MappedIdRange,
)
    requires
        forall|i: int| 0 <= i < before.len() ==> move_allowed(#[trigger] before[i], root, map),
        forall|n: int| 0 <= n <= before.len() ==> open_after(#[trigger] before.take(n)) >= 0,
        move_allowed(step, root, map),
        step is Leave ==> open_after(before) > 0,
    ensures
        forall|i: int|
            0 <= i < before.push(step).len() ==> move_allowed(
                #[trigger] before.push(step)[i],
                root,
                map,
            ),
        forall|n: int|
            0 <= n <= before.push(step).len() ==> open_after(#[trigger] before.push(step).take(n))
                >= 0,
        open_after(before.push(step)) == open_after(before) + (match step {
            OwnedMove::Enter { .. } => 1int,
            OwnedMove::Unlink { .. } => 0int,
            OwnedMove::Leave { .. } => -1int,
        }),
{
    let after = before.push(step);
    assert(after.drop_last() =~= before);
    assert(before.take(before.len() as int) =~= before);
    assert forall|n: int| 0 <= n <= after.len() implies open_after(#[trigger] after.take(n)) >= 0 by {
        if n <= before.len() {
            assert(after.take(n) =~= before.take(n));
        } else {
            assert(after.take(n) =~= after);
        }
    }
}

/// The right to clean up the roots of one attempt: one to seven roots of different
/// kinds.
pub struct MappedCleanupAuthority {
    pub map: MappedIdRange,
    pub roots: Vec<PinnedCleanupRoot>,
    pub limits: InventoryLimits,
}

/// Whether no kind occurs twice.
pub open spec fn kinds_distinct(roots: Seq<PinnedCleanupRoot>) -> bool {
    forall|i: int, j: int| 0 <= i < j < roots.len() ==> roots[i].kind != roots[j].kind
}

/// Whether every root is still what it was.
pub open spec fn roots_unchanged(roots: Seq<PinnedCleanupRoot>, current: Seq<Metadata>) -> bool {
    forall|i: int|
        0 <= i < roots.len() ==> owned_identity(#[trigger] current[i]) == roots[i].identity
}

impl MappedCleanupAuthority {
    /// Takes the roots of an attempt, given what each of them is now.
    pub fn new(map: MappedIdRange, roots: Vec<PinnedCleanupRoot>, current: &[Metadata]) -> (r: Result<
        MappedCleanupAuthority,
        ExecutionDomainError,
    >)
        requires
            current@.len() == roots@.len(),
        ensures
            match r {
                Ok(a) => 1 <= roots@.len() <= 7 && kinds_distinct(roots@) && roots_unchanged(
                    roots@,
                    current@,
                ) && a.map == map && a.roots@ == roots@ && a.limits == (InventoryLimits {
                    entries: MAX_ENTRIES,
                    depth: MAX_DEPTH,
                    path_bytes: MAX_PATH_BYTES,
                }),
                Err(e) => if !(1 <= roots@.len() <= 7) {
                    e == cleanup::cleanup_error(FailureCategory::InvalidInput)
                } else {
                    exists|i: int|
                        0 <= i < roots@.len() && #[trigger] roots_unchanged(
                            roots@.take(i),
                            current@.take(i),
                        ) && kinds_distinct(roots@.take(i)) && (if owned_identity(current@[i])
                            != roots@[i].identity {
                            e == mismatch()
                        } else {
                            !kinds_distinct(roots@.take(i + 1)) && e == cleanup::cleanup_error(
                                FailureCategory::InvalidInput,
                            )
                        })
                },
            },
    {
        if roots.len() == 0 || roots.len() > 7 {
            return Err(cleanup::failure(FailureCategory::InvalidInput));
        }
        for i in 0..roots.len()
            invariant
                1 <= roots@.len() <= 7,
                current@.len() == roots@.len(),
                kinds_distinct(roots@.take(i as int)),
                roots_unchanged(roots@.take(i as int), current@.take(i as int)),
        {
            let ghost done = roots@.take(i as int);
            match roots[i].verify(&current[i]) {
                Ok(_) => {},
                Err(e) => {
                    assert(roots_unchanged(roots@.take(i as int), current@.take(i as int)));
                    return Err(e);
                },
            }
            for j in 0..i
                invariant
                    i < roots@.len(),
                    current@.len() == roots@.len(),
                    done == roots@.take(i as int),
                    kinds_distinct(done),
                    roots_unchanged(done, current@.take(i as int)),
                    1 <= roots@.len() <= 7,
                    owned_identity(current@[i as int]) == roots@[i as int].identity,
                    forall|k: int| 0 <= k < j ==> (#[trigger] roots@[k]).kind != roots@[i as int].kind,
            {
                if roots[j].kind == roots[i].kind {
                    proof {
                        let more = roots@.take(i + 1);
                        assert(more[j as int].kind == more[i as int].kind);
                        assert(!kinds_distinct(more));
                        assert(roots_unchanged(roots@.take(i as int), current@.take(i as int)));
                    }
                    return Err(cleanup::failure(FailureCategory::InvalidInput));
                }
            }
            proof {
                let more = roots@.take(i + 1);
                assert forall|a: int, b: int| 0 <= a < b < more.len() implies more[a].kind
                    != more[b].kind by {
                    assert(more[a] == roots@[a] && more[b] == roots@[b]);
                    if b < i {
                        assert(done[a] == roots@[a] && done[b] == roots@[b]);
                    }
                }
                let now = current@.take(i + 1);
                assert forall|a: int| 0 <= a < more.len() implies owned_identity(#[trigger] now[a])
                    == more[a].identity by {
                    if a < i {
                        assert(now[a] == current@.take(i as int)[a] && more[a] == done[a]);
                    }
                }
            }
        }
        proof {
            assert(roots@.take(roots@.len() as int) =~= roots@);
            assert(current@.take(current@.len() as int) =~= current@);
        }
        Ok(MappedCleanupAuthority { map, roots, limits: InventoryLimits::default() })
    }

    /// The same authority with another limit on entries.
    pub fn with_entry_limit_for_test(self, entries: usize) -> (r: MappedCleanupAuthority)
        ensures
            r.map == self.map,
            r.roots == self.roots,
            r.limits == (InventoryLimits { entries, ..self.limits }),
    {
        let limits = InventoryLimits {
            entries,
            depth: self.limits.depth,
            path_bytes: self.limits.path_bytes,
        };
        MappedCleanupAuthority { map: self.map, roots: self.roots, limits }
    }
}

/// A program of the host that runs with privileges, as it was when it was verified.
#[derive(Debug, Clone, Copy, PartialEq, Eq, Structural)]
pub struct VerifiedExecutable {
    pub identity: OwnedIdentity,
    pub size: u64,
    pub changed_sec: i64,
    pub changed_nsec: u32,
}

/// Whether a program can be trusted: a regular executable file of the
/// administrator that nobody else can write, and that runs as its owner where that
/// is needed.
pub open spec fn executable_trusted(m: Metadata, set_user: bool) -> bool {
    &&& m.kind() == S_IFREG
    &&& m.uid == 0
    &&& m.mode & 0o022 == 0
    &&& m.mode & 0o111 != 0
    &&& (set_user ==> m.mode & 0o4000 != 0)
}

/// Accepts a program only if it can be trusted.
pub fn validate_executable_metadata(m: &Metadata, set_user: bool) -> (r: Result<
    (),
    ExecutionDomainError,
>)
    ensures
        match r {
            Ok(_) => executable_trusted(*m, set_user),
            Err(e) => !executable_trusted(*m, set_user) && e == mismatch(),
        },
{
    if m.mode & S_IFMT != S_IFREG || m.uid != 0 || m.mode & 0o022 != 0 || m.mode & 0o111 == 0 || (
    set_user && m.mode & 0o4000 == 0) {
        return Err(cleanup::failure(FailureCategory::IdentityMismatch));
    }
    Ok(())
}

impl VerifiedExecutable {
    /// Whether a program is the one that was verified, unchanged.
    pub open spec fn unchanged(self, m: Metadata) -> bool {
        owned_identity(m) == self.identity && m.size == self.size && m.ctime_sec
            == self.changed_sec && m.ctime_nsec == self.changed_nsec
    }

    /// Remembers a program.
    pub fn retain(m: &Metadata) -> (r: VerifiedExecutable)
        ensures
            r.unchanged(*m),
    {
        VerifiedExecutable {
            identity: identity(m),
            size: m.size,
            changed_sec: m.ctime_sec,
            changed_nsec: m.ctime_nsec,
        }
    }

    /// Accepts a program for execution only if it is the one that was verified,
    /// unchanged.
    pub fn command(&self, current: &Metadata) -> (r: Result<(), ExecutionDomainError>)
        ensures
            match r {
                Ok(_) => self.unchanged(*current),
                Err(e) => !self.unchanged(*current) && e == mismatch(),
            },
    {
        let id: OwnedIdentity = identity(current);
        if id != self.identity || current.size != self.size || current.ctime_sec
            != self.changed_sec || current.ctime_nsec != self.changed_nsec {
            return Err(cleanup::failure(FailureCategory::IdentityMismatch));
        }
        Ok(())
    }
}

/// A root is pinned where it is a directory, and is the same later where nothing of what
/// names it and says whose it is changed.
pub proof fn law_pinned_roots_are_held(
    kind: CleanupRootKind,
    m: Metadata,
    later: Metadata,
    r: Result<PinnedCleanupRoot, ExecutionDomainError>,
    s: Result<(), ExecutionDomainError>,
)
    requires
        call_ensures(PinnedCleanupRoot::from_bound, (kind, &m), r),
        r is Ok ==> call_ensures(PinnedCleanupRoot::verify, (&r->Ok_0, &later), s),
    ensures
        r is Ok <==> m.mode / 4096 == 4,
        r is Ok ==> r->Ok_0.kind == kind,
        r is Ok ==> (s is Ok <==> m.inode == later.inode && m.dev_major == later.dev_major
            && m.dev_minor == later.dev_minor && m.mount_id == later.mount_id && m.mode
            == later.mode && m.uid == later.uid && m.gid == later.gid),
        r matches Err(e) ==> e == (ExecutionDomainError::Backend {
            attempt: None,
            stage: crate::contracts::Stage::Destroy,
            category: FailureCategory::IdentityMismatch,
            errno: None,
        }),
{
    lemma_kind_bits(m.mode);
}

/// A socket is captured where it is one of the caller's own, beside its directory, under
/// the name that the program gives it.
pub proof fn law_own_sockets_are_captured(
    scope: RuntimeSocketRootKind,
    name: &[u8],
    parent: Metadata,
    m: Metadata,
    euid: u32,
    r: Result<RuntimeSocketCapability, ExecutionDomainError>,
)
    requires
        call_ensures(RuntimeSocketCapability::capture, (scope, name, &parent, &m, euid), r),
    ensures
        r is Ok <==> name@ == vstd::utf8::encode_utf8("api.sock"@) && parent.mode / 4096 == 4
            && m.mode / 4096 == 12 && m.uid == euid && m.dev_major == parent.dev_major
            && m.dev_minor == parent.dev_minor && m.mount_id == parent.mount_id,
        r matches Ok(c) ==> c.expected.inode == m.inode && c.parent.identity.inode == parent.inode,
{
    lemma_kind_bits(m.mode);
    lemma_kind_bits(parent.mode);
}

/// A socket that was captured is removed where it is still there and the same, in the same
/// directory; one that is gone already needs no removal, and any other is left.
pub proof fn law_captured_sockets_alone_are_removed(
    scope: RuntimeSocketRootKind,
    name: &[u8],
    parent: Metadata,
    m: Metadata,
    euid: u32,
    later: Metadata,
    found: Option<Metadata>,
    c: Result<RuntimeSocketCapability, ExecutionDomainError>,
    r: Result<SocketRemoval, ExecutionDomainError>,
)
    requires
        call_ensures(RuntimeSocketCapability::capture, (scope, name, &parent, &m, euid), c),
        c is Ok,
        call_ensures(RuntimeSocketCapability::remove, (&c->Ok_0, &later, found), r),
    ensures
        later == parent && found is None ==> r == Ok::<SocketRemoval, ExecutionDomainError>(
            SocketRemoval::SyncOnly,
        ),
        later == parent && found == Some(m) ==> r == Ok::<SocketRemoval, ExecutionDomainError>(
            SocketRemoval::Unlink,
        ),
        later.inode != parent.inode || later.mount_id != parent.mount_id || later.uid != parent.uid
            || later.mode != parent.mode ==> r is Err,
        found is Some && (found->0.inode != m.inode || found->0.mode != m.mode || found->0.uid
            != m.uid || found->0.gid != m.gid || found->0.mount_id != m.mount_id) ==> r is Err,
{
}

/// A name still means the entry that was found where identity, kind, permissions and owner
/// agree and the entry lies on its root's own mount.
pub proof fn law_names_mean_what_was_found(
    m: Metadata,
    found: Metadata,
    expected: OwnedIdentity,
    root: OwnedIdentity,
    beside: bool,
    r: Result<(), ExecutionDomainError>,
)
    requires
        call_ensures(identity, (&found,), expected),
        call_ensures(OwnedIdentity::is_beside, (&expected, &root), beside),
        call_ensures(verify_named, (&m, &expected, &root), r),
    ensures
        beside <==> found.dev_major == root.dev_major && found.dev_minor == root.dev_minor
            && found.mount_id == root.mount_id,
        r is Ok <==> beside && m.inode == found.inode && m.dev_major == found.dev_major
            && m.dev_minor == found.dev_minor && m.mount_id == found.mount_id && m.mode
            == found.mode && m.uid == found.uid && m.gid == found.gid,
{
}

/// A directory is open where what is named and what was opened are both the one that was
/// found, and it is a directory.
pub proof fn law_open_directories_are_the_ones_found(
    named: Metadata,
    opened: Metadata,
    expected: OwnedIdentity,
    root: OwnedIdentity,
    same: Result<(), ExecutionDomainError>,
    also: Result<(), ExecutionDomainError>,
    r: Result<(), ExecutionDomainError>,
)
    requires
        call_ensures(verify_named, (&named, &expected, &root), same),
        call_ensures(verify_named, (&opened, &expected, &root), also),
        call_ensures(verify_open_directory, (&named, &opened, &expected, &root), r),
    ensures
        r is Ok <==> same is Ok && also is Ok && expected.mode / 4096 == 4,
{
    lemma_kind_bits(expected.mode);
}

/// An entry may be removed from the host's side where it lies on the root's mount, belongs
/// to the map, and is a file, a directory, a link or a pipe.
pub proof fn law_owned_entries_may_be_removed(
    m: Metadata,
    root: OwnedIdentity,
    map: MappedIdRange,
    owned: bool,
    r: Result<(), ExecutionDomainError>,
)
    requires
        call_ensures(MappedIdRange::owns, (&map, m.uid, m.gid), owned),
        call_ensures(validate_host_entry, (&m, &root, &map), r),
    ensures
        r is Ok <==> owned && m.dev_major == root.dev_major && m.dev_minor == root.dev_minor
            && m.mount_id == root.mount_id && (m.mode / 4096 == 4 || m.mode / 4096 == 8 || m.mode
            / 4096 == 10 || m.mode / 4096 == 1),
{
    lemma_kind_bits(m.mode);
}

/// A walk begins in time, at its root, with nothing planned; by default it may find half a
/// million entries, sixty-four levels deep.
pub proof fn law_walks_begin_empty(
    root: OwnedIdentity,
    map: MappedIdRange,
    limits: InventoryLimits,
    budget: Budget,
    now: u128,
    deadline: u128,
    usual: InventoryLimits,
    fresh: Budget,
    r: Result<InventoryWalk, ExecutionDomainError>,
)
    requires
        call_ensures(InventoryWalk::start, (root, map, limits, budget, now, deadline), r),
        call_ensures(InventoryLimits::default, (), usual),
        call_ensures(Budget::new, (), fresh),
    ensures
        r is Ok <==> now < deadline,
        r matches Ok(w) ==> w.wf() && w.root == root && w.map == map && w.plan@.len() == 0
            && w.open@.len() == 0 && w.limits == limits && w.budget == budget,
        usual.entries == 524_288 && usual.depth == 64 && usual.path_bytes == 1_048_576,
        fresh.entries == 0 && fresh.path_bytes == 0,
{
    if r is Ok {
        assert(r->Ok_0.moves().len() == 0);
    }
}

/// Every entry is paid for with itself and the bytes of its name; the walk goes on within
/// its limits and its time alone.
pub proof fn law_entries_are_paid_for(
    w: &mut InventoryWalk,
    length: usize,
    now: u128,
    deadline: u128,
    r: Result<(), ExecutionDomainError>,
)
    requires
        call_ensures(InventoryWalk::charge, (w, length, now, deadline), r),
    ensures
        r is Ok <==> old(w).budget.entries < old(w).limits.entries && old(w).budget.path_bytes
            + length <= old(w).limits.path_bytes && now < deadline,
        r is Ok ==> final(w).budget.entries == old(w).budget.entries + 1
            && final(w).budget.path_bytes == old(w).budget.path_bytes + length,
        final(w).plan == old(w).plan && final(w).open == old(w).open,
{
}

/// An entry is looked at where it is beside the root, owned, and unchanged since it was
/// held.
pub proof fn law_held_entries_are_looked_at(
    w: InventoryWalk,
    current: Metadata,
    pinned: Metadata,
    owned: bool,
    r: Result<(), ExecutionDomainError>,
)
    requires
        call_ensures(MappedIdRange::owns, (&w.map, current.uid, current.gid), owned),
        call_ensures(InventoryWalk::check_entry, (&w, &current, &pinned), r),
    ensures
        r is Ok <==> owned && current.dev_major == w.root.dev_major && current.dev_minor
            == w.root.dev_minor && current.mount_id == w.root.mount_id && pinned.inode
            == current.inode && pinned.dev_major == current.dev_major && pinned.dev_minor
            == current.dev_minor && pinned.mount_id == current.mount_id && pinned.mode
            == current.mode && pinned.uid == current.uid && pinned.gid == current.gid,
{
}

/// A file, link or pipe is planned to be unlinked where it was found; a directory is left
/// to be entered, and anything else ends the walk with the plan as it was.
pub proof fn law_leaves_are_planned(
    w: &mut InventoryWalk,
    name: Vec<u8>,
    current: Metadata,
    r: Result<Visit, ExecutionDomainError>,
)
    requires
        old(w).wf(),
        entry_owned(owned_identity(current), old(w).root, old(w).map),
        call_ensures(InventoryWalk::visit, (w, name, &current), r),
    ensures
        ({
            let kind = current.mode / 4096;
            &&& kind == 4 <==> r == Ok::<Visit, ExecutionDomainError>(Visit::Directory)
            &&& kind == 8 || kind == 10 || kind == 1 <==> r == Ok::<Visit, ExecutionDomainError>(
                Visit::Leaf,
            )
            &&& r == Ok::<Visit, ExecutionDomainError>(Visit::Leaf) ==> final(w).plan@.len()
                == old(w).plan@.len() + 1 && (
            final(w).plan@[old(w).plan@.len() as int] matches OwnedStep::Unlink { name: n, identity }
                && n@ == name@ && identity.inode == current.inode && identity.mode == current.mode)
            &&& r != Ok::<Visit, ExecutionDomainError>(Visit::Leaf) ==> final(w).plan == old(w).plan
        }),
        final(w).open == old(w).open,
{
    lemma_kind_bits(current.mode);
    if r == Ok::<Visit, ExecutionDomainError>(Visit::Leaf) {
        let n = old(w).plan@.len() as int;
        assert(final(w).moves().len() == n + 1);
        assert(final(w).moves()[n] == final(w).plan@[n]@);
    }
}

/// A directory that is entered is left again under its own name, after everything that was
/// planned in between, and the walk is then where it was.
pub proof fn law_entered_directories_are_left(
    w: &mut InventoryWalk,
    v: &mut InventoryWalk,
    name: Vec<u8>,
    current: Metadata,
    opened: Metadata,
    now: u128,
    deadline: u128,
    r: Result<(), ExecutionDomainError>,
    left: bool,
)
    requires
        old(w).wf(),
        entry_owned(owned_identity(current), old(w).root, old(w).map),
        current.mode / 4096 == 4,
        call_ensures(InventoryWalk::enter, (w, name, &current, &opened, now, deadline), r),
        *old(v) == *final(w),
        call_ensures(InventoryWalk::leave, (v,), left),
        r is Ok,
    ensures
        left,
        final(v).open@ == old(w).open@,
        final(v).plan@.len() == old(w).plan@.len() + 2,
        final(v).plan@[old(w).plan@.len() as int] matches OwnedStep::Enter { name: n, identity }
            && n@ == name@ && identity.inode == current.inode,
        final(v).plan@[old(w).plan@.len() as int + 1] matches OwnedStep::Leave { name: n, identity } && n@
            == name@ && identity.inode == current.inode,
{
    lemma_kind_bits(current.mode);
    let n = old(w).plan@.len() as int;
    assert(final(w).moves().len() == n + 1);
    assert(final(v).moves().len() == n + 2);
    assert(final(v).moves()[n] == final(v).plan@[n]@);
    assert(final(v).moves()[n + 1] == final(v).plan@[n + 1]@);
    assert(final(v).moves()[n] == final(w).moves()[n]);
}

/// A directory is entered where the one that was opened is the one that was found, it is
/// not too deep, and there is time.
pub proof fn law_directories_are_entered_in_bounds(
    w: &mut InventoryWalk,
    name: Vec<u8>,
    current: Metadata,
    opened: Metadata,
    now: u128,
    deadline: u128,
    r: Result<(), ExecutionDomainError>,
)
    requires
        old(w).wf(),
        entry_owned(owned_identity(current), old(w).root, old(w).map),
        current.mode / 4096 == 4,
        call_ensures(InventoryWalk::enter, (w, name, &current, &opened, now, deadline), r),
    ensures
        r is Ok <==> opened.inode == current.inode && opened.dev_major == current.dev_major
            && opened.dev_minor == current.dev_minor && opened.mount_id == current.mount_id
            && opened.mode == current.mode && opened.uid == current.uid && opened.gid == current.gid
            && old(w).open@.len() < old(w).limits.depth && now < deadline,
        r is Err ==> final(w).plan == old(w).plan && final(w).open == old(w).open,
{
    lemma_kind_bits(current.mode);
}

/// One to seven roots of different kinds, each still the directory it was, are an
/// authority, and nothing else is; it keeps its map and its roots.
pub proof fn law_authorities_are_over_held_roots(
    map: MappedIdRange,
    roots: Vec<PinnedCleanupRoot>,
    current: &[Metadata],
    r: Result<MappedCleanupAuthority, ExecutionDomainError>,
    i: int,
    j: int,
)
    requires
        current@.len() == roots@.len(),
        call_ensures(MappedCleanupAuthority::new, (map, roots, current), r),
    ensures
        roots@.len() == 0 || roots@.len() > 7 ==> r is Err,
        0 <= i < j < roots@.len() && roots@[i].kind == roots@[j].kind ==> r is Err,
        0 <= i < roots@.len() && (current@[i].inode != roots@[i].identity.inode
            || current@[i].mount_id != roots@[i].identity.mount_id || current@[i].uid
            != roots@[i].identity.uid || current@[i].gid != roots@[i].identity.gid
            || current@[i].mode != roots@[i].identity.mode) ==> r is Err,
        1 <= roots@.len() <= 7 && (forall|a: int, b: int|
            0 <= a < b < roots@.len() ==> roots@[a].kind != roots@[b].kind) && (forall|a: int|
            0 <= a < roots@.len() ==> owned_identity(#[trigger] current@[a]) == roots@[a].identity)
            ==> r is Ok,
        r matches Ok(a) ==> a.map == map && a.roots@ == roots@ && a.limits.entries == 524_288
            && a.limits.depth == 64 && a.limits.path_bytes == 1_048_576,
{
    if r is Ok {
        if 0 <= i < roots@.len() {
            assert(owned_identity(current@[i]) == roots@[i].identity);
        }
    } else if 1 <= roots@.len() <= 7 && (forall|a: int, b: int|
        0 <= a < b < roots@.len() ==> roots@[a].kind != roots@[b].kind) && (forall|a: int|
        0 <= a < roots@.len() ==> owned_identity(#[trigger] current@[a]) == roots@[a].identity) {
        assert(kinds_distinct(roots@));
        assert forall|n: int| 0 <= n < roots@.len() implies kinds_distinct(
            #[trigger] roots@.take(n + 1),
        ) by {}
    }
}

/// A program is trusted where it is a file of the first user that nobody else may write
/// and that can be run, and where it must change its user, does.
pub proof fn law_trusted_programs_are_the_first_users(
    m: Metadata,
    set_user: bool,
    r: Result<(), ExecutionDomainError>,
)
    requires
        call_ensures(validate_executable_metadata, (&m, set_user), r),
    ensures
        r is Ok <==> m.mode / 4096 == 8 && m.uid == 0 && m.mode / 16 % 2 == 0 && m.mode / 2 % 2
            == 0 && (m.mode / 64 % 2 == 1 || m.mode / 8 % 2 == 1 || m.mode % 2 == 1) && (set_user
            ==> m.mode / 2048 % 2 == 1),
{
    lemma_kind_bits(m.mode);
    let mode = m.mode;
    assert(mode & 0o111 != 0 <==> mode / 64 % 2 == 1 || mode / 8 % 2 == 1 || mode % 2 == 1)
        by (bit_vector);
    assert(mode & 0o4000 != 0 <==> mode / 2048 % 2 == 1) by (bit_vector);
}

/// A program that is kept is run only where it is still the same: its identity, its size
/// and when it last changed.
pub proof fn law_kept_programs_are_run_unchanged(
    m: Metadata,
    kept: VerifiedExecutable,
    current: Metadata,
    r: Result<(), ExecutionDomainError>,
)
    requires
        call_ensures(VerifiedExecutable::retain, (&m,), kept),
        call_ensures(VerifiedExecutable::command, (&kept, &current), r),
    ensures
        r is Ok <==> current.inode == m.inode && current.dev_major == m.dev_major
            && current.dev_minor == m.dev_minor && current.mount_id == m.mount_id && current.mode
            == m.mode && current.uid == m.uid && current.gid == m.gid && current.size == m.size
            && current.ctime_sec == m.ctime_sec && current.ctime_nsec == m.ctime_nsec,
{
}

} // verus!
