//! Recovery after a crash: which names of the host belong to attempts, and in
//! which order what they left behind is made harmless and removed.

use vstd::prelude::*;

use crate::attempts;
use crate::attempts::AttemptSet;
use crate::contracts::{AttemptIdentity, FailureCategory, Stage};
use crate::error::ExecutionDomainError;
use crate::ids;
use crate::journal::LinuxJournalEvidence;
use crate::linux::destroy;
use crate::linux::reap;
use crate::text;

verus! {

/// How long a group that was left behind may take to become empty, in
/// nanoseconds.
pub const RECOVERY_TIMEOUT: u128 = 10_000_000_000;

/// What a name of the host belongs to.
#[derive(Debug, Clone, Copy, PartialEq, Eq, Structural)]
pub enum OwnedKind {
    Attempt,
    Cleanup,
}

/// The refusal of something that does not belong to any attempt.
pub open spec fn inventory_error() -> ExecutionDomainError {
    destroy::destroy_error(FailureCategory::IdentityMismatch)
}

/// Reports something that does not belong to any attempt.
pub fn invalid_inventory() -> (e: ExecutionDomainError)
    ensures
        e == inventory_error(),
{
    destroy::failure(FailureCategory::IdentityMismatch)
}

/// Whether the text is the canonical component of an attempt with this identity.
pub open spec fn names_attempt(component: Seq<char>, id: u128) -> bool {
    id != 0 && component == ids::simple_text(id)
}

/// The outcome of reading the component of an attempt.
pub open spec fn component_outcome(
    component: Seq<char>,
    r: Result<AttemptIdentity, ExecutionDomainError>,
) -> bool {
    match r {
        Ok(attempt) => names_attempt(component, attempt@),
        Err(e) => if component == ids::simple_text(0) {
            e == ExecutionDomainError::InvalidAttemptIdentity
        } else {
            e == inventory_error() && forall|id: u128| !names_attempt(component, id)
        },
    }
}

/// Reads the component of an attempt: exactly the 32 lower-case hexadecimal digits
/// of an identity that is not nil.
pub fn parse_component(value: &str) -> (r: Result<AttemptIdentity, ExecutionDomainError>)
    ensures
        component_outcome(value@, r),
{
    let id: u128 = match ids::parse_id(value) {
        Some(id) => id,
        None => {
            return Err(invalid_inventory());
        },
    };
    let written: String = ids::simple_form(id);
    if !text::same_str(written.as_str(), value) {
        proof {
            assert forall|other: u128| !names_attempt(value@, other) by {
                if value@ == ids::simple_text(other) {
                    assert(ids::parsed_text(value@) == Some(other));
                }
            }
            if value@ == ids::simple_text(0) {
                assert(ids::parsed_text(value@) == Some(0u128));
            }
        }
        return Err(invalid_inventory());
    }
    proof {
        if value@ == ids::simple_text(0) {
            ids::lemma_simple_text_injective(id, 0);
        }
    }
    AttemptIdentity::from_uuid(id)
}

/// The kind and the component that a name of the host holds. Directories of
/// attempts bear the bare component; groups always have a prefix.
pub open spec fn owned_parts(name: Seq<char>, directory: bool) -> Option<(OwnedKind, Seq<char>)> {
    if !directory && "attempt-"@.is_prefix_of(name) {
        Some((OwnedKind::Attempt, name.skip("attempt-"@.len() as int)))
    } else if "cleanup-"@.is_prefix_of(name) {
        Some((OwnedKind::Cleanup, name.skip("cleanup-"@.len() as int)))
    } else if directory {
        Some((OwnedKind::Attempt, name))
    } else {
        None
    }
}

/// The outcome of reading a name of the host.
pub open spec fn owned_outcome(
    name: Seq<char>,
    directory: bool,
    r: Result<(OwnedKind, AttemptIdentity), ExecutionDomainError>,
) -> bool {
    match owned_parts(name, directory) {
        None => r == Err::<(OwnedKind, AttemptIdentity), ExecutionDomainError>(inventory_error()),
        Some((kind, component)) => match r {
            Ok((found, attempt)) => found == kind && component_outcome(component, Ok(attempt)),
            Err(e) => component_outcome(component, Err(e)),
        },
    }
}

/// Reads a name of the host as that of an attempt or of its cleanup.
pub fn parse_owned_name(value: &str, directory: bool) -> (r: Result<
    (OwnedKind, AttemptIdentity),
    ExecutionDomainError,
>)
    ensures
        owned_outcome(value@, directory, r),
{
    let s: Vec<char> = text::chars(value);
    let attempt_prefix: Vec<char> = text::chars("attempt-");
    let cleanup_prefix: Vec<char> = text::chars("cleanup-");
    let kind: OwnedKind;
    let component: String;
    if !directory && text::begins(s.as_slice(), attempt_prefix.as_slice()) {
        let rest: Vec<char> = text::part(s.as_slice(), attempt_prefix.len(), s.len());
        assert(rest@ =~= value@.skip("attempt-"@.len() as int));
        kind = OwnedKind::Attempt;
        component = text::string(rest.as_slice());
    } else if text::begins(s.as_slice(), cleanup_prefix.as_slice()) {
        let rest: Vec<char> = text::part(s.as_slice(), cleanup_prefix.len(), s.len());
        assert(rest@ =~= value@.skip("cleanup-"@.len() as int));
        kind = OwnedKind::Cleanup;
        component = text::string(rest.as_slice());
    } else if directory {
        kind = OwnedKind::Attempt;
        component = value.to_owned();
    } else {
        return Err(invalid_inventory());
    }
    match parse_component(component.as_str()) {
        Ok(attempt) => Ok((kind, attempt)),
        Err(e) => Err(e),
    }
}

/// Whether a name belongs to an attempt with this identity.
pub open spec fn owns(name: Seq<char>, directory: bool, id: u128) -> bool {
    match owned_parts(name, directory) {
        Some((_, component)) => names_attempt(component, id),
        None => false,
    }
}

/// Whether some name in the list belongs to an attempt with this identity.
pub open spec fn some_owns(names: Seq<String>, directory: bool, id: u128) -> bool {
    exists|i: int| 0 <= i < names.len() && owns((#[trigger] names[i])@, directory, id)
}

/// Whether some name in the list of groups belongs to an attempt with this
/// identity. The supervisor's own group belongs to none.
pub open spec fn some_group_owns(names: Seq<String>, id: u128) -> bool {
    exists|i: int|
        0 <= i < names.len() && (#[trigger] names[i])@ != "supervisor"@ && owns(names[i]@, false, id)
}

/// Whether a name can be read.
pub open spec fn readable(name: Seq<char>, directory: bool) -> bool {
    exists|id: u128| owns(name, directory, id)
}

/// Whether the first names of a list of directories can be read.
pub open spec fn directories_readable(names: Seq<String>, count: int) -> bool {
    forall|k: int| 0 <= k < count ==> readable((#[trigger] names[k])@, true)
}

/// Whether the first names of a list of groups can be read, but for the supervisor's
/// own.
pub open spec fn groups_readable(names: Seq<String>, count: int) -> bool {
    forall|k: int|
        0 <= k < count && (#[trigger] names[k])@ != "supervisor"@ ==> readable(names[k]@, false)
}

/// Whether the error is that of the first name that cannot be read, directories before
/// groups.
pub open spec fn refused_for(
    directories: Seq<String>,
    groups: Seq<String>,
    e: ExecutionDomainError,
) -> bool {
    if !directories_readable(directories, directories.len() as int) {
        exists|i: int|
            0 <= i < directories.len() && directories_readable(directories, i) && !readable(
                (#[trigger] directories[i])@,
                true,
            ) && owned_outcome(directories[i]@, true, Err(e))
    } else {
        exists|i: int|
            0 <= i < groups.len() && groups_readable(groups, i) && (#[trigger] groups[i])@
                != "supervisor"@ && !readable(groups[i]@, false) && owned_outcome(
                groups[i]@,
                false,
                Err(e),
            )
    }
}

/// Whether these are the attempts that own a directory or a group.
pub open spec fn owned_by(
    ids: Set<u128>,
    directory_names: Seq<String>,
    cgroup_names: Seq<String>,
) -> bool {
    forall|id: u128| #[trigger]
        ids.contains(id) <==> (some_owns(directory_names, true, id) || some_group_owns(
            cgroup_names,
            id,
        ))
}

/// The attempts that own the directories and groups, in rising order, each once.
/// A name that belongs to no attempt is refused, and the first such name decides how:
/// directories are read before groups.
pub fn owned_attempts(directory_names: &[String], cgroup_names: &[String]) -> (r: Result<
    Vec<AttemptIdentity>,
    ExecutionDomainError,
>)
    ensures
        match r {
            Ok(found) => {
                &&& attempts::rising(found@)
                &&& owned_by(attempts::members(found@), directory_names@, cgroup_names@)
                &&& directories_readable(directory_names@, directory_names@.len() as int)
                &&& groups_readable(cgroup_names@, cgroup_names@.len() as int)
            },
            Err(e) => refused_for(directory_names@, cgroup_names@, e),
        },
{
    let mut found: AttemptSet = AttemptSet::new();
    for i in 0..directory_names.len()
        invariant
            forall|id: u128| #[trigger]
                found@.contains(id) <==> some_owns(directory_names@.take(i as int), true, id),
            directories_readable(directory_names@, i as int),
    {
        let ghost before = found@;
        match parse_owned_name(directory_names[i].as_str(), true) {
            Ok((kind, attempt)) => {
                let ghost name = directory_names@[i as int];
                proof {
                    lemma_owner_is_unique(name@, true, attempt@);
                }
                found.insert(attempt);
                proof {
                    assert forall|id: u128| #[trigger] found@.contains(id) <==> some_owns(
                        directory_names@.take(i + 1),
                        true,
                        id,
                    ) by {
                        assert(directory_names@.take(i + 1) =~= directory_names@.take(i as int).push(
                            name,
                        ));
                        lemma_some_owns_push(directory_names@.take(i as int), name, true, id);
                        assert(before.contains(id) <==> some_owns(
                            directory_names@.take(i as int),
                            true,
                            id,
                        ));
                    }
                }
            },
            Err(e) => {
                proof {
                    lemma_refused_is_unreadable(directory_names@[i as int]@, true, e);
                }
                return Err(e);
            },
        }
    }
    assert(directory_names@.take(directory_names@.len() as int) =~= directory_names@);
    let ghost from_directories = found@;
    for i in 0..cgroup_names.len()
        invariant
            directories_readable(directory_names@, directory_names@.len() as int),
            forall|id: u128| #[trigger]
                from_directories.contains(id) <==> some_owns(directory_names@, true, id),
            forall|id: u128| #[trigger]
                found@.contains(id) <==> from_directories.contains(id) || some_group_owns(
                    cgroup_names@.take(i as int),
                    id,
                ),
            groups_readable(cgroup_names@, i as int),
    {
        let ghost before = found@;
        let ghost name = cgroup_names@[i as int];
        if !text::same_str(cgroup_names[i].as_str(), "supervisor") {
            match parse_owned_name(cgroup_names[i].as_str(), false) {
                Ok((kind, attempt)) => {
                    proof {
                        lemma_owner_is_unique(name@, false, attempt@);
                    }
                    found.insert(attempt);
                },
                Err(e) => {
                    proof {
                        lemma_refused_is_unreadable(name@, false, e);
                    }
                    return Err(e);
                },
            }
        }
        proof {
            assert forall|id: u128| #[trigger] found@.contains(id) <==> from_directories.contains(
                id,
            ) || some_group_owns(cgroup_names@.take(i + 1), id) by {
                assert(cgroup_names@.take(i + 1) =~= cgroup_names@.take(i as int).push(name));
                lemma_some_group_owns_push(cgroup_names@.take(i as int), name, id);
                assert(before.contains(id) <==> from_directories.contains(id) || some_group_owns(
                    cgroup_names@.take(i as int),
                    id,
                ));
            }
        }
    }
    assert(cgroup_names@.take(cgroup_names@.len() as int) =~= cgroup_names@);
    let ids: &Vec<AttemptIdentity> = found.ids();
    proof {
        assert forall|id: u128| #[trigger] attempts::members(found.listing()).contains(id) <==> (
        some_owns(directory_names@, true, id) || some_group_owns(cgroup_names@, id)) by {
            assert(found@.contains(id) <==> from_directories.contains(id) || some_group_owns(
                cgroup_names@,
                id,
            ));
        }
    }
    let out: Vec<AttemptIdentity> = vstd::slice::slice_to_vec(ids.as_slice());
    Ok(out)
}

proof fn lemma_some_owns_push(names: Seq<String>, name: String, directory: bool, id: u128)
    ensures
        some_owns(names.push(name), directory, id) <==> some_owns(names, directory, id) || owns(
            name@,
            directory,
            id,
        ),
{
    let all = names.push(name);
    if some_owns(names, directory, id) {
        let i = choose|i: int| 0 <= i < names.len() && owns((#[trigger] names[i])@, directory, id);
        assert(all[i] == names[i]);
    }
    if owns(name@, directory, id) {
        assert(all[names.len() as int] == name);
    }
    if some_owns(all, directory, id) {
        let i = choose|i: int| 0 <= i < all.len() && owns((#[trigger] all[i])@, directory, id);
        if i < names.len() {
            assert(names[i] == all[i]);
        }
    }
}

proof fn lemma_some_group_owns_push(names: Seq<String>, name: String, id: u128)
    ensures
        some_group_owns(names.push(name), id) <==> some_group_owns(names, id) || (name@
            != "supervisor"@ && owns(name@, false, id)),
{
    let all = names.push(name);
    if some_group_owns(names, id) {
        let i = choose|i: int|
            0 <= i < names.len() && (#[trigger] names[i])@ != "supervisor"@ && owns(
                names[i]@,
                false,
                id,
            );
        assert(all[i] == names[i]);
    }
    if name@ != "supervisor"@ && owns(name@, false, id) {
        assert(all[names.len() as int] == name);
    }
    if some_group_owns(all, id) {
        let i = choose|i: int|
            0 <= i < all.len() && (#[trigger] all[i])@ != "supervisor"@ && owns(all[i]@, false, id);
        if i < names.len() {
            assert(names[i] == all[i]);
        }
    }
}

/// A name belongs to one attempt at most.
pub proof fn lemma_owner_is_unique(name: Seq<char>, directory: bool, id: u128)
    requires
        owns(name, directory, id),
    ensures
        readable(name, directory),
        forall|other: u128| owns(name, directory, other) ==> other == id,
{
    assert forall|other: u128| owns(name, directory, other) implies other == id by {
        ids::lemma_simple_text_injective(other, id);
    }
}

proof fn lemma_refused_is_unreadable(name: Seq<char>, directory: bool, e: ExecutionDomainError)
    requires
        owned_outcome(name, directory, Err(e)),
    ensures
        !readable(name, directory),
{
    if readable(name, directory) {
        let id = choose|id: u128| owns(name, directory, id);
        let (kind, component) = owned_parts(name, directory)->0;
        if component == ids::simple_text(0) {
            ids::lemma_simple_text_injective(id, 0);
        }
    }
}

/// What was found on the host at the start of a recovery.
#[derive(Debug, PartialEq, Eq)]
pub struct Inventory {
    pub attempt_directories: AttemptSet,
    pub cleanup_directories: AttemptSet,
    pub attempt_cgroups: AttemptSet,
    pub cleanup_cgroups: AttemptSet,
    pub attempts: AttemptSet,
}

impl Inventory {
    /// Whether nothing was found.
    pub open spec fn nothing(self) -> bool {
        &&& self.attempt_directories@ == Set::<u128>::empty()
        &&& self.cleanup_directories@ == Set::<u128>::empty()
        &&& self.attempt_cgroups@ == Set::<u128>::empty()
        &&& self.cleanup_cgroups@ == Set::<u128>::empty()
        &&& self.attempts@ == Set::<u128>::empty()
    }

    /// An inventory of nothing. A recovery of it only settles the directory of all
    /// attempts and looks again.
    pub fn new() -> (r: Inventory)
        ensures
            r.nothing(),
            r.attempts.listing().len() == 0,
            recovery_plan(r) == final_operations(),
    {
        let r: Inventory = Inventory {
            attempt_directories: AttemptSet::new(),
            cleanup_directories: AttemptSet::new(),
            attempt_cgroups: AttemptSet::new(),
            cleanup_cgroups: AttemptSet::new(),
            attempts: AttemptSet::new(),
        };
        assert(recovery_plan(r) =~= final_operations());
        r
    }

    /// Whether nothing was found.
    pub fn is_empty(&self) -> (r: bool)
        ensures
            r == self.nothing(),
    {
        self.attempt_directories.is_empty() && self.cleanup_directories.is_empty()
            && self.attempt_cgroups.is_empty() && self.cleanup_cgroups.is_empty()
            && self.attempts.is_empty()
    }

    /// Whether this is the other inventory and a directory of an attempt.
    pub open spec fn with_directory(
        self,
        other: Inventory,
        kind: OwnedKind,
        attempt: AttemptIdentity,
    ) -> bool {
        &&& self.attempts@ == other.attempts@.insert(attempt@)
        &&& self.attempt_directories@ == (if kind == OwnedKind::Attempt {
            other.attempt_directories@.insert(attempt@)
        } else {
            other.attempt_directories@
        })
        &&& self.cleanup_directories@ == (if kind == OwnedKind::Cleanup {
            other.cleanup_directories@.insert(attempt@)
        } else {
            other.cleanup_directories@
        })
        &&& self.attempt_cgroups == other.attempt_cgroups
        &&& self.cleanup_cgroups == other.cleanup_cgroups
    }

    /// Whether this is the other inventory and a group of an attempt.
    pub open spec fn with_cgroup(
        self,
        other: Inventory,
        kind: OwnedKind,
        attempt: AttemptIdentity,
    ) -> bool {
        &&& self.attempts@ == other.attempts@.insert(attempt@)
        &&& self.attempt_cgroups@ == (if kind == OwnedKind::Attempt {
            other.attempt_cgroups@.insert(attempt@)
        } else {
            other.attempt_cgroups@
        })
        &&& self.cleanup_cgroups@ == (if kind == OwnedKind::Cleanup {
            other.cleanup_cgroups@.insert(attempt@)
        } else {
            other.cleanup_cgroups@
        })
        &&& self.attempt_directories == other.attempt_directories
        &&& self.cleanup_directories == other.cleanup_directories
    }

    /// Notes a directory that belongs to an attempt.
    pub fn note_directory(&mut self, kind: OwnedKind, attempt: AttemptIdentity)
        ensures
            final(self).with_directory(*old(self), kind, attempt),
    {
        self.attempts.insert(attempt);
        match kind {
            OwnedKind::Attempt => {
                self.attempt_directories.insert(attempt);
            },
            OwnedKind::Cleanup => {
                self.cleanup_directories.insert(attempt);
            },
        }
    }

    /// Notes a group that belongs to an attempt.
    pub fn note_cgroup(&mut self, kind: OwnedKind, attempt: AttemptIdentity)
        ensures
            final(self).with_cgroup(*old(self), kind, attempt),
    {
        self.attempts.insert(attempt);
        match kind {
            OwnedKind::Attempt => {
                self.attempt_cgroups.insert(attempt);
            },
            OwnedKind::Cleanup => {
                self.cleanup_cgroups.insert(attempt);
            },
        }
    }

    /// Takes what became of one entry of the directory of all attempts, and the first
    /// error so far. An entry that failed is left out, and the search goes on.
    pub fn take_directory(
        &mut self,
        first_error: &mut Option<ExecutionDomainError>,
        entry: Result<(OwnedKind, AttemptIdentity), ExecutionDomainError>,
    )
        ensures
            match entry {
                Ok((kind, attempt)) => final(self).with_directory(*old(self), kind, attempt)
                    && *final(first_error) == *old(first_error),
                Err(e) => *final(self) == *old(self) && *final(first_error) == reap::earlier(
                    *old(first_error),
                    Some(e),
                ),
            },
    {
        match entry {
            Ok((kind, attempt)) => {
                self.note_directory(kind, attempt);
            },
            Err(e) => {
                retain_optional(first_error, Some(e));
            },
        }
    }
}

impl Clone for Inventory {
    fn clone(&self) -> (r: Inventory)
        ensures
            r.attempt_directories.listing() == self.attempt_directories.listing(),
            r.cleanup_directories.listing() == self.cleanup_directories.listing(),
            r.attempt_cgroups.listing() == self.attempt_cgroups.listing(),
            r.cleanup_cgroups.listing() == self.cleanup_cgroups.listing(),
            r.attempts.listing() == self.attempts.listing(),
            r.attempt_directories@ == self.attempt_directories@,
            r.cleanup_directories@ == self.cleanup_directories@,
            r.attempt_cgroups@ == self.attempt_cgroups@,
            r.cleanup_cgroups@ == self.cleanup_cgroups@,
            r.attempts@ == self.attempts@,
    {
        Inventory {
            attempt_directories: self.attempt_directories.clone(),
            cleanup_directories: self.cleanup_directories.clone(),
            attempt_cgroups: self.attempt_cgroups.clone(),
            cleanup_cgroups: self.cleanup_cgroups.clone(),
            attempts: self.attempts.clone(),
        }
    }
}

impl Default for Inventory {
    fn default() -> (r: Inventory)
        ensures
            r.nothing(),
            recovery_plan(r) == final_operations(),
    {
        Inventory::new()
    }
}

/// Keeps the first of several errors.
pub fn retain_optional(
    first: &mut Option<ExecutionDomainError>,
    error: Option<ExecutionDomainError>,
)
    ensures
        *final(first) == reap::earlier(*old(first), error),
{
    if first.is_none() {
        *first = error;
    }
}

/// Decides what an entry of the directory of all attempts is. The name is `None` where
/// it is not text.
pub fn classify_directory(name: Option<&str>) -> (r: Result<
    (OwnedKind, AttemptIdentity),
    ExecutionDomainError,
>)
    ensures
        match name {
            None => r == Err::<(OwnedKind, AttemptIdentity), ExecutionDomainError>(
                inventory_error(),
            ),
            Some(value) => owned_outcome(value@, true, r),
        },
{
    match name {
        None => Err(invalid_inventory()),
        Some(value) => parse_owned_name(value, true),
    }
}

/// What an entry of the group hierarchy is.
pub enum GroupEntry {
    /// A control file, or the supervisor's own group.
    Ignored,
    /// An entry that belongs to no attempt.
    Refused(ExecutionDomainError),
    /// A group of an attempt.
    Owned(OwnedKind, AttemptIdentity),
}

/// Decides what an entry of the group hierarchy is. The name is `None` where it is
/// not text.
pub fn classify_group(is_directory: Result<bool, ExecutionDomainError>, name: Option<&str>) -> (r:
    GroupEntry)
    ensures
        match is_directory {
            Err(e) => r == GroupEntry::Refused(e),
            Ok(false) => r == GroupEntry::Ignored,
            Ok(true) => match name {
                None => r == GroupEntry::Refused(
                    crate::linux::cgroup::cgroup_error(FailureCategory::IdentityMismatch),
                ),
                Some(value) => if value@ == "supervisor"@ {
                    r == GroupEntry::Ignored
                } else {
                    match r {
                        GroupEntry::Ignored => false,
                        GroupEntry::Refused(e) => owned_outcome(value@, false, Err(e)),
                        GroupEntry::Owned(kind, attempt) => owned_outcome(
                            value@,
                            false,
                            Ok((kind, attempt)),
                        ),
                    }
                },
            },
        },
{
    match is_directory {
        Err(e) => GroupEntry::Refused(e),
        Ok(false) => GroupEntry::Ignored,
        Ok(true) => match name {
            None => GroupEntry::Refused(
                crate::linux::cgroup::failure(FailureCategory::IdentityMismatch),
            ),
            Some(value) => {
                if text::same_str(value, "supervisor") {
                    return GroupEntry::Ignored;
                }
                match parse_owned_name(value, false) {
                    Ok((kind, attempt)) => GroupEntry::Owned(kind, attempt),
                    Err(e) => GroupEntry::Refused(e),
                }
            },
        },
    }
}

/// What has to be proven about the directory of an attempt before it is removed.
#[derive(Debug, Clone, Copy, PartialEq, Eq, Structural)]
pub enum DirectoryProof {
    /// Everything in it may be removed.
    RemovableTree,
    /// There is nothing in it.
    Empty,
}

/// Decides what has to be proven about a directory, given what its journal says. A
/// directory whose journal is that of a domain that shares the host is refused.
pub fn required_proof(evidence: LinuxJournalEvidence) -> (r: Result<
    DirectoryProof,
    ExecutionDomainError,
>)
    ensures
        r == (match evidence {
            LinuxJournalEvidence::Recoverable(_) => Ok(DirectoryProof::RemovableTree),
            LinuxJournalEvidence::Missing => Ok(DirectoryProof::Empty),
            LinuxJournalEvidence::TrustedV1Diagnostic => Err(inventory_error()),
        }),
{
    match evidence {
        LinuxJournalEvidence::Recoverable(_) => Ok(DirectoryProof::RemovableTree),
        LinuxJournalEvidence::Missing => Ok(DirectoryProof::Empty),
        LinuxJournalEvidence::TrustedV1Diagnostic => Err(invalid_inventory()),
    }
}

/// The kind of an operation of a recovery.
#[derive(Debug, Clone, Copy, PartialEq, Eq, Structural)]
pub enum ReconcileKind {
    NeutralizeCleanup,
    NeutralizeAttempt,
    ProveFilesystem,
    RemoveCleanupCgroup,
    RemoveCleanupBootstrap,
    RemoveAttemptFilesystem,
    RemoveAttemptCgroup,
    FsyncActiveRoot,
    /// Look at the host again.
    Reinventory,
}

impl ReconcileKind {
    /// Whether the operation stops processes.
    pub open spec fn neutralizes(self) -> bool {
        self == ReconcileKind::NeutralizeCleanup || self == ReconcileKind::NeutralizeAttempt
    }

    /// Whether the operation removes something.
    pub open spec fn removes(self) -> bool {
        match self {
            ReconcileKind::RemoveCleanupCgroup | ReconcileKind::RemoveCleanupBootstrap
            | ReconcileKind::RemoveAttemptFilesystem | ReconcileKind::RemoveAttemptCgroup => true,
            _ => false,
        }
    }
}

/// An operation of a recovery; the last two concern no attempt.
#[derive(Debug, Clone, Copy, PartialEq, Eq, Structural)]
pub struct ReconcileOperation {
    pub kind: ReconcileKind,
    pub attempt: Option<AttemptIdentity>,
}

/// One operation for each attempt of a list.
pub open spec fn each(kind: ReconcileKind, list: Seq<AttemptIdentity>) -> Seq<ReconcileOperation> {
    Seq::new(
        list.len(),
        |i: int| ReconcileOperation { kind, attempt: Some(list[i]) },
    )
}

/// The operations that stop processes.
pub open spec fn neutralizations(inventory: Inventory) -> Seq<ReconcileOperation> {
    each(ReconcileKind::NeutralizeCleanup, inventory.cleanup_cgroups.listing()) + each(
        ReconcileKind::NeutralizeAttempt,
        inventory.attempt_cgroups.listing(),
    )
}

/// The operations that prove that directories may be removed.
pub open spec fn proofs(inventory: Inventory) -> Seq<ReconcileOperation> {
    each(ReconcileKind::ProveFilesystem, inventory.attempt_directories.listing())
}

/// The operations that end every recovery, whatever was found.
pub open spec fn final_operations() -> Seq<ReconcileOperation> {
    seq![
        ReconcileOperation { kind: ReconcileKind::FsyncActiveRoot, attempt: None },
        ReconcileOperation { kind: ReconcileKind::Reinventory, attempt: None },
    ]
}

/// The operations that remove, and the final look.
pub open spec fn removals(inventory: Inventory) -> Seq<ReconcileOperation> {
    (each(ReconcileKind::RemoveCleanupCgroup, inventory.cleanup_cgroups.listing()) + each(
        ReconcileKind::RemoveCleanupBootstrap,
        inventory.cleanup_directories.listing(),
    ) + each(ReconcileKind::RemoveAttemptFilesystem, inventory.attempt_directories.listing())
        + each(ReconcileKind::RemoveAttemptCgroup, inventory.attempt_cgroups.listing())).push(
        ReconcileOperation { kind: ReconcileKind::FsyncActiveRoot, attempt: None },
    ).push(ReconcileOperation { kind: ReconcileKind::Reinventory, attempt: None })
}

/// All operations of a recovery in order.
pub open spec fn recovery_plan(inventory: Inventory) -> Seq<ReconcileOperation> {
    neutralizations(inventory) + proofs(inventory) + removals(inventory)
}

fn append_each(out: &mut Vec<ReconcileOperation>, kind: ReconcileKind, set: &AttemptSet)
    ensures
        final(out)@ == old(out)@ + each(kind, set.listing()),
{
    let ghost before = out@;
    let list: &Vec<AttemptIdentity> = set.ids();
    for i in 0..list.len()
        invariant
            list@ == set.listing(),
            out@ == before + each(kind, list@).take(i as int),
    {
        out.push(ReconcileOperation { kind, attempt: Some(list[i]) });
        assert(out@ =~= before + each(kind, list@).take(i + 1));
    }
    assert(out@ =~= before + each(kind, list@));
}

/// A recovery under way.
pub struct Reconciliation {
    plan: Vec<ReconcileOperation>,
    neutral_end: usize,
    proof_end: usize,
    next: usize,
    first_error: Option<ExecutionDomainError>,
}

/// What follows an operation of a recovery.
pub enum ReconcileStep {
    Continue(Reconciliation),
    Done(Result<(), ExecutionDomainError>),
}

/// The outcome of an operation: for the final look, whether nothing is left; for
/// anything else the flag says nothing.
pub type ReconcileOutcome = Result<bool, ExecutionDomainError>;

impl Reconciliation {
    /// The operations in order.
    pub closed spec fn all(self) -> Seq<ReconcileOperation> {
        self.plan@
    }

    /// The number of operations that stop processes.
    pub closed spec fn neutral(self) -> int {
        self.neutral_end as int
    }

    /// The number of operations before the first that removes.
    pub closed spec fn proven(self) -> int {
        self.proof_end as int
    }

    /// The position of the operation to perform now.
    pub closed spec fn position(self) -> int {
        self.next as int
    }

    pub closed spec fn error(self) -> Option<ExecutionDomainError> {
        self.first_error
    }

    #[verifier::type_invariant]
    spec fn inv(self) -> bool {
        &&& self.neutral_end <= self.proof_end < self.plan@.len()
        &&& self.next < self.plan@.len()
        &&& self.next >= self.proof_end ==> self.first_error is None
        &&& forall|i: int|
            0 <= i < self.plan@.len() ==> {
                &&& (#[trigger] self.plan@[i]).kind.neutralizes() <==> i < self.neutral_end
                &&& self.plan@[i].kind == ReconcileKind::ProveFilesystem <==> self.neutral_end <= i
                    < self.proof_end
                &&& self.plan@[i].kind == ReconcileKind::Reinventory <==> i == self.plan@.len() - 1
            }
    }

    /// Begins a recovery of what was found. An error that was met while looking
    /// still lets every process be stopped, and nothing else.
    pub fn begin(inventory: &Inventory, first_error: Option<ExecutionDomainError>) -> (r:
        ReconcileStep)
        ensures
            match r {
                ReconcileStep::Continue(started) => {
                    &&& started.all() == recovery_plan(*inventory)
                    &&& started.neutral() == neutralizations(*inventory).len()
                    &&& started.proven() == neutralizations(*inventory).len() + proofs(
                        *inventory,
                    ).len()
                    &&& started.position() == 0
                    &&& started.error() == first_error
                    &&& neutralizations(*inventory).len() == 0 ==> first_error is None
                },
                ReconcileStep::Done(outcome) => neutralizations(*inventory).len() == 0 && (
                first_error matches Some(e) && outcome == Err::<(), ExecutionDomainError>(e)),
            },
    {
        let mut plan: Vec<ReconcileOperation> = Vec::new();
        append_each(&mut plan, ReconcileKind::NeutralizeCleanup, &inventory.cleanup_cgroups);
        append_each(&mut plan, ReconcileKind::NeutralizeAttempt, &inventory.attempt_cgroups);
        let neutral_end: usize = plan.len();
        let ghost first = plan@;
        assert(first =~= neutralizations(*inventory));
        append_each(&mut plan, ReconcileKind::ProveFilesystem, &inventory.attempt_directories);
        let proof_end: usize = plan.len();
        let ghost second = plan@;
        assert(second =~= first + proofs(*inventory));
        append_each(&mut plan, ReconcileKind::RemoveCleanupCgroup, &inventory.cleanup_cgroups);
        append_each(
            &mut plan,
            ReconcileKind::RemoveCleanupBootstrap,
            &inventory.cleanup_directories,
        );
        append_each(
            &mut plan,
            ReconcileKind::RemoveAttemptFilesystem,
            &inventory.attempt_directories,
        );
        append_each(&mut plan, ReconcileKind::RemoveAttemptCgroup, &inventory.attempt_cgroups);
        plan.push(ReconcileOperation { kind: ReconcileKind::FsyncActiveRoot, attempt: None });
        plan.push(ReconcileOperation { kind: ReconcileKind::Reinventory, attempt: None });
        assert(plan@ =~= recovery_plan(*inventory));
        if neutral_end == 0 {
            match first_error {
                Some(e) => {
                    return ReconcileStep::Done(Err(e));
                },
                None => {
                    return ReconcileStep::Continue(
                        Reconciliation { plan, neutral_end, proof_end, next: 0, first_error: None },
                    );
                },
            }
        }
        ReconcileStep::Continue(
            Reconciliation { plan, neutral_end, proof_end, next: 0, first_error },
        )
    }

    /// The operation to perform now. Nothing is removed unless every process was
    /// stopped and every directory proven, without any failure.
    pub fn operation(&self) -> (r: ReconcileOperation)
        ensures
            0 <= self.position() < self.all().len(),
            r == self.all()[self.position()],
            r.kind.removes() ==> self.error() is None && self.position() >= self.proven(),
    {
        proof {
            use_type_invariant(self);
        }
        let r: ReconcileOperation = self.plan[self.next];
        assert(r == self.plan@[self.next as int]);
        r
    }

    /// The first error once this operation has had its outcome.
    pub open spec fn error_after(self, outcome: ReconcileOutcome) -> Option<ExecutionDomainError> {
        match (self.error(), outcome) {
            (Some(e), _) => Some(e),
            (None, Err(e)) => Some(e),
            (None, Ok(_)) => None,
        }
    }

    /// Whether an error ends the recovery here: at the end of the stopping of
    /// processes, at the end of the proofs, and anywhere afterwards.
    pub open spec fn ends_here(self) -> bool {
        self.position() + 1 == self.neutral() || self.position() + 1 == self.proven()
            || self.position() >= self.proven()
    }

    /// Takes the outcome of the current operation.
    pub fn advance(self, outcome: ReconcileOutcome) -> (r: ReconcileStep)
        ensures
            match r {
                ReconcileStep::Continue(next) => {
                    &&& self.position() + 1 < self.all().len()
                    &&& self.ends_here() ==> self.error_after(outcome) is None
                    &&& next.all() == self.all()
                    &&& next.neutral() == self.neutral()
                    &&& next.proven() == self.proven()
                    &&& next.position() == self.position() + 1
                    &&& next.error() == self.error_after(outcome)
                },
                ReconcileStep::Done(Ok(_)) => {
                    &&& self.position() + 1 == self.all().len()
                    &&& self.error() is None
                    &&& outcome == Ok::<bool, ExecutionDomainError>(true)
                },
                ReconcileStep::Done(Err(e)) => {
                    ||| self.ends_here() && self.error_after(outcome) == Some(e)
                    ||| self.position() + 1 == self.all().len() && outcome == Ok::<
                        bool,
                        ExecutionDomainError,
                    >(false) && self.error() is None && e == inventory_error()
                },
            },
    {
        proof {
            use_type_invariant(&self);
        }
        let next: usize = self.next;
        let neutral_end: usize = self.neutral_end;
        let proof_end: usize = self.proof_end;
        let last: bool = next == self.plan.len() - 1;
        let ends: bool = next + 1 == neutral_end || next + 1 == proof_end || next >= proof_end;
        let clean: bool = match &outcome {
            Ok(flag) => *flag,
            Err(_) => false,
        };
        let first_error: Option<ExecutionDomainError> = match self.first_error {
            Some(e) => Some(e),
            None => match outcome {
                Err(e) => Some(e),
                Ok(_) => None,
            },
        };
        if ends {
            match first_error {
                Some(e) => {
                    return ReconcileStep::Done(Err(e));
                },
                None => {},
            }
            if last {
                if clean {
                    return ReconcileStep::Done(Ok(()));
                }
                return ReconcileStep::Done(Err(invalid_inventory()));
            }
            return ReconcileStep::Continue(
                Reconciliation {
                    plan: self.plan,
                    neutral_end,
                    proof_end,
                    next: next + 1,
                    first_error: None,
                },
            );
        }
        ReconcileStep::Continue(
            Reconciliation { plan: self.plan, neutral_end, proof_end, next: next + 1, first_error },
        )
    }
}

/// In every recovery each process is stopped before any directory is looked into,
/// and each directory is proven before anything is removed.
pub proof fn law_stopping_precedes_removal(inventory: Inventory, i: int, j: int)
    requires
        0 <= i < recovery_plan(inventory).len(),
        0 <= j < recovery_plan(inventory).len(),
        recovery_plan(inventory)[i].kind.neutralizes() || recovery_plan(inventory)[i].kind
            == ReconcileKind::ProveFilesystem,
        recovery_plan(inventory)[j].kind.removes(),
    ensures
        i < j,
{
}

/// Everything that was found is removed: each directory and each group of the
/// inventory has its operation.
pub proof fn law_everything_found_is_removed(inventory: Inventory, k: int)
    ensures
        0 <= k < inventory.attempt_directories.listing().len() ==> recovery_plan(
            inventory,
        ).contains(
            (ReconcileOperation {
                kind: ReconcileKind::RemoveAttemptFilesystem,
                attempt: Some(inventory.attempt_directories.listing()[k]),
            }),
        ),
        0 <= k < inventory.attempt_cgroups.listing().len() ==> recovery_plan(inventory).contains(
            (ReconcileOperation {
                kind: ReconcileKind::RemoveAttemptCgroup,
                attempt: Some(inventory.attempt_cgroups.listing()[k]),
            }),
        ),
        0 <= k < inventory.cleanup_directories.listing().len() ==> recovery_plan(
            inventory,
        ).contains(
            (ReconcileOperation {
                kind: ReconcileKind::RemoveCleanupBootstrap,
                attempt: Some(inventory.cleanup_directories.listing()[k]),
            }),
        ),
        0 <= k < inventory.cleanup_cgroups.listing().len() ==> recovery_plan(inventory).contains(
            (ReconcileOperation {
                kind: ReconcileKind::RemoveCleanupCgroup,
                attempt: Some(inventory.cleanup_cgroups.listing()[k]),
            }),
        ),
{
    let plan = recovery_plan(inventory);
    let a = neutralizations(inventory).len() + proofs(inventory).len();
    let b = inventory.cleanup_cgroups.listing().len();
    let c = inventory.cleanup_directories.listing().len();
    let d = inventory.attempt_directories.listing().len();
    if 0 <= k < b {
        assert(plan[a + k].kind == ReconcileKind::RemoveCleanupCgroup);
    }
    if 0 <= k < c {
        assert(plan[a + b + k].kind == ReconcileKind::RemoveCleanupBootstrap);
    }
    if 0 <= k < d {
        assert(plan[a + b + c + k].kind == ReconcileKind::RemoveAttemptFilesystem);
    }
    if 0 <= k < inventory.attempt_cgroups.listing().len() {
        assert(plan[a + b + c + d + k].kind == ReconcileKind::RemoveAttemptCgroup);
    }
}

/// The operations of one kind for the attempts of a list stand in a plan.
spec fn planned_from(
    plan: Seq<ReconcileOperation>,
    at: int,
    kind: ReconcileKind,
    list: Seq<AttemptIdentity>,
) -> bool {
    forall|k: int|
        0 <= k < list.len() ==> at + k < plan.len() && (#[trigger] plan[at + k]).kind == kind
            && plan[at + k].attempt == Some(list[k])
}

proof fn lemma_plan_sections(inventory: Inventory)
    ensures
        ({
            let plan = recovery_plan(inventory);
            let a = inventory.cleanup_cgroups.listing();
            let b = inventory.attempt_cgroups.listing();
            let c = inventory.attempt_directories.listing();
            let d = inventory.cleanup_directories.listing();
            let (n, m) = (a.len() + b.len(), a.len() + b.len() + c.len());
            &&& plan.len() == 2 * n + 2 * c.len() + d.len() + 2
            &&& planned_from(plan, 0, ReconcileKind::NeutralizeCleanup, a)
            &&& planned_from(plan, a.len() as int, ReconcileKind::NeutralizeAttempt, b)
            &&& planned_from(plan, n as int, ReconcileKind::ProveFilesystem, c)
            &&& planned_from(plan, m as int, ReconcileKind::RemoveCleanupCgroup, a)
            &&& planned_from(plan, (m + a.len()) as int, ReconcileKind::RemoveCleanupBootstrap, d)
            &&& planned_from(
                plan,
                (m + a.len() + d.len()) as int,
                ReconcileKind::RemoveAttemptFilesystem,
                c,
            )
            &&& planned_from(
                plan,
                (m + a.len() + d.len() + c.len()) as int,
                ReconcileKind::RemoveAttemptCgroup,
                b,
            )
            &&& plan[plan.len() - 2].kind == ReconcileKind::FsyncActiveRoot
            &&& plan[plan.len() - 1].kind == ReconcileKind::Reinventory
            &&& plan[plan.len() - 2].attempt is None
            &&& plan[plan.len() - 1].attempt is None
        }),
{
}

/// Before anything is looked into or removed, every group that was found has its
/// processes stopped: those of left-over cleanups as well as those of attempts.
pub proof fn law_every_group_is_stopped_first(inventory: Inventory, k: int, j: int)
    requires
        0 <= j < recovery_plan(inventory).len(),
        recovery_plan(inventory)[j].kind != ReconcileKind::NeutralizeCleanup,
        recovery_plan(inventory)[j].kind != ReconcileKind::NeutralizeAttempt,
    ensures
        0 <= k < inventory.cleanup_cgroups.listing().len() ==> exists|i: int|
            0 <= i < j && (#[trigger] recovery_plan(inventory)[i]).kind
                == ReconcileKind::NeutralizeCleanup && recovery_plan(inventory)[i].attempt == Some(
                inventory.cleanup_cgroups.listing()[k],
            ),
        0 <= k < inventory.attempt_cgroups.listing().len() ==> exists|i: int|
            0 <= i < j && (#[trigger] recovery_plan(inventory)[i]).kind
                == ReconcileKind::NeutralizeAttempt && recovery_plan(inventory)[i].attempt == Some(
                inventory.attempt_cgroups.listing()[k],
            ),
{
    lemma_plan_sections(inventory);
    let plan = recovery_plan(inventory);
    let a = inventory.cleanup_cgroups.listing();
    let b = inventory.attempt_cgroups.listing();
    if j < a.len() {
        assert(plan[0 + j].kind == ReconcileKind::NeutralizeCleanup);
    } else if j < a.len() + b.len() {
        assert(plan[a.len() + (j - a.len())].kind == ReconcileKind::NeutralizeAttempt);
    }
    if 0 <= k < a.len() {
        assert(plan[0 + k].attempt == Some(a[k]));
    }
    if 0 <= k < b.len() {
        assert(plan[a.len() + k].attempt == Some(b[k]));
    }
}

/// Every directory of an attempt is proven before the first removal.
pub proof fn law_every_directory_is_proven_first(inventory: Inventory, k: int, j: int)
    requires
        0 <= k < inventory.attempt_directories.listing().len(),
        0 <= j < recovery_plan(inventory).len(),
        match recovery_plan(inventory)[j].kind {
            ReconcileKind::RemoveCleanupCgroup | ReconcileKind::RemoveCleanupBootstrap
            | ReconcileKind::RemoveAttemptFilesystem | ReconcileKind::RemoveAttemptCgroup => true,
            _ => false,
        },
    ensures
        exists|i: int|
            0 <= i < j && (#[trigger] recovery_plan(inventory)[i]).kind
                == ReconcileKind::ProveFilesystem && recovery_plan(inventory)[i].attempt == Some(
                inventory.attempt_directories.listing()[k],
            ),
{
    lemma_plan_sections(inventory);
    let plan = recovery_plan(inventory);
    let a = inventory.cleanup_cgroups.listing();
    let b = inventory.attempt_cgroups.listing();
    let c = inventory.attempt_directories.listing();
    let n = a.len() + b.len();
    if j < a.len() {
        assert(plan[0 + j].kind == ReconcileKind::NeutralizeCleanup);
    } else if j < n {
        assert(plan[a.len() + (j - a.len())].kind == ReconcileKind::NeutralizeAttempt);
    } else if j < n + c.len() {
        assert(plan[n + (j - n)].kind == ReconcileKind::ProveFilesystem);
    }
    assert(plan[n + k].attempt == Some(c[k]));
}

/// A recovery touches nothing that was not found: each operation but the last two is
/// for an attempt of the inventory that has what the operation is about. Each is there
/// once, so the plan is as long as what was found asks for.
pub proof fn law_only_what_was_found_is_touched(inventory: Inventory, j: int)
    requires
        0 <= j < recovery_plan(inventory).len(),
    ensures
        ({
            let operation = recovery_plan(inventory)[j];
            let last = recovery_plan(inventory).len() - 1;
            match operation.kind {
                ReconcileKind::NeutralizeCleanup | ReconcileKind::RemoveCleanupCgroup =>
                operation.attempt is Some && inventory.cleanup_cgroups.listing().contains(
                    operation.attempt->0,
                ),
                ReconcileKind::NeutralizeAttempt | ReconcileKind::RemoveAttemptCgroup =>
                operation.attempt is Some && inventory.attempt_cgroups.listing().contains(
                    operation.attempt->0,
                ),
                ReconcileKind::ProveFilesystem | ReconcileKind::RemoveAttemptFilesystem =>
                operation.attempt is Some && inventory.attempt_directories.listing().contains(
                    operation.attempt->0,
                ),
                ReconcileKind::RemoveCleanupBootstrap => operation.attempt is Some
                    && inventory.cleanup_directories.listing().contains(operation.attempt->0),
                ReconcileKind::FsyncActiveRoot => operation.attempt is None && j == last - 1,
                ReconcileKind::Reinventory => operation.attempt is None && j == last,
            }
        }),
        recovery_plan(inventory).len() == 2 * inventory.cleanup_cgroups.listing().len() + 2
            * inventory.attempt_cgroups.listing().len() + 2
            * inventory.attempt_directories.listing().len()
            + inventory.cleanup_directories.listing().len() + 2,
        recovery_plan(inventory).last().kind == ReconcileKind::Reinventory,
        recovery_plan(inventory)[recovery_plan(inventory).len() - 2].kind
            == ReconcileKind::FsyncActiveRoot,
{
    lemma_plan_sections(inventory);
    let plan = recovery_plan(inventory);
    let a = inventory.cleanup_cgroups.listing();
    let b = inventory.attempt_cgroups.listing();
    let c = inventory.attempt_directories.listing();
    let d = inventory.cleanup_directories.listing();
    let n = a.len() + b.len();
    let m = n + c.len();
    let o = m + a.len();
    let p = o + d.len();
    let q = p + c.len();
    if j < a.len() {
        assert(plan[0 + j].attempt == Some(a[j]));
    } else if j < n {
        assert(plan[a.len() + (j - a.len())].attempt == Some(b[j - a.len()]));
    } else if j < m {
        assert(plan[n + (j - n)].attempt == Some(c[j - n]));
    } else if j < o {
        assert(plan[m + (j - m)].attempt == Some(a[j - m]));
    } else if j < p {
        assert(plan[o + (j - o)].attempt == Some(d[j - o]));
    } else if j < q {
        assert(plan[p + (j - p)].attempt == Some(c[j - p]));
    } else if j < q + b.len() {
        assert(plan[q + (j - q)].attempt == Some(b[j - q]));
    }
}

/// A directory bears the bare digits of its attempt, or these after `cleanup-`; a group
/// bears them after `attempt-` or `cleanup-`. These names are read back as what they
/// are.
pub proof fn law_own_names_are_read_back(
    id: u128,
    value: &str,
    directory: bool,
    r: Result<(OwnedKind, AttemptIdentity), ExecutionDomainError>,
)
    requires
        call_ensures(parse_owned_name, (value, directory), r),
        id != 0,
    ensures
        value@ == ids::simple_text(id) ==> (if directory {
            r matches Ok((kind, attempt)) && kind == OwnedKind::Attempt && attempt@ == id
        } else {
            r is Err
        }),
        value@ == "cleanup-"@ + ids::simple_text(id) ==> (r matches Ok((kind, attempt)) && kind
            == OwnedKind::Cleanup && attempt@ == id),
        value@ == "attempt-"@ + ids::simple_text(id) ==> (if directory {
            r is Err
        } else {
            r matches Ok((kind, attempt)) && kind == OwnedKind::Attempt && attempt@ == id
        }),
{
    reveal_strlit("attempt-");
    reveal_strlit("cleanup-");
    let digits = ids::simple_text(id);
    ids::law_identifiers_are_written_in_base_sixteen(id, 0);
    ids::law_identifiers_are_written_in_base_sixteen(id, 1);
    assert("attempt-"@[1] == 't' && "cleanup-"@[1] == 'l' && "attempt-"@[0] == 'a'
        && "cleanup-"@[0] == 'c');
    assert(("cleanup-"@ + digits).skip(8) =~= digits);
    assert(("attempt-"@ + digits).skip(8) =~= digits);
    if "attempt-"@.is_prefix_of(digits) {
        assert(digits[1] == 't');
    }
    if "cleanup-"@.is_prefix_of(digits) {
        assert(digits[1] == 'l');
    }
    assert(("cleanup-"@ + digits)[0] == 'c');
    assert(("attempt-"@ + digits)[0] == 'a');
    assert("cleanup-"@.is_prefix_of("cleanup-"@ + digits)) by {
        assert(("cleanup-"@ + digits).subrange(0, 8) =~= "cleanup-"@);
    }
    assert("attempt-"@.is_prefix_of("attempt-"@ + digits)) by {
        assert(("attempt-"@ + digits).subrange(0, 8) =~= "attempt-"@);
    }
    assert(names_attempt(digits, id));
    match r {
        Ok((kind, attempt)) => {
            if attempt@ != id && ids::simple_text(attempt@) == digits {
                ids::lemma_simple_text_injective(attempt@, id);
            }
            if value@ == "attempt-"@ + digits && directory {
                ids::lemma_hex_len(attempt@ as nat, 32);
                assert(value@.len() == 40);
            }
        },
        Err(e) => {
            if digits == ids::simple_text(0) {
                ids::lemma_simple_text_injective(id, 0);
            }
        },
    }
}

/// A name that is read is one of the forms of the attempt that it is read as.
pub proof fn law_only_own_names_are_read(
    value: &str,
    directory: bool,
    r: Result<(OwnedKind, AttemptIdentity), ExecutionDomainError>,
)
    requires
        call_ensures(parse_owned_name, (value, directory), r),
    ensures
        r matches Ok((kind, attempt)) ==> attempt@ != 0 && (match kind {
            OwnedKind::Cleanup => value@ == "cleanup-"@ + ids::simple_text(attempt@),
            OwnedKind::Attempt => if directory {
                value@ == ids::simple_text(attempt@)
            } else {
                value@ == "attempt-"@ + ids::simple_text(attempt@)
            },
        }),
{
    match r {
        Ok((kind, attempt)) => {
            let rest = ids::simple_text(attempt@);
            if !directory && "attempt-"@.is_prefix_of(value@) {
                assert(value@ =~= "attempt-"@ + value@.skip("attempt-"@.len() as int));
            } else if "cleanup-"@.is_prefix_of(value@) {
                assert(value@ =~= "cleanup-"@ + value@.skip("cleanup-"@.len() as int));
            }
        },
        Err(_) => {},
    }
}

/// Entries that are no directories, and the group of the service itself, are left alone;
/// any other entry is read by its name, and one without a name as text is refused.
pub proof fn law_entries_are_told_by_their_names(
    is_directory: Result<bool, ExecutionDomainError>,
    name: Option<&str>,
    r: GroupEntry,
    d: Result<(OwnedKind, AttemptIdentity), ExecutionDomainError>,
)
    requires
        call_ensures(classify_group, (is_directory, name), r),
        call_ensures(classify_directory, (name,), d),
    ensures
        is_directory is Err ==> r == GroupEntry::Refused(is_directory->Err_0),
        is_directory == Ok::<bool, ExecutionDomainError>(false) ==> r is Ignored,
        is_directory == Ok::<bool, ExecutionDomainError>(true) && name is None ==> r is Refused,
        is_directory == Ok::<bool, ExecutionDomainError>(true) && name is Some && name->0@
            == "supervisor"@ ==> r is Ignored,
        is_directory == Ok::<bool, ExecutionDomainError>(true) && name is Some && name->0@
            != "supervisor"@ ==> !(r is Ignored),
        r matches GroupEntry::Owned(kind, attempt) ==> name is Some && name->0@ == (match kind {
            OwnedKind::Attempt => "attempt-"@,
            OwnedKind::Cleanup => "cleanup-"@,
        }) + ids::simple_text(attempt@),
        name is None ==> d is Err,
        d matches Ok((kind, attempt)) ==> name is Some && name->0@ == (match kind {
            OwnedKind::Attempt => ids::simple_text(attempt@),
            OwnedKind::Cleanup => "cleanup-"@ + ids::simple_text(attempt@),
        }),
{
    if name is Some {
        let value = name->0@;
        if "attempt-"@.is_prefix_of(value) {
            assert(value =~= "attempt-"@ + value.skip("attempt-"@.len() as int));
        }
        if "cleanup-"@.is_prefix_of(value) {
            assert(value =~= "cleanup-"@ + value.skip("cleanup-"@.len() as int));
        }
    }
}

/// A directory is removed whole where its journal says that it is a domain's, and only
/// empty where it has no journal; one that shares the host is refused.
pub proof fn law_journals_decide_what_is_proven(
    evidence: LinuxJournalEvidence,
    r: Result<DirectoryProof, ExecutionDomainError>,
)
    requires
        call_ensures(required_proof, (evidence,), r),
    ensures
        evidence is Recoverable <==> r == Ok::<DirectoryProof, ExecutionDomainError>(
            DirectoryProof::RemovableTree,
        ),
        evidence is Missing <==> r == Ok::<DirectoryProof, ExecutionDomainError>(
            DirectoryProof::Empty,
        ),
        evidence is TrustedV1Diagnostic <==> r is Err,
{
}

/// What is found is noted under its kind, and its attempt with it; an entry that failed
/// leaves the inventory as it was, and only the first error is kept.
pub proof fn law_findings_are_noted_by_kind(
    inventory: &mut Inventory,
    first: &mut Option<ExecutionDomainError>,
    entry: Result<(OwnedKind, AttemptIdentity), ExecutionDomainError>,
    id: u128,
)
    requires
        call_ensures(Inventory::take_directory, (inventory, first, entry), ()),
    ensures
        match entry {
            Err(e) => {
                &&& *final(inventory) == *old(inventory)
                &&& *old(first) is None ==> *final(first) == Some(e)
                &&& *old(first) is Some ==> *final(first) == *old(first)
            },
            Ok((kind, attempt)) => {
                &&& *final(first) == *old(first)
                &&& final(inventory).attempts@.contains(id)
                    <==> old(inventory).attempts@.contains(id) || id == attempt@
                &&& final(inventory).attempt_directories@.contains(id)
                    <==> old(inventory).attempt_directories@.contains(id) || (id == attempt@ && kind
                    == OwnedKind::Attempt)
                &&& final(inventory).cleanup_directories@.contains(id)
                    <==> old(inventory).cleanup_directories@.contains(id) || (id == attempt@ && kind
                    == OwnedKind::Cleanup)
                &&& final(inventory).attempt_cgroups@ == old(inventory).attempt_cgroups@
                &&& final(inventory).cleanup_cgroups@ == old(inventory).cleanup_cgroups@
            },
        },
{
}

/// A group is noted under its kind, and its attempt with it.
pub proof fn law_groups_are_noted_by_kind(
    inventory: &mut Inventory,
    kind: OwnedKind,
    attempt: AttemptIdentity,
    id: u128,
)
    requires
        call_ensures(Inventory::note_cgroup, (inventory, kind, attempt), ()),
    ensures
        final(inventory).attempts@.contains(id) <==> old(inventory).attempts@.contains(id) || id
            == attempt@,
        final(inventory).attempt_cgroups@.contains(id)
            <==> old(inventory).attempt_cgroups@.contains(id) || (id == attempt@ && kind
            == OwnedKind::Attempt),
        final(inventory).cleanup_cgroups@.contains(id)
            <==> old(inventory).cleanup_cgroups@.contains(id) || (id == attempt@ && kind
            == OwnedKind::Cleanup),
        final(inventory).attempt_directories@ == old(inventory).attempt_directories@,
        final(inventory).cleanup_directories@ == old(inventory).cleanup_directories@,
{
}

/// An inventory is empty exactly when no set of it has a member.
pub proof fn law_empty_inventories_hold_nothing(inventory: Inventory, id: u128, r: bool)
    requires
        call_ensures(Inventory::is_empty, (&inventory,), r),
        inventory.attempts@.contains(id) || inventory.attempt_directories@.contains(id)
            || inventory.cleanup_directories@.contains(id) || inventory.attempt_cgroups@.contains(
            id,
        ) || inventory.cleanup_cgroups@.contains(id),
    ensures
        !r,
{
}

/// Every group is stopped, and every directory proven, before an error ends a recovery;
/// then nothing is removed. A failed removal ends it at once, and so does a last look
/// that finds something.
pub proof fn law_errors_end_a_recovery(r: Reconciliation, outcome: ReconcileOutcome, s: ReconcileStep)
    requires
        call_ensures(Reconciliation::advance, (r, outcome), s),
        0 <= r.position() < r.all().len(),
        r.neutral() <= r.proven() < r.all().len(),
        r.position() >= r.proven() ==> r.error() is None,
    ensures
        r.position() + 1 < r.neutral() || (r.neutral() <= r.position() && r.position() + 1
            < r.proven()) ==> (s matches ReconcileStep::Continue(next) && next.position()
            == r.position() + 1 && next.all() == r.all()),
        r.error() is Some && (r.position() + 1 == r.neutral() || r.position() + 1 == r.proven())
            ==> s == ReconcileStep::Done(Err(r.error()->0)),
        r.error() is None && outcome is Err && (r.position() + 1 == r.neutral() || r.position() + 1
            >= r.proven()) ==> s == ReconcileStep::Done(Err(outcome->Err_0)),
        r.error() is None && outcome is Ok && r.position() + 1 < r.all().len() ==> (
        s matches ReconcileStep::Continue(next) && next.position() == r.position() + 1
            && next.error() is None),
        s matches ReconcileStep::Continue(next) ==> (match r.error() {
            Some(e) => next.error() == Some(e),
            None => next.error() == (match outcome {
                Err(e) => Some(e),
                Ok(_) => None,
            }),
        }),
        r.position() + 1 == r.all().len() && outcome == Ok::<bool, ExecutionDomainError>(true) ==> (
        s matches ReconcileStep::Done(Ok(_))),
        r.position() + 1 == r.all().len() && outcome == Ok::<bool, ExecutionDomainError>(false)
            ==> (s matches ReconcileStep::Done(
            Err(ExecutionDomainError::Backend { stage, category, .. }),
        ) && stage == Stage::Destroy && category == FailureCategory::IdentityMismatch),
{
}

/// A recovery begins with the first operation. An error that was met while looking lets
/// every group be stopped first, and ends the recovery at once where there is none.
pub proof fn law_recoveries_begin_with_the_plan(
    inventory: Inventory,
    first_error: Option<ExecutionDomainError>,
    s: ReconcileStep,
)
    requires
        call_ensures(Reconciliation::begin, (&inventory, first_error), s),
    ensures
        ({
            let groups = inventory.cleanup_cgroups.listing().len()
                + inventory.attempt_cgroups.listing().len();
            &&& first_error is None || groups > 0 ==> (s matches ReconcileStep::Continue(r) && r.all()
                == recovery_plan(inventory) && r.position() == 0 && r.error() == first_error
                && r.neutral() == groups && r.proven() == groups
                + inventory.attempt_directories.listing().len())
            &&& first_error is Some && groups == 0 ==> s == ReconcileStep::Done(
                Err(first_error->0),
            )
        }),
{
}

/// A directory is noted under its own kind and its attempt, and nothing else changes.
pub proof fn law_directories_are_noted_by_kind(
    inventory: &mut Inventory,
    kind: OwnedKind,
    attempt: AttemptIdentity,
    id: u128,
    done: (),
    fresh: Inventory,
)
    requires
        call_ensures(Inventory::new, (), fresh),
        call_ensures(Inventory::note_directory, (inventory, kind, attempt), done),
    ensures
        final(inventory).attempts@.contains(id) <==> old(inventory).attempts@.contains(id) || id
            == attempt@,
        final(inventory).attempt_directories@.contains(id)
            <==> old(inventory).attempt_directories@.contains(id) || (id == attempt@ && kind
            == OwnedKind::Attempt),
        final(inventory).cleanup_directories@.contains(id)
            <==> old(inventory).cleanup_directories@.contains(id) || (id == attempt@ && kind
            == OwnedKind::Cleanup),
        final(inventory).attempt_cgroups@ == old(inventory).attempt_cgroups@,
        final(inventory).cleanup_cgroups@ == old(inventory).cleanup_cgroups@,
        fresh.attempts.listing().len() == 0,
{
}

/// A component is read as the attempt whose identity it writes, and as nothing else.
pub proof fn law_components_are_read_back(
    value: &str,
    attempt: AttemptIdentity,
    r: Result<AttemptIdentity, ExecutionDomainError>,
)
    requires
        call_ensures(parse_component, (value,), r),
    ensures
        attempt@ != 0 && value@ == ids::simple_text(attempt@) ==> (r matches Ok(a) && a@
            == attempt@),
        r matches Ok(a) ==> a@ != 0 && value@ == ids::simple_text(a@),
{
    if attempt@ != 0 && value@ == ids::simple_text(attempt@) {
        assert(names_attempt(value@, attempt@));
        if let Ok(a) = r {
            ids::lemma_simple_text_injective(a@, attempt@);
        } else {
            if value@ == ids::simple_text(0) {
                ids::lemma_simple_text_injective(attempt@, 0);
            }
        }
    }
}

/// An error that is met is kept unless one was met before.
pub proof fn law_met_errors_are_kept(
    first: &mut Option<ExecutionDomainError>,
    error: Option<ExecutionDomainError>,
    done: (),
)
    requires
        call_ensures(retain_optional, (first, error), done),
    ensures
        *old(first) is Some ==> *final(first) == *old(first),
        *old(first) is None ==> *final(first) == error,
{
}

/// What a recovery is at is the operation of its plan at its place, and it removes nothing
/// while an error stands.
pub proof fn law_recoveries_are_at_their_place(r: Reconciliation, o: ReconcileOperation)
    requires
        call_ensures(Reconciliation::operation, (&r,), o),
    ensures
        0 <= r.position() < r.all().len() && o == r.all()[r.position()],
        o.kind is RemoveCleanupCgroup || o.kind is RemoveCleanupBootstrap || o.kind
            is RemoveAttemptFilesystem || o.kind is RemoveAttemptCgroup ==> r.error() is None,
{
}

/// Every attempt with a directory or a group of its own is found, once; a group of the
/// supervisor belongs to none, and a name that cannot be read refuses them all.
pub proof fn law_every_owner_is_found(
    directory_names: &[String],
    cgroup_names: &[String],
    i: int,
    directory: Result<(OwnedKind, AttemptIdentity), ExecutionDomainError>,
    group: Result<(OwnedKind, AttemptIdentity), ExecutionDomainError>,
    name: &str,
    r: Result<Vec<AttemptIdentity>, ExecutionDomainError>,
)
    requires
        call_ensures(owned_attempts, (directory_names, cgroup_names), r),
        call_ensures(parse_owned_name, (name, true), directory),
        call_ensures(parse_owned_name, (name, false), group),
    ensures
        0 <= i < directory_names@.len() && directory_names@[i]@ == name@ && directory is Ok && r
            is Ok ==> attempts::members(r->Ok_0@).contains(directory->Ok_0.1@),
        0 <= i < directory_names@.len() && directory_names@[i]@ == name@ && directory is Err ==> r
            is Err,
        0 <= i < cgroup_names@.len() && cgroup_names@[i]@ == name@ && name@ != "supervisor"@
            && group is Ok && r is Ok ==> attempts::members(r->Ok_0@).contains(group->Ok_0.1@),
        0 <= i < cgroup_names@.len() && cgroup_names@[i]@ == name@ && name@ != "supervisor"@
            && group is Err ==> r is Err,
        r matches Ok(found) ==> forall|a: int, b: int|
            0 <= a < b < found@.len() ==> found@[a]@ < found@[b]@,
{
    if let Ok(found) = r {
        if 0 <= i < directory_names@.len() && directory_names@[i]@ == name@ {
            if directory is Ok {
                assert(owns(directory_names@[i]@, true, directory->Ok_0.1@));
            } else {
                assert(readable(directory_names@[i]@, true));
                let id = choose|id: u128| owns(name@, true, id);
                let (_, component) = owned_parts(name@, true)->0;
                assert(names_attempt(component, id));
                if component == ids::simple_text(0) {
                    ids::lemma_simple_text_injective(id, 0);
                }
            }
        }
        if 0 <= i < cgroup_names@.len() && cgroup_names@[i]@ == name@ && name@ != "supervisor"@ {
            if group is Ok {
                assert(owns(cgroup_names@[i]@, false, group->Ok_0.1@));
            } else {
                assert(readable(cgroup_names@[i]@, false));
                let id = choose|id: u128| owns(name@, false, id);
                let (_, component) = owned_parts(name@, false)->0;
                assert(names_attempt(component, id));
                if component == ids::simple_text(0) {
                    ids::lemma_simple_text_injective(id, 0);
                }
            }
        }
    }
}

} // verus!
