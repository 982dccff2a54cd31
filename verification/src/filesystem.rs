//! What a directory of the host must look like before it is used or removed.

use vstd::prelude::*;

use crate::bytes;
use crate::error;
use crate::error::{ExecutionDomainError, IoFailure};
use crate::host_path;
use crate::host_path::Parts;

verus! {

/// What names a directory for as long as it exists.
#[derive(Debug, Clone, Copy, PartialEq, Eq, Structural)]
pub struct DirectoryIdentity {
    pub device: u64,
    pub inode: u64,
}

/// What the host reports about an entry, without following a symbolic link.
#[derive(Debug, Clone, Copy)]
pub struct EntryFacts {
    pub is_symlink: bool,
    pub is_directory: bool,
    pub is_file: bool,
    pub uid: u32,
    pub mode: u32,
    pub device: u64,
    pub inode: u64,
}

impl EntryFacts {
    /// The identity of the entry.
    pub open spec fn identity(self) -> DirectoryIdentity {
        DirectoryIdentity { device: self.device, inode: self.inode }
    }

    /// The identity of the entry.
    pub fn directory_identity(&self) -> (r: DirectoryIdentity)
        ensures
            r == self.identity(),
    {
        DirectoryIdentity { device: self.device, inode: self.inode }
    }
}

/// A path of the host: its bytes, and how it is displayed.
pub struct FoundPath {
    pub raw: Vec<u8>,
    pub shown: String,
}

/// The bytes of a path of the host, and its display.
pub struct FoundPathView {
    pub raw: Seq<u8>,
    pub shown: Seq<char>,
}

impl View for FoundPath {
    type V = FoundPathView;

    open spec fn view(&self) -> FoundPathView {
        FoundPathView { raw: self.raw@, shown: self.shown@ }
    }
}

/// Accepts a directory only if it is a real directory, is the one that was bound
/// before, and its path leads to it without symbolic links: the path that it resolves
/// to has the same components.
pub fn validate_bound_directory(
    path: &FoundPath,
    expected: DirectoryIdentity,
    facts: EntryFacts,
    canonical: Result<Vec<u8>, IoFailure>,
) -> (r: Result<(), ExecutionDomainError>)
    ensures
        ({
            let bound = !facts.is_symlink && facts.is_directory && facts.identity() == expected;
            let written = host_path::components(path@.raw);
            match canonical {
                Ok(found) => match r {
                    Ok(_) => bound && host_path::components(found@) == written,
                    Err(e) => !(bound && host_path::components(found@) == written)
                        && error::is_unsafe_entry(e, path@.shown),
                },
                Err(failure) => match r {
                    Ok(_) => false,
                    Err(e) => if !bound {
                        error::is_unsafe_entry(e, path@.shown)
                    } else {
                        e matches ExecutionDomainError::Cleanup { path: p, source } && p@
                            == path@.shown && source == failure
                    },
                },
            }
        }),
{
    let actual: DirectoryIdentity = facts.directory_identity();
    if facts.is_symlink || !facts.is_directory || actual != expected {
        return Err(ExecutionDomainError::UnsafeEntry { path: path.shown.clone() });
    }
    match canonical {
        Ok(found) => {
            let written: Parts = host_path::parts_of(path.raw.as_slice());
            let resolved: Parts = host_path::parts_of(found.as_slice());
            if !resolved.same(&written) {
                return Err(ExecutionDomainError::UnsafeEntry { path: path.shown.clone() });
            }
            Ok(())
        },
        Err(source) => Err(ExecutionDomainError::Cleanup { path: path.shown.clone(), source }),
    }
}

/// Accepts a directory only if it is a real directory that belongs to the given
/// user and to nobody else.
pub fn validate_private_directory_metadata(path: &str, facts: EntryFacts, euid: u32) -> (r: Result<
    (),
    ExecutionDomainError,
>)
    ensures
        match r {
            Ok(_) => !facts.is_symlink && facts.is_directory && facts.uid == euid && facts.mode
                & 0o777 == 0o700,
            Err(e) => if facts.is_symlink || !facts.is_directory {
                error::is_unsafe_root(e, path@, "path is not a real directory"@)
            } else if facts.uid != euid {
                error::is_unsafe_root(e, path@, "directory is owned by another uid"@)
            } else {
                facts.mode & 0o777 != 0o700 && error::is_unsafe_root(
                    e,
                    path@,
                    "directory mode is not 0700"@,
                )
            },
        },
{
    if facts.is_symlink || !facts.is_directory {
        return Err(
            ExecutionDomainError::UnsafeRoot {
                path: path.to_owned(),
                reason: "path is not a real directory",
            },
        );
    }
    if facts.uid != euid {
        return Err(
            ExecutionDomainError::UnsafeRoot {
                path: path.to_owned(),
                reason: "directory is owned by another uid",
            },
        );
    }
    if facts.mode & 0o777 != 0o700 {
        return Err(
            ExecutionDomainError::UnsafeRoot {
                path: path.to_owned(),
                reason: "directory mode is not 0700",
            },
        );
    }
    Ok(())
}

/// A directory tree as it was found: an entry, and what is below it.
pub struct TreeEntry {
    pub path: String,
    pub facts: EntryFacts,
    pub children: Vec<TreeEntry>,
}

/// Whether an entry may be removed as part of a tree: a plain file or a real
/// directory.
pub open spec fn removable(facts: EntryFacts) -> bool {
    !facts.is_symlink && (facts.is_directory || facts.is_file)
}

/// The entries of a tree, each before what is below it.
pub open spec fn entries_of(tree: TreeEntry) -> Seq<TreeEntry>
    decreases tree, 1int,
{
    seq![tree] + entries_of_all(tree.children@)
}

/// The entries of several trees in order.
pub open spec fn entries_of_all(trees: Seq<TreeEntry>) -> Seq<TreeEntry>
    decreases trees, 0int,
{
    if trees.len() == 0 {
        Seq::empty()
    } else {
        entries_of(trees[0]) + entries_of_all(trees.drop_first())
    }
}

/// Whether every entry may be removed.
pub open spec fn all_removable(entries: Seq<TreeEntry>) -> bool {
    forall|i: int| 0 <= i < entries.len() ==> removable((#[trigger] entries[i]).facts)
}

/// Whether `path` names the first entry that may not be removed.
pub open spec fn first_refused(entries: Seq<TreeEntry>, path: Seq<char>) -> bool {
    exists|i: int|
        0 <= i < entries.len() && !removable((#[trigger] entries[i]).facts) && entries[i].path@
            == path && all_removable(entries.take(i))
}

/// Accepts a tree only if every entry in it is a plain file or a real directory,
/// and otherwise names the first entry that is not.
pub fn validate_removal_tree(tree: &TreeEntry) -> (r: Result<(), ExecutionDomainError>)
    ensures
        match r {
            Ok(_) => all_removable(entries_of(*tree)),
            Err(e) => e matches ExecutionDomainError::UnsafeEntry { path } && first_refused(
                entries_of(*tree),
                path@,
            ),
        },
    decreases tree,
{
    let ghost whole = entries_of(*tree);
    let ghost below = entries_of_all(tree.children@);
    if tree.facts.is_symlink || (!tree.facts.is_directory && !tree.facts.is_file) {
        let path: String = tree.path.clone();
        proof {
            assert(whole[0] == *tree);
            assert(whole.take(0) =~= Seq::empty());
            assert(first_refused(whole, path@));
        }
        return Err(ExecutionDomainError::UnsafeEntry { path });
    }
    let ghost mut done: Seq<TreeEntry> = seq![*tree];
    assert(tree.children@.skip(0) =~= tree.children@);
    for i in 0..tree.children.len()
        invariant
            whole == entries_of(*tree),
            whole == done + entries_of_all(tree.children@.skip(i as int)),
            all_removable(done),
    {
        let ghost rest = tree.children@.skip(i as int);
        let ghost here = entries_of(tree.children@[i as int]);
        proof {
            assert(rest[0] == tree.children@[i as int]);
            assert(rest.drop_first() =~= tree.children@.skip(i + 1));
            assert(whole =~= done + here + entries_of_all(tree.children@.skip(i + 1)));
            assert(decreases_to!(*tree => tree.children@[i as int]));
        }
        match validate_removal_tree(&tree.children[i]) {
            Ok(_) => {
                proof {
                    let grown = done + here;
                    assert forall|k: int| 0 <= k < grown.len() implies removable(
                        (#[trigger] grown[k]).facts,
                    ) by {
                        if k < done.len() {
                            assert(grown[k] == done[k]);
                        } else {
                            assert(grown[k] == here[k - done.len()]);
                        }
                    }
                    done = grown;
                }
            },
            Err(e) => {
                proof {
                    let path = e->UnsafeEntry_path;
                    let k = choose|k: int|
                        0 <= k < here.len() && !removable((#[trigger] here[k]).facts)
                            && here[k].path@ == path@ && all_removable(here.take(k));
                    let at = done.len() + k;
                    assert(whole[at] == here[k]);
                    assert(whole.take(at) =~= done + here.take(k));
                    let before = whole.take(at);
                    assert forall|j: int| 0 <= j < before.len() implies removable(
                        (#[trigger] before[j]).facts,
                    ) by {
                        if j < done.len() {
                            assert(before[j] == done[j]);
                        } else {
                            assert(before[j] == here.take(k)[j - done.len()]);
                        }
                    }
                    assert(first_refused(whole, path@));
                }
                return Err(e);
            },
        }
    }
    assert(tree.children@.skip(tree.children@.len() as int) =~= Seq::empty());
    assert(whole =~= done);
    Ok(())
}

/// How an entry at the top of an attempt directory is prepared for removal.
#[derive(Debug, Clone, Copy, PartialEq, Eq, Structural)]
pub enum AttemptEntryRule {
    /// The private temporary directory, which must be the one that was bound.
    PrivateTmp,
    /// The work directory, which must be the one that was bound.
    Work,
    /// The journal, which must be a plain file.
    Journal,
    /// Anything else, which must be a tree of plain files and directories.
    Tree,
}

/// Chooses the rule for an entry of an attempt directory. Paths are compared by their
/// components.
pub fn attempt_entry_rule(
    path: &[u8],
    file_name: &[u8],
    private_tmp: &[u8],
    work_dir: &[u8],
) -> (r: AttemptEntryRule)
    ensures
        r == (if host_path::components(path@) == host_path::components(private_tmp@) {
            AttemptEntryRule::PrivateTmp
        } else if host_path::components(path@) == host_path::components(work_dir@) {
            AttemptEntryRule::Work
        } else if file_name@ == bytes::encoded("journal.json"@) {
            AttemptEntryRule::Journal
        } else {
            AttemptEntryRule::Tree
        }),
{
    let own: Parts = host_path::parts_of(path);
    if own.same(&host_path::parts_of(private_tmp)) {
        AttemptEntryRule::PrivateTmp
    } else if own.same(&host_path::parts_of(work_dir)) {
        AttemptEntryRule::Work
    } else if bytes::are(file_name, "journal.json") {
        AttemptEntryRule::Journal
    } else {
        AttemptEntryRule::Tree
    }
}

/// Accepts the journal of an attempt for removal only if it is a plain file.
pub fn validate_journal_entry(path: &str, facts: EntryFacts) -> (r: Result<
    (),
    ExecutionDomainError,
>)
    ensures
        match r {
            Ok(_) => facts.is_file && !facts.is_symlink,
            Err(e) => !(facts.is_file && !facts.is_symlink) && error::is_unsafe_entry(e, path@),
        },
{
    if !facts.is_file || facts.is_symlink {
        return Err(ExecutionDomainError::UnsafeEntry { path: path.to_owned() });
    }
    Ok(())
}

/// Accepts a directory inside an owned directory for removal only if it belongs
/// to the given user.
pub fn validate_owned_directory(path: &str, facts: EntryFacts, euid: u32) -> (r: Result<
    (),
    ExecutionDomainError,
>)
    ensures
        match r {
            Ok(_) => facts.uid == euid,
            Err(e) => facts.uid != euid && error::is_unsafe_entry(e, path@),
        },
{
    if facts.uid != euid {
        return Err(ExecutionDomainError::UnsafeEntry { path: path.to_owned() });
    }
    Ok(())
}

/// Whether the walk over an owned directory goes into an entry.
pub fn descends(facts: EntryFacts) -> (r: bool)
    ensures
        r == (facts.is_directory && !facts.is_symlink),
{
    facts.is_directory && !facts.is_symlink
}

/// What is left to do before an owned directory can be removed with what is below
/// it.
pub enum PreparationTask<T> {
    /// Give the owner of the directory all permissions, and nobody else any.
    Restore { path: T },
    /// List the directory.
    List { path: T },
    /// Look at an entry.
    Inspect { path: T },
    /// Report that the listing of the directory broke off.
    Report { path: T, source: IoFailure },
}

/// What a task of a preparation came to.
pub enum PreparationOutcome {
    /// It was done, with nothing to tell.
    Done,
    /// The directory holds these entries; after them its listing may have broken off.
    Listed { entries: Vec<FoundPath>, broken: Option<IoFailure> },
    /// The entry is this one.
    Facts(EntryFacts),
    /// The system refused it.
    Failed(IoFailure),
}

/// Whether the task can have the outcome.
pub open spec fn outcome_fits<T>(task: PreparationTask<T>, outcome: PreparationOutcome) -> bool {
    match task {
        PreparationTask::Restore { .. } => outcome is Done || outcome is Failed,
        PreparationTask::List { .. } => outcome is Listed || outcome is Failed,
        PreparationTask::Inspect { .. } => outcome is Facts || outcome is Failed,
        PreparationTask::Report { .. } => outcome is Done,
    }
}

/// The task on a path as text.
pub open spec fn task_view(task: PreparationTask<FoundPath>) -> PreparationTask<FoundPathView> {
    match task {
        PreparationTask::Restore { path } => PreparationTask::Restore { path: path@ },
        PreparationTask::List { path } => PreparationTask::List { path: path@ },
        PreparationTask::Inspect { path } => PreparationTask::Inspect { path: path@ },
        PreparationTask::Report { path, source } => PreparationTask::Report { path: path@, source },
    }
}

/// The report that a listing broke off, if it did.
pub open spec fn broken_tasks(dir: FoundPathView, broken: Option<IoFailure>) -> Seq<
    PreparationTask<FoundPathView>,
> {
    match broken {
        Some(source) => seq![PreparationTask::Report { path: dir, source }],
        None => Seq::empty(),
    }
}

/// The tasks that a listing leads to: a look at every entry, and the report that the
/// listing broke off, if it did.
pub open spec fn listed_tasks(
    dir: FoundPathView,
    entries: Seq<FoundPath>,
    broken: Option<IoFailure>,
) -> Seq<PreparationTask<FoundPathView>> {
    entries.map_values(
        |path: FoundPath| PreparationTask::<FoundPathView>::Inspect { path: path@ },
    ) + broken_tasks(dir, broken)
}

/// What a task leads to: the tasks that take its place, or nothing if the
/// preparation fails with it.
pub open spec fn followers(
    task: PreparationTask<FoundPathView>,
    outcome: PreparationOutcome,
    euid: u32,
) -> Option<Seq<PreparationTask<FoundPathView>>> {
    match (task, outcome) {
        (PreparationTask::Restore { path }, PreparationOutcome::Done) => Some(
            seq![PreparationTask::List { path }],
        ),
        (PreparationTask::List { path }, PreparationOutcome::Listed { entries, broken }) => Some(
            listed_tasks(path, entries@, broken),
        ),
        (PreparationTask::Inspect { path }, PreparationOutcome::Facts(facts)) => {
            if facts.is_symlink || !facts.is_directory {
                Some(Seq::empty())
            } else if facts.uid == euid {
                Some(seq![PreparationTask::Restore { path }])
            } else {
                None
            }
        },
        _ => None,
    }
}

/// Whether an error is the one that a preparation fails with after a task.
pub open spec fn preparation_error(
    task: PreparationTask<FoundPathView>,
    outcome: PreparationOutcome,
    e: ExecutionDomainError,
) -> bool {
    match (task, outcome) {
        (PreparationTask::Restore { path }, PreparationOutcome::Failed(source)) => is_io_error(
            e,
            "restoring cleanup directory permissions"@,
            path.shown,
            source,
        ),
        (PreparationTask::List { path }, PreparationOutcome::Failed(source)) => is_io_error(
            e,
            "reading private temp cleanup directory"@,
            path.shown,
            source,
        ),
        (PreparationTask::Inspect { path }, PreparationOutcome::Failed(source)) => is_io_error(
            e,
            "reading private temp cleanup entry"@,
            path.shown,
            source,
        ),
        (PreparationTask::Report { path, source }, _) => is_io_error(
            e,
            "reading private temp cleanup entry"@,
            path.shown,
            source,
        ),
        (PreparationTask::Inspect { path }, _) => error::is_unsafe_entry(e, path.shown),
        _ => false,
    }
}

/// Whether an error reports a failed system call on a path.
pub open spec fn is_io_error(
    e: ExecutionDomainError,
    what: Seq<char>,
    at: Seq<char>,
    why: IoFailure,
) -> bool {
    e matches ExecutionDomainError::Io { operation, path, source } && operation@ == what && path@
        == at && source == why
}

/// The tasks of a stack in the order in which they come off it.
pub open spec fn in_order(stack: Seq<PreparationTask<FoundPath>>) -> Seq<PreparationTask<FoundPathView>> {
    Seq::new(stack.len(), |i: int| task_view(stack[stack.len() - 1 - i]))
}

/// The preparation of an owned directory, and of what is below it, for removal: every
/// directory of the owner is made accessible again before it is entered.
pub struct OwnedPreparation {
    euid: u32,
    tasks: Vec<PreparationTask<FoundPath>>,
}

impl View for OwnedPreparation {
    type V = Seq<PreparationTask<FoundPathView>>;

    /// The tasks in the order in which they come.
    closed spec fn view(&self) -> Seq<PreparationTask<FoundPathView>> {
        in_order(self.tasks@)
    }
}

impl OwnedPreparation {
    /// The user whose directories are prepared.
    pub closed spec fn owner(self) -> u32 {
        self.euid
    }

    /// Begins with a directory that was found to be the one that was bound.
    pub fn start(path: FoundPath, facts: EntryFacts, euid: u32) -> (r: Result<
        OwnedPreparation,
        ExecutionDomainError,
    >)
        ensures
            match r {
                Ok(p) => facts.uid == euid && p.owner() == euid
                    && p@ == seq![PreparationTask::<FoundPathView>::Restore { path: path@ }],
                Err(e) => facts.uid != euid && error::is_unsafe_entry(e, path@.shown),
            },
    {
        match validate_owned_directory(path.shown.as_str(), facts, euid) {
            Ok(_) => {},
            Err(e) => {
                return Err(e);
            },
        }
        let mut tasks: Vec<PreparationTask<FoundPath>> = Vec::new();
        tasks.push(PreparationTask::Restore { path });
        let r: OwnedPreparation = OwnedPreparation { euid, tasks };
        assert(r@ =~= seq![PreparationTask::<FoundPathView>::Restore { path: path@ }]);
        Ok(r)
    }

    /// The task that comes next, unless all are done.
    pub fn next(&self) -> (r: Option<&PreparationTask<FoundPath>>)
        ensures
            match r {
                Some(task) => self@.len() > 0 && task_view(*task) == self@[0],
                None => self@.len() == 0,
            },
    {
        if self.tasks.len() == 0 {
            return None;
        }
        Some(&self.tasks[self.tasks.len() - 1])
    }

    /// Goes on from the outcome of the next task.
    pub fn advance(self, outcome: PreparationOutcome) -> (r: Result<
        OwnedPreparation,
        ExecutionDomainError,
    >)
        requires
            self@.len() > 0,
            outcome_fits(self@[0], outcome),
        ensures
            match r {
                Ok(p) => {
                    &&& p.owner() == self.owner()
                    &&& followers(self@[0], outcome, self.owner()) matches Some(tasks)
                    &&& p@ == tasks + self@.skip(1)
                },
                Err(e) => followers(self@[0], outcome, self.owner()) is None
                    && preparation_error(self@[0], outcome, e),
            },
    {
        let ghost before = self@;
        let OwnedPreparation { euid, mut tasks } = self;
        let task: PreparationTask<FoundPath> = tasks.pop().unwrap();
        assert(task_view(task) == before[0]);
        assert(before.skip(1) =~= in_order(tasks@));
        match task {
            PreparationTask::Restore { path } => {
                match outcome {
                    PreparationOutcome::Failed(source) => {
                        return Err(
                            io_error("restoring cleanup directory permissions", path.shown.as_str(), source),
                        );
                    },
                    _ => {},
                }
                tasks.push(PreparationTask::List { path });
            },
            PreparationTask::List { path } => {
                match outcome {
                    PreparationOutcome::Listed { mut entries, broken } => {
                        let ghost found = entries@;
                        let ghost tail = broken_tasks(path@, broken);
                        match broken {
                            Some(source) => {
                                tasks.push(PreparationTask::Report { path, source });
                            },
                            None => {},
                        }
                        assert(in_order(tasks@) =~= tail + before.skip(1));
                        while entries.len() > 0
                            invariant
                                entries@.len() <= found.len(),
                                entries@ == found.take(entries@.len() as int),
                                in_order(tasks@) == found.skip(
                                    entries@.len() as int,
                                ).map_values(
                                    |path: FoundPath|
                                        PreparationTask::<FoundPathView>::Inspect { path: path@ },
                                ) + tail + before.skip(1),
                            decreases entries@.len(),
                        {
                            let ghost n = entries@.len() as int;
                            let ghost was = in_order(tasks@);
                            let entry: FoundPath = entries.pop().unwrap();
                            assert(entry == found[n - 1]);
                            tasks.push(PreparationTask::Inspect { path: entry });
                            proof {
                                let one = seq![
                                    PreparationTask::<FoundPathView>::Inspect { path: entry@ },
                                ];
                                let now = in_order(tasks@);
                                assert(now =~= one + was);
                                assert(entries@ =~= found.take(n - 1));
                            }
                        }
                        assert(found.skip(0) =~= found);
                    },
                    PreparationOutcome::Failed(source) => {
                        return Err(
                            io_error("reading private temp cleanup directory", path.shown.as_str(), source),
                        );
                    },
                    _ => {},
                }
            },
            PreparationTask::Inspect { path } => {
                match outcome {
                    PreparationOutcome::Facts(facts) => {
                        if descends(facts) {
                            match validate_owned_directory(path.shown.as_str(), facts, euid) {
                                Ok(_) => {},
                                Err(e) => {
                                    return Err(e);
                                },
                            }
                            tasks.push(PreparationTask::Restore { path });
                        }
                    },
                    PreparationOutcome::Failed(source) => {
                        return Err(io_error("reading private temp cleanup entry", path.shown.as_str(), source));
                    },
                    _ => {},
                }
            },
            PreparationTask::Report { path, source } => {
                return Err(io_error("reading private temp cleanup entry", path.shown.as_str(), source));
            },
        }
        let r: OwnedPreparation = OwnedPreparation { euid, tasks };
        assert(r@ =~= followers(before[0], outcome, euid).unwrap() + before.skip(1));
        Ok(r)
    }
}

/// Only what was found to be a real directory of the owner is made accessible, and
/// only what was made accessible is entered. A symbolic link leads to nothing.
pub proof fn law_only_own_directories_are_opened(
    task: PreparationTask<FoundPathView>,
    outcome: PreparationOutcome,
    euid: u32,
    i: int,
)
    requires
        followers(task, outcome, euid) matches Some(tasks) && 0 <= i < tasks.len(),
    ensures
        match followers(task, outcome, euid).unwrap()[i] {
            PreparationTask::Restore { path } => {
                &&& task == (PreparationTask::Inspect { path })
                &&& outcome matches PreparationOutcome::Facts(facts)
                &&& facts.is_directory && !facts.is_symlink && facts.uid == euid
            },
            PreparationTask::List { path } => task == (PreparationTask::Restore { path })
                && outcome is Done,
            _ => task is List,
        },
{
}

/// `std::str::from_utf8` gives the text whose encoding the bytes are, if they are
/// valid UTF-8, and fails otherwise.
#[verifier::external_body]
pub(crate) fn decode_utf8(bytes: &[u8]) -> (r: Option<String>)
    ensures
        match r {
            Some(s) => vstd::utf8::valid_utf8(bytes@) && vstd::utf8::encode_utf8(s@) == bytes@,
            None => !vstd::utf8::valid_utf8(bytes@),
        },
{
    std::str::from_utf8(bytes).ok().map(|s| s.to_owned())
}

/// The text of a path of the host, which must be valid UTF-8. A refusal names the
/// path as it is displayed.
pub fn utf8_path(path: &[u8], displayed: &str) -> (r: Result<String, ExecutionDomainError>)
    ensures
        match r {
            Ok(s) => vstd::utf8::valid_utf8(path@) && vstd::utf8::encode_utf8(s@) == path@,
            Err(e) => !vstd::utf8::valid_utf8(path@) && error::is_unsafe_root(
                e,
                displayed@,
                "path is not valid UTF-8"@,
            ),
        },
{
    match decode_utf8(path) {
        Some(s) => Ok(s),
        None => Err(
            ExecutionDomainError::UnsafeRoot {
                path: displayed.to_owned(),
                reason: "path is not valid UTF-8",
            },
        ),
    }
}

/// Reports a failed system call on a path.
pub fn io_error(operation: &'static str, path: &str, source: IoFailure) -> (e: ExecutionDomainError)
    ensures
        e matches ExecutionDomainError::Io { operation: o, path: p, source: s } && o == operation
            && p@ == path@ && s == source,
{
    ExecutionDomainError::Io { operation, path: path.to_owned(), source }
}

/// A directory is still the one that was bound where no link stands in its place, it has
/// the same device and inode, and its full path is the one it is known by.
pub proof fn law_bound_directories_stay_in_place(
    path: FoundPath,
    expected: DirectoryIdentity,
    facts: EntryFacts,
    canonical: Result<Vec<u8>, IoFailure>,
    r: Result<(), ExecutionDomainError>,
)
    requires
        call_ensures(validate_bound_directory, (&path, expected, facts, canonical), r),
    ensures
        r is Ok <==> !facts.is_symlink && facts.is_directory && facts.device == expected.device
            && facts.inode == expected.inode && canonical is Ok && host_path::components(
            canonical->Ok_0@,
        ) == host_path::components(path.raw@),
        r matches Err(e) ==> (if canonical is Err && !facts.is_symlink && facts.is_directory
            && facts.device == expected.device && facts.inode == expected.inode {
            e matches ExecutionDomainError::Cleanup { path: at, source } && at@ == path.shown@
                && source == canonical->Err_0
        } else {
            e matches ExecutionDomainError::UnsafeEntry { path: at } && at@ == path.shown@
        }),
{
}

/// A directory that is identified, and then found unchanged under its own path, is still
/// the one that was bound.
pub proof fn law_unchanged_directories_stay_bound(
    path: FoundPath,
    facts: EntryFacts,
    later: EntryFacts,
    identity: DirectoryIdentity,
    found: Vec<u8>,
    r: Result<(), ExecutionDomainError>,
)
    requires
        call_ensures(EntryFacts::directory_identity, (&facts,), identity),
        call_ensures(validate_bound_directory, (&path, identity, later, Ok(found)), r),
        found@ == path.raw@,
        later.is_directory,
        !later.is_symlink,
    ensures
        r is Ok <==> later.device == facts.device && later.inode == facts.inode,
{
}

/// A private directory is a real directory of the caller's own that nobody else can
/// enter; its sticky and set-id bits do not count.
pub proof fn law_private_directories_are_their_owners_alone(
    path: &str,
    facts: EntryFacts,
    euid: u32,
    r: Result<(), ExecutionDomainError>,
)
    requires
        call_ensures(validate_private_directory_metadata, (path, facts, euid), r),
    ensures
        r is Ok <==> facts.is_directory && !facts.is_symlink && facts.uid == euid && facts.mode
            % 512 == 448,
        r matches Err(e) ==> (e matches ExecutionDomainError::UnsafeRoot { path: at, .. } && at@
            == path@),
{
    let mode = facts.mode;
    assert(mode & 0o777 == mode % 512) by (bit_vector);
}

/// Removal is agreed to where every entry of the tree is a file or a directory itself;
/// the entry that is named otherwise is one of the tree that is neither.
pub proof fn law_only_files_and_directories_are_removed(
    tree: TreeEntry,
    r: Result<(), ExecutionDomainError>,
)
    requires
        call_ensures(validate_removal_tree, (&tree,), r),
    ensures
        r is Ok <==> forall|i: int|
            #![trigger entries_of(tree)[i]]
            0 <= i < entries_of(tree).len() ==> !entries_of(tree)[i].facts.is_symlink && (
            entries_of(tree)[i].facts.is_directory || entries_of(tree)[i].facts.is_file),
        r matches Err(e) ==> (e matches ExecutionDomainError::UnsafeEntry { path } && exists|i: int|
            #![trigger entries_of(tree)[i]]
            0 <= i < entries_of(tree).len() && entries_of(tree)[i].path@ == path@ && (entries_of(
                tree,
            )[i].facts.is_symlink || !entries_of(tree)[i].facts.is_directory && !entries_of(
                tree,
            )[i].facts.is_file)),
{
    if r is Err {
        let path = r->Err_0->UnsafeEntry_path;
        let i = choose|i: int|
            0 <= i < entries_of(tree).len() && !removable(
                (#[trigger] entries_of(tree)[i]).facts,
            ) && entries_of(tree)[i].path@ == path@ && all_removable(entries_of(tree).take(i));
        assert(entries_of(tree)[i].path@ == path@);
        assert(!removable(entries_of(tree)[i].facts));
    }
}

/// A tree whose own entry, or any subtree of it, is refused is refused.
pub proof fn law_subtrees_decide(
    tree: TreeEntry,
    i: int,
    whole: Result<(), ExecutionDomainError>,
    part: Result<(), ExecutionDomainError>,
)
    requires
        call_ensures(validate_removal_tree, (&tree,), whole),
        0 <= i < tree.children@.len(),
        call_ensures(validate_removal_tree, (&tree.children@[i],), part),
    ensures
        whole is Ok ==> part is Ok,
        tree.facts.is_symlink ==> whole is Err,
        !tree.facts.is_directory && !tree.facts.is_file ==> whole is Err,
{
    assert(entries_of(tree)[0] == tree);
    if whole is Ok {
        assert forall|k: int| 0 <= k < entries_of(tree.children@[i]).len() implies removable(
            (#[trigger] entries_of(tree.children@[i])[k]).facts,
        ) by {
            let at: int = lemma_subtree_entries(tree.children@, i, k);
            assert(entries_of(tree)[at + 1] == entries_of_all(tree.children@)[at]);
        }
    }
}

proof fn lemma_subtree_entries(trees: Seq<TreeEntry>, i: int, k: int) -> (at: int)
    requires
        0 <= i < trees.len(),
        0 <= k < entries_of(trees[i]).len(),
    ensures
        0 <= at < entries_of_all(trees).len(),
        entries_of_all(trees)[at] == entries_of(trees[i])[k],
    decreases trees.len(),
{
    let head = entries_of(trees[0]);
    let rest = entries_of_all(trees.drop_first());
    assert(entries_of_all(trees) == head + rest);
    if i == 0 {
        k
    } else {
        assert(trees.drop_first()[i - 1] == trees[i]);
        let at: int = lemma_subtree_entries(trees.drop_first(), i - 1, k);
        head.len() + at
    }
}

/// Within an attempt only the private directory for temporary files and the working
/// directory are opened as the attempt's own, and only the journal must be a plain file.
pub proof fn law_attempt_entries_are_told_apart(
    path: &[u8],
    file_name: &[u8],
    private_tmp: &[u8],
    work_dir: &[u8],
    r: AttemptEntryRule,
)
    requires
        call_ensures(attempt_entry_rule, (path, file_name, private_tmp, work_dir), r),
    ensures
        path@ == private_tmp@ ==> r is PrivateTmp,
        path@ == work_dir@ && host_path::components(work_dir@) != host_path::components(
            private_tmp@,
        ) ==> r is Work,
        r is PrivateTmp ==> host_path::components(path@) == host_path::components(private_tmp@),
        r is Work ==> host_path::components(path@) == host_path::components(work_dir@),
        r is Journal ==> file_name@ == vstd::utf8::encode_utf8("journal.json"@),
        r is Tree ==> file_name@ != vstd::utf8::encode_utf8("journal.json"@)
            && host_path::components(path@) != host_path::components(work_dir@)
            && host_path::components(path@) != host_path::components(private_tmp@),
{
}

/// A journal is a file itself, an attempt's directory belongs to the caller, and only
/// directories themselves are entered.
pub proof fn law_entries_are_what_they_are_used_for(
    path: &str,
    facts: EntryFacts,
    euid: u32,
    journal: Result<(), ExecutionDomainError>,
    owned: Result<(), ExecutionDomainError>,
    entered: bool,
)
    requires
        call_ensures(validate_journal_entry, (path, facts), journal),
        call_ensures(validate_owned_directory, (path, facts, euid), owned),
        call_ensures(descends, (facts,), entered),
    ensures
        journal is Ok <==> facts.is_file && !facts.is_symlink,
        owned is Ok <==> facts.uid == euid,
        entered <==> facts.is_directory && !facts.is_symlink,
        journal matches Err(e) ==> (e matches ExecutionDomainError::UnsafeEntry { path: at } && at@
            == path@),
        owned matches Err(e) ==> (e matches ExecutionDomainError::UnsafeEntry { path: at } && at@
            == path@),
{
}

/// A preparation opens its directory first and lists it next, then looks at each entry
/// that was listed, in order, before anything else that was left to do.
pub proof fn law_preparations_look_at_every_entry(
    path: FoundPath,
    facts: EntryFacts,
    euid: u32,
    entries: Vec<FoundPath>,
    broken: Option<IoFailure>,
    started: Result<OwnedPreparation, ExecutionDomainError>,
    opened: Result<OwnedPreparation, ExecutionDomainError>,
    listed: Result<OwnedPreparation, ExecutionDomainError>,
)
    requires
        call_ensures(OwnedPreparation::start, (path, facts, euid), started),
        facts.uid == euid,
        call_ensures(
            OwnedPreparation::advance,
            (started->Ok_0, PreparationOutcome::Done),
            opened,
        ),
        call_ensures(
            OwnedPreparation::advance,
            (opened->Ok_0, PreparationOutcome::Listed { entries, broken }),
            listed,
        ),
    ensures
        started is Ok && started->Ok_0@.len() == 1,
        started->Ok_0@[0] == (PreparationTask::<FoundPathView>::Restore { path: path@ }),
        opened is Ok && opened->Ok_0@.len() == 1,
        opened->Ok_0@[0] == (PreparationTask::<FoundPathView>::List { path: path@ }),
        listed is Ok,
        forall|i: int|
            0 <= i < entries@.len() ==> #[trigger] listed->Ok_0@[i] == (PreparationTask::<
                FoundPathView,
            >::Inspect { path: entries@[i]@ }),
        broken is None ==> listed->Ok_0@.len() == entries@.len(),
        broken matches Some(source) ==> listed->Ok_0@.len() == entries@.len() + 1
            && listed->Ok_0@[entries@.len() as int] == (PreparationTask::<FoundPathView>::Report {
            path: path@,
            source,
        }),
{
}

/// Directories of the caller's own are opened in turn, directories of others end the
/// preparation, and everything else is left alone.
pub proof fn law_preparations_open_own_directories_alone(
    p: OwnedPreparation,
    facts: EntryFacts,
    path: FoundPathView,
    r: Result<OwnedPreparation, ExecutionDomainError>,
)
    requires
        p@.len() > 0,
        p@[0] == (PreparationTask::<FoundPathView>::Inspect { path }),
        call_ensures(OwnedPreparation::advance, (p, PreparationOutcome::Facts(facts)), r),
    ensures
        facts.is_symlink || !facts.is_directory ==> (r matches Ok(q) && q@ == p@.skip(1)),
        !facts.is_symlink && facts.is_directory && facts.uid == p.owner() ==> (r matches Ok(q) && q@
            == seq![PreparationTask::<FoundPathView>::Restore { path }] + p@.skip(1)),
        !facts.is_symlink && facts.is_directory && facts.uid != p.owner() ==> (r matches Err(
            ExecutionDomainError::UnsafeEntry { path: at },
        ) && at@ == path.shown),
{
    if facts.is_symlink || !facts.is_directory {
        assert(Seq::<PreparationTask<FoundPathView>>::empty() + p@.skip(1) =~= p@.skip(1));
    }
}

/// Any failure ends a preparation and is told with the path it is about.
pub proof fn law_preparations_end_with_a_failure(
    p: OwnedPreparation,
    source: IoFailure,
    r: Result<OwnedPreparation, ExecutionDomainError>,
)
    requires
        p@.len() > 0,
        !(p@[0] is Report),
        call_ensures(OwnedPreparation::advance, (p, PreparationOutcome::Failed(source)), r),
    ensures
        r matches Err(ExecutionDomainError::Io { path: at, source: why, .. }) && why == source
            && at@ == (match p@[0] {
            PreparationTask::Restore { path } => path.shown,
            PreparationTask::List { path } => path.shown,
            PreparationTask::Inspect { path } => path.shown,
            PreparationTask::Report { path, .. } => path.shown,
        }),
{
}

/// A listing that broke off is reported once the entries before the break were seen.
pub proof fn law_broken_listings_are_reported(
    p: OwnedPreparation,
    path: FoundPathView,
    source: IoFailure,
    r: Result<OwnedPreparation, ExecutionDomainError>,
)
    requires
        p@.len() > 0,
        p@[0] == (PreparationTask::<FoundPathView>::Report { path, source }),
        call_ensures(OwnedPreparation::advance, (p, PreparationOutcome::Done), r),
    ensures
        r matches Err(ExecutionDomainError::Io { path: at, source: why, .. }) && why == source
            && at@ == path.shown,
{
}

/// A path that is text is given back as that text, byte for byte.
pub proof fn law_text_paths_keep_their_bytes(
    path: &[u8],
    displayed: &str,
    s: String,
    r: Result<String, ExecutionDomainError>,
)
    requires
        call_ensures(utf8_path, (path, displayed), r),
    ensures
        path@ == vstd::utf8::encode_utf8(s@) ==> (r matches Ok(t) && vstd::utf8::encode_utf8(t@)
            == path@),
        !vstd::utf8::valid_utf8(path@) ==> (r matches Err(
            ExecutionDomainError::UnsafeRoot { path: at, .. },
        ) && at@ == displayed@),
{
    vstd::utf8::encode_utf8_valid_utf8(s@);
}

} // verus!
