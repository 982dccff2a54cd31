//! Control groups: what their files mean, and the order in which they are
//! created, emptied and removed.

use vstd::prelude::*;

use crate::contracts::{FailureCategory, Stage};
use crate::environment::Environment;
use crate::error;
use crate::error::ExecutionDomainError;
use crate::linux::dirfd::{Identity, Metadata, S_IFDIR, S_IFMT, S_IFREG};
use crate::text;

verus! {

/// What is written to hand the required controllers down.
pub const ENABLE: &'static str = "+cpu +memory +pids +io";

/// The largest control file that is read, in bytes.
pub const READ_LIMIT: u64 = 1_048_576;

/// The largest number of groups that one traversal opens.
pub const MAX_GROUPS: usize = 4096;

/// The number of levels that one traversal opens.
pub const MAX_DEPTH: usize = 64;

/// The largest number of directory entries that one traversal reads.
pub const MAX_ENTRIES: usize = 524_288;

/// A failure of the control group stage.
pub open spec fn cgroup_error(category: FailureCategory) -> ExecutionDomainError {
    error::backend(Stage::Cgroup, category)
}

/// Reports a failure of the control group stage.
pub fn failure(category: FailureCategory) -> (e: ExecutionDomainError)
    ensures
        e == cgroup_error(category),
{
    error::backend_failure(Stage::Cgroup, category)
}

/// Reports a failed system call of the control group stage.
pub fn io_failure(errno: Option<i32>) -> (e: ExecutionDomainError)
    ensures
        e == (ExecutionDomainError::Backend {
            attempt: None,
            stage: Stage::Cgroup,
            category: FailureCategory::Io,
            errno,
        }),
{
    error::backend_io_failure(Stage::Cgroup, errno)
}

/// What a traversal may still open and read.
pub struct TraversalBudget {
    groups: usize,
    entries: usize,
}

impl TraversalBudget {
    /// The groups that may still be opened.
    pub closed spec fn groups_left(self) -> nat {
        self.groups as nat
    }

    /// The entries that may still be read.
    pub closed spec fn entries_left(self) -> nat {
        self.entries as nat
    }

    /// The budget of a new traversal, whose first group is already open.
    pub fn new() -> (r: TraversalBudget)
        ensures
            r.groups_left() == MAX_GROUPS - 1,
            r.entries_left() == MAX_ENTRIES,
    {
        TraversalBudget { groups: MAX_GROUPS - 1, entries: MAX_ENTRIES }
    }

    /// Pays for reading one directory entry.
    pub fn entry(&mut self) -> (r: Result<(), ExecutionDomainError>)
        ensures
            final(self).groups_left() == old(self).groups_left(),
            match r {
                Ok(_) => old(self).entries_left() > 0 && final(self).entries_left()
                    == old(self).entries_left() - 1,
                Err(e) => old(self).entries_left() == 0 && final(self).entries_left() == 0 && e
                    == cgroup_error(FailureCategory::Unavailable),
            },
    {
        match self.entries.checked_sub(1) {
            Some(left) => {
                self.entries = left;
                Ok(())
            },
            None => Err(failure(FailureCategory::Unavailable)),
        }
    }

    /// Pays for opening one group at the given depth.
    pub fn child(&mut self, depth: usize) -> (r: Result<(), ExecutionDomainError>)
        ensures
            final(self).entries_left() == old(self).entries_left(),
            match r {
                Ok(_) => depth < MAX_DEPTH && old(self).groups_left() > 0
                    && final(self).groups_left() == old(self).groups_left() - 1,
                Err(e) => (depth >= MAX_DEPTH || old(self).groups_left() == 0)
                    && final(self).groups_left() == old(self).groups_left() && e == cgroup_error(
                    FailureCategory::Unavailable,
                ),
            },
    {
        if depth >= MAX_DEPTH {
            return Err(failure(FailureCategory::Unavailable));
        }
        match self.groups.checked_sub(1) {
            Some(left) => {
                self.groups = left;
                Ok(())
            },
            None => Err(failure(FailureCategory::Unavailable)),
        }
    }
}

/// A depth-first walk over a hierarchy of groups. Every group is paid for before
/// it is opened, and every entry before it is read.
pub struct Traversal {
    budget: TraversalBudget,
    opened: usize,
    depth: usize,
}

impl Traversal {
    #[verifier::type_invariant]
    spec fn inv(self) -> bool {
        &&& self.opened + self.budget.groups_left() == MAX_GROUPS
        &&& self.opened >= 1
        &&& self.depth < MAX_DEPTH
        &&& self.depth < self.opened
    }

    /// The groups that were opened so far.
    pub closed spec fn opened_so_far(self) -> nat {
        self.opened as nat
    }

    /// The depth of the group that is being read; the first group has depth zero.
    pub closed spec fn current_depth(self) -> nat {
        self.depth as nat
    }

    /// The entries that may still be read.
    pub closed spec fn entries_left(self) -> nat {
        self.budget.entries_left()
    }

    /// Begins a walk at a group that is already open.
    pub fn start() -> (r: Traversal)
        ensures
            r.opened_so_far() == 1,
            r.current_depth() == 0,
            r.entries_left() == MAX_ENTRIES,
    {
        Traversal { budget: TraversalBudget::new(), opened: 1, depth: 0 }
    }

    /// Pays for the next entry of the current group.
    pub fn next_entry(self) -> (r: Result<Traversal, ExecutionDomainError>)
        ensures
            match r {
                Ok(next) => self.entries_left() > 0 && next.entries_left() == self.entries_left()
                    - 1 && next.opened_so_far() == self.opened_so_far() && next.current_depth()
                    == self.current_depth(),
                Err(e) => self.entries_left() == 0 && e == cgroup_error(
                    FailureCategory::Unavailable,
                ),
            },
    {
        proof {
            use_type_invariant(&self);
        }
        let opened: usize = self.opened;
        let depth: usize = self.depth;
        let mut budget = self.budget;
        match budget.entry() {
            Ok(_) => Ok(Traversal { budget, opened, depth }),
            Err(e) => Err(e),
        }
    }

    /// Pays for a group below the current one and goes into it.
    pub fn enter(self) -> (r: Result<Traversal, ExecutionDomainError>)
        ensures
            match r {
                Ok(next) => next.opened_so_far() == self.opened_so_far() + 1 && next.opened_so_far()
                    <= MAX_GROUPS && next.current_depth() == self.current_depth() + 1
                    && next.current_depth() < MAX_DEPTH && next.entries_left()
                    == self.entries_left(),
                Err(e) => (self.current_depth() + 1 >= MAX_DEPTH || self.opened_so_far()
                    == MAX_GROUPS) && e == cgroup_error(FailureCategory::Unavailable),
            },
    {
        proof {
            use_type_invariant(&self);
        }
        let opened: usize = self.opened;
        let depth: usize = self.depth;
        let mut budget = self.budget;
        match budget.child(depth + 1) {
            Ok(_) => Ok(Traversal { budget, opened: opened + 1, depth: depth + 1 }),
            Err(e) => Err(e),
        }
    }

    /// Leaves the current group. Nothing is returned where it was the first.
    pub fn leave(self) -> (r: Option<Traversal>)
        ensures
            match r {
                Some(next) => self.current_depth() > 0 && next.current_depth()
                    == self.current_depth() - 1 && next.opened_so_far() == self.opened_so_far()
                    && next.entries_left() == self.entries_left(),
                None => self.current_depth() == 0,
            },
    {
        proof {
            use_type_invariant(&self);
        }
        if self.depth == 0 {
            return None;
        }
        let opened: usize = self.opened;
        let depth: usize = self.depth;
        Some(Traversal { budget: self.budget, opened, depth: depth - 1 })
    }
}

/// A step in the creation of an attempt's group.
#[derive(Debug, PartialEq, Eq)]
pub enum CgroupOperation {
    CreateAttempt,
    WriteLimit(String, String),
    VerifyLimits,
    EnableControllers,
    CreateDomain,
    OpenMembership,
}

/// Whether the steps create the group, write every limit, read the limits back,
/// and only afterwards let processes in.
pub open spec fn is_creation_order(
    operations: Seq<CgroupOperation>,
    writes: Seq<(String, String)>,
) -> bool {
    let n = writes.len() as int;
    &&& operations.len() == n + 5
    &&& operations[0] == CgroupOperation::CreateAttempt
    &&& forall|i: int|
        0 <= i < n ==> (#[trigger] operations[i + 1] matches CgroupOperation::WriteLimit(name, value)
            && name@ == writes[i].0@ && value@ == writes[i].1@)
    &&& operations[n + 1] == CgroupOperation::VerifyLimits
    &&& operations[n + 2] == CgroupOperation::EnableControllers
    &&& operations[n + 3] == CgroupOperation::CreateDomain
    &&& operations[n + 4] == CgroupOperation::OpenMembership
}

/// The steps that create an attempt's group with the given limits.
pub fn creation_operations(writes: &[(String, String)]) -> (operations: Vec<CgroupOperation>)
    ensures
        is_creation_order(operations@, writes@),
{
    let mut operations: Vec<CgroupOperation> = Vec::new();
    operations.push(CgroupOperation::CreateAttempt);
    for i in 0..writes.len()
        invariant
            operations@.len() == i + 1,
            operations@[0] == CgroupOperation::CreateAttempt,
            forall|k: int|
                0 <= k < i ==> (#[trigger] operations@[k + 1] matches CgroupOperation::WriteLimit(
                    name,
                    value,
                ) && name@ == writes@[k].0@ && value@ == writes@[k].1@),
    {
        let ghost before = operations@;
        operations.push(CgroupOperation::WriteLimit(writes[i].0.clone(), writes[i].1.clone()));
        assert forall|k: int| 0 <= k < i + 1 implies (
        #[trigger] operations@[k + 1] matches CgroupOperation::WriteLimit(name, value) && name@
            == writes@[k].0@ && value@ == writes@[k].1@) by {
            if k < i {
                assert(operations@[k + 1] == before[k + 1]);
            }
        }
    }
    operations.push(CgroupOperation::VerifyLimits);
    operations.push(CgroupOperation::EnableControllers);
    operations.push(CgroupOperation::CreateDomain);
    operations.push(CgroupOperation::OpenMembership);
    operations
}

/// No process is let in before every limit is written and read back: whatever
/// writes a limit or verifies the limits comes before the domain and its
/// membership file.
pub proof fn law_limits_precede_admission(
    operations: Seq<CgroupOperation>,
    writes: Seq<(String, String)>,
    limit: int,
    admission: int,
)
    requires
        is_creation_order(operations, writes),
        0 <= limit < operations.len(),
        0 <= admission < operations.len(),
        operations[limit] is WriteLimit || operations[limit] is VerifyLimits,
        operations[admission] is CreateDomain || operations[admission] is OpenMembership,
    ensures
        limit < admission,
{
    let n = writes.len() as int;
    if 1 <= admission <= n {
        assert(operations[(admission - 1) + 1] is WriteLimit);
    }
}

/// Whether every controller that a domain needs is among the words.
pub open spec fn has_controllers(available: Seq<Seq<char>>) -> bool {
    &&& available.contains("cpu"@)
    &&& available.contains("memory"@)
    &&& available.contains("pids"@)
    &&& available.contains("io"@)
}

/// Whether a word is in the list.
pub fn has_word(list: &Vec<Vec<char>>, word: &str) -> (r: bool)
    ensures
        r == text::views(list@).contains(word@),
{
    for i in 0..list.len()
        invariant
            forall|k: int| 0 <= k < i ==> text::views(list@)[k] != word@,
    {
        if text::text_is(list[i].as_slice(), word) {
            assert(text::views(list@)[i as int] == word@);
            return true;
        }
    }
    false
}

/// Accepts a list of controllers only if it has all that a domain needs.
pub fn validate_controllers(value: &str) -> (r: Result<(), ExecutionDomainError>)
    ensures
        match r {
            Ok(_) => has_controllers(text::words(value@)),
            Err(e) => !has_controllers(text::words(value@)) && e == cgroup_error(
                FailureCategory::Unsupported,
            ),
        },
{
    let s: Vec<char> = text::chars(value);
    let available: Vec<Vec<char>> = text::fields(s.as_slice());
    if has_word(&available, "cpu") && has_word(&available, "memory") && has_word(&available, "pids")
        && has_word(&available, "io") {
        Ok(())
    } else {
        Err(failure(FailureCategory::Unsupported))
    }
}

/// The process that a word names, if it is a positive process number.
pub open spec fn process_number(word: Seq<char>) -> Option<nat> {
    match text::unsigned(word, i32::MAX as nat) {
        Some(n) => if n > 0 {
            Some(n)
        } else {
            None
        },
        None => None,
    }
}

/// The number of members that a text lists: `None` where some word is not a
/// positive process number.
pub open spec fn member_count(members: Seq<char>) -> Option<nat> {
    let words = text::words(members);
    if forall|i: int| 0 <= i < words.len() ==> process_number(#[trigger] words[i]) is Some {
        Some(words.len())
    } else {
        None
    }
}

/// Reads the members of a group. Every word must be a positive process number.
pub fn parse_members(value: &str) -> (r: Result<Vec<i32>, ExecutionDomainError>)
    ensures
        ({
            let words = text::words(value@);
            match r {
                Ok(members) => members@.len() == words.len() && forall|i: int|
                    0 <= i < words.len() ==> process_number(#[trigger] words[i]) == Some(
                        members@[i] as nat,
                    ) && members@[i] > 0,
                Err(e) => e == cgroup_error(FailureCategory::IdentityMismatch) && exists|i: int|
                    0 <= i < words.len() && process_number(#[trigger] words[i]) is None,
            }
        }),
        match r {
            Ok(members) => member_count(value@) == Some(members@.len()),
            Err(_) => member_count(value@) is None,
        },
{
    let s: Vec<char> = text::chars(value);
    let list: Vec<Vec<char>> = text::fields(s.as_slice());
    let ghost words = text::words(value@);
    let mut members: Vec<i32> = Vec::new();
    assert(text::views(list@).len() == list@.len());
    for i in 0..list.len()
        invariant
            words == text::words(value@),
            text::views(list@) == words,
            members@.len() == i,
            forall|k: int|
                0 <= k < i ==> process_number(#[trigger] words[k]) == Some(members@[k] as nat)
                    && members@[k] > 0,
    {
        assert(words[i as int] == list@[i as int]@);
        assert(words.len() == list@.len());
        match text::number(list[i].as_slice(), i32::MAX as u64) {
            Some(n) => {
                if n == 0 {
                    return Err(failure(FailureCategory::IdentityMismatch));
                }
                let ghost before = members@;
                members.push(n as i32);
                assert forall|k: int| 0 <= k < i + 1 implies process_number(#[trigger] words[k])
                    == Some(members@[k] as nat) && members@[k] > 0 by {
                    if k < i {
                        assert(members@[k] == before[k]);
                    }
                }
            },
            None => {
                return Err(failure(FailureCategory::IdentityMismatch));
            },
        }
    }
    Ok(members)
}

/// What the lines up to a point say about population: nothing yet, an answer, or
/// nonsense.
#[derive(Clone, Copy, PartialEq, Eq, Structural)]
pub enum Population {
    Unknown,
    Known(bool),
    Malformed,
}

/// Takes one more line into account.
pub open spec fn population_after(before: Population, line: Seq<char>) -> Population {
    let words = text::words(line);
    if before == Population::Malformed || words.len() == 0 || words[0] != "populated"@ {
        before
    } else if before != Population::Unknown || words.len() != 2 {
        Population::Malformed
    } else if words[1] == "0"@ {
        Population::Known(false)
    } else if words[1] == "1"@ {
        Population::Known(true)
    } else {
        Population::Malformed
    }
}

/// What the lines together say about population.
pub open spec fn population_of(lines: Seq<Seq<char>>) -> Population
    decreases lines.len(),
{
    if lines.len() == 0 {
        Population::Unknown
    } else {
        population_after(population_of(lines.drop_last()), lines.last())
    }
}

/// Whether a group or a group below it holds a process. The file must say so on
/// exactly one line.
pub fn parse_populated(value: &str) -> (r: Result<bool, ExecutionDomainError>)
    ensures
        match r {
            Ok(populated) => population_of(text::lines(value@)) == Population::Known(populated),
            Err(e) => !(population_of(text::lines(value@)) is Known) && e == cgroup_error(
                FailureCategory::IdentityMismatch,
            ),
        },
{
    let s: Vec<char> = text::chars(value);
    let list: Vec<Vec<char>> = text::line_list(s.as_slice());
    let ghost all = text::lines(value@);
    let mut seen: Population = Population::Unknown;
    assert(text::views(list@).len() == list@.len());
    assert(all.take(0) =~= Seq::empty());
    for i in 0..list.len()
        invariant
            all == text::lines(value@),
            text::views(list@) == all,
            seen == population_of(all.take(i as int)),
    {
        proof {
            assert(all.take(i + 1).drop_last() =~= all.take(i as int));
            assert(all.take(i + 1).last() == list@[i as int]@);
        }
        let words: Vec<Vec<char>> = text::fields(list[i].as_slice());
        let ghost w = text::words(list@[i as int]@);
        assert(w.len() == words@.len());
        if words.len() > 0 {
            assert(w[0] == words@[0]@);
            if seen != Population::Malformed && text::text_is(words[0].as_slice(), "populated") {
                if seen != Population::Unknown || words.len() != 2 {
                    seen = Population::Malformed;
                } else {
                    assert(w[1] == words@[1]@);
                    if text::text_is(words[1].as_slice(), "0") {
                        seen = Population::Known(false);
                    } else if text::text_is(words[1].as_slice(), "1") {
                        seen = Population::Known(true);
                    } else {
                        seen = Population::Malformed;
                    }
                }
            }
        }
    }
    assert(all.take(all.len() as int) =~= all);
    match seen {
        Population::Known(populated) => Ok(populated),
        _ => Err(failure(FailureCategory::IdentityMismatch)),
    }
}

/// What reading a file of a group gave.
pub type FileText = Result<String, ExecutionDomainError>;

/// Whether a group holds a process, by its files: it says so, or it lists one. Its list
/// counts only where it says that it holds none, and files that make no sense are an
/// error, never a proof of emptiness.
pub open spec fn busy_by(events: FileText, members: FileText) -> Result<bool, ExecutionDomainError> {
    match said_busy(events) {
        Ok(false) => listed_busy(members),
        said => said,
    }
}

/// Whether a group says that it holds a process.
pub open spec fn said_busy(events: FileText) -> Result<bool, ExecutionDomainError> {
    match events {
        Err(e) => Err(e),
        Ok(read) => match population_of(text::lines(read@)) {
            Population::Known(populated) => Ok(populated),
            _ => Err(cgroup_error(FailureCategory::IdentityMismatch)),
        },
    }
}

/// Whether a group lists a process.
pub open spec fn listed_busy(members: FileText) -> Result<bool, ExecutionDomainError> {
    match members {
        Err(e) => Err(e),
        Ok(read) => match member_count(read@) {
            Some(n) => Ok(n > 0),
            None => Err(cgroup_error(FailureCategory::IdentityMismatch)),
        },
    }
}

/// Whether a group says that it holds a process.
pub fn says_busy(events: FileText) -> (r: Result<bool, ExecutionDomainError>)
    ensures
        r == said_busy(events),
{
    match events {
        Err(e) => Err(e),
        Ok(read) => parse_populated(read.as_str()),
    }
}

/// Whether a group lists a process.
pub fn lists_busy(members: FileText) -> (r: Result<bool, ExecutionDomainError>)
    ensures
        r == listed_busy(members),
{
    match members {
        Err(e) => Err(e),
        Ok(read) => match parse_members(read.as_str()) {
            Ok(list) => Ok(list.len() > 0),
            Err(e) => Err(e),
        },
    }
}

/// Whether a point in time lies behind the deadline, where there is one.
pub open spec fn late(at: u128, deadline: Option<u128>) -> bool {
    deadline matches Some(limit) && at >= limit
}

fn is_late(at: u128, deadline: Option<u128>) -> (r: bool)
    ensures
        r == late(at, deadline),
{
    match deadline {
        Some(limit) => at >= limit,
        None => false,
    }
}

/// What reading the files of a group gives, and when it begins and ends.
pub struct GroupReading {
    pub before: u128,
    pub events: FileText,
    pub members: FileText,
    pub after: u128,
}

/// What a look at a group says of the hierarchy, where the look decides: that it began
/// too late, that the group cannot be judged, or that it is busy. A look at an idle
/// group decides only if it is the last.
pub open spec fn look(reading: GroupReading, last: bool, deadline: Option<u128>) -> Option<
    Result<bool, ExecutionDomainError>,
> {
    if late(reading.before, deadline) {
        Some(Err(cgroup_error(FailureCategory::Timeout)))
    } else {
        match busy_by(reading.events, reading.members) {
            Err(e) => Some(Err(e)),
            Ok(busy) => if !busy && !last {
                None
            } else if late(reading.after, deadline) {
                Some(Err(cgroup_error(FailureCategory::Timeout)))
            } else {
                Some(Ok(!busy))
            },
        }
    }
}

/// Whether a hierarchy is empty, by looks at its groups from the given one on and a last
/// look at the first. The first look that decides does so.
pub open spec fn empty_from(
    groups: Seq<GroupReading>,
    from: int,
    top: GroupReading,
    deadline: Option<u128>,
) -> Result<bool, ExecutionDomainError>
    decreases groups.len() - from,
{
    if from < 0 || from >= groups.len() {
        look(top, true, deadline)->0
    } else {
        match look(groups[from], false, deadline) {
            Some(decided) => decided,
            None => empty_from(groups, from + 1, top, deadline),
        }
    }
}

/// Looks at every group of a hierarchy, and a last time at the first: it is empty only
/// if none of its groups says or lists otherwise, and the first still says so after all
/// of them were read. Nothing is read that does not matter any more.
#[derive(Debug, Clone, Copy, PartialEq, Eq, Structural)]
pub struct EmptyScan {
    /// The number of groups.
    pub groups: usize,
    /// The group that is looked at; the number of groups stands for the last look.
    pub at: usize,
    /// Whether its members are read next, or else what it says.
    pub members: bool,
    pub deadline: Option<u128>,
}

/// What follows a file of a hierarchy.
pub enum ScanStep {
    Continue(EmptyScan),
    Done(Result<bool, ExecutionDomainError>),
}

impl EmptyScan {
    /// Begins with the first group.
    pub fn begin(groups: usize, deadline: Option<u128>) -> (r: EmptyScan)
        ensures
            r == (EmptyScan { groups, at: 0, members: false, deadline }),
    {
        EmptyScan { groups, at: 0, members: false, deadline }
    }

    /// Refuses to begin a look behind the deadline.
    pub fn check_begin(&self, now: u128) -> (r: Result<(), ExecutionDomainError>)
        ensures
            r == (if !self.members && late(now, self.deadline) {
                Err::<(), ExecutionDomainError>(cgroup_error(FailureCategory::Timeout))
            } else {
                Ok(())
            }),
    {
        if !self.members && is_late(now, self.deadline) {
            return Err(failure(FailureCategory::Timeout));
        }
        Ok(())
    }

    /// What follows a file that was read until the given time.
    pub open spec fn after(self, read: FileText, now: u128) -> ScanStep {
        let busy = if self.members {
            listed_busy(read)
        } else {
            said_busy(read)
        };
        match busy {
            Err(e) => ScanStep::Done(Err(e)),
            Ok(false) if !self.members => ScanStep::Continue(EmptyScan { members: true, ..self }),
            Ok(false) if self.at < self.groups => ScanStep::Continue(
                EmptyScan { at: (self.at + 1) as usize, members: false, ..self },
            ),
            Ok(held) => ScanStep::Done(
                if late(now, self.deadline) {
                    Err(cgroup_error(FailureCategory::Timeout))
                } else {
                    Ok(!held)
                },
            ),
        }
    }

    /// Goes on from a file that was read until the given time.
    pub fn advance(self, read: FileText, now: u128) -> (r: ScanStep)
        ensures
            r == self.after(read, now),
    {
        let busy: Result<bool, ExecutionDomainError> = if self.members {
            lists_busy(read)
        } else {
            says_busy(read)
        };
        match busy {
            Err(e) => ScanStep::Done(Err(e)),
            Ok(held) => {
                if !held && !self.members {
                    return ScanStep::Continue(
                        EmptyScan {
                            groups: self.groups,
                            at: self.at,
                            members: true,
                            deadline: self.deadline,
                        },
                    );
                }
                if !held && self.at < self.groups {
                    return ScanStep::Continue(
                        EmptyScan {
                            groups: self.groups,
                            at: self.at + 1,
                            members: false,
                            deadline: self.deadline,
                        },
                    );
                }
                if is_late(now, self.deadline) {
                    return ScanStep::Done(Err(failure(FailureCategory::Timeout)));
                }
                ScanStep::Done(Ok(!held))
            },
        }
    }
}

/// Looking at a hierarchy file by file comes to what the files of all groups say of it:
/// a look that begins in time either decides as it should, or leaves the decision to the
/// looks after it.
pub proof fn law_scans_judge_the_hierarchy(
    scan: EmptyScan,
    groups: Seq<GroupReading>,
    top: GroupReading,
)
    requires
        scan.groups == groups.len(),
        scan.at <= scan.groups,
        !scan.members,
    ensures
        ({
            let reading = if scan.at < scan.groups {
                groups[scan.at as int]
            } else {
                top
            };
            let whole = empty_from(groups, scan.at as int, top, scan.deadline);
            if late(reading.before, scan.deadline) {
                whole == Err::<bool, ExecutionDomainError>(cgroup_error(FailureCategory::Timeout))
            } else {
                match scan.after(reading.events, reading.after) {
                    ScanStep::Done(decided) => whole == decided,
                    ScanStep::Continue(next) => next == (EmptyScan { members: true, ..scan })
                        && match next.after(reading.members, reading.after) {
                        ScanStep::Done(decided) => whole == decided,
                        ScanStep::Continue(following) => {
                            &&& following == (EmptyScan { at: (scan.at + 1) as usize, ..scan })
                            &&& following.at <= scan.groups
                            &&& whole == empty_from(
                                groups,
                                following.at as int,
                                top,
                                scan.deadline,
                            )
                        },
                    },
                }
            }
        }),
{
}

/// A hierarchy that was judged empty has no group that was judged busy or could not be
/// judged.
pub proof fn law_empty_hierarchies_hold_no_process(
    groups: Seq<GroupReading>,
    from: int,
    top: GroupReading,
    deadline: Option<u128>,
    i: int,
)
    requires
        0 <= from <= i < groups.len(),
        empty_from(groups, from, top, deadline) == Ok::<bool, ExecutionDomainError>(true),
    ensures
        busy_by(groups[i].events, groups[i].members) == Ok::<bool, ExecutionDomainError>(false),
        busy_by(top.events, top.members) == Ok::<bool, ExecutionDomainError>(false),
    decreases groups.len() - from,
{
    if from < i {
        law_empty_hierarchies_hold_no_process(groups, from + 1, top, deadline, i);
    } else if from + 1 < groups.len() {
        law_empty_hierarchies_hold_no_process(groups, from + 1, top, deadline, from + 1);
    }
}

/// Whether two texts hold the same words in the same order.
pub fn same_words(a: &str, b: &str) -> (r: bool)
    ensures
        r == (text::words(a@) == text::words(b@)),
{
    let a_chars: Vec<char> = text::chars(a);
    let b_chars: Vec<char> = text::chars(b);
    let left: Vec<Vec<char>> = text::fields(a_chars.as_slice());
    let right: Vec<Vec<char>> = text::fields(b_chars.as_slice());
    let ghost x = text::words(a@);
    let ghost y = text::words(b@);
    assert(x.len() == left@.len() && y.len() == right@.len());
    if left.len() != right.len() {
        return false;
    }
    for i in 0..left.len()
        invariant
            x == text::words(a@),
            y == text::words(b@),
            text::views(left@) == x,
            text::views(right@) == y,
            left@.len() == right@.len(),
            forall|k: int| 0 <= k < i ==> x[k] == y[k],
    {
        assert(x[i as int] == left@[i as int]@);
        assert(y[i as int] == right@[i as int]@);
        if !text::same(left[i].as_slice(), right[i].as_slice()) {
            return false;
        }
    }
    assert(x =~= y);
    true
}

/// The settings that the words write as `name=value`. There are none where a word
/// has no equals sign or a name occurs twice.
pub open spec fn settings(words: Seq<Seq<char>>) -> Option<Map<Seq<char>, Seq<char>>>
    decreases words.len(),
{
    if words.len() == 0 {
        Some(Map::empty())
    } else {
        match (settings(words.drop_last()), text::cut_once(words.last(), "="@)) {
            (Some(before), Some((name, value))) => if before.contains_key(name) {
                None
            } else {
                Some(before.insert(name, value))
            },
            _ => None,
        }
    }
}

/// The device and the settings of a line of throughput limits.
pub open spec fn io_line(line: Seq<char>) -> Option<(Seq<char>, Map<Seq<char>, Seq<char>>)> {
    let words = text::words(line);
    if words.len() == 0 {
        None
    } else {
        match settings(words.drop_first()) {
            Some(values) => Some((words[0], values)),
            None => None,
        }
    }
}

fn read_io_line(line: &[char]) -> (r: Option<(Vec<char>, Environment)>)
    ensures
        match r {
            Some((device, values)) => io_line(line@) == Some((device@, values@)),
            None => io_line(line@) is None,
        },
{
    let list: Vec<Vec<char>> = text::fields(line);
    let ghost words = text::words(line@);
    assert(words.len() == list@.len());
    if list.len() == 0 {
        return None;
    }
    let ghost rest = words.drop_first();
    let mut values: Environment = Environment::new();
    let equals: Vec<char> = text::chars("=");
    assert(rest.take(0) =~= Seq::empty());
    for i in 1..list.len()
        invariant
            words == text::words(line@),
            text::views(list@) == words,
            words.len() == list@.len() > 0,
            rest == words.drop_first(),
            equals@ == "="@,
            settings(rest.take(i - 1)) == Some(values@),
    {
        assert(rest.take(i as int).drop_last() =~= rest.take(i - 1));
        assert(rest.take(i as int).last() == list@[i as int]@);
        let cut = text::split_once(list[i].as_slice(), equals.as_slice());
        let accepted: bool = match &cut {
            Some((name, value)) => {
                let name: String = text::string(name.as_slice());
                match values.get(name.as_str()) {
                    Some(_) => false,
                    None => true,
                }
            },
            None => false,
        };
        if !accepted {
            proof {
                lemma_settings_stay_refused(rest, i as int);
            }
            return None;
        }
        match cut {
            Some((name, value)) => {
                values.insert(text::string(name.as_slice()), text::string(value.as_slice()));
            },
            None => {},
        }
    }
    assert(rest.take(rest.len() as int) =~= rest);
    let device: Vec<char> = text::part(list[0].as_slice(), 0, list[0].len());
    assert(device@ =~= words[0]) by {
        assert(words[0] == list@[0]@);
    }
    Some((device, values))
}

/// Once some words have no settings, more words do not give them any.
proof fn lemma_settings_stay_refused(words: Seq<Seq<char>>, n: int)
    requires
        0 <= n <= words.len(),
        settings(words.take(n)) is None,
    ensures
        settings(words) is None,
    decreases words.len() - n,
{
    if n < words.len() {
        assert(words.take(n + 1).drop_last() =~= words.take(n));
        lemma_settings_stay_refused(words, n + 1);
    } else {
        assert(words.take(n) =~= words);
    }
}

/// What the lines up to a point say about a device.
pub ghost enum DeviceMatch {
    Absent,
    Matched(bool),
    Malformed,
}

/// Takes one more line into account. Blank lines say nothing.
pub open spec fn device_after(
    before: DeviceMatch,
    line: Seq<char>,
    device: Seq<char>,
    wanted: Map<Seq<char>, Seq<char>>,
) -> DeviceMatch {
    if before is Malformed || text::trimmed(line).len() == 0 {
        before
    } else {
        match io_line(line) {
            None => DeviceMatch::Malformed,
            Some((current, values)) => if current != device {
                before
            } else if before is Matched {
                DeviceMatch::Malformed
            } else {
                DeviceMatch::Matched(values == wanted)
            },
        }
    }
}

/// What the lines together say about a device.
pub open spec fn device_match(
    lines: Seq<Seq<char>>,
    device: Seq<char>,
    wanted: Map<Seq<char>, Seq<char>>,
) -> DeviceMatch
    decreases lines.len(),
{
    if lines.len() == 0 {
        DeviceMatch::Absent
    } else {
        device_after(
            device_match(lines.drop_last(), device, wanted),
            lines.last(),
            device,
            wanted,
        )
    }
}

/// Whether the throughput limits that were read hold the expected line: `None`
/// where either makes no sense.
pub open spec fn io_limit(actual: Seq<char>, expected: Seq<char>) -> Option<bool> {
    match io_line(expected) {
        None => None,
        Some((device, wanted)) => match device_match(text::lines(actual), device, wanted) {
            DeviceMatch::Malformed => None,
            DeviceMatch::Absent => Some(false),
            DeviceMatch::Matched(same) => Some(same),
        },
    }
}

proof fn lemma_malformed_stays(
    lines: Seq<Seq<char>>,
    n: int,
    device: Seq<char>,
    wanted: Map<Seq<char>, Seq<char>>,
)
    requires
        0 <= n <= lines.len(),
        device_match(lines.take(n), device, wanted) is Malformed,
    ensures
        device_match(lines, device, wanted) is Malformed,
    decreases lines.len() - n,
{
    if n < lines.len() {
        assert(lines.take(n + 1).drop_last() =~= lines.take(n));
        lemma_malformed_stays(lines, n + 1, device, wanted);
    } else {
        assert(lines.take(n) =~= lines);
    }
}

/// Whether the throughput limits that were read hold the expected line. The
/// settings of a device may stand in any order; a device may stand on one line
/// only.
pub fn io_limit_matches(actual: &str, expected: &str) -> (r: Result<bool, ExecutionDomainError>)
    ensures
        match r {
            Ok(same) => io_limit(actual@, expected@) == Some(same),
            Err(e) => io_limit(actual@, expected@) is None && e == cgroup_error(
                FailureCategory::IdentityMismatch,
            ),
        },
{
    let expected_chars: Vec<char> = text::chars(expected);
    let (device, wanted): (Vec<char>, Environment) = match read_io_line(expected_chars.as_slice()) {
        Some(line) => line,
        None => {
            return Err(failure(FailureCategory::IdentityMismatch));
        },
    };
    let actual_chars: Vec<char> = text::chars(actual);
    let list: Vec<Vec<char>> = text::line_list(actual_chars.as_slice());
    let ghost all = text::lines(actual@);
    let mut matched: Option<bool> = None;
    assert(text::views(list@).len() == list@.len());
    assert(all.take(0) =~= Seq::empty());
    for i in 0..list.len()
        invariant
            all == text::lines(actual@),
            text::views(list@) == all,
            all.len() == list@.len(),
            io_line(expected@) == Some((device@, wanted@)),
            device_match(all.take(i as int), device@, wanted@) == (match matched {
                Some(same) => DeviceMatch::Matched(same),
                None => DeviceMatch::Absent,
            }),
    {
        proof {
            assert(all.take(i + 1).drop_last() =~= all.take(i as int));
            assert(all.take(i + 1).last() == list@[i as int]@);
        }
        let trimmed: Vec<char> = text::trim(list[i].as_slice());
        if trimmed.len() > 0 {
            match read_io_line(list[i].as_slice()) {
                Some((current, values)) => {
                    if text::same(current.as_slice(), device.as_slice()) {
                        if matched.is_some() {
                            proof {
                                lemma_malformed_stays(all, i + 1, device@, wanted@);
                            }
                            return Err(failure(FailureCategory::IdentityMismatch));
                        }
                        matched = Some(values.same(&wanted));
                    }
                },
                None => {
                    proof {
                        lemma_malformed_stays(all, i + 1, device@, wanted@);
                    }
                    return Err(failure(FailureCategory::IdentityMismatch));
                },
            }
        }
    }
    assert(all.take(all.len() as int) =~= all);
    match matched {
        Some(same) => Ok(same),
        None => Ok(false),
    }
}

/// Whether a control file holds what was written to it: `None` where it makes no
/// sense.
pub open spec fn limit_holds(name: Seq<char>, actual: Seq<char>, expected: Seq<char>) -> Option<
    bool,
> {
    if name == "io.max"@ {
        io_limit(actual, expected)
    } else {
        Some(text::words(actual) == text::words(expected))
    }
}

/// Whether a control file holds what was written to it.
pub fn limit_matches(name: &str, actual: &str, expected: &str) -> (r: Result<
    bool,
    ExecutionDomainError,
>)
    ensures
        match r {
            Ok(same) => limit_holds(name@, actual@, expected@) == Some(same),
            Err(e) => limit_holds(name@, actual@, expected@) is None && e == cgroup_error(
                FailureCategory::IdentityMismatch,
            ),
        },
{
    if text::same_str(name, "io.max") {
        io_limit_matches(actual, expected)
    } else {
        Ok(same_words(actual, expected))
    }
}

/// Whether the first control files, read back, hold what was written to them.
pub open spec fn limits_hold(
    writes: Seq<(String, String)>,
    readings: Seq<String>,
    count: int,
) -> bool {
    forall|i: int|
        0 <= i < count ==> limit_holds(
            (#[trigger] writes[i]).0@,
            readings[i]@,
            writes[i].1@,
        ) == Some(true)
}

/// Accepts limits only if every control file, read back, holds what was written to it.
/// Given what was read so far, it says which file is read next; none is read after one
/// that does not hold.
pub fn verify_limits(writes: &[(String, String)], readings: &[String]) -> (r: Result<
    Option<usize>,
    ExecutionDomainError,
>)
    requires
        readings@.len() <= writes@.len(),
    ensures
        r == (if !limits_hold(writes@, readings@, readings@.len() as int) {
            Err::<Option<usize>, ExecutionDomainError>(
                cgroup_error(FailureCategory::IdentityMismatch),
            )
        } else if readings@.len() < writes@.len() {
            Ok(Some(readings@.len() as usize))
        } else {
            Ok(None)
        }),
{
    for i in 0..readings.len()
        invariant
            readings@.len() <= writes@.len(),
            limits_hold(writes@, readings@, i as int),
    {
        let held: Result<bool, ExecutionDomainError> = limit_matches(
            writes[i].0.as_str(),
            readings[i].as_str(),
            writes[i].1.as_str(),
        );
        match held {
            Ok(true) => {},
            Ok(false) => {
                assert(limit_holds(
                    writes@[i as int].0@,
                    readings@[i as int]@,
                    writes@[i as int].1@,
                ) != Some(true));
                return Err(failure(FailureCategory::IdentityMismatch));
            },
            Err(e) => {
                assert(limit_holds(
                    writes@[i as int].0@,
                    readings@[i as int]@,
                    writes@[i as int].1@,
                ) != Some(true));
                return Err(e);
            },
        }
    }
    if readings.len() < writes.len() {
        Ok(Some(readings.len()))
    } else {
        Ok(None)
    }
}

/// Keeps the first error of several.
pub fn retain_first(first: &mut Option<ExecutionDomainError>, error: ExecutionDomainError)
    ensures
        *final(first) == (match *old(first) {
            Some(e) => Some(e),
            None => Some(error),
        }),
{
    if first.is_none() {
        *first = Some(error);
    }
}

/// Fails once the deadline is reached.
pub fn deadline_check(now: u128, deadline: u128) -> (r: Result<(), ExecutionDomainError>)
    ensures
        match r {
            Ok(_) => now < deadline,
            Err(e) => now >= deadline && e == cgroup_error(FailureCategory::Timeout),
        },
{
    if now >= deadline {
        Err(failure(FailureCategory::Timeout))
    } else {
        Ok(())
    }
}

/// The value that an earlier step left, which must be there.
pub fn required<T>(value: &Option<T>) -> (r: Result<&T, ExecutionDomainError>)
    ensures
        match r {
            Ok(v) => *value == Some(*v),
            Err(e) => *value is None && e == cgroup_error(FailureCategory::NotReady),
        },
{
    match value {
        Some(v) => Ok(v),
        None => Err(failure(FailureCategory::NotReady)),
    }
}

/// Accepts a control file only if it is a regular file with one name beside its
/// directory.
pub fn check_control(m: &Metadata, parent: &Metadata) -> (r: Result<(), ExecutionDomainError>)
    ensures
        match r {
            Ok(_) => m.kind() == S_IFREG && m.nlink == 1 && m.beside(parent.id()),
            Err(e) => !(m.kind() == S_IFREG && m.nlink == 1 && m.beside(parent.id())) && e
                == cgroup_error(FailureCategory::IdentityMismatch),
        },
{
    let id: Identity = parent.identity();
    if m.mode & S_IFMT != S_IFREG || m.nlink != 1 || !m.is_beside(&id) {
        return Err(failure(FailureCategory::IdentityMismatch));
    }
    Ok(())
}

/// Whether an entry of a group is a group below it: `None` where it is neither a
/// directory nor a control file.
pub open spec fn entry_kind(m: Metadata, parent: Metadata) -> Option<bool> {
    if !m.beside(parent.id()) {
        None
    } else if m.kind() == S_IFDIR {
        Some(true)
    } else if m.kind() == S_IFREG && m.nlink == 1 {
        Some(false)
    } else {
        None
    }
}

/// Whether an entry of a group is a group below it.
pub fn entry_is_directory(m: &Metadata, parent: &Metadata) -> (r: Result<
    bool,
    ExecutionDomainError,
>)
    ensures
        match r {
            Ok(directory) => entry_kind(*m, *parent) == Some(directory),
            Err(e) => entry_kind(*m, *parent) is None && e == cgroup_error(
                FailureCategory::IdentityMismatch,
            ),
        },
{
    let id: Identity = parent.identity();
    if !m.is_beside(&id) {
        return Err(failure(FailureCategory::IdentityMismatch));
    }
    let kind: u16 = m.mode & S_IFMT;
    if kind == S_IFDIR {
        Ok(true)
    } else if kind == S_IFREG && m.nlink == 1 {
        Ok(false)
    } else {
        Err(failure(FailureCategory::IdentityMismatch))
    }
}

/// The error of a step together with the error of undoing it, where undoing
/// failed too.
pub open spec fn combined(
    error: ExecutionDomainError,
    undone: Result<(), ExecutionDomainError>,
) -> ExecutionDomainError {
    match undone {
        Ok(_) => error,
        Err(cleanup) => ExecutionDomainError::LifecycleAndDestroyFailed {
            lifecycle: Box::new(error),
            destroy: Box::new(cleanup),
        },
    }
}

/// Combines the error of a step with the outcome of undoing it.
pub fn combine(error: ExecutionDomainError, undone: Result<(), ExecutionDomainError>) -> (e:
    ExecutionDomainError)
    ensures
        e == combined(error, undone),
{
    match undone {
        Ok(_) => error,
        Err(cleanup) => ExecutionDomainError::LifecycleAndDestroyFailed {
            lifecycle: Box::new(error),
            destroy: Box::new(cleanup),
        },
    }
}

/// Whether a new attempt may have a group: the supervisor is set up, the limits
/// and controllers of the root hold, and no process is in the root itself.
pub fn check_attempt_preconditions(
    supervisor_ready: bool,
    limits: Result<(), ExecutionDomainError>,
    subtree_control: &str,
    members: &str,
) -> (r: Result<(), ExecutionDomainError>)
    ensures
        match r {
            Ok(_) => supervisor_ready && limits is Ok && has_controllers(
                text::words(subtree_control@),
            ) && member_count(members@) == Some(0nat),
            Err(e) => if !supervisor_ready {
                e == cgroup_error(FailureCategory::NotReady)
            } else if limits is Err {
                limits == Err::<(), ExecutionDomainError>(e)
            } else if !has_controllers(text::words(subtree_control@)) {
                e == cgroup_error(FailureCategory::Unsupported)
            } else {
                member_count(members@) != Some(0nat) && e == cgroup_error(
                    FailureCategory::IdentityMismatch,
                )
            },
        },
{
    if !supervisor_ready {
        return Err(failure(FailureCategory::NotReady));
    }
    match limits {
        Ok(_) => {},
        Err(e) => {
            return Err(e);
        },
    }
    match validate_controllers(subtree_control) {
        Ok(_) => {},
        Err(e) => {
            return Err(e);
        },
    }
    match parse_members(members) {
        Ok(list) => {
            if list.len() > 0 {
                return Err(failure(FailureCategory::IdentityMismatch));
            }
            Ok(())
        },
        Err(e) => Err(e),
    }
}

/// The creation of an attempt's group, step by step.
pub struct AttemptCreation {
    operations: Vec<CgroupOperation>,
    next: usize,
}

/// What follows a step of the creation.
pub enum CreationStep {
    /// Perform the step at this position.
    Perform(usize),
    /// Remove the group that was created, then report the error with the outcome.
    Undo(ExecutionDomainError),
    /// Report the error; there is nothing to remove.
    Fail(ExecutionDomainError),
    /// The group is complete.
    Complete,
}

impl AttemptCreation {
    #[verifier::type_invariant]
    spec fn inv(self) -> bool {
        self.next < self.operations@.len()
    }

    /// The steps of the creation.
    pub closed spec fn all(self) -> Seq<CgroupOperation> {
        self.operations@
    }

    /// The position of the step that is to be performed.
    pub closed spec fn position(self) -> int {
        self.next as int
    }

    /// Begins to create a group with the given limits.
    pub fn begin(writes: &[(String, String)]) -> (r: AttemptCreation)
        ensures
            is_creation_order(r.all(), writes@),
            r.position() == 0,
    {
        let operations: Vec<CgroupOperation> = creation_operations(writes);
        AttemptCreation { operations, next: 0 }
    }

    /// The step that is to be performed.
    pub fn current(&self) -> (r: &CgroupOperation)
        ensures
            0 <= self.position() < self.all().len(),
            *r == self.all()[self.position()],
    {
        proof {
            use_type_invariant(self);
        }
        &self.operations[self.next]
    }

    /// Takes the outcome of the current step. The first failure ends the
    /// creation; it is undone unless the group itself could not be created.
    pub fn advance(&mut self, outcome: Result<(), ExecutionDomainError>) -> (r: CreationStep)
        ensures
            final(self).all() == old(self).all(),
            match outcome {
                Err(e) => final(self).position() == old(self).position() && r
                    == (if old(self).position() == 0 {
                    CreationStep::Fail(e)
                } else {
                    CreationStep::Undo(e)
                }),
                Ok(_) => if old(self).position() + 1 == old(self).all().len() {
                    final(self).position() == old(self).position() && r == CreationStep::Complete
                } else {
                    final(self).position() == old(self).position() + 1 && r
                        == CreationStep::Perform((old(self).position() + 1) as usize)
                },
            },
    {
        proof {
            use_type_invariant(&*self);
        }
        match outcome {
            Err(e) => {
                if self.next == 0 {
                    CreationStep::Fail(e)
                } else {
                    CreationStep::Undo(e)
                }
            },
            Ok(_) => {
                let next: usize = self.next;
                if next == self.operations.len() - 1 {
                    CreationStep::Complete
                } else {
                    self.next = next + 1;
                    CreationStep::Perform(next + 1)
                }
            },
        }
    }
}

/// A stage in the set-up of the supervisor's own group.
#[derive(Debug, Clone, Copy, PartialEq, Eq, Structural)]
pub enum SupervisorStage {
    /// Verify the limits of the root.
    Limits,
    /// Read the members of the root.
    RootMembers,
    /// Read the members of the supervisor's group and look for groups below it.
    SupervisorMembers,
    /// Move the supervisor into its group.
    Migrate,
    /// Read the members of the root again.
    RootEmptied,
    /// Read the members of the supervisor's group again.
    SupervisorAlone,
    /// Hand the controllers down.
    Enable,
    /// Verify the limits of the root again.
    LimitsAgain,
    /// The supervisor is set up.
    Ready,
}

/// What a stage of the set-up found.
pub enum SupervisorEvent {
    Passed,
    Failed(ExecutionDomainError),
    /// The members of a group, and whether there are groups below it.
    Members(Vec<i32>, bool),
}

/// Whether no process but the given one is in the list.
pub open spec fn only(members: Seq<i32>, pid: i32) -> bool {
    forall|i: int| 0 <= i < members.len() ==> #[trigger] members[i] == pid
}

fn holds_only(members: &Vec<i32>, pid: i32) -> (r: bool)
    ensures
        r == only(members@, pid),
{
    for i in 0..members.len()
        invariant
            forall|k: int| 0 <= k < i ==> #[trigger] members@[k] == pid,
    {
        if members[i] != pid {
            return false;
        }
    }
    true
}

/// What follows a stage of the set-up, given the members that it found.
pub open spec fn supervisor_after(
    stage: SupervisorStage,
    members: Seq<i32>,
    below: bool,
    pid: i32,
) -> Result<SupervisorStage, ExecutionDomainError> {
    match stage {
        SupervisorStage::RootMembers => if only(members, pid) {
            Ok(SupervisorStage::SupervisorMembers)
        } else {
            Err(cgroup_error(FailureCategory::Unavailable))
        },
        SupervisorStage::SupervisorMembers => if only(members, pid) && !below {
            Ok(SupervisorStage::Migrate)
        } else {
            Err(cgroup_error(FailureCategory::Unavailable))
        },
        SupervisorStage::RootEmptied => if members.len() == 0 {
            Ok(SupervisorStage::SupervisorAlone)
        } else {
            Err(cgroup_error(FailureCategory::IdentityMismatch))
        },
        SupervisorStage::SupervisorAlone => if members == seq![pid] {
            Ok(SupervisorStage::Enable)
        } else {
            Err(cgroup_error(FailureCategory::IdentityMismatch))
        },
        _ => Err(cgroup_error(FailureCategory::NotReady)),
    }
}

/// What follows a stage of the set-up that only passes or fails.
pub open spec fn supervisor_passed(stage: SupervisorStage) -> Result<
    SupervisorStage,
    ExecutionDomainError,
> {
    match stage {
        SupervisorStage::Limits => Ok(SupervisorStage::RootMembers),
        SupervisorStage::Migrate => Ok(SupervisorStage::RootEmptied),
        SupervisorStage::Enable => Ok(SupervisorStage::LimitsAgain),
        SupervisorStage::LimitsAgain => Ok(SupervisorStage::Ready),
        _ => Err(cgroup_error(FailureCategory::NotReady)),
    }
}

/// Carries the set-up on after one of its stages. The supervisor is the only
/// process that may be found, before and after it moves; controllers are handed
/// down only once the root is empty.
pub fn prepare_supervisor(stage: SupervisorStage, event: SupervisorEvent, pid: i32) -> (r: Result<
    SupervisorStage,
    ExecutionDomainError,
>)
    ensures
        r == (match event {
            SupervisorEvent::Failed(e) => Err(e),
            SupervisorEvent::Passed => supervisor_passed(stage),
            SupervisorEvent::Members(members, below) => supervisor_after(
                stage,
                members@,
                below,
                pid,
            ),
        }),
{
    match event {
        SupervisorEvent::Failed(e) => Err(e),
        SupervisorEvent::Passed => match stage {
            SupervisorStage::Limits => Ok(SupervisorStage::RootMembers),
            SupervisorStage::Migrate => Ok(SupervisorStage::RootEmptied),
            SupervisorStage::Enable => Ok(SupervisorStage::LimitsAgain),
            SupervisorStage::LimitsAgain => Ok(SupervisorStage::Ready),
            _ => Err(failure(FailureCategory::NotReady)),
        },
        SupervisorEvent::Members(members, below) => match stage {
            SupervisorStage::RootMembers => {
                if holds_only(&members, pid) {
                    Ok(SupervisorStage::SupervisorMembers)
                } else {
                    Err(failure(FailureCategory::Unavailable))
                }
            },
            SupervisorStage::SupervisorMembers => {
                if holds_only(&members, pid) && !below {
                    Ok(SupervisorStage::Migrate)
                } else {
                    Err(failure(FailureCategory::Unavailable))
                }
            },
            SupervisorStage::RootEmptied => {
                if members.len() == 0 {
                    Ok(SupervisorStage::SupervisorAlone)
                } else {
                    Err(failure(FailureCategory::IdentityMismatch))
                }
            },
            SupervisorStage::SupervisorAlone => {
                let alone: bool = members.len() == 1 && members[0] == pid;
                proof {
                    if alone {
                        assert(members@ =~= seq![pid]);
                    }
                }
                if alone {
                    Ok(SupervisorStage::Enable)
                } else {
                    Err(failure(FailureCategory::IdentityMismatch))
                }
            },
            _ => Err(failure(FailureCategory::NotReady)),
        },
    }
}

/// Whether a supervisor may be set up: it must not be set up already.
pub fn check_supervisor_start(already: bool) -> (r: Result<SupervisorStage, ExecutionDomainError>)
    ensures
        r == (if already {
            Err(cgroup_error(FailureCategory::NotReady))
        } else {
            Ok(SupervisorStage::Limits)
        }),
{
    if already {
        return Err(failure(FailureCategory::NotReady));
    }
    Ok(SupervisorStage::Limits)
}

/// The emptying of a group that an earlier run left behind.
pub struct Neutralization {
    stage: NeutralizeStage,
    first_error: Option<ExecutionDomainError>,
}

/// The part of the emptying that comes next.
#[derive(Debug, Clone, Copy, PartialEq, Eq, Structural)]
pub enum NeutralizeStage {
    /// Look whether the group is empty already.
    FirstScan,
    /// Kill what is in the group.
    Kill,
    /// Look whether the group is empty now; wait a little between looks.
    Rescan,
    /// Nothing is left to do; whether the group was proven empty.
    Finished(bool),
}

impl Neutralization {
    pub closed spec fn at(self) -> NeutralizeStage {
        self.stage
    }

    pub closed spec fn error(self) -> Option<ExecutionDomainError> {
        self.first_error
    }

    /// Begins to empty a group, unless the time is already up.
    pub fn begin(now: u128, deadline: u128) -> (r: Result<Neutralization, ExecutionDomainError>)
        ensures
            match r {
                Ok(n) => now < deadline && n.at() == NeutralizeStage::FirstScan && n.error()
                    is None,
                Err(e) => now >= deadline && e == cgroup_error(FailureCategory::Timeout),
            },
    {
        match deadline_check(now, deadline) {
            Ok(_) => Ok(Neutralization { stage: NeutralizeStage::FirstScan, first_error: None }),
            Err(e) => Err(e),
        }
    }

    /// The part that comes next.
    pub fn stage(&self) -> (r: NeutralizeStage)
        ensures
            r == self.at(),
    {
        self.stage
    }

    /// Takes the outcome of a look at the group. A group that is not proven empty
    /// at the first look is killed; a failed look is remembered.
    pub fn scanned(
        &mut self,
        outcome: Result<bool, ExecutionDomainError>,
        now: u128,
        deadline: u128,
    )
        requires
            old(self).at() == NeutralizeStage::FirstScan || old(self).at()
                == NeutralizeStage::Rescan,
        ensures
            match outcome {
                Ok(true) => final(self).at() == NeutralizeStage::Finished(true)
                    && final(self).error() == old(self).error(),
                Ok(false) => if old(self).at() == NeutralizeStage::FirstScan {
                    final(self).at() == NeutralizeStage::Kill && final(self).error()
                        == old(self).error()
                } else if now < deadline {
                    final(self).at() == NeutralizeStage::Rescan && final(self).error()
                        == old(self).error()
                } else {
                    final(self).at() == NeutralizeStage::Finished(false) && final(self).error()
                        == (match old(self).error() {
                        Some(e) => Some(e),
                        None => Some(cgroup_error(FailureCategory::Timeout)),
                    })
                },
                Err(e) => final(self).error() == (match old(self).error() {
                    Some(first) => Some(first),
                    None => Some(e),
                }) && final(self).at() == (if old(self).at() == NeutralizeStage::FirstScan {
                    NeutralizeStage::Kill
                } else {
                    NeutralizeStage::Finished(false)
                }),
            },
    {
        let first: bool = self.stage == NeutralizeStage::FirstScan;
        match outcome {
            Ok(true) => {
                self.stage = NeutralizeStage::Finished(true);
            },
            Ok(false) => {
                if first {
                    self.stage = NeutralizeStage::Kill;
                } else {
                    match deadline_check(now, deadline) {
                        Ok(_) => {
                            self.stage = NeutralizeStage::Rescan;
                        },
                        Err(e) => {
                            retain_first(&mut self.first_error, e);
                            self.stage = NeutralizeStage::Finished(false);
                        },
                    }
                }
            },
            Err(e) => {
                retain_first(&mut self.first_error, e);
                self.stage = if first {
                    NeutralizeStage::Kill
                } else {
                    NeutralizeStage::Finished(false)
                };
            },
        }
    }

    /// Takes the outcome of the kill. The group is looked at again in any case.
    pub fn killed(&mut self, outcome: Result<(), ExecutionDomainError>)
        requires
            old(self).at() == NeutralizeStage::Kill,
        ensures
            final(self).at() == NeutralizeStage::Rescan,
            final(self).error() == (match (old(self).error(), outcome) {
                (Some(first), _) => Some(first),
                (None, Err(e)) => Some(e),
                (None, Ok(_)) => None,
            }),
    {
        match outcome {
            Ok(_) => {},
            Err(e) => {
                retain_first(&mut self.first_error, e);
            },
        }
        self.stage = NeutralizeStage::Rescan;
    }

    /// The result: success only if the group was proven empty and nothing failed
    /// on the way.
    pub fn finish(self) -> (r: Result<(), ExecutionDomainError>)
        ensures
            match self.error() {
                Some(e) => r == Err::<(), ExecutionDomainError>(e),
                None => if self.at() == NeutralizeStage::Finished(true) {
                    r is Ok
                } else {
                    r == Err::<(), ExecutionDomainError>(cgroup_error(FailureCategory::Timeout))
                },
            },
    {
        match self.first_error {
            Some(e) => Err(e),
            None => {
                if self.stage == NeutralizeStage::Finished(true) {
                    Ok(())
                } else {
                    Err(failure(FailureCategory::Timeout))
                }
            },
        }
    }
}

/// A recovered group may be removed only after it was proven empty.
pub fn check_recovered_removal(empty_proven: bool) -> (r: Result<(), ExecutionDomainError>)
    ensures
        match r {
            Ok(_) => empty_proven,
            Err(e) => !empty_proven && e == cgroup_error(FailureCategory::Unavailable),
        },
{
    if !empty_proven {
        return Err(failure(FailureCategory::Unavailable));
    }
    Ok(())
}

/// A group may be removed only while it holds no process: whether it does must be
/// known.
pub fn check_idle(busy: Result<bool, ExecutionDomainError>) -> (r: Result<(), ExecutionDomainError>)
    ensures
        r == idle_result(busy),
{
    match busy {
        Ok(false) => Ok(()),
        Ok(true) => Err(failure(FailureCategory::Unavailable)),
        Err(e) => Err(e),
    }
}

/// The refusal of a group that holds a process, or of which that is not known.
pub open spec fn idle_result(busy: Result<bool, ExecutionDomainError>) -> Result<
    (),
    ExecutionDomainError,
> {
    match busy {
        Ok(false) => Ok(()),
        Ok(true) => Err(cgroup_error(FailureCategory::Unavailable)),
        Err(e) => Err(e),
    }
}

/// The file of a group that a removal looks at.
#[derive(Debug, Clone, Copy, PartialEq, Eq, Structural)]
pub enum GroupFile {
    /// What the group says.
    Events,
    /// What the group lists.
    Members,
}

/// Looks at a group before it is removed, one file at a time. A group that was never
/// used is asked what it says first; a group of an emptied hierarchy, what it lists.
#[derive(Debug, Clone, Copy, PartialEq, Eq, Structural)]
pub struct RemovalCheck {
    /// Whether the hierarchy was found empty before.
    pub emptied: bool,
    /// Whether the first file passed.
    pub second: bool,
}

/// What follows a file of a group that is to be removed.
pub enum RemovalCheckStep {
    Continue(RemovalCheck),
    Done(Result<(), ExecutionDomainError>),
}

/// Whether a group may be removed, by both its files. The second counts only where the
/// first says that there is no process.
pub open spec fn removal_result(emptied: bool, events: FileText, members: FileText) -> Result<
    (),
    ExecutionDomainError,
> {
    let (first, second) = if emptied {
        (listed_busy(members), said_busy(events))
    } else {
        (said_busy(events), listed_busy(members))
    };
    match first {
        Ok(false) => idle_result(second),
        _ => idle_result(first),
    }
}

impl RemovalCheck {
    /// Begins with the first file.
    pub fn begin(emptied: bool) -> (r: RemovalCheck)
        ensures
            r == (RemovalCheck { emptied, second: false }),
    {
        RemovalCheck { emptied, second: false }
    }

    /// The file that is read next.
    pub open spec fn next_file(self) -> GroupFile {
        if self.emptied != self.second {
            GroupFile::Members
        } else {
            GroupFile::Events
        }
    }

    /// The file that is read next.
    pub fn file(&self) -> (r: GroupFile)
        ensures
            r == self.next_file(),
    {
        if self.emptied != self.second {
            GroupFile::Members
        } else {
            GroupFile::Events
        }
    }

    /// What follows the file.
    pub open spec fn after(self, read: FileText) -> RemovalCheckStep {
        let busy = match self.next_file() {
            GroupFile::Events => said_busy(read),
            GroupFile::Members => listed_busy(read),
        };
        if !self.second && busy == Ok::<bool, ExecutionDomainError>(false) {
            RemovalCheckStep::Continue(RemovalCheck { second: true, ..self })
        } else {
            RemovalCheckStep::Done(idle_result(busy))
        }
    }

    /// Goes on from the file.
    pub fn advance(self, read: FileText) -> (r: RemovalCheckStep)
        ensures
            r == self.after(read),
    {
        let busy: Result<bool, ExecutionDomainError> = match self.file() {
            GroupFile::Events => says_busy(read),
            GroupFile::Members => lists_busy(read),
        };
        match busy {
            Ok(false) => {
                if !self.second {
                    return RemovalCheckStep::Continue(
                        RemovalCheck { emptied: self.emptied, second: true },
                    );
                }
                RemovalCheckStep::Done(Ok(()))
            },
            other => RemovalCheckStep::Done(check_idle(other)),
        }
    }
}

/// A group that was never used may be taken back only while it neither says nor lists
/// that it holds a process. What it says counts first.
pub fn check_group_removal(events: FileText, members: FileText) -> (r: Result<
    (),
    ExecutionDomainError,
>)
    ensures
        r == removal_result(false, events, members),
{
    match RemovalCheck::begin(false).advance(events) {
        RemovalCheckStep::Done(result) => result,
        RemovalCheckStep::Continue(next) => match next.advance(members) {
            RemovalCheckStep::Done(result) => result,
            RemovalCheckStep::Continue(_) => Ok(()),
        },
    }
}

/// A group of an emptied hierarchy may be removed only while it neither lists nor says
/// that it holds a process. What it lists counts first.
pub fn check_emptied_removal(members: FileText, events: FileText) -> (r: Result<
    (),
    ExecutionDomainError,
>)
    ensures
        r == removal_result(true, events, members),
{
    match RemovalCheck::begin(true).advance(members) {
        RemovalCheckStep::Done(result) => result,
        RemovalCheckStep::Continue(next) => match next.advance(events) {
            RemovalCheckStep::Done(result) => result,
            RemovalCheckStep::Continue(_) => Ok(()),
        },
    }
}

/// The result of killing a group: the write must succeed, and in time.
pub fn kill_result(
    before: u128,
    write: Result<(), ExecutionDomainError>,
    after: u128,
    deadline: u128,
) -> (r: Result<(), ExecutionDomainError>)
    ensures
        r == (if before >= deadline {
            Err(cgroup_error(FailureCategory::Timeout))
        } else {
            match write {
                Err(e) => Err(e),
                Ok(_) => if after >= deadline {
                    Err(cgroup_error(FailureCategory::Timeout))
                } else {
                    Ok(())
                },
            }
        }),
{
    match deadline_check(before, deadline) {
        Ok(_) => {},
        Err(e) => {
            return Err(e);
        },
    }
    match write {
        Ok(_) => {
            if after >= deadline {
                return Err(failure(FailureCategory::Timeout));
            }
            Ok(())
        },
        Err(e) => Err(e),
    }
}

/// What follows a look at a group that is expected to become empty.
pub enum WaitStep {
    Done(Result<(), ExecutionDomainError>),
    Again,
}

/// Decides whether to look at a group again. The deadline counts even against a
/// look that succeeded.
pub fn wait_empty(now: u128, deadline: u128, scan: Result<bool, ExecutionDomainError>) -> (r:
    WaitStep)
    ensures
        r == (if now >= deadline {
            WaitStep::Done(Err(cgroup_error(FailureCategory::Timeout)))
        } else {
            match scan {
                Err(e) => WaitStep::Done(Err(e)),
                Ok(true) => WaitStep::Done(Ok(())),
                Ok(false) => WaitStep::Again,
            }
        }),
{
    if now >= deadline {
        return WaitStep::Done(Err(failure(FailureCategory::Timeout)));
    }
    match scan {
        Err(e) => WaitStep::Done(Err(e)),
        Ok(true) => WaitStep::Done(Ok(())),
        Ok(false) => WaitStep::Again,
    }
}

/// Decides whether to look at the group of a cleanup worker again. The deadline counts
/// only against a look that found it busy.
pub fn wait_removable(scan: Result<bool, ExecutionDomainError>, now: u128, deadline: u128) -> (r:
    WaitStep)
    ensures
        r == (match scan {
            Err(e) => WaitStep::Done(Err(e)),
            Ok(true) => WaitStep::Done(Ok(())),
            Ok(false) => if now >= deadline {
                WaitStep::Done(Err(cgroup_error(FailureCategory::Timeout)))
            } else {
                WaitStep::Again
            },
        }),
{
    match scan {
        Err(e) => WaitStep::Done(Err(e)),
        Ok(true) => WaitStep::Done(Ok(())),
        Ok(false) => {
            if now >= deadline {
                return WaitStep::Done(Err(failure(FailureCategory::Timeout)));
            }
            WaitStep::Again
        },
    }
}

/// The longest pause between two looks at a group, in nanoseconds.
pub const PAUSE: u128 = 10_000_000;

/// What follows a look at the group of an attempt that is expected to become empty.
pub enum EmptyStep {
    /// Whether the group is empty.
    Done(Result<bool, ExecutionDomainError>),
    /// Look again after a pause.
    Again(u128),
}

/// Decides whether to look at the group of an attempt again. A look must begin before
/// the deadline; one that ends behind it and found the group busy is the last.
pub fn wait_emptied(
    began: u128,
    scan: Result<bool, ExecutionDomainError>,
    now: u128,
    deadline: u128,
) -> (r: EmptyStep)
    ensures
        r == (if began >= deadline {
            EmptyStep::Done(Err(cgroup_error(FailureCategory::Timeout)))
        } else {
            match scan {
                Err(e) => EmptyStep::Done(Err(e)),
                Ok(true) => EmptyStep::Done(Ok(true)),
                Ok(false) => if now >= deadline {
                    EmptyStep::Done(Ok(false))
                } else if deadline - now < PAUSE {
                    EmptyStep::Again((deadline - now) as u128)
                } else {
                    EmptyStep::Again(PAUSE)
                },
            }
        }),
{
    match deadline_check(began, deadline) {
        Ok(_) => {},
        Err(e) => {
            return EmptyStep::Done(Err(e));
        },
    }
    match scan {
        Err(e) => EmptyStep::Done(Err(e)),
        Ok(true) => EmptyStep::Done(Ok(true)),
        Ok(false) => {
            if now >= deadline {
                return EmptyStep::Done(Ok(false));
            }
            let left: u128 = deadline - now;
            EmptyStep::Again(
                if left < PAUSE {
                    left
                } else {
                    PAUSE
                },
            )
        },
    }
}

/// Decides what a failed attempt to pin a member means: a process that is gone is
/// passed over, anything else is an error.
pub fn capture_failure(errno: Option<i32>) -> (r: Result<(), ExecutionDomainError>)
    ensures
        match r {
            Ok(_) => errno == Some(ESRCH),
            Err(e) => errno != Some(ESRCH) && e == (ExecutionDomainError::Backend {
                attempt: None,
                stage: Stage::Cgroup,
                category: FailureCategory::Io,
                errno,
            }),
        },
{
    match errno {
        Some(number) => {
            if number == ESRCH {
                return Ok(());
            }
        },
        None => {},
    }
    Err(io_failure(errno))
}

/// The system error for a process that is gone.
pub const ESRCH: i32 = 3;

/// Whether the processes stand in rising order without repetition.
pub open spec fn rising(pids: Seq<i32>) -> bool {
    forall|i: int, j: int| 0 <= i < j < pids.len() ==> pids[i] < pids[j]
}

/// Puts one process into a rising list, unless it is there already.
fn put_in_order(list: &mut Vec<i32>, pid: i32)
    requires
        rising(old(list)@),
    ensures
        rising(final(list)@),
        forall|p: i32| #[trigger] final(list)@.contains(p) <==> old(list)@.contains(p) || p == pid,
{
    let ghost before = list@;
    let mut at: usize = 0;
    while at < list.len() && list[at] < pid
        invariant
            list@ == before,
            at <= before.len(),
            forall|k: int| 0 <= k < at ==> before[k] < pid,
        decreases before.len() - at,
    {
        at = at + 1;
    }
    if at < list.len() && list[at] == pid {
        assert(before[at as int] == pid);
        return;
    }
    list.insert(at, pid);
    proof {
        let after = list@;
        assert(after[at as int] == pid);
        assert forall|i: int, j: int| 0 <= i < j < after.len() implies after[i] < after[j] by {
            let a = if i < at { i } else { i - 1 };
            let b = if j < at { j } else { j - 1 };
            if i == at {
                assert(after[j] == before[j - 1]);
                if j - 1 > at {
                    assert(before[at as int] < before[j - 1]);
                }
            } else if j == at {
                assert(after[i] == before[i]);
            } else {
                assert(after[i] == before[a] && after[j] == before[b]);
            }
        }
        assert forall|p: i32| #[trigger] after.contains(p) <==> before.contains(p) || p == pid by {
            if after.contains(p) {
                let i = choose|i: int| 0 <= i < after.len() && after[i] == p;
                if i < at {
                    assert(before[i] == p);
                } else if i > at {
                    assert(before[i - 1] == p);
                }
            }
            if before.contains(p) {
                let i = choose|i: int| 0 <= i < before.len() && before[i] == p;
                if i < at {
                    assert(after[i] == p);
                } else {
                    assert(after[i + 1] == p);
                }
            }
        }
    }
}

/// The processes of all groups in rising order, each once: every one is signalled
/// exactly once, however often it was listed.
pub fn signal_order(groups: &Vec<Vec<i32>>) -> (out: Vec<i32>)
    ensures
        rising(out@),
        forall|p: i32| #[trigger]
            out@.contains(p) <==> exists|g: int|
                0 <= g < groups@.len() && (#[trigger] groups@[g])@.contains(p),
{
    let mut out: Vec<i32> = Vec::new();
    for g in 0..groups.len()
        invariant
            rising(out@),
            forall|p: i32| #[trigger]
                out@.contains(p) <==> exists|k: int|
                    0 <= k < g && (#[trigger] groups@[k])@.contains(p),
    {
        let ghost start = out@;
        let group: &Vec<i32> = &groups[g];
        for i in 0..group.len()
            invariant
                g < groups@.len(),
                group@ == groups@[g as int]@,
                rising(out@),
                forall|p: i32| #[trigger]
                    out@.contains(p) <==> start.contains(p) || groups@[g as int]@.take(
                        i as int,
                    ).contains(p),
        {
            let ghost held = out@;
            let pid: i32 = group[i];
            put_in_order(&mut out, pid);
            proof {
                let now = groups@[g as int]@.take(i + 1);
                let earlier = groups@[g as int]@.take(i as int);
                assert(now =~= earlier.push(pid));
                assert forall|p: i32| #[trigger] out@.contains(p) <==> start.contains(p)
                    || now.contains(p) by {
                    if earlier.contains(p) {
                        let k = choose|k: int| 0 <= k < earlier.len() && earlier[k] == p;
                        assert(now[k] == p);
                    }
                    if p == pid {
                        assert(now[i as int] == p);
                    }
                    if now.contains(p) && p != pid {
                        let k = choose|k: int| 0 <= k < now.len() && now[k] == p;
                        assert(earlier[k] == p);
                    }
                    assert(out@.contains(p) <==> held.contains(p) || p == pid);
                }
            }
        }
        proof {
            assert(groups@[g as int]@.take(groups@[g as int]@.len() as int) =~= groups@[g as int]@);
            assert forall|p: i32| #[trigger] out@.contains(p) <==> exists|k: int|
                0 <= k < g + 1 && (#[trigger] groups@[k])@.contains(p) by {
                if start.contains(p) {
                    let k = choose|k: int| 0 <= k < g && (#[trigger] groups@[k])@.contains(p);
                    assert(groups@[k]@.contains(p));
                }
                if groups@[g as int]@.contains(p) {
                    assert(groups@[g as int]@.contains(p));
                }
                if exists|k: int| 0 <= k < g + 1 && (#[trigger] groups@[k])@.contains(p) {
                    let k = choose|k: int| 0 <= k < g + 1 && (#[trigger] groups@[k])@.contains(p);
                    if k < g {
                        assert(start.contains(p));
                    }
                }
            }
        }
    }
    out
}

/// Whether a cleanup worker that was put into its group is its only member.
pub fn check_attached(members: Result<Vec<i32>, ExecutionDomainError>, pid: i32) -> (r: Result<
    (),
    ExecutionDomainError,
>)
    ensures
        match members {
            Err(e) => r == Err::<(), ExecutionDomainError>(e),
            Ok(list) => if list@ == seq![pid] {
                r is Ok
            } else {
                r == Err::<(), ExecutionDomainError>(
                    cgroup_error(FailureCategory::IdentityMismatch),
                )
            },
        },
{
    match members {
        Err(e) => Err(e),
        Ok(list) => {
            let alone: bool = list.len() == 1 && list[0] == pid;
            proof {
                if alone {
                    assert(list@ =~= seq![pid]);
                }
            }
            if alone {
                Ok(())
            } else {
                Err(failure(FailureCategory::IdentityMismatch))
            }
        },
    }
}

/// Accepts a group as the one that was handed over to the service: it has all that a
/// domain needs, and groups below it are of the ordinary kind.
pub fn check_delegated(controllers: &str, kind: &str) -> (r: Result<(), ExecutionDomainError>)
    ensures
        ({
            let fine = has_controllers(text::words(controllers@)) && text::words(kind@)
                == text::words("domain"@);
            match r {
                Ok(_) => fine,
                Err(e) => !fine && e == cgroup_error(FailureCategory::Unsupported),
            }
        }),
{
    match validate_controllers(controllers) {
        Ok(_) => {},
        Err(e) => {
            return Err(e);
        },
    }
    if !same_words(kind, "domain") {
        return Err(failure(FailureCategory::Unsupported));
    }
    Ok(())
}

/// Whether controllers may be handed down: all of them are there, and the group
/// itself holds no process.
pub fn check_enable(controllers: &str, members: &str) -> (r: Result<(), ExecutionDomainError>)
    ensures
        match r {
            Ok(_) => has_controllers(text::words(controllers@)) && member_count(members@) == Some(
                0nat,
            ),
            Err(e) => if !has_controllers(text::words(controllers@)) {
                e == cgroup_error(FailureCategory::Unsupported)
            } else {
                match member_count(members@) {
                    Some(n) => n > 0 && e == cgroup_error(FailureCategory::Unavailable),
                    None => e == cgroup_error(FailureCategory::IdentityMismatch),
                }
            },
        },
{
    match validate_controllers(controllers) {
        Ok(_) => {},
        Err(e) => {
            return Err(e);
        },
    }
    match parse_members(members) {
        Ok(list) => {
            if list.len() > 0 {
                Err(failure(FailureCategory::Unavailable))
            } else {
                Ok(())
            }
        },
        Err(e) => Err(e),
    }
}

/// Whether an attempt has moved its first process out of the domain group: the
/// domain is empty and the group below it is not.
pub fn check_evacuated(domain_members: &str, init_members: &str) -> (r: Result<
    (),
    ExecutionDomainError,
>)
    ensures
        r == (match member_count(domain_members@) {
            None => Err(cgroup_error(FailureCategory::IdentityMismatch)),
            Some(inside) => if inside > 0 {
                Err(cgroup_error(FailureCategory::NotReady))
            } else {
                match member_count(init_members@) {
                    None => Err(cgroup_error(FailureCategory::IdentityMismatch)),
                    Some(moved) => if moved > 0 {
                        Ok(())
                    } else {
                        Err(cgroup_error(FailureCategory::NotReady))
                    },
                }
            },
        }),
{
    match parse_members(domain_members) {
        Ok(list) => {
            if list.len() > 0 {
                return Err(failure(FailureCategory::NotReady));
            }
        },
        Err(e) => {
            return Err(e);
        },
    }
    match parse_members(init_members) {
        Ok(list) => {
            if list.len() == 0 {
                return Err(failure(FailureCategory::NotReady));
            }
        },
        Err(e) => {
            return Err(e);
        },
    }
    Ok(())
}

/// A control file of words holds what was written where it has the same words in the
/// same order, however they are spaced, and does not where it has others.
pub proof fn law_words_written_are_words_read(
    name: &str,
    actual: &str,
    expected: &str,
    r: Result<bool, ExecutionDomainError>,
)
    requires
        call_ensures(limit_matches, (name, actual, expected), r),
        name@ != "io.max"@,
    ensures
        r == Ok::<bool, ExecutionDomainError>(text::words(actual@) == text::words(expected@)),
{
}

/// Limits that are read back word for word are accepted, and one that is not is
/// refused. Each file is read once, in order.
pub proof fn law_limits_read_back_are_accepted(
    writes: &[(String, String)],
    readings: &[String],
    k: int,
    r: Result<Option<usize>, ExecutionDomainError>,
)
    requires
        call_ensures(verify_limits, (writes, readings), r),
        readings@.len() <= writes@.len(),
        forall|i: int| 0 <= i < writes@.len() ==> (#[trigger] writes@[i]).0@ != "io.max"@,
    ensures
        (forall|i: int|
            0 <= i < readings@.len() ==> text::words((#[trigger] readings@[i])@) == text::words(
                writes@[i].1@,
            )) ==> r == Ok::<Option<usize>, ExecutionDomainError>(
            if readings@.len() < writes@.len() {
                Some(readings@.len() as usize)
            } else {
                None
            },
        ),
        0 <= k < readings@.len() && text::words(readings@[k]@) != text::words(writes@[k].1@) ==> (r
            matches Err(ExecutionDomainError::Backend { stage, category, .. }) && stage
            == Stage::Cgroup && category == FailureCategory::IdentityMismatch),
{
    if forall|i: int|
        0 <= i < readings@.len() ==> text::words((#[trigger] readings@[i])@) == text::words(
            writes@[i].1@,
        ) {
        assert forall|i: int| 0 <= i < readings@.len() implies limit_holds(
            (#[trigger] writes@[i]).0@,
            readings@[i]@,
            writes@[i].1@,
        ) == Some(true) by {
            assert(text::words(readings@[i]@) == text::words(writes@[i].1@));
        }
    }
    if 0 <= k < readings@.len() && text::words(readings@[k]@) != text::words(writes@[k].1@) {
        assert(writes@[k].0@ != "io.max"@);
    }
}

/// A word of the form `name=value` adds the setting it names; a name may occur once.
pub proof fn law_settings_are_named(
    words: Seq<Seq<char>>,
    name: Seq<char>,
    value: Seq<char>,
    word: Seq<char>,
)
    ensures
        settings(Seq::empty()) == Some(Map::<Seq<char>, Seq<char>>::empty()),
        settings(words) is None ==> settings(words.push(word)) is None,
        text::cut_once(word, "="@) is None ==> settings(words.push(word)) is None,
        text::cut_once(word, "="@) == Some((name, value)) && settings(words) is Some ==> (
        if settings(words)->0.contains_key(name) {
            settings(words.push(word)) is None
        } else {
            settings(words.push(word)) == Some(settings(words)->0.insert(name, value))
        }),
{
    assert(words.push(word).drop_last() =~= words);
}

/// The throughput limits of a device hold where exactly one line is about the device,
/// with the same settings in whatever order, and every other line can be read.
pub proof fn law_throughput_is_compared_by_device(
    actual: &str,
    expected: &str,
    k: int,
    r: Result<bool, ExecutionDomainError>,
)
    requires
        call_ensures(io_limit_matches, (actual, expected), r),
        text::words(expected@).len() > 0,
        settings(text::words(expected@).drop_first()) is Some,
        forall|i: int|
            0 <= i < text::lines(actual@).len() ==> {
                let words = text::words(#[trigger] text::lines(actual@)[i]);
                &&& words.len() > 0
                &&& settings(words.drop_first()) is Some
                &&& text::trimmed(text::lines(actual@)[i]).len() > 0
            },
    ensures
        0 <= k < text::lines(actual@).len() && (forall|i: int|
            0 <= i < text::lines(actual@).len() ==> ((text::words(
                #[trigger] text::lines(actual@)[i],
            )[0] == text::words(expected@)[0]) <==> i == k)) ==> r == Ok::<
            bool,
            ExecutionDomainError,
        >(
            settings(text::words(text::lines(actual@)[k]).drop_first()) == settings(
                text::words(expected@).drop_first(),
            ),
        ),
        (forall|i: int|
            0 <= i < text::lines(actual@).len() ==> text::words(
                #[trigger] text::lines(actual@)[i],
            )[0] != text::words(expected@)[0]) ==> r == Ok::<bool, ExecutionDomainError>(false),
{
    let lines = text::lines(actual@);
    let device = text::words(expected@)[0];
    let wanted = settings(text::words(expected@).drop_first())->0;
    if 0 <= k < lines.len() && (forall|i: int|
        0 <= i < lines.len() ==> ((text::words(#[trigger] lines[i])[0] == device) <==> i == k)) {
        lemma_one_line_decides(lines, device, wanted, k, lines.len() as int);
        assert(lines.take(lines.len() as int) =~= lines);
    }
    if forall|i: int| 0 <= i < lines.len() ==> text::words(#[trigger] lines[i])[0] != device {
        lemma_one_line_decides(lines, device, wanted, -1, lines.len() as int);
        assert(lines.take(lines.len() as int) =~= lines);
    }
}

proof fn lemma_one_line_decides(
    lines: Seq<Seq<char>>,
    device: Seq<char>,
    wanted: Map<Seq<char>, Seq<char>>,
    k: int,
    n: int,
)
    requires
        0 <= n <= lines.len(),
        k < lines.len(),
        forall|i: int|
            0 <= i < lines.len() ==> {
                let words = text::words(#[trigger] lines[i]);
                &&& words.len() > 0
                &&& settings(words.drop_first()) is Some
                &&& text::trimmed(lines[i]).len() > 0
                &&& words[0] == device <==> i == k
            },
    ensures
        device_match(lines.take(n), device, wanted) == (if 0 <= k < n {
            DeviceMatch::Matched(settings(text::words(lines[k]).drop_first())->0 == wanted)
        } else {
            DeviceMatch::Absent
        }),
    decreases n,
{
    if n > 0 {
        lemma_one_line_decides(lines, device, wanted, k, n - 1);
        assert(lines.take(n).drop_last() =~= lines.take(n - 1));
        assert(lines.take(n).last() == lines[n - 1]);
    }
}

/// A device that stands on two lines, or a line that cannot be read, makes no sense.
pub proof fn law_ambiguous_throughput_is_refused(
    actual: &str,
    expected: &str,
    i: int,
    j: int,
    r: Result<bool, ExecutionDomainError>,
)
    requires
        call_ensures(io_limit_matches, (actual, expected), r),
        0 <= i < text::lines(actual@).len(),
        text::trimmed(text::lines(actual@)[i]).len() > 0,
        ({
            let line = text::words(text::lines(actual@)[i]);
            ||| settings(line.drop_first()) is None
            ||| (i < j < text::lines(actual@).len() && text::trimmed(
                text::lines(actual@)[j],
            ).len() > 0 && line.len() > 0 && text::words(expected@).len() > 0 && line[0]
                == text::words(expected@)[0] && text::words(text::lines(actual@)[j]).len() > 0
                && text::words(text::lines(actual@)[j])[0] == line[0])
        }),
    ensures
        r is Err,
{
    let lines = text::lines(actual@);
    if io_line(expected@) is Some {
        let (device, wanted) = io_line(expected@)->0;
        if device_match(lines, device, wanted) is Malformed {
        } else {
            lemma_readable_so_far(lines, device, wanted, i + 1);
            assert(lines.take(i + 1).drop_last() =~= lines.take(i));
            assert(lines.take(i + 1).last() == lines[i]);
            lemma_readable_so_far(lines, device, wanted, i);
            if i < j < lines.len() && text::words(lines[j])[0] == device {
                lemma_readable_so_far(lines, device, wanted, j + 1);
                lemma_readable_so_far(lines, device, wanted, j);
                assert(lines.take(j + 1).drop_last() =~= lines.take(j));
                assert(lines.take(j + 1).last() == lines[j]);
                lemma_matched_stays(lines, device, wanted, i + 1, j);
            }
        }
    }
}

proof fn lemma_readable_so_far(
    lines: Seq<Seq<char>>,
    device: Seq<char>,
    wanted: Map<Seq<char>, Seq<char>>,
    n: int,
)
    requires
        0 <= n <= lines.len(),
        !(device_match(lines, device, wanted) is Malformed),
    ensures
        !(device_match(lines.take(n), device, wanted) is Malformed),
{
    if device_match(lines.take(n), device, wanted) is Malformed {
        lemma_malformed_stays(lines, n, device, wanted);
    }
}

proof fn lemma_matched_stays(
    lines: Seq<Seq<char>>,
    device: Seq<char>,
    wanted: Map<Seq<char>, Seq<char>>,
    n: int,
    m: int,
)
    requires
        0 <= n <= m <= lines.len(),
        device_match(lines.take(n), device, wanted) is Matched,
    ensures
        !(device_match(lines.take(m), device, wanted) is Absent),
    decreases m - n,
{
    if n < m {
        lemma_matched_stays(lines, device, wanted, n, m - 1);
        assert(lines.take(m).drop_last() =~= lines.take(m - 1));
    }
}

/// A group with the four controllers can be used, and one that lacks any cannot.
pub proof fn law_four_controllers_are_needed(
    value: &str,
    r: Result<(), ExecutionDomainError>,
)
    requires
        call_ensures(validate_controllers, (value,), r),
    ensures
        r is Ok <==> text::words(value@).contains("cpu"@) && text::words(value@).contains("memory"@)
            && text::words(value@).contains("pids"@) && text::words(value@).contains("io"@),
        r is Err ==> (r->Err_0 matches ExecutionDomainError::Backend { stage, category, .. } && stage
            == Stage::Cgroup && category == FailureCategory::Unsupported),
{
}

/// A group is made, then limited, then checked, and only then given controllers, a
/// group for the domain and members. Every limit is written, as it was given.
pub proof fn law_groups_are_limited_before_use(
    writes: &[(String, String)],
    r: Vec<CgroupOperation>,
    i: int,
)
    requires
        call_ensures(creation_operations, (writes,), r),
        0 <= i < writes@.len(),
    ensures
        r@[0] is CreateAttempt,
        r@[i + 1] matches CgroupOperation::WriteLimit(name, value) && name@ == writes@[i].0@
            && value@ == writes@[i].1@,
        r@.len() == writes@.len() + 5,
        r@[r@.len() - 4] is VerifyLimits,
        r@[r@.len() - 3] is EnableControllers,
        r@[r@.len() - 2] is CreateDomain,
        r@[r@.len() - 1] is OpenMembership,
{
    assert(r@[i + 1] is WriteLimit);
}

/// The operations of a creation are performed one after the other; the first failure
/// ends it, and what was made before is undone.
pub proof fn law_failed_creations_are_undone(
    c: &mut AttemptCreation,
    outcome: Result<(), ExecutionDomainError>,
    r: CreationStep,
)
    requires
        call_ensures(AttemptCreation::advance, (c, outcome), r),
        0 <= old(c).position() < old(c).all().len(),
    ensures
        outcome is Ok && old(c).position() + 1 < old(c).all().len() ==> r == CreationStep::Perform(
            (old(c).position() + 1) as usize,
        ) && final(c).position() == old(c).position() + 1,
        outcome is Ok && old(c).position() + 1 == old(c).all().len() ==> r is Complete,
        outcome is Err && old(c).position() > 0 ==> r == CreationStep::Undo(outcome->Err_0),
        outcome is Err && old(c).position() == 0 ==> r == CreationStep::Fail(outcome->Err_0),
        final(c).all() == old(c).all(),
{
}

/// A list of members is read where every word is a process number, and then lists just
/// these, in order.
pub proof fn law_members_are_positive_numbers(
    value: &str,
    k: int,
    r: Result<Vec<i32>, ExecutionDomainError>,
)
    requires
        call_ensures(parse_members, (value,), r),
    ensures
        r is Ok <==> (forall|i: int|
            0 <= i < text::words(value@).len() ==> {
                let number = text::unsigned(
                    #[trigger] text::words(value@)[i],
                    0x7fff_ffff,
                );
                number is Some && number->0 > 0
            }),
        r matches Ok(members) ==> members@.len() == text::words(value@).len() && (0 <= k
            < members@.len() ==> text::unsigned(text::words(value@)[k], 0x7fff_ffff) == Some(
            members@[k] as nat,
        )),
{
    let words = text::words(value@);
    if r is Ok {
        assert forall|i: int| 0 <= i < words.len() implies ({
            let number = text::unsigned(#[trigger] words[i], 0x7fff_ffff);
            number is Some && number->0 > 0
        }) by {
            assert(process_number(words[i]) is Some);
        }
        if 0 <= k < words.len() {
            assert(process_number(words[k]) == Some(r->Ok_0@[k] as nat));
        }
    }
}

/// A group is populated as its one line says; with no such line, with two, or with
/// another word, nothing is known.
pub proof fn law_population_is_said_once(
    value: &str,
    k: int,
    r: Result<bool, ExecutionDomainError>,
)
    requires
        call_ensures(parse_populated, (value,), r),
        0 <= k < text::lines(value@).len(),
        text::words(text::lines(value@)[k]).len() > 0,
        text::words(text::lines(value@)[k])[0] == "populated"@,
    ensures
        ({
            let words = text::words(text::lines(value@)[k]);
            let alone = forall|i: int|
                0 <= i < text::lines(value@).len() && i != k ==> text::words(
                    #[trigger] text::lines(value@)[i],
                ).len() == 0 || text::words(text::lines(value@)[i])[0] != "populated"@;
            &&& alone && words.len() == 2 && words[1] == "0"@ ==> r == Ok::<
                bool,
                ExecutionDomainError,
            >(false)
            &&& alone && words.len() == 2 && words[1] == "1"@ ==> r == Ok::<
                bool,
                ExecutionDomainError,
            >(true)
            &&& alone && (words.len() != 2 || (words[1] != "0"@ && words[1] != "1"@)) ==> r is Err
        }),
{
    reveal_strlit("0");
    reveal_strlit("1");
    assert("0"@[0] != "1"@[0]);
    let lines = text::lines(value@);
    if forall|i: int|
        0 <= i < lines.len() && i != k ==> text::words(#[trigger] lines[i]).len() == 0
            || text::words(lines[i])[0] != "populated"@ {
        lemma_said_once(lines, k, lines.len() as int);
        assert(lines.take(lines.len() as int) =~= lines);
    }
}

proof fn lemma_said_once(lines: Seq<Seq<char>>, k: int, n: int)
    requires
        0 <= n <= lines.len(),
        forall|i: int|
            0 <= i < lines.len() && i != k ==> text::words(#[trigger] lines[i]).len() == 0
                || text::words(lines[i])[0] != "populated"@,
    ensures
        population_of(lines.take(n)) == (if 0 <= k < n {
            population_after(Population::Unknown, lines[k])
        } else {
            Population::Unknown
        }),
    decreases n,
{
    if n > 0 {
        lemma_said_once(lines, k, n - 1);
        assert(lines.take(n).drop_last() =~= lines.take(n - 1));
        assert(lines.take(n).last() == lines[n - 1]);
    }
}

/// Where no line speaks of it, or a second one does, nothing is known of a population.
pub proof fn law_population_must_be_said(
    value: &str,
    i: int,
    j: int,
    r: Result<bool, ExecutionDomainError>,
)
    requires
        call_ensures(parse_populated, (value,), r),
        ({
            let lines = text::lines(value@);
            ||| forall|k: int|
                0 <= k < lines.len() ==> text::words(#[trigger] lines[k]).len() == 0
                    || text::words(lines[k])[0] != "populated"@
            ||| (0 <= i < j < lines.len() && text::words(lines[i]).len() > 0 && text::words(
                lines[i],
            )[0] == "populated"@ && text::words(lines[j]).len() > 0 && text::words(lines[j])[0]
                == "populated"@)
        }),
    ensures
        r is Err,
{
    let lines = text::lines(value@);
    if forall|k: int|
        0 <= k < lines.len() ==> text::words(#[trigger] lines[k]).len() == 0 || text::words(
            lines[k],
        )[0] != "populated"@ {
        lemma_said_once(lines, -1, lines.len() as int);
        assert(lines.take(lines.len() as int) =~= lines);
    } else {
        lemma_said_is_not_forgotten(lines, i, j);
        lemma_malformed_population_stays(lines, j + 1);
    }
}

proof fn lemma_said_is_not_forgotten(lines: Seq<Seq<char>>, i: int, n: int)
    requires
        0 <= i < n < lines.len(),
        text::words(lines[i]).len() > 0,
        text::words(lines[i])[0] == "populated"@,
    ensures
        !(population_of(lines.take(n)) is Unknown),
        text::words(lines[n]).len() > 0 && text::words(lines[n])[0] == "populated"@
            ==> population_of(lines.take(n + 1)) is Malformed,
    decreases n,
{
    assert(lines.take(n).drop_last() =~= lines.take(n - 1));
    assert(lines.take(n).last() == lines[n - 1]);
    assert(lines.take(n + 1).drop_last() =~= lines.take(n));
    assert(lines.take(n + 1).last() == lines[n]);
    if i < n - 1 {
        lemma_said_is_not_forgotten(lines, i, n - 1);
    }
}

proof fn lemma_malformed_population_stays(lines: Seq<Seq<char>>, n: int)
    requires
        0 <= n <= lines.len(),
        population_of(lines.take(n)) is Malformed,
    ensures
        population_of(lines) is Malformed,
    decreases lines.len() - n,
{
    if n < lines.len() {
        assert(lines.take(n + 1).drop_last() =~= lines.take(n));
        lemma_malformed_population_stays(lines, n + 1);
    } else {
        assert(lines.take(n) =~= lines);
    }
}

/// A group is free exactly where it says that it is not populated and lists no member;
/// a file that cannot be read or understood decides nothing.
pub proof fn law_free_groups_say_and_list_nothing(
    events: FileText,
    members: FileText,
    populated: Result<bool, ExecutionDomainError>,
    pids: Result<Vec<i32>, ExecutionDomainError>,
)
    requires
        events is Ok,
        members is Ok,
        population_of(text::lines(events->Ok_0@)) == (match populated {
            Ok(p) => Population::Known(p),
            Err(_) => Population::Malformed,
        }),
        member_count(members->Ok_0@) == (match pids {
            Ok(list) => Some(list@.len()),
            Err(_) => None,
        }),
    ensures
        busy_by(events, members) == Ok::<bool, ExecutionDomainError>(false) <==> populated == Ok::<
            bool,
            ExecutionDomainError,
        >(false) && pids is Ok && pids->Ok_0@.len() == 0,
        populated == Ok::<bool, ExecutionDomainError>(true) ==> busy_by(events, members) == Ok::<
            bool,
            ExecutionDomainError,
        >(true),
        populated == Ok::<bool, ExecutionDomainError>(false) && pids is Ok && pids->Ok_0@.len() > 0
            ==> busy_by(events, members) == Ok::<bool, ExecutionDomainError>(true),
        populated is Err ==> busy_by(events, members) is Err,
        populated == Ok::<bool, ExecutionDomainError>(false) && pids is Err ==> busy_by(
            events,
            members,
        ) is Err,
{
}

/// A hierarchy whose groups are all free is empty, as long as there was time to look;
/// the first group that is not free, or could not be looked at, decides otherwise.
pub proof fn law_hierarchies_are_as_their_groups(
    groups: Seq<GroupReading>,
    from: int,
    top: GroupReading,
    deadline: Option<u128>,
    k: int,
)
    requires
        0 <= from <= k <= groups.len(),
        forall|i: int|
            from <= i < k ==> busy_by((#[trigger] groups[i]).events, groups[i].members) == Ok::<
                bool,
                ExecutionDomainError,
            >(false) && (deadline matches Some(at) ==> groups[i].before < at),
    ensures
        ({
            let here = if k < groups.len() {
                groups[k]
            } else {
                top
            };
            let in_time = deadline matches Some(at) ==> here.before < at && here.after < at;
            let busy = busy_by(here.events, here.members);
            &&& in_time && busy == Ok::<bool, ExecutionDomainError>(true) ==> empty_from(
                groups,
                from,
                top,
                deadline,
            ) == Ok::<bool, ExecutionDomainError>(false)
            &&& in_time && k == groups.len() && busy == Ok::<bool, ExecutionDomainError>(false)
                ==> empty_from(groups, from, top, deadline) == Ok::<bool, ExecutionDomainError>(true)
            &&& in_time && busy is Err ==> empty_from(groups, from, top, deadline) is Err
            &&& (deadline matches Some(at) && here.before >= at) ==> empty_from(
                groups,
                from,
                top,
                deadline,
            ) is Err
        }),
    decreases k - from,
{
    if from < k {
        law_hierarchies_are_as_their_groups(groups, from + 1, top, deadline, k);
    }
}

/// A group may be removed only when it is free, whichever of its files is read first.
pub proof fn law_only_free_groups_are_removed(
    events: FileText,
    members: FileText,
    a: Result<(), ExecutionDomainError>,
    b: Result<(), ExecutionDomainError>,
)
    requires
        call_ensures(check_group_removal, (events, members), a),
        call_ensures(check_emptied_removal, (members, events), b),
    ensures
        a is Ok <==> busy_by(events, members) == Ok::<bool, ExecutionDomainError>(false),
        b is Ok <==> a is Ok,
        said_busy(events) == Ok::<bool, ExecutionDomainError>(true) ==> (
        a matches Err(ExecutionDomainError::Backend { category, .. }) && category
            == FailureCategory::Unavailable),
{
}

/// An entry of the hierarchy is a group or one of its control files; whatever is not on
/// the same mount, or is anything else, is refused.
pub proof fn law_entries_are_groups_or_controls(
    m: Metadata,
    parent: Metadata,
    r: Result<bool, ExecutionDomainError>,
    control: Result<(), ExecutionDomainError>,
)
    requires
        call_ensures(entry_is_directory, (&m, &parent), r),
        call_ensures(check_control, (&m, &parent), control),
    ensures
        ({
            let near = m.beside(parent.id());
            &&& r == Ok::<bool, ExecutionDomainError>(true) <==> near && m.kind() == S_IFDIR
            &&& r == Ok::<bool, ExecutionDomainError>(false) <==> near && m.kind() == S_IFREG
                && m.nlink == 1
            &&& control is Ok <==> near && m.kind() == S_IFREG && m.nlink == 1
        }),
{
}

/// A service that is alone in its group, as every look confirms, gets through all the
/// stages in order, and one that is not is refused.
pub proof fn law_the_supervisor_is_alone(
    stage: SupervisorStage,
    event: SupervisorEvent,
    pid: i32,
    r: Result<SupervisorStage, ExecutionDomainError>,
)
    requires
        call_ensures(prepare_supervisor, (stage, event, pid), r),
    ensures
        event matches SupervisorEvent::Failed(e) ==> r == Err::<
            SupervisorStage,
            ExecutionDomainError,
        >(e),
        stage is Limits && event is Passed ==> r == Ok::<SupervisorStage, ExecutionDomainError>(
            SupervisorStage::RootMembers,
        ),
        stage is RootMembers ==> (event matches SupervisorEvent::Members(list, _) ==> (if forall|
            i: int,
        |
            0 <= i < list@.len() ==> #[trigger] list@[i] == pid {
            r == Ok::<SupervisorStage, ExecutionDomainError>(SupervisorStage::SupervisorMembers)
        } else {
            r is Err
        })),
        stage is SupervisorMembers ==> (event matches SupervisorEvent::Members(list, below) ==> (if (
        forall|i: int| 0 <= i < list@.len() ==> #[trigger] list@[i] == pid) && !below {
            r == Ok::<SupervisorStage, ExecutionDomainError>(SupervisorStage::Migrate)
        } else {
            r is Err
        })),
        stage is Migrate && event is Passed ==> r == Ok::<SupervisorStage, ExecutionDomainError>(
            SupervisorStage::RootEmptied,
        ),
        stage is RootEmptied ==> (event matches SupervisorEvent::Members(list, _) ==> (if list@.len()
            == 0 {
            r == Ok::<SupervisorStage, ExecutionDomainError>(SupervisorStage::SupervisorAlone)
        } else {
            r is Err
        })),
        stage is SupervisorAlone ==> (event matches SupervisorEvent::Members(list, _) ==> (
        if list@.len() == 1 && list@[0] == pid {
            r == Ok::<SupervisorStage, ExecutionDomainError>(SupervisorStage::Enable)
        } else {
            r is Err
        })),
        stage is Enable && event is Passed ==> r == Ok::<SupervisorStage, ExecutionDomainError>(
            SupervisorStage::LimitsAgain,
        ),
        stage is LimitsAgain && event is Passed ==> r == Ok::<SupervisorStage, ExecutionDomainError>(
            SupervisorStage::Ready,
        ),
        r == Ok::<SupervisorStage, ExecutionDomainError>(SupervisorStage::Ready) ==> stage
            is LimitsAgain && event is Passed,
{
    match event {
        SupervisorEvent::Members(list, _) => {
            if list@.len() == 1 && list@[0] == pid {
                assert(list@ =~= seq![pid]);
            }
        },
        _ => {},
    }
}

/// Before a group is made for an attempt, the service has a group of its own, the limits
/// stand, the four controllers are there and the root has no members.
pub proof fn law_attempts_need_a_prepared_root(
    supervisor_ready: bool,
    limits: Result<(), ExecutionDomainError>,
    subtree_control: &str,
    members: &str,
    r: Result<(), ExecutionDomainError>,
)
    requires
        call_ensures(
            check_attempt_preconditions,
            (supervisor_ready, limits, subtree_control, members),
            r,
        ),
    ensures
        ({
            let words = text::words(subtree_control@);
            r is Ok <==> supervisor_ready && limits is Ok && words.contains("cpu"@)
                && words.contains("memory"@) && words.contains("pids"@) && words.contains("io"@)
                && text::words(members@).len() == 0
        }),
        !supervisor_ready ==> (r matches Err(ExecutionDomainError::Backend { category, .. })
            && category == FailureCategory::NotReady),
        supervisor_ready && limits is Err ==> r == limits,
{
    let words = text::words(members@);
    if words.len() == 0 {
        assert(forall|i: int| 0 <= i < words.len() ==> process_number(#[trigger] words[i]) is Some);
    }
}

/// Processes are stopped once, and the group is looked at until it is free or the time
/// is over; the first error is kept, and lets nothing count as free.
pub proof fn law_groups_are_looked_at_again(
    n: &mut Neutralization,
    outcome: Result<bool, ExecutionDomainError>,
    now: u128,
    deadline: u128,
)
    requires
        call_ensures(Neutralization::scanned, (n, outcome, now, deadline), ()),
        old(n).at() is FirstScan || old(n).at() is Rescan,
    ensures
        final(n).at() == NeutralizeStage::Finished(true) <==> outcome == Ok::<
            bool,
            ExecutionDomainError,
        >(true),
        final(n).at() is Kill <==> old(n).at() is FirstScan && outcome != Ok::<
            bool,
            ExecutionDomainError,
        >(true),
        final(n).at() is Rescan <==> old(n).at() is Rescan && outcome == Ok::<
            bool,
            ExecutionDomainError,
        >(false) && now < deadline,
        old(n).error() is Some ==> final(n).error() == old(n).error(),
        old(n).error() is None && outcome is Err ==> final(n).error() == Some(outcome->Err_0),
        old(n).error() is None && outcome is Ok && !(final(n).at() == NeutralizeStage::Finished(
            false,
        )) ==> final(n).error() is None,
{
}

/// A group counts as stopped only where no error was met and the last look found it
/// free.
pub proof fn law_stopped_groups_are_free(
    n: Neutralization,
    r: Result<(), ExecutionDomainError>,
)
    requires
        call_ensures(Neutralization::finish, (n,), r),
    ensures
        r is Ok <==> n.error() is None && n.at() == NeutralizeStage::Finished(true),
        n.error() is Some ==> r == Err::<(), ExecutionDomainError>(n.error()->0),
{
}

/// A kill that failed does not end the looking.
pub proof fn law_kills_are_followed_by_a_look(
    n: &mut Neutralization,
    outcome: Result<(), ExecutionDomainError>,
)
    requires
        call_ensures(Neutralization::killed, (n, outcome), ()),
        old(n).at() is Kill,
    ensures
        final(n).at() is Rescan,
        old(n).error() is Some ==> final(n).error() == old(n).error(),
        old(n).error() is None && outcome is Err ==> final(n).error() == Some(outcome->Err_0),
        old(n).error() is None && outcome is Ok ==> final(n).error() is None,
{
}

/// Waits end at their deadline, with the first failed look, and with the first look
/// that found nothing; otherwise they go on.
pub proof fn law_waits_end_with_a_free_group(
    now: u128,
    deadline: u128,
    scan: Result<bool, ExecutionDomainError>,
    a: WaitStep,
    b: WaitStep,
)
    requires
        call_ensures(wait_empty, (now, deadline, scan), a),
        call_ensures(wait_removable, (scan, now, deadline), b),
    ensures
        a is Again <==> now < deadline && scan == Ok::<bool, ExecutionDomainError>(false),
        b is Again <==> now < deadline && scan == Ok::<bool, ExecutionDomainError>(false),
        a == WaitStep::Done(Ok(())) <==> now < deadline && scan == Ok::<
            bool,
            ExecutionDomainError,
        >(true),
        b == WaitStep::Done(Ok(())) <==> scan == Ok::<bool, ExecutionDomainError>(true),
        scan is Err ==> b == WaitStep::Done(Err(scan->Err_0)),
        scan is Err && now < deadline ==> a == WaitStep::Done(Err(scan->Err_0)),
{
}

/// A wait pauses ten milliseconds at most, and never past its deadline.
pub proof fn law_pauses_are_short(
    began: u128,
    scan: Result<bool, ExecutionDomainError>,
    now: u128,
    deadline: u128,
    r: EmptyStep,
)
    requires
        call_ensures(wait_emptied, (began, scan, now, deadline), r),
    ensures
        r matches EmptyStep::Again(pause) ==> began < deadline && now < deadline && scan == Ok::<
            bool,
            ExecutionDomainError,
        >(false) && pause <= 10_000_000 && now + pause <= deadline && (pause == 10_000_000 || now
            + pause == deadline),
        began < deadline && scan == Ok::<bool, ExecutionDomainError>(true) ==> r == EmptyStep::Done(
            Ok(true),
        ),
        began < deadline && scan == Ok::<bool, ExecutionDomainError>(false) && now >= deadline ==> r
            == EmptyStep::Done(Ok(false)),
        began < deadline && scan == Ok::<bool, ExecutionDomainError>(false) && now < deadline ==> r
            is Again,
        began < deadline && scan is Err ==> r == EmptyStep::Done(Err(scan->Err_0)),
        began >= deadline ==> (r matches EmptyStep::Done(Err(_))),
{
}

/// A process that was moved is the only member of its group.
pub proof fn law_attached_workers_are_alone(
    members: Result<Vec<i32>, ExecutionDomainError>,
    pid: i32,
    r: Result<(), ExecutionDomainError>,
)
    requires
        call_ensures(check_attached, (members, pid), r),
    ensures
        r is Ok <==> members is Ok && members->Ok_0@.len() == 1 && members->Ok_0@[0] == pid,
        members is Err ==> r is Err && r->Err_0 == members->Err_0,
{
    if members is Ok && members->Ok_0@.len() == 1 && members->Ok_0@[0] == pid {
        assert(members->Ok_0@ =~= seq![pid]);
    }
}

/// A group that is delegated has the four controllers and the ordinary kind.
pub proof fn law_delegated_groups_are_ordinary(
    controllers: &str,
    kind: &str,
    r: Result<(), ExecutionDomainError>,
)
    requires
        call_ensures(check_delegated, (controllers, kind), r),
        text::words(kind@) == seq!["domain"@],
    ensures
        ({
            let words = text::words(controllers@);
            r is Ok <==> words.contains("cpu"@) && words.contains("memory"@) && words.contains(
                "pids"@,
            ) && words.contains("io"@)
        }),
{
    reveal_strlit("domain");
    text::law_words_are_separated(seq![], ' ', seq![], "domain"@);
}

/// A group of another kind is not delegated.
pub proof fn law_other_kinds_are_not_delegated(
    controllers: &str,
    kind: &str,
    r: Result<(), ExecutionDomainError>,
)
    requires
        call_ensures(check_delegated, (controllers, kind), r),
        text::words(kind@) != seq!["domain"@],
    ensures
        r is Err,
{
    reveal_strlit("domain");
    text::law_words_are_separated(seq![], ' ', seq![], "domain"@);
}

/// Controllers are enabled only in a group with the four of them and without members.
pub proof fn law_controllers_need_an_empty_group(
    controllers: &str,
    members: &str,
    r: Result<(), ExecutionDomainError>,
)
    requires
        call_ensures(check_enable, (controllers, members), r),
    ensures
        ({
            let words = text::words(controllers@);
            r is Ok <==> words.contains("cpu"@) && words.contains("memory"@) && words.contains(
                "pids"@,
            ) && words.contains("io"@) && text::words(members@).len() == 0
        }),
{
    let words = text::words(members@);
    if words.len() == 0 {
        assert(forall|i: int| 0 <= i < words.len() ==> process_number(#[trigger] words[i]) is Some);
    }
}

/// A domain is evacuated once its own group has no members and the group of its first
/// process has some.
pub proof fn law_evacuated_groups_have_moved_on(
    domain_members: &str,
    init_members: &str,
    r: Result<(), ExecutionDomainError>,
)
    requires
        call_ensures(check_evacuated, (domain_members, init_members), r),
    ensures
        r is Ok ==> text::words(domain_members@).len() == 0 && text::words(init_members@).len() > 0,
        text::words(domain_members@).len() == 0 && member_count(init_members@) is Some
            && text::words(init_members@).len() > 0 ==> r is Ok,
        member_count(domain_members@) is Some && text::words(domain_members@).len() > 0 ==> (
        r matches Err(ExecutionDomainError::Backend { category, .. }) && category
            == FailureCategory::NotReady),
{
    let words = text::words(domain_members@);
    if words.len() == 0 {
        assert(forall|i: int| 0 <= i < words.len() ==> process_number(#[trigger] words[i]) is Some);
    }
}

/// A walk through a hierarchy sees a bounded number of groups and entries, and goes down
/// a bounded number of steps.
pub proof fn law_walks_are_bounded(
    t: Traversal,
    start: Traversal,
    entered: Result<Traversal, ExecutionDomainError>,
    seen: Result<Traversal, ExecutionDomainError>,
)
    requires
        call_ensures(Traversal::start, (), start),
        call_ensures(Traversal::enter, (t,), entered),
        call_ensures(Traversal::next_entry, (t,), seen),
    ensures
        start.opened_so_far() == 1,
        start.current_depth() == 0,
        start.entries_left() == 524_288,
        entered matches Ok(next) ==> next.opened_so_far() == t.opened_so_far() + 1
            && next.opened_so_far() <= 4096 && next.current_depth() == t.current_depth() + 1
            && next.current_depth() < 64,
        t.current_depth() + 1 < 64 && t.opened_so_far() < 4096 ==> entered is Ok,
        seen is Ok <==> t.entries_left() > 0,
        seen matches Ok(next) ==> next.entries_left() + 1 == t.entries_left(),
{
}

/// An error that could not be undone carries what went wrong with the undoing.
pub proof fn law_failed_undoing_is_reported(
    error: ExecutionDomainError,
    undone: Result<(), ExecutionDomainError>,
    r: ExecutionDomainError,
)
    requires
        call_ensures(combine, (error, undone), r),
    ensures
        undone is Ok ==> r == error,
        undone is Err ==> (r matches ExecutionDomainError::LifecycleAndDestroyFailed {
            lifecycle,
            destroy,
        } && *lifecycle == error && *destroy == undone->Err_0),
{
}

/// A walk through groups has a budget of entries and of groups that only goes down, one
/// at a time, and goes sixty-four levels deep; once it is used up it stays so.
pub proof fn law_budgets_go_down(
    fresh: TraversalBudget,
    a: &mut TraversalBudget,
    b: &mut TraversalBudget,
    depth: usize,
    r: Result<(), ExecutionDomainError>,
    s: Result<(), ExecutionDomainError>,
)
    requires
        call_ensures(TraversalBudget::new, (), fresh),
        call_ensures(TraversalBudget::entry, (a,), r),
        call_ensures(TraversalBudget::child, (b, depth), s),
    ensures
        fresh.groups_left() == 4095 && fresh.entries_left() == 524_288,
        r is Ok <==> old(a).entries_left() > 0,
        final(a).entries_left() == old(a).entries_left() - (if r is Ok {
            1int
        } else {
            0
        }),
        s is Ok <==> depth < 64 && old(b).groups_left() > 0,
        final(b).groups_left() == old(b).groups_left() - (if s is Ok {
            1int
        } else {
            0
        }),
        final(a).groups_left() == old(a).groups_left(),
        final(b).entries_left() == old(b).entries_left(),
{
}

/// A traversal comes back up from every level it went down to, and ends where it began.
pub proof fn law_traversals_come_back_up(t: Traversal, r: Option<Traversal>)
    requires
        call_ensures(Traversal::leave, (t,), r),
    ensures
        r is Some <==> t.current_depth() > 0,
        r matches Some(up) ==> up.current_depth() + 1 == t.current_depth() && up.opened_so_far()
            == t.opened_so_far() && up.entries_left() == t.entries_left(),
{
}

/// A scan begins with the events of the first group and is refused once it is late; a
/// group that says it is busy ends it, one that does not has its members read, and the
/// last of them decides.
pub proof fn law_scans_look_at_both_files(
    groups: usize,
    limit: Option<u128>,
    begun: EmptyScan,
    scan: EmptyScan,
    now: u128,
    read: FileText,
    said: Result<bool, ExecutionDomainError>,
    listed: Result<bool, ExecutionDomainError>,
    started: Result<(), ExecutionDomainError>,
    r: ScanStep,
)
    requires
        call_ensures(EmptyScan::begin, (groups, limit), begun),
        call_ensures(EmptyScan::check_begin, (&scan, now), started),
        call_ensures(EmptyScan::advance, (scan, read, now), r),
        call_ensures(says_busy, (read,), said),
        call_ensures(lists_busy, (read,), listed),
    ensures
        begun.groups == groups && begun.at == 0 && !begun.members && begun.deadline == limit,
        started is Err <==> !scan.members && scan.deadline is Some && now >= scan.deadline->0,
        ({
            let busy = if scan.members {
                listed
            } else {
                said
            };
            let over = scan.deadline is Some && now >= scan.deadline->0;
            &&& busy is Err ==> r == ScanStep::Done(Err(busy->Err_0))
            &&& busy == Ok::<bool, ExecutionDomainError>(true) && !over ==> r == ScanStep::Done(
                Ok(false),
            )
            &&& busy is Ok && over ==> !(r matches ScanStep::Done(Ok(_)))
            &&& busy == Ok::<bool, ExecutionDomainError>(false) && !scan.members ==> (
            r matches ScanStep::Continue(next) && next.members && next.at == scan.at && next.groups
                == scan.groups && next.deadline == scan.deadline)
            &&& busy == Ok::<bool, ExecutionDomainError>(false) && scan.members && scan.at
                < scan.groups ==> (r matches ScanStep::Continue(next) && !next.members && next.at
                == scan.at + 1 && next.groups == scan.groups && next.deadline == scan.deadline)
            &&& busy == Ok::<bool, ExecutionDomainError>(false) && scan.members && scan.at
                >= scan.groups && !over ==> r == ScanStep::Done(Ok(true))
        }),
{
}

/// A group is busy by its events where their last word on it says so, and by its members
/// where it lists any; a file that cannot be read, or that says neither, is told.
pub proof fn law_files_say_whether_a_group_is_busy(
    read: String,
    e: ExecutionDomainError,
    said: Result<bool, ExecutionDomainError>,
    listed: Result<bool, ExecutionDomainError>,
    unsaid: Result<bool, ExecutionDomainError>,
    unlisted: Result<bool, ExecutionDomainError>,
)
    requires
        call_ensures(says_busy, (Ok(read),), said),
        call_ensures(lists_busy, (Ok(read),), listed),
        call_ensures(says_busy, (Err(e),), unsaid),
        call_ensures(lists_busy, (Err(e),), unlisted),
    ensures
        unsaid == Err::<bool, ExecutionDomainError>(e),
        unlisted == Err::<bool, ExecutionDomainError>(e),
        said == Ok::<bool, ExecutionDomainError>(true) <==> population_of(text::lines(read@))
            == Population::Known(true),
        said == Ok::<bool, ExecutionDomainError>(false) <==> population_of(text::lines(read@))
            == Population::Known(false),
        listed is Err <==> member_count(read@) is None,
        member_count(read@) matches Some(n) ==> listed == Ok::<bool, ExecutionDomainError>(n > 0),
{
}

/// A removal is checked by both files of a group, in either order: the first that says it
/// is busy refuses it, and only a second that does not lets it go on.
pub proof fn law_removals_read_both_files(
    emptied: bool,
    begun: RemovalCheck,
    check: RemovalCheck,
    file: GroupFile,
    read: FileText,
    said: Result<bool, ExecutionDomainError>,
    listed: Result<bool, ExecutionDomainError>,
    r: RemovalCheckStep,
)
    requires
        call_ensures(RemovalCheck::begin, (emptied,), begun),
        call_ensures(RemovalCheck::file, (&check,), file),
        call_ensures(RemovalCheck::advance, (check, read), r),
        call_ensures(says_busy, (read,), said),
        call_ensures(lists_busy, (read,), listed),
    ensures
        begun.emptied == emptied && !begun.second,
        file is Members <==> (check.emptied && !check.second) || (!check.emptied && check.second),
        ({
            let busy = if file is Members {
                listed
            } else {
                said
            };
            &&& busy is Err ==> r == RemovalCheckStep::Done(Err(busy->Err_0))
            &&& busy == Ok::<bool, ExecutionDomainError>(true) ==> (r matches RemovalCheckStep::Done(
                Err(ExecutionDomainError::Backend { category, .. }),
            ) && category == FailureCategory::Unavailable)
            &&& busy == Ok::<bool, ExecutionDomainError>(false) && check.second ==> (
            r matches RemovalCheckStep::Done(Ok(_)))
            &&& busy == Ok::<bool, ExecutionDomainError>(false) && !check.second ==> (
            r matches RemovalCheckStep::Continue(next) && next.second && next.emptied
                == check.emptied)
        }),
{
}

/// The first error is kept, whatever comes after it.
pub proof fn law_first_errors_are_kept(
    first: &mut Option<ExecutionDomainError>,
    error: ExecutionDomainError,
    done: (),
)
    requires
        call_ensures(retain_first, (first, error), done),
    ensures
        *old(first) is Some ==> *final(first) == *old(first),
        *old(first) is None ==> *final(first) == Some(error),
{
}

/// What has to be in time is, strictly before the deadline.
pub proof fn law_deadlines_are_strict(
    now: u128,
    later: u128,
    deadline: u128,
    write: Result<(), ExecutionDomainError>,
    checked: Result<(), ExecutionDomainError>,
    begun: Result<Neutralization, ExecutionDomainError>,
    killed: Result<(), ExecutionDomainError>,
)
    requires
        call_ensures(deadline_check, (now, deadline), checked),
        call_ensures(Neutralization::begin, (now, deadline), begun),
        call_ensures(kill_result, (now, write, later, deadline), killed),
    ensures
        checked is Ok <==> now < deadline,
        begun is Ok <==> now < deadline,
        killed is Ok <==> now < deadline && write is Ok && later < deadline,
        now < deadline && write is Err ==> killed->Err_0 == write->Err_0,
        begun matches Ok(n) ==> n.at() == NeutralizeStage::FirstScan && n.error() is None,
        checked matches Err(e) ==> (e matches ExecutionDomainError::Backend { stage, category, .. }
            && stage == Stage::Cgroup && category == FailureCategory::Timeout),
{
}

/// What is needed is given back where it is there; a supervisor is begun once; what was
/// recovered is removed only where it is proven empty; and a group is idle only where it
/// is known not to be busy.
pub proof fn law_conditions_come_first(
    value: Option<u64>,
    already: bool,
    proven: bool,
    busy: Result<bool, ExecutionDomainError>,
    needed: Result<&u64, ExecutionDomainError>,
    started: Result<SupervisorStage, ExecutionDomainError>,
    removable: Result<(), ExecutionDomainError>,
    idle: Result<(), ExecutionDomainError>,
)
    requires
        call_ensures(required::<u64>, (&value,), needed),
        call_ensures(check_supervisor_start, (already,), started),
        call_ensures(check_recovered_removal, (proven,), removable),
        call_ensures(check_idle, (busy,), idle),
    ensures
        value matches Some(v) ==> (needed matches Ok(n) && *n == v),
        value is None ==> needed is Err,
        started is Ok <==> !already,
        started matches Ok(stage) ==> stage is Limits,
        removable is Ok <==> proven,
        idle is Ok <==> busy == Ok::<bool, ExecutionDomainError>(false),
        busy is Err ==> idle->Err_0 == busy->Err_0,
{
}

/// A process that is gone before it could be held is no failure; any other is.
pub proof fn law_gone_processes_are_no_failure(
    errno: Option<i32>,
    r: Result<(), ExecutionDomainError>,
)
    requires
        call_ensures(capture_failure, (errno,), r),
    ensures
        r is Ok <==> errno == Some(3i32),
        r matches Err(e) ==> (e matches ExecutionDomainError::Backend { category, errno: n, .. }
            && category == FailureCategory::Io && n == errno),
{
}

/// A creation goes through its operations one by one; one that fails before anything was
/// made fails, and any later one has what was made undone.
pub proof fn law_creations_go_one_by_one(
    writes: &[(String, String)],
    begun: AttemptCreation,
    c: &mut AttemptCreation,
    d: &mut AttemptCreation,
    e: ExecutionDomainError,
    current: &CgroupOperation,
    r: CreationStep,
    failed: CreationStep,
)
    requires
        call_ensures(AttemptCreation::begin, (writes,), begun),
        call_ensures(AttemptCreation::current, (&begun,), current),
        call_ensures(AttemptCreation::advance, (c, Ok(())), r),
        call_ensures(AttemptCreation::advance, (d, Err(e)), failed),
    ensures
        begun.position() == 0 && begun.all().len() == writes@.len() + 5,
        *current == CgroupOperation::CreateAttempt,
        r == CreationStep::Complete <==> old(c).position() + 1 == old(c).all().len(),
        old(c).position() + 1 != old(c).all().len() ==> final(c).position() == old(c).position()
            + 1,
        failed == (if old(d).position() == 0 {
            CreationStep::Fail(e)
        } else {
            CreationStep::Undo(e)
        }),
        final(c).all() == old(c).all() && final(d).all() == old(d).all(),
{
}

/// Every process of every group is signalled once, by rising number, and no other is.
pub proof fn law_every_process_is_signalled_once(
    groups: &Vec<Vec<i32>>,
    g: int,
    k: int,
    i: int,
    out: Vec<i32>,
)
    requires
        call_ensures(signal_order, (groups,), out),
    ensures
        0 <= g < groups@.len() && 0 <= k < groups@[g]@.len() ==> out@.contains(groups@[g]@[k]),
        0 <= i < out@.len() ==> exists|h: int|
            0 <= h < groups@.len() && (#[trigger] groups@[h])@.contains(out@[i]),
        forall|a: int, b: int| 0 <= a < b < out@.len() ==> out@[a] < out@[b],
{
    if 0 <= g < groups@.len() && 0 <= k < groups@[g]@.len() {
        assert(groups@[g]@.contains(groups@[g]@[k]));
    }
    if 0 <= i < out@.len() {
        assert(out@.contains(out@[i]));
    }
}

/// What is enabled for the groups below are the controllers that an attempt needs, each
/// once and with the sign that turns it on.
pub proof fn law_needed_controllers_are_enabled()
    ensures
        ENABLE@ == "+"@ + "cpu"@ + " +"@ + "memory"@ + " +"@ + "pids"@ + " +"@ + "io"@,
{
    reveal_strlit("+");
    reveal_strlit(" +");
    reveal_strlit("cpu");
    reveal_strlit("memory");
    reveal_strlit("pids");
    reveal_strlit("io");
    reveal_strlit("+cpu +memory +pids +io");
    assert(ENABLE@ =~= "+"@ + "cpu"@ + " +"@ + "memory"@ + " +"@ + "pids"@ + " +"@ + "io"@);
}

} // verus!
