//! The removal of files that belong to mapped users: who owns what, what may be
//! removed, and how supervisor and worker agree on it before anything is.

use vstd::prelude::*;

use crate::contracts::{FailureCategory, Stage};
use crate::error;
use crate::error::ExecutionDomainError;
use crate::filesystem;
use crate::text;
use crate::text::Separator;

verus! {

/// The largest number of entries that one cleanup looks at.
pub const MAX_ENTRIES: usize = 524_288;

/// The number of levels below a root that one cleanup looks at.
pub const MAX_DEPTH: usize = 64;

/// The largest number of bytes that the names of one cleanup take.
pub const MAX_PATH_BYTES: usize = 1_048_576;

/// How long a cleanup may take, in nanoseconds.
pub const DEFAULT_TIMEOUT: u128 = 30_000_000_000;

/// How long a killed process may take to be reaped, in nanoseconds.
pub const REAP_GRACE: u128 = 250_000_000;

/// The part of a deadline that is kept for reaping, in nanoseconds.
pub const REAP_RESERVE: u128 = 25_000_000;

/// How long the group of a cleanup may take to become empty, in nanoseconds.
pub const CLEANUP_CGROUP_GRACE: u128 = 2_000_000_000;

/// The smallest usable number of subordinate users or groups.
pub const MIN_SUBORDINATE_IDS: u32 = 65_536;

/// A failure of the cleanup.
pub open spec fn cleanup_error(category: FailureCategory) -> ExecutionDomainError {
    error::backend(Stage::Destroy, category)
}

/// Reports a failure of the cleanup.
pub fn failure(category: FailureCategory) -> (e: ExecutionDomainError)
    ensures
        e == cleanup_error(category),
{
    error::backend_failure(Stage::Destroy, category)
}

/// The report of a failed system call of the cleanup.
pub open spec fn cleanup_io_error(errno: Option<i32>) -> ExecutionDomainError {
    ExecutionDomainError::Backend {
        attempt: None,
        stage: Stage::Destroy,
        category: FailureCategory::Io,
        errno,
    }
}

/// Reports a failed system call of the cleanup.
pub fn io_failure(errno: Option<i32>) -> (e: ExecutionDomainError)
    ensures
        e == cleanup_io_error(errno),
{
    error::backend_io_failure(Stage::Destroy, errno)
}

/// A directory that the workflow of an attempt could write.
#[derive(Debug, Clone, Copy, PartialEq, Eq, Structural)]
pub enum CleanupRootKind {
    Work,
    Tmp,
    Home,
    Run,
    DockerConfig,
    DockerData,
    DockerExec,
}

/// The byte that stands for a kind in a packet.
pub open spec fn kind_byte(kind: CleanupRootKind) -> u8 {
    match kind {
        CleanupRootKind::Work => 0,
        CleanupRootKind::Tmp => 1,
        CleanupRootKind::Home => 2,
        CleanupRootKind::Run => 3,
        CleanupRootKind::DockerConfig => 4,
        CleanupRootKind::DockerData => 5,
        CleanupRootKind::DockerExec => 6,
    }
}

/// Writes a kind as a byte.
pub fn root_kind_byte(kind: CleanupRootKind) -> (r: u8)
    ensures
        r == kind_byte(kind),
{
    match kind {
        CleanupRootKind::Work => 0,
        CleanupRootKind::Tmp => 1,
        CleanupRootKind::Home => 2,
        CleanupRootKind::Run => 3,
        CleanupRootKind::DockerConfig => 4,
        CleanupRootKind::DockerData => 5,
        CleanupRootKind::DockerExec => 6,
    }
}

/// Whether no kind is written as this byte.
pub open spec fn no_kind(value: u8) -> bool {
    forall|kind: CleanupRootKind| #[trigger] kind_byte(kind) != value
}

/// Reads a kind from a byte.
pub fn parse_root_kind(value: u8) -> (r: Result<CleanupRootKind, ExecutionDomainError>)
    ensures
        match r {
            Ok(kind) => kind_byte(kind) == value,
            Err(e) => no_kind(value) && e == cleanup_error(FailureCategory::Protocol),
        },
{
    match value {
        0 => Ok(CleanupRootKind::Work),
        1 => Ok(CleanupRootKind::Tmp),
        2 => Ok(CleanupRootKind::Home),
        3 => Ok(CleanupRootKind::Run),
        4 => Ok(CleanupRootKind::DockerConfig),
        5 => Ok(CleanupRootKind::DockerData),
        6 => Ok(CleanupRootKind::DockerExec),
        _ => Err(failure(FailureCategory::Protocol)),
    }
}

/// Different kinds are written as different bytes, so reading a written kind gives
/// it back.
pub proof fn law_kind_bytes_are_distinct(a: CleanupRootKind, b: CleanupRootKind)
    requires
        kind_byte(a) == kind_byte(b),
    ensures
        a == b,
{
}

/// Whether a number is in a range of numbers.
pub open spec fn in_range(start: u32, count: u32, value: u32) -> bool {
    start <= value && value < start + count
}

/// Whether a number is in a range. A range that would pass the largest number ends
/// just before it.
pub fn contains(start: u32, count: u32, value: u32) -> (r: bool)
    ensures
        r == (in_range(start, count, value) && value < u32::MAX),
        start + count <= u32::MAX ==> r == in_range(start, count, value),
{
    value >= start && value < start.saturating_add(count)
}

/// The users and groups of the host that an attempt may own files as: those of the
/// service, and one range of subordinate ones each.
#[derive(Debug, Clone, Copy)]
pub struct MappedIdRange {
    service_uid: u32,
    service_gid: u32,
    subuid_start: u32,
    subuid_count: u32,
    subgid_start: u32,
    subgid_count: u32,
}

/// The numbers of one kind, users or groups: the one of the service, and the start
/// and length of the subordinate range.
pub struct IdExtent {
    pub service: u32,
    pub start: u32,
    pub count: u32,
}

impl IdExtent {
    /// Whether the range is not empty, does not overflow, and leaves the number of
    /// the service out.
    pub open spec fn valid(self) -> bool {
        &&& self.count > 0
        &&& self.start + self.count <= u32::MAX
        &&& !in_range(self.start, self.count, self.service)
    }

    /// Whether a number belongs to the attempt.
    pub open spec fn owns(self, id: u32) -> bool {
        id == self.service || in_range(self.start, self.count, id)
    }
}

impl MappedIdRange {
    /// The users.
    pub closed spec fn users(self) -> IdExtent {
        IdExtent {
            service: self.service_uid,
            start: self.subuid_start,
            count: self.subuid_count,
        }
    }

    /// The groups.
    pub closed spec fn groups(self) -> IdExtent {
        IdExtent {
            service: self.service_gid,
            start: self.subgid_start,
            count: self.subgid_count,
        }
    }

    #[verifier::type_invariant]
    spec fn inv(self) -> bool {
        self.users().valid() && self.groups().valid()
    }

    /// Whether an attempt may own a file as this user and group.
    pub open spec fn owner(self, uid: u32, gid: u32) -> bool {
        self.users().owns(uid) && self.groups().owns(gid)
    }

    /// The mapping with the given extents, which must be valid.
    pub fn new(
        service_uid: u32,
        service_gid: u32,
        subuid_start: u32,
        subuid_count: u32,
        subgid_start: u32,
        subgid_count: u32,
    ) -> (r: Result<MappedIdRange, ExecutionDomainError>)
        ensures
            ({
                let users = IdExtent {
                    service: service_uid,
                    start: subuid_start,
                    count: subuid_count,
                };
                let groups = IdExtent {
                    service: service_gid,
                    start: subgid_start,
                    count: subgid_count,
                };
                match r {
                    Ok(map) => users.valid() && groups.valid() && map.users() == users
                        && map.groups() == groups,
                    Err(e) => !(users.valid() && groups.valid()) && e == cleanup_error(
                        FailureCategory::InvalidInput,
                    ),
                }
            }),
    {
        if subuid_count == 0 || subgid_count == 0 || subuid_start.checked_add(subuid_count).is_none()
            || subgid_start.checked_add(subgid_count).is_none() || contains(
            subuid_start,
            subuid_count,
            service_uid,
        ) || contains(subgid_start, subgid_count, service_gid) {
            return Err(failure(FailureCategory::InvalidInput));
        }
        Ok(
            MappedIdRange {
                service_uid,
                service_gid,
                subuid_start,
                subuid_count,
                subgid_start,
                subgid_count,
            },
        )
    }

    /// Whether an attempt may own a file as this user and group.
    pub fn owns(&self, uid: u32, gid: u32) -> (r: bool)
        ensures
            r == self.owner(uid, gid),
    {
        proof {
            use_type_invariant(self);
        }
        (uid == self.service_uid || contains(self.subuid_start, self.subuid_count, uid)) && (gid
            == self.service_gid || contains(self.subgid_start, self.subgid_count, gid))
    }

    /// Whether an attempt may own a file as this user and group.
    pub fn owns_for_test(&self, uid: u32, gid: u32) -> (r: bool)
        ensures
            r == self.owner(uid, gid),
    {
        self.owns(uid, gid)
    }

    /// The extent of the users, or of the groups.
    pub fn extent(&self, uid: bool) -> (r: IdExtent)
        ensures
            r == (if uid {
                self.users()
            } else {
                self.groups()
            }),
            r.valid(),
    {
        proof {
            use_type_invariant(self);
        }
        if uid {
            IdExtent {
                service: self.service_uid,
                start: self.subuid_start,
                count: self.subuid_count,
            }
        } else {
            IdExtent {
                service: self.service_gid,
                start: self.subgid_start,
                count: self.subgid_count,
            }
        }
    }
}

/// Ownership is one number and one range, with nothing in common: every owner is
/// either the service or in the range, never both.
pub proof fn law_service_is_outside_its_range(extent: IdExtent, id: u32)
    requires
        extent.valid(),
        extent.owns(id),
    ensures
        (id == extent.service) != in_range(extent.start, extent.count, id),
{
}

/// What the lines of a range file up to a point say about a user.
pub ghost enum RangeScan {
    Absent,
    Found(nat, nat),
    Failed,
}

/// Takes one more line into account. Every line has three fields; a user has one
/// line at most.
pub open spec fn scan_after(before: RangeScan, line: Seq<char>, user: Seq<char>) -> RangeScan {
    let fields = text::split(line, Separator::Exactly(':'));
    if before is Failed || fields.len() != 3 {
        RangeScan::Failed
    } else if fields[0] != user {
        before
    } else if before is Found {
        RangeScan::Failed
    } else {
        match (
            text::unsigned(fields[1], u32::MAX as nat),
            text::unsigned(fields[2], u32::MAX as nat),
        ) {
            (Some(start), Some(count)) => RangeScan::Found(start, count),
            _ => RangeScan::Failed,
        }
    }
}

/// What the lines of a range file together say about a user.
pub open spec fn scan_lines(lines: Seq<Seq<char>>, user: Seq<char>) -> RangeScan
    decreases lines.len(),
{
    if lines.len() == 0 {
        RangeScan::Absent
    } else {
        scan_after(scan_lines(lines.drop_last(), user), lines.last(), user)
    }
}

/// What a range file says about a user.
pub open spec fn scan_ranges(contents: Seq<char>, user: Seq<char>) -> RangeScan {
    scan_lines(text::lines(contents), user)
}

proof fn lemma_scan_stays_failed(lines: Seq<Seq<char>>, n: int, user: Seq<char>)
    requires
        0 <= n <= lines.len(),
        scan_lines(lines.take(n), user) is Failed,
    ensures
        scan_lines(lines, user) is Failed,
    decreases lines.len() - n,
{
    if n < lines.len() {
        assert(lines.take(n + 1).drop_last() =~= lines.take(n));
        lemma_scan_stays_failed(lines, n + 1, user);
    } else {
        assert(lines.take(n) =~= lines);
    }
}

/// Reads the one range of a user from a range file.
pub fn parse_single_range(user: &str, contents: &str) -> (r: Result<
    (u32, u32),
    ExecutionDomainError,
>)
    ensures
        match scan_ranges(contents@, user@) {
            RangeScan::Found(start, count) => r == Ok::<(u32, u32), ExecutionDomainError>(
                (start as u32, count as u32),
            ) && start <= u32::MAX && count <= u32::MAX,
            RangeScan::Absent => r == Err::<(u32, u32), ExecutionDomainError>(
                cleanup_error(FailureCategory::Unsupported),
            ),
            RangeScan::Failed => r == Err::<(u32, u32), ExecutionDomainError>(
                cleanup_error(FailureCategory::InvalidInput),
            ),
        },
{
    let s: Vec<char> = text::chars(contents);
    let list: Vec<Vec<char>> = text::line_list(s.as_slice());
    let ghost all = text::lines(contents@);
    let mut found: Option<(u32, u32)> = None;
    assert(text::views(list@).len() == list@.len());
    assert(all.take(0) =~= Seq::empty());
    for i in 0..list.len()
        invariant
            all == text::lines(contents@),
            text::views(list@) == all,
            all.len() == list@.len(),
            scan_lines(all.take(i as int), user@) == (match found {
                Some((start, count)) => RangeScan::Found(start as nat, count as nat),
                None => RangeScan::Absent,
            }),
    {
        proof {
            assert(all.take(i + 1).drop_last() =~= all.take(i as int));
            assert(all.take(i + 1).last() == list@[i as int]@);
        }
        let fields: Vec<Vec<char>> = text::pieces(list[i].as_slice(), Separator::Exactly(':'));
        let ghost f = text::split(list@[i as int]@, Separator::Exactly(':'));
        assert(f.len() == fields@.len());
        if fields.len() != 3 {
            proof {
                lemma_scan_stays_failed(all, i + 1, user@);
            }
            return Err(failure(FailureCategory::InvalidInput));
        }
        assert(f[0] == fields@[0]@ && f[1] == fields@[1]@ && f[2] == fields@[2]@);
        if text::text_is(fields[0].as_slice(), user) {
            let start: Option<u32> = text::number_u32(fields[1].as_slice());
            let count: Option<u32> = text::number_u32(fields[2].as_slice());
            match (found, start, count) {
                (None, Some(start), Some(count)) => {
                    found = Some((start, count));
                },
                _ => {
                    proof {
                        lemma_scan_stays_failed(all, i + 1, user@);
                    }
                    return Err(failure(FailureCategory::InvalidInput));
                },
            }
        }
    }
    assert(all.take(all.len() as int) =~= all);
    match found {
        Some(range) => Ok(range),
        None => Err(failure(FailureCategory::Unsupported)),
    }
}

/// Whether a character is white space in the ASCII sense, or NUL, or a colon.
pub open spec fn forbidden_in_user(c: char) -> bool {
    c == ':' || c == '\0' || c == ' ' || c == '\t' || c == '\n' || c == '\r' || c == '\u{c}'
}

/// Whether a user name can stand in a range file.
pub open spec fn user_valid(user: Seq<char>) -> bool {
    user.len() > 0 && forall|i: int| 0 <= i < user.len() ==> !forbidden_in_user(#[trigger] user[i])
}

fn is_valid_user(user: &str) -> (r: bool)
    ensures
        r == user_valid(user@),
{
    let s: Vec<char> = text::chars(user);
    if s.len() == 0 {
        return false;
    }
    for i in 0..s.len()
        invariant
            s@ == user@,
            forall|k: int| 0 <= k < i ==> !forbidden_in_user(#[trigger] user@[k]),
    {
        let c: char = s[i];
        if c == ':' || c == '\0' || c == ' ' || c == '\t' || c == '\n' || c == '\r' || c
            == '\u{c}' {
            assert(forbidden_in_user(user@[i as int]));
            return false;
        }
    }
    true
}

/// The mapping of one service user, read from the range files of the host.
pub struct IdMapSpec {
    service_user: String,
    range: MappedIdRange,
}

/// What reading the mapping of a service user comes to: each file must hold exactly
/// one range for the user, large enough, and valid beside the service's own numbers.
pub open spec fn mapping_outcome(
    service_user: Seq<char>,
    service_uid: u32,
    service_gid: u32,
    subuid: Seq<char>,
    subgid: Seq<char>,
    r: Result<IdMapSpec, ExecutionDomainError>,
) -> bool {
    let invalid = Err::<IdMapSpec, ExecutionDomainError>(
        cleanup_error(FailureCategory::InvalidInput),
    );
    let unsupported = Err::<IdMapSpec, ExecutionDomainError>(
        cleanup_error(FailureCategory::Unsupported),
    );
    if !user_valid(service_user) {
        r == invalid
    } else {
        match scan_ranges(subuid, service_user) {
            RangeScan::Failed => r == invalid,
            RangeScan::Absent => r == unsupported,
            RangeScan::Found(ustart, ucount) => match scan_ranges(
                subgid,
                service_user,
            ) {
                RangeScan::Failed => r == invalid,
                RangeScan::Absent => r == unsupported,
                RangeScan::Found(gstart, gcount) => {
                    let users = IdExtent {
                        service: service_uid,
                        start: ustart as u32,
                        count: ucount as u32,
                    };
                    let groups = IdExtent {
                        service: service_gid,
                        start: gstart as u32,
                        count: gcount as u32,
                    };
                    if ucount < MIN_SUBORDINATE_IDS || gcount < MIN_SUBORDINATE_IDS {
                        r == unsupported
                    } else if !users.valid() || !groups.valid() {
                        r == invalid
                    } else {
                        r matches Ok(spec) && spec.user() == service_user
                            && spec.map().users() == users && spec.map().groups()
                            == groups
                    }
                },
            },
        }
    }
}

impl IdMapSpec {
    /// The name of the service user.
    pub closed spec fn user(self) -> Seq<char> {
        self.service_user@
    }

    /// The mapping.
    pub closed spec fn map(self) -> MappedIdRange {
        self.range
    }

    /// Reads the mapping of a service user. Each file must hold exactly one range
    /// for the user, large enough, and valid beside the service's own numbers.
    pub fn parse(
        service_user: &str,
        service_uid: u32,
        service_gid: u32,
        subuid: &str,
        subgid: &str,
    ) -> (r: Result<IdMapSpec, ExecutionDomainError>)
        ensures
            mapping_outcome(
                service_user@,
                service_uid,
                service_gid,
                subuid@,
                subgid@,
                r,
            ),
    {
        if !is_valid_user(service_user) {
            return Err(failure(FailureCategory::InvalidInput));
        }
        let (subuid_start, subuid_count): (u32, u32) = match parse_single_range(
            service_user,
            subuid,
        ) {
            Ok(range) => range,
            Err(e) => {
                return Err(e);
            },
        };
        let (subgid_start, subgid_count): (u32, u32) = match parse_single_range(
            service_user,
            subgid,
        ) {
            Ok(range) => range,
            Err(e) => {
                return Err(e);
            },
        };
        if subuid_count < MIN_SUBORDINATE_IDS || subgid_count < MIN_SUBORDINATE_IDS {
            return Err(failure(FailureCategory::Unsupported));
        }
        match MappedIdRange::new(
            service_uid,
            service_gid,
            subuid_start,
            subuid_count,
            subgid_start,
            subgid_count,
        ) {
            Ok(range) => Ok(IdMapSpec { service_user: service_user.to_owned(), range }),
            Err(e) => Err(e),
        }
    }

    /// The first subordinate user.
    pub fn subuid_start(&self) -> (r: u32)
        ensures
            r == self.map().users().start,
    {
        self.range.subuid_start
    }

    /// The mapping.
    pub fn range(&self) -> (r: MappedIdRange)
        ensures
            r == self.map(),
    {
        self.range
    }
}

/// The three numbers of a line of a mapping: inside, outside, count.
pub open spec fn map_line(line: Seq<char>) -> Option<(nat, nat, nat)> {
    let words = text::words(line);
    if words.len() != 3 {
        None
    } else {
        match (
            text::unsigned(words[0], u32::MAX as nat),
            text::unsigned(words[1], u32::MAX as nat),
            text::unsigned(words[2], u32::MAX as nat),
        ) {
            (Some(inside), Some(outside), Some(count)) => Some((inside, outside, count)),
            _ => None,
        }
    }
}

/// Reads a line of a mapping.
pub fn parse_map_line(line: &[char]) -> (r: Result<(u32, u32, u32), ExecutionDomainError>)
    ensures
        match r {
            Ok((inside, outside, count)) => map_line(line@) == Some(
                (inside as nat, outside as nat, count as nat),
            ),
            Err(e) => map_line(line@) is None && e == cleanup_error(
                FailureCategory::IdentityMismatch,
            ),
        },
{
    let words: Vec<Vec<char>> = text::fields(line);
    let ghost w = text::words(line@);
    assert(w.len() == words@.len());
    if words.len() != 3 {
        return Err(failure(FailureCategory::IdentityMismatch));
    }
    assert(w[0] == words@[0]@ && w[1] == words@[1]@ && w[2] == words@[2]@);
    match (
        text::number_u32(words[0].as_slice()),
        text::number_u32(words[1].as_slice()),
        text::number_u32(words[2].as_slice()),
    ) {
        (Some(inside), Some(outside), Some(count)) => Ok((inside, outside, count)),
        _ => Err(failure(FailureCategory::IdentityMismatch)),
    }
}

/// The two lines of a mapping, if it has exactly two readable ones.
pub open spec fn map_pair(contents: Seq<char>) -> Option<((nat, nat, nat), (nat, nat, nat))> {
    let lines = text::lines(contents);
    if lines.len() != 2 {
        None
    } else {
        match (map_line(lines[0]), map_line(lines[1])) {
            (Some(first), Some(second)) => Some((first, second)),
            _ => None,
        }
    }
}

fn read_map_pair(contents: &str) -> (r: Option<((u32, u32, u32), (u32, u32, u32))>)
    ensures
        match r {
            Some((a, b)) => map_pair(contents@) == Some(
                (
                    (a.0 as nat, a.1 as nat, a.2 as nat),
                    (b.0 as nat, b.1 as nat, b.2 as nat),
                ),
            ),
            None => map_pair(contents@) is None,
        },
{
    let s: Vec<char> = text::chars(contents);
    let list: Vec<Vec<char>> = text::line_list(s.as_slice());
    let ghost lines = text::lines(contents@);
    assert(lines.len() == list@.len());
    if list.len() != 2 {
        return None;
    }
    assert(lines[0] == list@[0]@ && lines[1] == list@[1]@);
    match (parse_map_line(list[0].as_slice()), parse_map_line(list[1].as_slice())) {
        (Ok(a), Ok(b)) => Some((a, b)),
        _ => None,
    }
}

/// Whether the text of a mapping says exactly what was asked for: zero is the
/// service, and everything above is the subordinate range.
pub open spec fn map_is(contents: Seq<char>, extent: IdExtent) -> bool {
    map_pair(contents) == Some(
        (
            (0nat, extent.service as nat, 1nat),
            (1nat, extent.start as nat, extent.count as nat),
        ),
    )
}

/// Accepts the text of a mapping only if it says exactly what was asked for.
pub fn verify_map_text(contents: &str, service: u32, start: u32, count: u32) -> (r: Result<
    (),
    ExecutionDomainError,
>)
    ensures
        match r {
            Ok(_) => map_is(contents@, (IdExtent { service, start, count })),
            Err(e) => !map_is(contents@, (IdExtent { service, start, count })) && e
                == cleanup_error(FailureCategory::IdentityMismatch),
        },
{
    match read_map_pair(contents) {
        Some((a, b)) => {
            if a.0 == 0 && a.1 == service && a.2 == 1 && b.0 == 1 && b.1 == start && b.2 == count {
                Ok(())
            } else {
                Err(failure(FailureCategory::IdentityMismatch))
            }
        },
        None => Err(failure(FailureCategory::IdentityMismatch)),
    }
}

/// Accepts the text of a mapping only if it says exactly what was asked for.
pub fn verify_map_text_for_test(contents: &str, service: u32, start: u32, count: u32) -> (r: Result<
    (),
    ExecutionDomainError,
>)
    ensures
        r is Ok <==> map_is(contents@, (IdExtent { service, start, count })),
        r matches Err(e) ==> e == cleanup_error(FailureCategory::IdentityMismatch),
{
    verify_map_text(contents, service, start, count)
}

/// Accepts the text of a mapping of users or groups only if it is the expected
/// one.
pub fn verify_proc_map(contents: &str, uid: bool, map: &MappedIdRange) -> (r: Result<
    (),
    ExecutionDomainError,
>)
    ensures
        ({
            let extent = if uid {
                map.users()
            } else {
                map.groups()
            };
            match r {
                Ok(_) => map_is(contents@, extent),
                Err(e) => !map_is(contents@, extent) && e == cleanup_error(
                    FailureCategory::IdentityMismatch,
                ),
            }
        }),
{
    let extent: IdExtent = map.extent(uid);
    verify_map_text(contents, extent.service, extent.start, extent.count)
}

/// The number of subordinate identities that a worker finds in its own mapping.
pub open spec fn worker_count(contents: Seq<char>) -> Option<nat> {
    match map_pair(contents) {
        Some(((inside, _, one), (next, _, count))) => if inside == 0 && one == 1 && next == 1 {
            Some(count)
        } else {
            None
        },
        None => None,
    }
}

/// Reads the number of subordinate identities from the worker's own mapping.
pub fn verify_worker_map(contents: &str) -> (r: Result<u32, ExecutionDomainError>)
    ensures
        match r {
            Ok(count) => worker_count(contents@) == Some(count as nat),
            Err(e) => worker_count(contents@) is None && e == cleanup_error(
                FailureCategory::IdentityMismatch,
            ),
        },
{
    match read_map_pair(contents) {
        Some((a, b)) => {
            if a.0 == 0 && a.2 == 1 && b.0 == 1 {
                Ok(b.2)
            } else {
                Err(failure(FailureCategory::IdentityMismatch))
            }
        },
        None => Err(failure(FailureCategory::IdentityMismatch)),
    }
}

/// A mapping that the supervisor accepts is one that the worker accepts, and the
/// worker reads the length of the range from it.
pub proof fn law_accepted_maps_agree(contents: Seq<char>, extent: IdExtent)
    requires
        map_is(contents, extent),
    ensures
        worker_count(contents) == Some(extent.count as nat),
{
}

/// The arguments with which a mapping is installed for a process.
pub open spec fn map_words(pid: u32, extent: IdExtent) -> Seq<Seq<char>> {
    seq![
        text::decimal(pid as nat),
        "0"@,
        text::decimal(extent.service as nat),
        "1"@,
        "1"@,
        text::decimal(extent.start as nat),
        text::decimal(extent.count as nat),
    ]
}

/// The texts of a list of strings.
pub open spec fn texts(v: Seq<String>) -> Seq<Seq<char>> {
    Seq::new(v.len(), |i: int| v[i]@)
}

fn number_text(n: u32) -> (r: String)
    ensures
        r@ == text::decimal(n as nat),
{
    let digits: Vec<char> = text::render(n as u64);
    text::string(digits.as_slice())
}

/// The arguments with which a mapping of users or groups is installed.
pub fn map_arguments(pid: u32, uid: bool, map: &MappedIdRange) -> (r: Vec<String>)
    ensures
        texts(r@) == map_words(
            pid,
            if uid {
                map.users()
            } else {
                map.groups()
            },
        ),
{
    let extent: IdExtent = map.extent(uid);
    let mut r: Vec<String> = Vec::new();
    r.push(number_text(pid));
    r.push("0".to_owned());
    r.push(number_text(extent.service));
    r.push("1".to_owned());
    r.push("1".to_owned());
    r.push(number_text(extent.start));
    r.push(number_text(extent.count));
    assert(texts(r@) =~= map_words(pid, extent));
    r
}

/// Accepts a process only if it has no supplementary groups. The count is what the
/// kernel returned, negative on failure.
pub fn verify_empty_supplementary_groups(count: i32, errno: Option<i32>) -> (r: Result<
    (),
    ExecutionDomainError,
>)
    ensures
        r == (if count == 0 {
            Ok(())
        } else if count < 0 {
            Err(cleanup_io_error(errno))
        } else {
            Err(cleanup_error(FailureCategory::IdentityMismatch))
        }),
{
    if count == 0 {
        Ok(())
    } else if count < 0 {
        Err(io_failure(errno))
    } else {
        Err(failure(FailureCategory::IdentityMismatch))
    }
}

/// The process that a state file names: a positive number, with white space around
/// it.
pub open spec fn child_pid(contents: Seq<u8>) -> Option<nat> {
    if !vstd::utf8::valid_utf8(contents) {
        None
    } else {
        match text::unsigned(text::trimmed(vstd::utf8::decode_utf8(contents)), u32::MAX as nat) {
            Some(pid) => if pid > 0 {
                Some(pid)
            } else {
                None
            },
            None => None,
        }
    }
}

/// Reads the process of the launcher from its state file.
pub fn parse_child_pid(contents: &[u8]) -> (r: Result<u32, ExecutionDomainError>)
    ensures
        match r {
            Ok(pid) => child_pid(contents@) == Some(pid as nat),
            Err(e) => child_pid(contents@) is None && e == cleanup_error(
                FailureCategory::IdentityMismatch,
            ),
        },
{
    let decoded: String = match filesystem::decode_utf8(contents) {
        Some(s) => s,
        None => {
            return Err(failure(FailureCategory::IdentityMismatch));
        },
    };
    proof {
        vstd::utf8::encode_utf8_decode_utf8(decoded@);
    }
    let s: Vec<char> = text::chars(decoded.as_str());
    let word: Vec<char> = text::trim(s.as_slice());
    match text::number_u32(word.as_slice()) {
        Some(pid) => {
            if pid == 0 {
                return Err(failure(FailureCategory::IdentityMismatch));
            }
            Ok(pid)
        },
        None => Err(failure(FailureCategory::IdentityMismatch)),
    }
}

/// The first line that begins with the prefix, without it.
pub open spec fn prefixed_line(lines: Seq<Seq<char>>, prefix: Seq<char>) -> Option<Seq<char>>
    decreases lines.len(),
{
    if lines.len() == 0 {
        None
    } else if prefix.is_prefix_of(lines[0]) {
        Some(lines[0].skip(prefix.len() as int))
    } else {
        prefixed_line(lines.drop_first(), prefix)
    }
}

/// Accepts the status of a process only if it lists its groups, and lists none.
pub fn verify_status_groups(status: &str) -> (r: Result<(), ExecutionDomainError>)
    ensures
        ({
            let none = prefixed_line(text::lines(status@), "Groups:"@) matches Some(groups)
                && text::trimmed(groups).len() == 0;
            match r {
                Ok(_) => none,
                Err(e) => !none && e == cleanup_error(FailureCategory::IdentityMismatch),
            }
        }),
{
    let s: Vec<char> = text::chars(status);
    let list: Vec<Vec<char>> = text::line_list(s.as_slice());
    let prefix: Vec<char> = text::chars("Groups:");
    let ghost all = text::lines(status@);
    assert(text::views(list@).len() == list@.len());
    assert(all.skip(0) =~= all);
    for i in 0..list.len()
        invariant
            all == text::lines(status@),
            text::views(list@) == all,
            all.len() == list@.len(),
            prefix@ == "Groups:"@,
            prefixed_line(all, prefix@) == prefixed_line(all.skip(i as int), prefix@),
    {
        let ghost rest = all.skip(i as int);
        proof {
            assert(rest[0] == list@[i as int]@);
            assert(rest.drop_first() =~= all.skip(i + 1));
        }
        if text::begins(list[i].as_slice(), prefix.as_slice()) {
            let n: usize = list[i].len();
            let groups: Vec<char> = text::part(list[i].as_slice(), prefix.len(), n);
            assert(groups@ =~= rest[0].skip(prefix@.len() as int));
            let trimmed: Vec<char> = text::trim(groups.as_slice());
            if trimmed.len() == 0 {
                return Ok(());
            }
            return Err(failure(FailureCategory::IdentityMismatch));
        }
    }
    assert(all.skip(all.len() as int) =~= Seq::empty());
    Err(failure(FailureCategory::IdentityMismatch))
}

/// A kind that is written as a byte is read back, and a byte that no kind is written as is
/// refused.
pub proof fn law_kinds_are_read_back(
    kind: CleanupRootKind,
    byte: u8,
    value: u8,
    read: Result<CleanupRootKind, ExecutionDomainError>,
    r: Result<CleanupRootKind, ExecutionDomainError>,
)
    requires
        call_ensures(root_kind_byte, (kind,), byte),
        call_ensures(parse_root_kind, (byte,), read),
        call_ensures(parse_root_kind, (value,), r),
    ensures
        read == Ok::<CleanupRootKind, ExecutionDomainError>(kind),
        r is Ok <==> value < 7,
        r matches Err(e) ==> e == (ExecutionDomainError::Backend {
            attempt: None,
            stage: Stage::Destroy,
            category: FailureCategory::Protocol,
            errno: None,
        }),
{
    assert(kind_byte(CleanupRootKind::Work) == 0 && kind_byte(CleanupRootKind::Tmp) == 1
        && kind_byte(CleanupRootKind::Home) == 2 && kind_byte(CleanupRootKind::Run) == 3
        && kind_byte(CleanupRootKind::DockerConfig) == 4 && kind_byte(CleanupRootKind::DockerData)
        == 5 && kind_byte(CleanupRootKind::DockerExec) == 6);
}

/// A range holds the numbers from its start, as many as it counts.
pub proof fn law_ranges_hold_their_numbers(start: u32, count: u32, offset: u32, value: u32, r: bool)
    requires
        call_ensures(contains, (start, count, value), r),
        start + count <= u32::MAX,
    ensures
        value == start + offset && offset < count ==> r,
        value < start || value >= start + count ==> !r,
{
}

/// A map is made of two ranges that end below the last number, hold something, and do not
/// hold the service itself; it owns the service and the two ranges, and nothing else.
pub proof fn law_maps_own_the_service_and_its_ranges(
    uid: u32,
    gid: u32,
    ustart: u32,
    ucount: u32,
    gstart: u32,
    gcount: u32,
    u: u32,
    g: u32,
    map: Result<MappedIdRange, ExecutionDomainError>,
    owned: bool,
)
    requires
        call_ensures(MappedIdRange::new, (uid, gid, ustart, ucount, gstart, gcount), map),
        map is Ok ==> call_ensures(MappedIdRange::owns, (&map->Ok_0, u, g), owned),
    ensures
        map is Ok <==> ucount > 0 && gcount > 0 && ustart + ucount <= u32::MAX && gstart + gcount
            <= u32::MAX && (uid < ustart || uid >= ustart + ucount) && (gid < gstart || gid
            >= gstart + gcount),
        map is Ok ==> (owned <==> (u == uid || ustart <= u < ustart + ucount) && (g == gid || gstart
            <= g < gstart + gcount)),
{
}

/// A map gives each of its two ranges as it was made.
pub proof fn law_maps_give_their_ranges(
    uid: u32,
    gid: u32,
    ustart: u32,
    ucount: u32,
    gstart: u32,
    gcount: u32,
    map: Result<MappedIdRange, ExecutionDomainError>,
    users: IdExtent,
    groups: IdExtent,
)
    requires
        call_ensures(MappedIdRange::new, (uid, gid, ustart, ucount, gstart, gcount), map),
        map is Ok,
        call_ensures(MappedIdRange::extent, (&map->Ok_0, true), users),
        call_ensures(MappedIdRange::extent, (&map->Ok_0, false), groups),
    ensures
        users.service == uid && users.start == ustart && users.count == ucount,
        groups.service == gid && groups.start == gstart && groups.count == gcount,
{
}

/// Whether a line gives a user nothing: it has three fields and another's name.
pub open spec fn of_another(line: Seq<char>, user: Seq<char>) -> bool {
    let fields = text::split(line, Separator::Exactly(':'));
    fields.len() == 3 && fields[0] != user
}

proof fn lemma_scan_of_others(lines: Seq<Seq<char>>, user: Seq<char>)
    requires
        forall|i: int| 0 <= i < lines.len() ==> of_another(#[trigger] lines[i], user),
    ensures
        scan_lines(lines, user) is Absent,
    decreases lines.len(),
{
    if lines.len() > 0 {
        assert forall|i: int| 0 <= i < lines.drop_last().len() implies of_another(
            #[trigger] lines.drop_last()[i],
            user,
        ) by {
            assert(lines.drop_last()[i] == lines[i]);
        }
        lemma_scan_of_others(lines.drop_last(), user);
        assert(of_another(lines[lines.len() - 1], user));
    }
}

proof fn lemma_scan_of_one(lines: Seq<Seq<char>>, user: Seq<char>, k: int, start: nat, count: nat)
    requires
        0 <= k < lines.len(),
        forall|i: int| 0 <= i < lines.len() && i != k ==> of_another(#[trigger] lines[i], user),
        ({
            let fields = text::split(lines[k], Separator::Exactly(':'));
            fields.len() == 3 && fields[0] == user && text::unsigned(fields[1], u32::MAX as nat)
                == Some(start) && text::unsigned(fields[2], u32::MAX as nat) == Some(count)
        }),
    ensures
        scan_lines(lines, user) == RangeScan::Found(start, count),
    decreases lines.len(),
{
    let before = lines.drop_last();
    assert forall|i: int| 0 <= i < before.len() && i != k implies of_another(
        #[trigger] before[i],
        user,
    ) by {
        assert(before[i] == lines[i]);
    }
    if k == lines.len() - 1 {
        lemma_scan_of_others(before, user);
    } else {
        assert(before[k] == lines[k]);
        lemma_scan_of_one(before, user, k, start, count);
        assert(of_another(lines[lines.len() - 1], user));
    }
}

proof fn lemma_scan_of_two(lines: Seq<Seq<char>>, user: Seq<char>, j: int, k: int)
    requires
        0 <= j < k < lines.len(),
        text::split(lines[j], Separator::Exactly(':'))[0] == user,
        text::split(lines[k], Separator::Exactly(':'))[0] == user,
    ensures
        scan_lines(lines, user) is Failed,
    decreases lines.len(),
{
    let before = lines.drop_last();
    if k < lines.len() - 1 {
        assert(before[j] == lines[j] && before[k] == lines[k]);
        lemma_scan_of_two(before, user, j, k);
    } else {
        assert(before[j] == lines[j]);
        lemma_scan_named(before, user, j);
    }
}

proof fn lemma_scan_named(lines: Seq<Seq<char>>, user: Seq<char>, j: int)
    requires
        0 <= j < lines.len(),
        text::split(lines[j], Separator::Exactly(':'))[0] == user,
    ensures
        !(scan_lines(lines, user) is Absent),
    decreases lines.len(),
{
    let before = lines.drop_last();
    if j < lines.len() - 1 {
        assert(before[j] == lines[j]);
        lemma_scan_named(before, user, j);
    }
}

/// A user's range is the one that the single line under the user's name gives; none is
/// told apart from two, which are refused.
pub proof fn law_users_have_one_range(
    user: &str,
    contents: &str,
    j: int,
    k: int,
    r: Result<(u32, u32), ExecutionDomainError>,
)
    requires
        call_ensures(parse_single_range, (user, contents), r),
    ensures
        ({
            let lines = text::lines(contents@);
            let fields = text::split(lines[k], Separator::Exactly(':'));
            &&& 0 <= k < lines.len() && (forall|i: int|
                0 <= i < lines.len() && i != k ==> of_another(#[trigger] lines[i], user@))
                && fields.len() == 3 && fields[0] == user@ && text::unsigned(
                fields[1],
                0xffff_ffff,
            ) is Some && text::unsigned(fields[2], 0xffff_ffff) is Some ==> (r matches Ok(range)
                && text::unsigned(fields[1], 0xffff_ffff) == Some(range.0 as nat) && text::unsigned(
                fields[2],
                0xffff_ffff,
            ) == Some(range.1 as nat))
            &&& (forall|i: int| 0 <= i < lines.len() ==> of_another(#[trigger] lines[i], user@))
                ==> (r matches Err(ExecutionDomainError::Backend { category, .. }) && category
                == FailureCategory::Unsupported)
            &&& 0 <= j < k < lines.len() && text::split(lines[j], Separator::Exactly(':'))[0]
                == user@ && fields[0] == user@ ==> r is Err
        }),
{
    let lines = text::lines(contents@);
    let fields = text::split(lines[k], Separator::Exactly(':'));
    if 0 <= k < lines.len() && (forall|i: int|
        0 <= i < lines.len() && i != k ==> of_another(#[trigger] lines[i], user@)) && fields.len()
        == 3 && fields[0] == user@ && text::unsigned(fields[1], 0xffff_ffff) is Some
        && text::unsigned(fields[2], 0xffff_ffff) is Some {
        lemma_scan_of_one(
            lines,
            user@,
            k,
            text::unsigned(fields[1], 0xffff_ffff)->0,
            text::unsigned(fields[2], 0xffff_ffff)->0,
        );
    }
    if forall|i: int| 0 <= i < lines.len() ==> of_another(#[trigger] lines[i], user@) {
        lemma_scan_of_others(lines, user@);
    }
    if 0 <= j < k < lines.len() && text::split(lines[j], Separator::Exactly(':'))[0] == user@
        && fields[0] == user@ {
        lemma_scan_of_two(lines, user@, j, k);
    }
}

/// A name that could not stand in a line of its own is no user's.
pub proof fn law_mappings_need_a_plain_user(
    user: &str,
    uid: u32,
    gid: u32,
    subuid: &str,
    subgid: &str,
    i: int,
    r: Result<IdMapSpec, ExecutionDomainError>,
)
    requires
        call_ensures(IdMapSpec::parse, (user, uid, gid, subuid, subgid), r),
        user@.len() == 0 || 0 <= i < user@.len() && (user@[i] == ':' || user@[i] == ' ' || user@[i]
            == '\n' || user@[i] == '\t' || user@[i] == '\r' || user@[i] == '\0' || user@[i]
            == '\u{c}'),
    ensures
        r is Err,
{
    if user@.len() > 0 {
        assert(forbidden_in_user(user@[i]));
    }
}

/// A mapping is made of the two ranges that are written under the user's name, each of
/// which must hold the sixty-four kibi numbers of a whole system.
pub proof fn law_mappings_follow_the_two_files(
    user: &str,
    uid: u32,
    gid: u32,
    subuid: &str,
    subgid: &str,
    users: Result<(u32, u32), ExecutionDomainError>,
    groups: Result<(u32, u32), ExecutionDomainError>,
    map: Result<MappedIdRange, ExecutionDomainError>,
    r: Result<IdMapSpec, ExecutionDomainError>,
    range: MappedIdRange,
    start: u32,
)
    requires
        call_ensures(parse_single_range, (user, subuid), users),
        call_ensures(parse_single_range, (user, subgid), groups),
        users is Ok && groups is Ok ==> ({
            let (us, uc) = users->Ok_0;
            let (gs, gc) = groups->Ok_0;
            call_ensures(MappedIdRange::new, (uid, gid, us, uc, gs, gc), map)
        }),
        call_ensures(IdMapSpec::parse, (user, uid, gid, subuid, subgid), r),
        r is Ok ==> call_ensures(IdMapSpec::range, (&r->Ok_0,), range) && call_ensures(
            IdMapSpec::subuid_start,
            (&r->Ok_0,),
            start,
        ),
    ensures
        r is Ok ==> ({
            let (us, uc) = users->Ok_0;
            let (gs, gc) = groups->Ok_0;
            &&& users is Ok && groups is Ok && map is Ok
            &&& uc >= 65536 && gc >= 65536
            &&& range.users() == map->Ok_0.users() && range.groups() == map->Ok_0.groups()
            &&& start == us
        }),
        users is Err ==> r is Err,
        groups is Err ==> r is Err,
        users is Ok && groups is Ok ==> ({
            let (us, uc) = users->Ok_0;
            let (gs, gc) = groups->Ok_0;
            &&& uc < 65536 || gc < 65536 || map is Err ==> r is Err
            &&& uc >= 65536 && gc >= 65536 && map is Ok && user@.len() > 0 && (forall|i: int|
                0 <= i < user@.len() ==> {
                    let c = (#[trigger] user@[i]) as u32;
                    c > 32 && c != 58
                }) ==> r is Ok
        }),
{
    assert((forall|i: int|
        0 <= i < user@.len() ==> {
            let c = (#[trigger] user@[i]) as u32;
            c > 32 && c != 58
        }) && user@.len() > 0 ==> user_valid(user@));
}

/// A map of the kernel is read back as it was asked for: the service as the first, and its
/// range from the second on.
pub proof fn law_maps_are_verified_as_asked(
    contents: &str,
    service: u32,
    start: u32,
    count: u32,
    r: Result<(), ExecutionDomainError>,
)
    requires
        call_ensures(verify_map_text, (contents, service, start, count), r),
    ensures
        ({
            let lines = text::lines(contents@);
            let a = text::words(lines[0]);
            let b = text::words(lines[1]);
            r is Ok <==> lines.len() == 2 && a.len() == 3 && b.len() == 3 && text::unsigned(
                a[0],
                0xffff_ffff,
            ) == Some(0nat) && text::unsigned(a[1], 0xffff_ffff) == Some(service as nat)
                && text::unsigned(a[2], 0xffff_ffff) == Some(1nat) && text::unsigned(
                b[0],
                0xffff_ffff,
            ) == Some(1nat) && text::unsigned(b[1], 0xffff_ffff) == Some(start as nat)
                && text::unsigned(b[2], 0xffff_ffff) == Some(count as nat)
        }),
{
}

/// A process' map is verified against the range it is of: users against users, and groups
/// against groups.
pub proof fn law_process_maps_are_of_their_range(
    contents: &str,
    uid: bool,
    map: MappedIdRange,
    extent: IdExtent,
    r: Result<(), ExecutionDomainError>,
    s: Result<(), ExecutionDomainError>,
    t: Result<(), ExecutionDomainError>,
)
    requires
        call_ensures(MappedIdRange::extent, (&map, uid), extent),
        call_ensures(verify_proc_map, (contents, uid, &map), r),
        call_ensures(verify_map_text, (contents, extent.service, extent.start, extent.count), s),
        call_ensures(
            verify_map_text_for_test,
            (contents, extent.service, extent.start, extent.count),
            t,
        ),
    ensures
        r is Ok <==> s is Ok,
        t is Ok <==> s is Ok,
{
}

/// The words that ask for a map name the process, the service as the first, and its range
/// from the second on, each with its size.
pub proof fn law_maps_are_asked_for(
    pid: u32,
    uid: bool,
    map: MappedIdRange,
    extent: IdExtent,
    r: Vec<String>,
)
    requires
        call_ensures(MappedIdRange::extent, (&map, uid), extent),
        call_ensures(map_arguments, (pid, uid, &map), r),
    ensures
        r@.len() == 7,
        r@[0]@ == text::decimal(pid as nat),
        r@[1]@ == "0"@ && r@[2]@ == text::decimal(extent.service as nat) && r@[3]@ == "1"@,
        r@[4]@ == "1"@ && r@[5]@ == text::decimal(extent.start as nat) && r@[6]@ == text::decimal(
            extent.count as nat,
        ),
{
    assert(texts(r@).len() == 7);
    assert(texts(r@)[0] == r@[0]@ && texts(r@)[1] == r@[1]@ && texts(r@)[2] == r@[2]@ && texts(
        r@,
    )[3] == r@[3]@ && texts(r@)[4] == r@[4]@ && texts(r@)[5] == r@[5]@ && texts(r@)[6] == r@[6]@);
}

/// A worker learns from its own map how many numbers it has beside its first, whatever
/// they are outside.
pub proof fn law_workers_count_their_numbers(
    contents: &str,
    service: u32,
    start: u32,
    count: u32,
    verified: Result<(), ExecutionDomainError>,
    r: Result<u32, ExecutionDomainError>,
)
    requires
        call_ensures(verify_map_text, (contents, service, start, count), verified),
        call_ensures(verify_worker_map, (contents,), r),
    ensures
        verified is Ok ==> r == Ok::<u32, ExecutionDomainError>(count),
        r is Ok ==> text::lines(contents@).len() == 2,
{
}

/// Only a process with no groups left passes.
pub proof fn law_no_groups_may_be_left(
    count: i32,
    errno: Option<i32>,
    r: Result<(), ExecutionDomainError>,
)
    requires
        call_ensures(verify_empty_supplementary_groups, (count, errno), r),
    ensures
        r is Ok <==> count == 0,
        count < 0 ==> (r matches Err(ExecutionDomainError::Backend { category, errno: n, .. })
            && category == FailureCategory::Io && n == errno),
        count > 0 ==> (r matches Err(ExecutionDomainError::Backend { category, .. }) && category
            == FailureCategory::IdentityMismatch),
{
}

/// A number of a process is read whatever space stands round it; nought is none.
pub proof fn law_process_numbers_are_read(
    contents: &[u8],
    shown: Seq<char>,
    r: Result<u32, ExecutionDomainError>,
)
    requires
        call_ensures(parse_child_pid, (contents,), r),
        contents@ == vstd::utf8::encode_utf8(shown),
    ensures
        r matches Ok(pid) ==> pid > 0 && text::unsigned(text::trimmed(shown), 0xffff_ffff) == Some(
            pid as nat,
        ),
        r is Err ==> text::unsigned(text::trimmed(shown), 0xffff_ffff) is None || text::unsigned(
            text::trimmed(shown),
            0xffff_ffff,
        ) == Some(0nat),
{
    vstd::utf8::encode_utf8_valid_utf8(shown);
    vstd::utf8::encode_utf8_decode_utf8(shown);
}

/// A process has no groups where the first line that tells them tells none.
pub proof fn law_groups_are_told_by_their_line(
    status: &str,
    k: int,
    r: Result<(), ExecutionDomainError>,
)
    requires
        call_ensures(verify_status_groups, (status,), r),
        ({
            let lines = text::lines(status@);
            0 <= k < lines.len() && "Groups:"@.is_prefix_of(lines[k]) && forall|i: int|
                0 <= i < k ==> !"Groups:"@.is_prefix_of(#[trigger] lines[i])
        }),
    ensures
        r is Ok <==> text::trimmed(text::lines(status@)[k].skip(7)).len() == 0,
{
    reveal_strlit("Groups:");
    assert("Groups:"@.len() == 7);
    lemma_first_prefixed(text::lines(status@), "Groups:"@, k);
}

proof fn lemma_first_prefixed(lines: Seq<Seq<char>>, prefix: Seq<char>, k: int)
    requires
        0 <= k < lines.len(),
        prefix.is_prefix_of(lines[k]),
        forall|i: int| 0 <= i < k ==> !prefix.is_prefix_of(#[trigger] lines[i]),
    ensures
        prefixed_line(lines, prefix) == Some(lines[k].skip(prefix.len() as int)),
    decreases lines.len(),
{
    if k > 0 {
        let rest = lines.drop_first();
        assert(!prefix.is_prefix_of(lines[0]));
        assert(rest[k - 1] == lines[k]);
        assert forall|i: int| 0 <= i < k - 1 implies !prefix.is_prefix_of(#[trigger] rest[i]) by {
            assert(rest[i] == lines[i + 1]);
        }
        lemma_first_prefixed(rest, prefix, k - 1);
    }
}

/// A process whose groups are not told at all does not pass.
pub proof fn law_untold_groups_are_refused(status: &str, r: Result<(), ExecutionDomainError>)
    requires
        call_ensures(verify_status_groups, (status,), r),
        forall|i: int|
            0 <= i < text::lines(status@).len() ==> !"Groups:"@.is_prefix_of(
                #[trigger] text::lines(status@)[i],
            ),
    ensures
        r is Err,
{
    lemma_none_prefixed(text::lines(status@), "Groups:"@);
}

proof fn lemma_none_prefixed(lines: Seq<Seq<char>>, prefix: Seq<char>)
    requires
        forall|i: int| 0 <= i < lines.len() ==> !prefix.is_prefix_of(#[trigger] lines[i]),
    ensures
        prefixed_line(lines, prefix) is None,
    decreases lines.len(),
{
    if lines.len() > 0 {
        assert(!prefix.is_prefix_of(lines[0]));
        assert forall|i: int| 0 <= i < lines.drop_first().len() implies !prefix.is_prefix_of(
            #[trigger] lines.drop_first()[i],
        ) by {
            assert(lines.drop_first()[i] == lines[i + 1]);
        }
        lemma_none_prefixed(lines.drop_first(), prefix);
    }
}

} // verus!
