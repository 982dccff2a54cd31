//! Whether a host can run domains at all, and what a domain has left on it.

use vstd::prelude::*;

use crate::bytes;
use crate::contracts::{
    CommandSpec, CommandTarget, DomainPath, FailureCategory,
};
use crate::environment::Environment;
use crate::error::ExecutionDomainError;
use crate::host_path;
use crate::host_path::Parts;
use crate::linux::cleanup;
use crate::linux::cleanup::IdMapSpec;
use crate::linux::destroy;
use crate::linux::launcher;
use crate::linux::rootfs;
use crate::linux::strict;
use crate::text;
use crate::text::Separator;

verus! {

/// The error number for a system call that is not there.
pub const ENOSYS: i32 = 38;

/// The number of levels of groups that are looked at.
pub const MAX_GROUP_DEPTH: usize = 64;

/// The number of groups that are looked at.
pub const MAX_GROUPS: usize = 4096;

/// The largest list of the processes of a group.
pub const MAX_MEMBERS: usize = 1_048_576;

/// The time limit of a command that looks at the domain, in nanoseconds.
pub const PROBE_TIMEOUT: u128 = 30_000_000_000;

/// The refusal of a host that cannot run domains.
pub open spec fn unavailable_error() -> ExecutionDomainError {
    launcher::launch_error(FailureCategory::Unavailable)
}

fn unavailable() -> (e: ExecutionDomainError)
    ensures
        e == unavailable_error(),
{
    launcher::failure(FailureCategory::Unavailable)
}

/// The value after a prefix, in the last line that begins with it.
pub open spec fn last_value(lines: Seq<Seq<char>>, prefix: Seq<char>) -> Option<Seq<char>>
    decreases lines.len(),
{
    if lines.len() == 0 {
        None
    } else if prefix.is_prefix_of(lines.last()) {
        Some(lines.last().skip(prefix.len() as int))
    } else {
        last_value(lines.drop_last(), prefix)
    }
}

/// Whether a version is the one that domains are run with, or a packaging of it.
pub open spec fn version_fits(version: Seq<char>) -> bool {
    version == "2.3.5"@ || "2.3.5-"@.is_prefix_of(version)
}

/// Whether a paragraph of the package list is about the launcher, installed in the
/// right version.
pub open spec fn describes_launcher(paragraph: Seq<char>) -> bool {
    let lines = text::lines(paragraph);
    &&& last_value(lines, "Package: "@) == Some("rootlesskit"@)
    &&& last_value(lines, "Version: "@) matches Some(version)
    &&& version_fits(version)
    &&& lines.contains("Status: install ok installed"@)
}

/// Whether the launcher is installed in the right version.
pub open spec fn launcher_installed(status: Seq<char>) -> bool {
    exists|i: int|
        0 <= i < text::split_at_pattern(status, "\n\n"@).len() && describes_launcher(
            #[trigger] text::split_at_pattern(status, "\n\n"@)[i],
        )
}

fn find_value(lines: &Vec<Vec<char>>, prefix: &str) -> (r: Option<Vec<char>>)
    ensures
        match r {
            Some(v) => last_value(text::views(lines@), prefix@) == Some(v@),
            None => last_value(text::views(lines@), prefix@) is None,
        },
{
    let start: Vec<char> = text::chars(prefix);
    let ghost all = text::views(lines@);
    let mut found: Option<Vec<char>> = None;
    proof {
        assert(all.take(0) =~= Seq::empty());
    }
    for i in 0..lines.len()
        invariant
            all == text::views(lines@),
            start@ == prefix@,
            match found {
                Some(v) => last_value(all.take(i as int), prefix@) == Some(v@),
                None => last_value(all.take(i as int), prefix@) is None,
            },
    {
        let line: &Vec<char> = &lines[i];
        proof {
            assert(all[i as int] == line@);
            assert(all.take(i + 1).drop_last() =~= all.take(i as int));
            assert(all.take(i + 1).last() == line@);
        }
        if text::begins(line.as_slice(), start.as_slice()) {
            found = Some(text::part(line.as_slice(), start.len(), line.len()));
            proof {
                assert(line@.subrange(start@.len() as int, line@.len() as int) =~= line@.skip(
                    start@.len() as int,
                ));
            }
        }
    }
    proof {
        assert(all.take(all.len() as int) =~= all);
    }
    found
}

fn check_paragraph(paragraph: &[char]) -> (r: bool)
    ensures
        r == describes_launcher(paragraph@),
{
    let lines: Vec<Vec<char>> = text::line_list(paragraph);
    let named: bool = match find_value(&lines, "Package: ") {
        Some(name) => text::text_is(name.as_slice(), "rootlesskit"),
        None => false,
    };
    let packaged: Vec<char> = text::chars("2.3.5-");
    let versioned: bool = match find_value(&lines, "Version: ") {
        Some(version) => text::text_is(version.as_slice(), "2.3.5") || text::begins(
            version.as_slice(),
            packaged.as_slice(),
        ),
        None => false,
    };
    let mut installed: bool = false;
    let ghost all = text::views(lines@);
    for i in 0..lines.len()
        invariant
            all == text::views(lines@),
            installed == exists|k: int|
                0 <= k < i && #[trigger] all[k] == "Status: install ok installed"@,
    {
        assert(all[i as int] == lines@[i as int]@);
        if text::text_is(lines[i].as_slice(), "Status: install ok installed") {
            installed = true;
        }
    }
    named && versioned && installed
}

/// Whether the launcher is installed in the right version, as the package list says.
pub fn installed_rootlesskit_235(status: &str) -> (r: bool)
    ensures
        r == launcher_installed(status@),
{
    let all: Vec<char> = text::chars(status);
    let blank: Vec<char> = text::chars("\n\n");
    proof {
        reveal_strlit("\n\n");
    }
    let paragraphs: Vec<Vec<char>> = text::pattern_pieces(all.as_slice(), blank.as_slice());
    let ghost views = text::split_at_pattern(status@, "\n\n"@);
    proof {
        assert(text::views(paragraphs@).len() == paragraphs@.len());
    }
    for i in 0..paragraphs.len()
        invariant
            text::views(paragraphs@) == views,
            views == text::split_at_pattern(status@, "\n\n"@),
            views.len() == paragraphs@.len(),
            forall|k: int| 0 <= k < i ==> !describes_launcher(#[trigger] views[k]),
    {
        assert(views[i as int] == paragraphs@[i as int]@);
        if check_paragraph(paragraphs[i].as_slice()) {
            return true;
        }
    }
    false
}

/// The name of the account in a line, where it has the given number.
pub open spec fn account_name(line: Seq<char>, uid: u32) -> Option<Seq<char>> {
    let fields = text::split(line, Separator::Exactly(':'));
    if fields.len() >= 4 && text::unsigned(fields[2], u32::MAX as nat) == Some(uid as nat) {
        Some(fields[0])
    } else {
        None
    }
}

/// The names of the accounts with the given number.
pub open spec fn account_names(lines: Seq<Seq<char>>, uid: u32) -> Seq<Seq<char>>
    decreases lines.len(),
{
    if lines.len() == 0 {
        seq![]
    } else {
        match account_name(lines.last(), uid) {
            Some(name) => account_names(lines.drop_last(), uid).push(name),
            None => account_names(lines.drop_last(), uid),
        }
    }
}

fn account_in(line: &[char], uid: u32) -> (r: Option<Vec<char>>)
    ensures
        match r {
            Some(v) => account_name(line@, uid) == Some(v@),
            None => account_name(line@, uid) is None,
        },
{
    let mut fields: Vec<Vec<char>> = text::pieces(line, Separator::Exactly(':'));
    let ghost all = text::views(fields@);
    proof {
        assert(all.len() == fields@.len());
    }
    if fields.len() < 4 {
        return None;
    }
    assert(all[2] == fields@[2]@ && all[0] == fields@[0]@);
    match text::number_u32(fields[2].as_slice()) {
        Some(n) => {
            if n == uid {
                Some(vstd::slice::slice_to_vec(fields[0].as_slice()))
            } else {
                None
            }
        },
        None => None,
    }
}

/// Finds the account of the service. Exactly one must have its number.
pub fn service_user(passwd: &str, uid: u32) -> (r: Result<String, ExecutionDomainError>)
    ensures
        ({
            let names = account_names(text::lines(passwd@), uid);
            match r {
                Ok(user) => names == seq![user@],
                Err(e) => names.len() != 1 && e == unavailable_error(),
            }
        }),
{
    let all: Vec<char> = text::chars(passwd);
    let lines: Vec<Vec<char>> = text::line_list(all.as_slice());
    let ghost views = text::lines(passwd@);
    let mut found: Vec<Vec<char>> = Vec::new();
    proof {
        assert(text::views(lines@).len() == lines@.len());
        assert(views.take(0) =~= seq![]);
        assert(text::views(found@) =~= seq![]);
    }
    for i in 0..lines.len()
        invariant
            text::views(lines@) == views,
            views.len() == lines@.len(),
            text::views(found@) == account_names(views.take(i as int), uid),
    {
        let ghost before = found@;
        proof {
            assert(views[i as int] == lines@[i as int]@);
            assert(views.take(i + 1).drop_last() =~= views.take(i as int));
            assert(views.take(i + 1).last() == views[i as int]);
        }
        match account_in(lines[i].as_slice(), uid) {
            Some(name) => {
                found.push(name);
                assert(text::views(found@) =~= text::views(before).push(name@));
            },
            None => {},
        }
    }
    proof {
        assert(views.take(views.len() as int) =~= views);
        assert(text::views(found@).len() == found@.len());
    }
    if found.len() != 1 {
        return Err(unavailable());
    }
    let user: String = text::string(found[0].as_slice());
    proof {
        assert(text::views(found@)[0] == found@[0]@);
        assert(text::views(found@) =~= seq![user@]);
    }
    Ok(user)
}

/// Accepts a path that has to be given: it must be absolute, and written as the host
/// resolves it. Nothing is a path that was not given.
pub fn canonical_required(path: Option<&[u8]>, resolved: &[u8]) -> (r: Result<
    (),
    ExecutionDomainError,
>)
    ensures
        r == (match path_problem(path, resolved@) {
            Some(e) => Err::<(), ExecutionDomainError>(e),
            None => Ok(()),
        }),
{
    match path {
        None => Err(launcher::failure(FailureCategory::NotReady)),
        Some(p) => {
            if p.len() == 0 || p[0] != 0x2f {
                return Err(unavailable());
            }
            let written: Parts = host_path::parts_of(p);
            let actual: Parts = host_path::parts_of(resolved);
            if !actual.same(&written) {
                return Err(unavailable());
            }
            Ok(())
        },
    }
}

/// What is known of a host.
pub struct HostFacts<'a> {
    pub euid: u32,
    /// Whether the host is itself a container.
    pub container: bool,
    pub os_release: &'a str,
    /// The name of the first process.
    pub first_process: &'a str,
}

/// Whether a host can run domains: a whole machine of the known kind, and a service
/// that is not the administrator.
pub open spec fn host_fits(facts: HostFacts) -> bool {
    &&& facts.euid != 0
    &&& !facts.container
    &&& text::lines(facts.os_release@).contains("ID=debian"@)
    &&& text::trimmed(facts.first_process@) == "systemd"@
}

/// Accepts a host.
pub fn check_host(facts: &HostFacts) -> (r: Result<(), ExecutionDomainError>)
    ensures
        match r {
            Ok(_) => host_fits(*facts),
            Err(e) => !host_fits(*facts) && e == unavailable_error(),
        },
{
    if facts.euid == 0 || facts.container {
        return Err(unavailable());
    }
    let all: Vec<char> = text::chars(facts.os_release);
    let lines: Vec<Vec<char>> = text::line_list(all.as_slice());
    let ghost views = text::views(lines@);
    let mut known: bool = false;
    for i in 0..lines.len()
        invariant
            views == text::views(lines@),
            known == exists|k: int| 0 <= k < i && #[trigger] views[k] == "ID=debian"@,
    {
        assert(views[i as int] == lines@[i as int]@);
        if text::text_is(lines[i].as_slice(), "ID=debian") {
            known = true;
        }
    }
    let name: Vec<char> = text::chars(facts.first_process);
    let trimmed: Vec<char> = text::trim(name.as_slice());
    if !known || !text::text_is(trimmed.as_slice(), "systemd") {
        return Err(unavailable());
    }
    Ok(())
}

/// Accepts a program of the host: a file that can be executed and, where that is
/// asked for, that runs as its owner.
pub fn verify_binary(is_file: bool, mode: u32, set_user: bool) -> (r: Result<
    (),
    ExecutionDomainError,
>)
    ensures
        ({
            let fine = is_file && mode & 0o111 != 0 && (set_user ==> mode & 0o4000 != 0);
            match r {
                Ok(_) => fine,
                Err(e) => !fine && e == unavailable_error(),
            }
        }),
{
    if !is_file || mode & 0o111 == 0 {
        return Err(unavailable());
    }
    if set_user && mode & 0o4000 == 0 {
        return Err(unavailable());
    }
    Ok(())
}

/// Accepts the group that was handed to the service: below that of all groups.
pub fn verify_delegation(path: &[u8]) -> (r: Result<(), ExecutionDomainError>)
    ensures
        ({
            let base = rootfs::text_components("/sys/fs/cgroup"@);
            let own = host_path::components(path@);
            let fine = base.is_prefix_of(own) && own != base;
            match r {
                Ok(_) => fine,
                Err(e) => !fine && e == unavailable_error(),
            }
        }),
{
    let base: Parts = rootfs::text_parts("/sys/fs/cgroup");
    let own: Parts = host_path::parts_of(path);
    if !own.starts_with(&base) || own.same(&base) {
        return Err(unavailable());
    }
    Ok(())
}

/// Accepts a system call that was tried with nothing to work on: it must fail, and
/// not for not being there.
pub fn verify_primitive(result: i64, errno: Option<i32>) -> (r: Result<(), ExecutionDomainError>)
    ensures
        ({
            let fine = result == -1 && errno != Some(ENOSYS);
            match r {
                Ok(_) => fine,
                Err(e) => !fine && e == unavailable_error(),
            }
        }),
{
    let absent: bool = match errno {
        Some(n) => n == ENOSYS,
        None => false,
    };
    if result != -1 || absent {
        return Err(unavailable());
    }
    Ok(())
}

/// Accepts the directory of the service: its alone.
pub fn verify_private_root(is_dir: bool, uid: u32, euid: u32, mode: u32) -> (r: Result<
    (),
    ExecutionDomainError,
>)
    ensures
        ({
            let fine = is_dir && uid == euid && mode & 0o7777 == 0o700;
            match r {
                Ok(_) => fine,
                Err(e) => !fine && e == unavailable_error(),
            }
        }),
{
    if !is_dir || uid != euid || mode & 0o7777 != 0o700 {
        return Err(unavailable());
    }
    Ok(())
}

/// Accepts an entry of the directory of the service: its lock, or the directory of
/// all attempts, which must be empty.
pub fn verify_root_entry(name: &[u8], empty: bool) -> (r: Result<(), ExecutionDomainError>)
    ensures
        ({
            let fine = name@ == bytes::encoded(".chimera.lock"@) || (name@ == bytes::encoded(
                "active"@,
            ) && empty);
            match r {
                Ok(_) => fine,
                Err(e) => !fine && e == unavailable_error(),
            }
        }),
{
    if bytes::are(name, ".chimera.lock") {
        return Ok(());
    }
    if bytes::are(name, "active") && empty {
        return Ok(());
    }
    Err(unavailable())
}

/// What a host needs to have for running domains.
pub struct NativePrerequisites {
    pub root: Vec<u8>,
    pub cgroup: Vec<u8>,
    pub binary: Vec<u8>,
    pub map: IdMapSpec,
}

/// What was found out about a host besides its paths.
pub struct Findings<'a> {
    pub host: HostFacts<'a>,
    /// The outcome of looking at the directories, programs and system calls.
    pub verified: Result<(), ExecutionDomainError>,
    pub passwd: &'a str,
    pub egid: u32,
    pub subuid: &'a str,
    pub subgid: &'a str,
    pub packages: &'a str,
}

/// Why a path that has to be given cannot be taken.
pub open spec fn path_problem(path: Option<&[u8]>, resolved: Seq<u8>) -> Option<
    ExecutionDomainError,
> {
    match path {
        None => Some(launcher::launch_error(FailureCategory::NotReady)),
        Some(p) => if host_path::absolute(p@) && host_path::components(resolved)
            == host_path::components(p@) {
            None
        } else {
            Some(unavailable_error())
        },
    }
}

/// What comes of a service with one name, on a host that fits: its mapping decides, and
/// then whether the launcher is installed.
pub open spec fn mapped_outcome(
    name: Seq<char>,
    findings: Findings,
    paths: (Seq<u8>, Seq<u8>, Seq<u8>),
    r: Result<NativePrerequisites, ExecutionDomainError>,
) -> bool {
    exists|mapping: Result<IdMapSpec, ExecutionDomainError>|
        #[trigger] cleanup::mapping_outcome(
            name,
            findings.host.euid,
            findings.egid,
            findings.subuid@,
            findings.subgid@,
            mapping,
        ) && (match mapping {
            Err(problem) => r matches Err(e) && e == problem,
            Ok(map) => if launcher_installed(findings.packages@) {
                r matches Ok(p) && p.root@ == paths.0 && p.cgroup@ == paths.1 && p.binary@
                    == paths.2 && p.map == map
            } else {
                r matches Err(e) && e == unavailable_error()
            },
        })
}

impl NativePrerequisites {
    /// Takes the paths that were given, each with what the host resolves it to.
    pub fn from_paths(
        root: Option<&[u8]>,
        cgroup: Option<&[u8]>,
        binary: Option<&[u8]>,
        resolved: (&[u8], &[u8], &[u8]),
        findings: Findings,
    ) -> (r: Result<NativePrerequisites, ExecutionDomainError>)
        ensures
            ({
                let names = account_names(text::lines(findings.passwd@), findings.host.euid);
                match (
                    path_problem(root, resolved.0@),
                    path_problem(cgroup, resolved.1@),
                    path_problem(binary, resolved.2@),
                ) {
                    (Some(problem), _, _) => r matches Err(e) && e == problem,
                    (None, Some(problem), _) => r matches Err(e) && e == problem,
                    (None, None, Some(problem)) => r matches Err(e) && e == problem,
                    (None, None, None) => if !host_fits(findings.host) {
                        r matches Err(e) && e == unavailable_error()
                    } else if findings.verified is Err {
                        r matches Err(e) && findings.verified == Err::<(), ExecutionDomainError>(e)
                    } else if names.len() != 1 {
                        r matches Err(e) && e == unavailable_error()
                    } else {
                        mapped_outcome(
                            names[0],
                            findings,
                            (root->0@, cgroup->0@, binary->0@),
                            r,
                        )
                    },
                }
            }),
    {
        match canonical_required(root, resolved.0) {
            Ok(_) => {},
            Err(e) => {
                return Err(e);
            },
        }
        match canonical_required(cgroup, resolved.1) {
            Ok(_) => {},
            Err(e) => {
                return Err(e);
            },
        }
        match canonical_required(binary, resolved.2) {
            Ok(_) => {},
            Err(e) => {
                return Err(e);
            },
        }
        match check_host(&findings.host) {
            Ok(_) => {},
            Err(e) => {
                return Err(e);
            },
        }
        match findings.verified {
            Ok(_) => {},
            Err(e) => {
                return Err(e);
            },
        }
        let user: String = match service_user(findings.passwd, findings.host.euid) {
            Ok(user) => user,
            Err(e) => {
                return Err(e);
            },
        };
        let mapping: Result<IdMapSpec, ExecutionDomainError> = IdMapSpec::parse(
            user.as_str(),
            findings.host.euid,
            findings.egid,
            findings.subuid,
            findings.subgid,
        );
        proof {
            let names = account_names(text::lines(findings.passwd@), findings.host.euid);
            assert(names[0] == user@);
            assert(cleanup::mapping_outcome(
                names[0],
                findings.host.euid,
                findings.egid,
                findings.subuid@,
                findings.subgid@,
                mapping,
            ));
        }
        let map: IdMapSpec = match mapping {
            Ok(map) => map,
            Err(e) => {
                return Err(e);
            },
        };
        if !installed_rootlesskit_235(findings.packages) {
            return Err(unavailable());
        }
        match (root, cgroup, binary) {
            (Some(x), Some(y), Some(z)) => {
                Ok(
                    NativePrerequisites {
                        root: vstd::slice::slice_to_vec(x),
                        cgroup: vstd::slice::slice_to_vec(y),
                        binary: vstd::slice::slice_to_vec(z),
                        map,
                    },
                )
            },
            _ => Err(launcher::failure(FailureCategory::NotReady)),
        }
    }
}

/// What a domain has on the host.
#[derive(Debug, Clone, Copy, PartialEq, Eq, Structural)]
pub struct NativeSnapshot {
    pub live_processes: usize,
    pub cgroups: usize,
    pub mounts: usize,
    pub entries: usize,
}

/// The number of processes that a list names, where every word names one.
pub open spec fn process_count(members: Seq<char>) -> Option<nat> {
    let words = text::words(members);
    if forall|i: int|
        0 <= i < words.len() ==> (text::unsigned(#[trigger] words[i], u32::MAX as nat) matches Some(
            pid,
        ) && pid > 0) {
        Some(words.len())
    } else {
        None
    }
}

impl NativeSnapshot {
    /// Nothing but the given number of entries.
    pub fn new(entries: usize) -> (r: NativeSnapshot)
        ensures
            r == (NativeSnapshot { live_processes: 0, cgroups: 0, mounts: 0, entries }),
    {
        NativeSnapshot { live_processes: 0, cgroups: 0, mounts: 0, entries }
    }

    /// Counts a group before it is looked at.
    pub fn enter_group(&mut self, depth: usize) -> (r: Result<(), ExecutionDomainError>)
        ensures
            if depth >= MAX_GROUP_DEPTH || old(self).cgroups >= MAX_GROUPS {
                r == Err::<(), ExecutionDomainError>(unavailable_error()) && *final(self) == *old(self)
            } else {
                r is Ok && *final(self) == (NativeSnapshot {
                    cgroups: (old(self).cgroups + 1) as usize,
                    ..*old(self)
                })
            },
    {
        if depth >= MAX_GROUP_DEPTH || self.cgroups >= MAX_GROUPS {
            return Err(unavailable());
        }
        self.cgroups = self.cgroups + 1;
        Ok(())
    }

    /// Counts the processes of a group.
    pub fn count_members(&mut self, members: &str) -> (r: Result<(), ExecutionDomainError>)
        requires
            old(self).live_processes + members@.len() <= usize::MAX,
        ensures
            match process_count(members@) {
                Some(n) => r is Ok && *final(self) == (NativeSnapshot {
                    live_processes: (old(self).live_processes + n) as usize,
                    ..*old(self)
                }) && n <= members@.len(),
                None => r == Err::<(), ExecutionDomainError>(unavailable_error()) && *final(self)
                    == *old(self),
            },
    {
        let all: Vec<char> = text::chars(members);
        let words: Vec<Vec<char>> = text::fields(all.as_slice());
        let ghost views = text::words(members@);
        proof {
            assert(text::views(words@).len() == words@.len());
            lemma_words_bounded(members@);
        }
        for i in 0..words.len()
            invariant
                text::views(words@) == views,
                views == text::words(members@),
                views.len() == words@.len(),
                *self == *old(self),
                forall|k: int|
                    0 <= k < i ==> (text::unsigned(
                        #[trigger] views[k],
                        u32::MAX as nat,
                    ) matches Some(pid) && pid > 0),
        {
            assert(views[i as int] == words@[i as int]@);
            let fine: bool = match text::number_u32(words[i].as_slice()) {
                Some(pid) => pid != 0,
                None => false,
            };
            if !fine {
                assert(process_count(members@) is None) by {
                    assert(!(text::unsigned(views[i as int], u32::MAX as nat) matches Some(pid)
                        && pid > 0));
                }
                return Err(unavailable());
            }
        }
        self.live_processes = self.live_processes + words.len();
        Ok(())
    }

    /// Counts the launcher where nothing else of the domain is seen to live.
    pub fn count_launcher(&mut self, ended: bool)
        ensures
            *final(self) == (NativeSnapshot {
                live_processes: if !ended && old(self).live_processes == 0 {
                    1
                } else {
                    old(self).live_processes
                },
                ..*old(self)
            }),
    {
        if !ended && self.live_processes == 0 {
            self.live_processes = 1;
        }
    }

    /// Counts what is mounted at a path or below it, as the kernel lists the mounts.
    pub fn count_mounts(&mut self, mountinfo: &[u8], path: &[u8]) -> (r: Result<
        (),
        ExecutionDomainError,
    >)
        ensures
            ({
                let lines = bytes::split(mountinfo@, 10);
                match mounts_at(lines, path@, lines.len() as int) {
                    Some(n) => r is Ok && n <= usize::MAX && *final(self) == (NativeSnapshot {
                        mounts: n as usize,
                        ..*old(self)
                    }),
                    None => *final(self) == *old(self) && r == Err::<(), ExecutionDomainError>(
                        destroy::destroy_error(FailureCategory::IdentityMismatch),
                    ),
                }
            }),
    {
        let lines: Vec<Vec<u8>> = bytes::pieces(mountinfo, 10);
        let ghost all = bytes::split(mountinfo@, 10);
        proof {
            assert(bytes::views(lines@).len() == lines@.len());
        }
        let mut count: usize = 0;
        for i in 0..lines.len()
            invariant
                bytes::views(lines@) == all,
                all == bytes::split(mountinfo@, 10),
                all.len() == lines@.len(),
                count <= i,
                *self == *old(self),
                mounts_at(all, path@, i as int) == Some(count as nat),
        {
            assert(all[i as int] == lines@[i as int]@);
            match strict::mounted_there(lines[i].as_slice(), path) {
                Err(e) => {
                    proof {
                        lemma_unreadable_mounts(all, path@, i + 1, all.len() as int);
                    }
                    return Err(e);
                },
                Ok(there) => {
                    if there {
                        count = count + 1;
                    }
                },
            }
        }
        self.mounts = count;
        Ok(())
    }

    /// Whether a domain has left nothing.
    pub fn is_clean(&self) -> (r: bool)
        ensures
            r == (*self == (NativeSnapshot { live_processes: 0, cgroups: 0, mounts: 0, entries: 0 })),
    {
        self.live_processes == 0 && self.cgroups == 0 && self.mounts == 0 && self.entries == 0
    }
}

proof fn lemma_unreadable_mounts(lines: Seq<Seq<u8>>, path: Seq<u8>, n: int, all: int)
    requires
        0 <= n <= all,
        mounts_at(lines, path, n) is None,
    ensures
        mounts_at(lines, path, all) is None,
    decreases all,
{
    if n < all {
        lemma_unreadable_mounts(lines, path, n, all - 1);
    }
}

/// The stretches that are not empty take at least one character each.
proof fn lemma_words_bounded(s: Seq<char>)
    ensures
        text::words(s).len() <= s.len(),
        ({
            let pieces = text::split(s, Separator::Whitespace);
            pieces.len() > 0 && (pieces.last().len() == 0 || text::words(s).len() > 0)
        }),
    decreases s.len(),
{
    let keep = |w: Seq<char>| w.len() > 0;
    let pieces = text::split(s, Separator::Whitespace);
    text::lemma_split_nonempty(s, Separator::Whitespace);
    reveal_with_fuel(Seq::filter, 2);
    if s.len() == 0 {
        assert(pieces =~= seq![Seq::<char>::empty()]);
        assert(pieces.drop_last() =~= Seq::empty());
        assert(pieces.filter(keep) =~= Seq::empty());
    } else {
        let before = text::split(s.drop_last(), Separator::Whitespace);
        lemma_words_bounded(s.drop_last());
        if Separator::Whitespace.separates(s.last()) {
            assert(pieces == before.push(Seq::empty()));
            assert(pieces.drop_last() =~= before);
            assert(pieces.filter(keep) =~= before.filter(keep));
        } else {
            let grown = before.last().push(s.last());
            assert(pieces == before.drop_last().push(grown));
            assert(pieces.drop_last() =~= before.drop_last());
            assert(pieces.filter(keep) =~= before.drop_last().filter(keep).push(grown));
            if before.last().len() == 0 {
                assert(before.filter(keep) =~= before.drop_last().filter(keep));
            } else {
                assert(before.filter(keep) =~= before.drop_last().filter(keep).push(before.last()));
            }
        }
    }
}

/// How many of the first `n` lines list something mounted at a path or below it,
/// where every line can be read.
pub open spec fn mounts_at(lines: Seq<Seq<u8>>, path: Seq<u8>, n: int) -> Option<nat>
    decreases n,
{
    if n <= 0 {
        Some(0)
    } else {
        match mounts_at(lines, path, n - 1) {
            None => None,
            Some(count) => match strict::mount_field(lines[n - 1]) {
                None => Some(count),
                Some(field) => match strict::unescaped(field) {
                    None => None,
                    Some(point) => if strict::at_or_below(point, path) {
                        Some(count + 1)
                    } else {
                        Some(count)
                    },
                },
            },
        }
    }
}

/// A command that runs a script in the domain's shell.
pub fn shell_spec(script: &str) -> (r: CommandSpec)
    ensures
        r.target matches CommandTarget::Sandboxed { program, args, cwd } && program@
            == "/usr/bin/dash"@ && cwd@ == "/work"@ && args@.len() == 2 && args@[0]@ == "-c"@
            && args@[1]@ == "set -eu\n"@ + script@,
        r.env@ == Map::<Seq<char>, Seq<char>>::empty(),
        r.timeout == PROBE_TIMEOUT,
        r.state is None,
{
    proof {
        lemma_probe_paths();
        crate::contracts::lemma_sandbox_paths_are_valid();
    }
    let mut args: Vec<String> = Vec::new();
    args.push("-c".to_owned());
    args.push(text::concat("set -eu\n", script));
    CommandSpec {
        target: CommandTarget::Sandboxed {
            program: DomainPath::known("/usr/bin/dash"),
            args,
            cwd: DomainPath::known("/work"),
        },
        env: Environment::new(),
        timeout: PROBE_TIMEOUT,
        state: None,
    }
}

/// The command that looks at which descriptors a workflow inherits. It is the first
/// program to run, since a shell could close one before anybody sees it.
pub fn control_fd_probe_spec() -> (r: CommandSpec)
    ensures
        r.target matches CommandTarget::Sandboxed { program, args, cwd } && program@
            == "/work/native-fd-probe"@ && cwd@ == "/work"@ && args@.len() == 0,
        r.env@ == Map::<Seq<char>, Seq<char>>::empty(),
        r.timeout == PROBE_TIMEOUT,
        r.state is None,
{
    proof {
        lemma_probe_paths();
        crate::contracts::lemma_sandbox_paths_are_valid();
    }
    CommandSpec {
        target: CommandTarget::Sandboxed {
            program: DomainPath::known("/work/native-fd-probe"),
            args: Vec::new(),
            cwd: DomainPath::known("/work"),
        },
        env: Environment::new(),
        timeout: PROBE_TIMEOUT,
        state: None,
    }
}

proof fn lemma_probe_paths()
    ensures
        crate::contracts::absolute_valid("/usr/bin/dash"@),
        crate::contracts::absolute_valid("/work/native-fd-probe"@),
{
    reveal_strlit("usr");
    reveal_strlit("bin");
    reveal_strlit("dash");
    reveal_strlit("work");
    reveal_strlit("native-fd-probe");
    reveal_strlit(".");
    reveal_strlit("..");
    reveal_strlit("/usr/bin/dash");
    reveal_strlit("/work/native-fd-probe");
    assert(crate::contracts::plain_name("usr"@));
    assert(crate::contracts::plain_name("bin"@));
    assert(crate::contracts::plain_name("dash"@));
    assert(crate::contracts::plain_name("work"@));
    assert(crate::contracts::plain_name("native-fd-probe"@));
    reveal_with_fuel(text::joined, 4);
    assert(crate::contracts::absolute_valid("/usr/bin/dash"@)) by {
        let names = seq!["usr"@, "bin"@, "dash"@];
        assert forall|i: int| 0 <= i < names.len() implies crate::contracts::plain_name(
            #[trigger] names[i],
        ) by {
            assert(i == 0 || i == 1 || i == 2);
        }
        crate::contracts::lemma_path_of_names(names);
        assert("/usr/bin/dash"@ =~= seq!['/'] + text::joined(names, '/'));
    }
    assert(crate::contracts::absolute_valid("/work/native-fd-probe"@)) by {
        let names = seq!["work"@, "native-fd-probe"@];
        assert forall|i: int| 0 <= i < names.len() implies crate::contracts::plain_name(
            #[trigger] names[i],
        ) by {
            assert(i == 0 || i == 1);
        }
        crate::contracts::lemma_path_of_names(names);
        assert("/work/native-fd-probe"@ =~= seq!['/'] + text::joined(names, '/'));
    }
}

proof fn lemma_last_value(lines: Seq<Seq<char>>, prefix: Seq<char>, k: int)
    requires
        0 <= k < lines.len(),
        prefix.is_prefix_of(lines[k]),
        forall|i: int| k < i < lines.len() ==> !prefix.is_prefix_of(#[trigger] lines[i]),
    ensures
        last_value(lines, prefix) == Some(lines[k].skip(prefix.len() as int)),
    decreases lines.len(),
{
    if k < lines.len() - 1 {
        let before = lines.drop_last();
        assert(!prefix.is_prefix_of(lines[lines.len() - 1]));
        assert(before[k] == lines[k]);
        assert forall|i: int| k < i < before.len() implies !prefix.is_prefix_of(
            #[trigger] before[i],
        ) by {
            assert(before[i] == lines[i]);
        }
        lemma_last_value(before, prefix, k);
    }
}

/// The launcher is installed where some paragraph of the list of packages names it, says
/// that it is installed, and gives the version that is known to work, or a revision of it.
pub proof fn law_installed_launchers_are_found(
    status: &str,
    p: int,
    a: int,
    b: int,
    c: int,
    revision: Seq<char>,
    r: bool,
)
    requires
        call_ensures(installed_rootlesskit_235, (status,), r),
        ({
            let paragraphs = text::split_at_pattern(status@, "\n\n"@);
            let lines = text::lines(paragraphs[p]);
            &&& 0 <= p < paragraphs.len()
            &&& 0 <= a < lines.len() && lines[a] == "Package: rootlesskit"@
            &&& 0 <= b < lines.len() && (lines[b] == "Version: 2.3.5"@ || lines[b]
                == "Version: 2.3.5-"@ + revision)
            &&& 0 <= c < lines.len() && lines[c] == "Status: install ok installed"@
            &&& forall|i: int|
                a < i < lines.len() ==> !"Package: "@.is_prefix_of(#[trigger] lines[i])
            &&& forall|i: int|
                b < i < lines.len() ==> !"Version: "@.is_prefix_of(#[trigger] lines[i])
        }),
    ensures
        r,
{
    let paragraphs = text::split_at_pattern(status@, "\n\n"@);
    let lines = text::lines(paragraphs[p]);
    reveal_strlit("Package: ");
    reveal_strlit("rootlesskit");
    reveal_strlit("Package: rootlesskit");
    reveal_strlit("Version: ");
    reveal_strlit("Version: 2.3.5");
    reveal_strlit("Version: 2.3.5-");
    reveal_strlit("2.3.5");
    reveal_strlit("2.3.5-");
    assert(lines[a].take(9) =~= "Package: "@);
    assert(lines[a].skip(9) =~= "rootlesskit"@);
    lemma_last_value(lines, "Package: "@, a);
    assert(lines[b].take(9) =~= "Version: "@);
    let version = lines[b].skip(9);
    lemma_last_value(lines, "Version: "@, b);
    if lines[b] == "Version: 2.3.5"@ {
        assert(version =~= "2.3.5"@);
    } else {
        assert(version.take(6) =~= "2.3.5-"@);
    }
    assert(lines.contains(lines[c]));
    assert(describes_launcher(paragraphs[p]));
}

/// The launcher is not installed where every paragraph lacks its name, says something else
/// of its state, or gives another version.
pub proof fn law_other_packages_are_not_the_launcher(status: &str, r: bool)
    requires
        call_ensures(installed_rootlesskit_235, (status,), r),
        r,
    ensures
        exists|p: int, b: int|
            0 <= p < text::split_at_pattern(status@, "\n\n"@).len() && 0 <= b < text::lines(
                text::split_at_pattern(status@, "\n\n"@)[p],
            ).len() && #[trigger] names_launcher(
                text::lines(text::split_at_pattern(status@, "\n\n"@)[p]),
                b,
            ),
{
    let paragraphs = text::split_at_pattern(status@, "\n\n"@);
    let p = choose|p: int| 0 <= p < paragraphs.len() && describes_launcher(#[trigger] paragraphs[p]);
    let lines = text::lines(paragraphs[p]);
    reveal_strlit("Package: ");
    reveal_strlit("rootlesskit");
    reveal_strlit("Package: rootlesskit");
    reveal_strlit("Version: ");
    reveal_strlit("Version: 2.3.5");
    reveal_strlit("Version: 2.3.5-");
    reveal_strlit("2.3.5");
    reveal_strlit("2.3.5-");
    let a: int = lemma_value_found(lines, "Package: "@);
    assert(lines[a] =~= "Package: "@ + "rootlesskit"@);
    assert("Package: "@ + "rootlesskit"@ =~= "Package: rootlesskit"@);
    assert(lines.contains("Package: rootlesskit"@));
    let b: int = lemma_value_found(lines, "Version: "@);
    let version = lines[b].skip(9);
    assert(lines[b] =~= "Version: "@ + version);
    if version == "2.3.5"@ {
        assert(lines[b] =~= "Version: 2.3.5"@);
    } else {
        assert(version.take(6) =~= "2.3.5-"@);
        assert("Version: "@ + "2.3.5-"@ =~= "Version: 2.3.5-"@);
        assert(lines[b].take(15) =~= "Version: "@ + version.take(6));
    }
    assert(names_launcher(lines, b));
}

/// Whether the lines hold the launcher's name and state, and this one its version.
pub open spec fn names_launcher(lines: Seq<Seq<char>>, b: int) -> bool {
    &&& lines.contains("Package: rootlesskit"@)
    &&& lines.contains("Status: install ok installed"@)
    &&& lines[b] == "Version: 2.3.5"@ || "Version: 2.3.5-"@.is_prefix_of(lines[b])
}

proof fn lemma_value_found(lines: Seq<Seq<char>>, prefix: Seq<char>) -> (k: int)
    requires
        last_value(lines, prefix) is Some,
    ensures
        0 <= k < lines.len(),
        prefix.is_prefix_of(lines[k]),
        last_value(lines, prefix) == Some(lines[k].skip(prefix.len() as int)),
    decreases lines.len(),
{
    if prefix.is_prefix_of(lines.last()) {
        lines.len() - 1
    } else {
        let k: int = lemma_value_found(lines.drop_last(), prefix);
        assert(lines.drop_last()[k] == lines[k]);
        k
    }
}

/// Whether a line is an account of another number, or none at all.
pub open spec fn no_account(line: Seq<char>, uid: u32) -> bool {
    let fields = text::split(line, Separator::Exactly(':'));
    fields.len() < 4 || text::unsigned(fields[2], 0xffff_ffff) != Some(uid as nat)
}

proof fn lemma_no_accounts(lines: Seq<Seq<char>>, uid: u32)
    requires
        forall|i: int| 0 <= i < lines.len() ==> no_account(#[trigger] lines[i], uid),
    ensures
        account_names(lines, uid).len() == 0,
    decreases lines.len(),
{
    if lines.len() > 0 {
        let before = lines.drop_last();
        assert forall|i: int| 0 <= i < before.len() implies no_account(
            #[trigger] before[i],
            uid,
        ) by {
            assert(before[i] == lines[i]);
        }
        lemma_no_accounts(before, uid);
        assert(no_account(lines[lines.len() - 1], uid));
    }
}

proof fn lemma_one_account(lines: Seq<Seq<char>>, uid: u32, k: int)
    requires
        0 <= k < lines.len(),
        !no_account(lines[k], uid),
        forall|i: int| 0 <= i < lines.len() && i != k ==> no_account(#[trigger] lines[i], uid),
    ensures
        account_names(lines, uid) == seq![text::split(lines[k], Separator::Exactly(':'))[0]],
    decreases lines.len(),
{
    let before = lines.drop_last();
    assert forall|i: int| 0 <= i < before.len() && i != k implies no_account(
        #[trigger] before[i],
        uid,
    ) by {
        assert(before[i] == lines[i]);
    }
    let name = text::split(lines[k], Separator::Exactly(':'))[0];
    if k == lines.len() - 1 {
        lemma_no_accounts(before, uid);
        assert(account_names(lines, uid) =~= seq![name]);
    } else {
        assert(before[k] == lines[k]);
        lemma_one_account(before, uid, k);
        assert(no_account(lines[lines.len() - 1], uid));
    }
}

proof fn lemma_accounts_counted(lines: Seq<Seq<char>>, uid: u32, j: int, k: int)
    requires
        0 <= j <= k < lines.len(),
        !no_account(lines[j], uid),
        !no_account(lines[k], uid),
    ensures
        account_names(lines, uid).len() >= (if j < k {
            2nat
        } else {
            1
        }),
    decreases lines.len(),
{
    let before = lines.drop_last();
    if k < lines.len() - 1 {
        assert(before[k] == lines[k] && before[j] == lines[j]);
        lemma_accounts_counted(before, uid, j, k);
    } else if j < k {
        assert(before[j] == lines[j]);
        lemma_accounts_counted(before, uid, j, j);
    }
}

/// A service goes by the name of the one account with its number; with none or two of them
/// there is no telling.
pub proof fn law_services_have_one_account(
    passwd: &str,
    uid: u32,
    j: int,
    k: int,
    r: Result<String, ExecutionDomainError>,
)
    requires
        call_ensures(service_user, (passwd, uid), r),
    ensures
        ({
            let lines = text::lines(passwd@);
            &&& 0 <= k < lines.len() && !no_account(lines[k], uid) && (forall|i: int|
                0 <= i < lines.len() && i != k ==> no_account(#[trigger] lines[i], uid)) ==> (
            r matches Ok(user) && user@ == text::split(lines[k], Separator::Exactly(':'))[0])
            &&& (forall|i: int| 0 <= i < lines.len() ==> no_account(#[trigger] lines[i], uid))
                ==> r is Err
            &&& 0 <= j < k < lines.len() && !no_account(lines[j], uid) && !no_account(lines[k], uid)
                ==> r is Err
        }),
{
    let lines = text::lines(passwd@);
    if 0 <= k < lines.len() && !no_account(lines[k], uid) && (forall|i: int|
        0 <= i < lines.len() && i != k ==> no_account(#[trigger] lines[i], uid)) {
        lemma_one_account(lines, uid, k);
        if let Ok(user) = r {
            assert(seq![user@][0] == user@);
        }
    }
    if forall|i: int| 0 <= i < lines.len() ==> no_account(#[trigger] lines[i], uid) {
        lemma_no_accounts(lines, uid);
        if let Ok(user) = r {
            assert(seq![user@].len() == 1);
        }
    }
    if 0 <= j < k < lines.len() && !no_account(lines[j], uid) && !no_account(lines[k], uid) {
        lemma_accounts_counted(lines, uid, j, k);
        if let Ok(user) = r {
            assert(seq![user@].len() == 1);
        }
    }
}

/// A path that is needed must be given, start at the root and resolve to itself.
pub proof fn law_needed_paths_are_given(
    path: Option<&[u8]>,
    resolved: &[u8],
    r: Result<(), ExecutionDomainError>,
)
    requires
        call_ensures(canonical_required, (path, resolved), r),
    ensures
        path is None ==> (r matches Err(ExecutionDomainError::Backend { category, .. }) && category
            == FailureCategory::NotReady),
        path matches Some(p) ==> (r is Ok <==> p@.len() > 0 && p@[0] == 47
            && host_path::components(resolved@) == host_path::components(p@)),
        path is Some && r is Err ==> (r matches Err(ExecutionDomainError::Backend { category, .. })
            && category == FailureCategory::Unavailable),
{
}

/// A host fits where the service is not the first user, it is no container, and it runs
/// the one system with the one first process that are known to work.
pub proof fn law_hosts_fit_or_not(facts: HostFacts, r: Result<(), ExecutionDomainError>)
    requires
        call_ensures(check_host, (&facts,), r),
    ensures
        r is Ok <==> facts.euid != 0 && !facts.container && text::lines(facts.os_release@).contains(
            "ID=debian"@,
        ) && text::trimmed(facts.first_process@) == "systemd"@,
{
}

/// A program that is needed is a file that can be run, and where it must change its user,
/// does.
pub proof fn law_needed_programs_can_be_run(
    is_file: bool,
    mode: u32,
    set_user: bool,
    r: Result<(), ExecutionDomainError>,
)
    requires
        call_ensures(verify_binary, (is_file, mode, set_user), r),
    ensures
        r is Ok <==> is_file && (mode / 64 % 2 == 1 || mode / 8 % 2 == 1 || mode % 2 == 1) && (
        set_user ==> mode / 2048 % 2 == 1),
{
    assert(mode & 0o111 != 0 <==> mode / 64 % 2 == 1 || mode / 8 % 2 == 1 || mode % 2 == 1)
        by (bit_vector);
    assert(mode & 0o4000 != 0 <==> mode / 2048 % 2 == 1) by (bit_vector);
}

/// What is delegated lies below the hierarchy and is not all of it.
pub proof fn law_delegations_are_below_the_hierarchy(
    path: &[u8],
    below: Seq<Seq<u8>>,
    r: Result<(), ExecutionDomainError>,
)
    requires
        call_ensures(verify_delegation, (path,), r),
    ensures
        host_path::components(path@) == rootfs::text_components("/sys/fs/cgroup"@) + below ==> (r
            is Ok <==> below.len() > 0),
        !rootfs::text_components("/sys/fs/cgroup"@).is_prefix_of(host_path::components(path@))
            ==> r is Err,
{
    let base = rootfs::text_components("/sys/fs/cgroup"@);
    let own = host_path::components(path@);
    if own == base + below {
        assert(own.take(base.len() as int) =~= base);
        if below.len() == 0 {
            assert(own =~= base);
        }
    }
}

/// A call is there where it fails for another reason than not being there.
pub proof fn law_calls_are_there_unless_absent(
    result: i64,
    errno: Option<i32>,
    r: Result<(), ExecutionDomainError>,
)
    requires
        call_ensures(verify_primitive, (result, errno), r),
    ensures
        r is Ok <==> result == -1 && errno != Some(38i32),
{
}

/// A root for testing is a directory of the caller's own with no bits for anyone else, and
/// holds nothing but its lock and an empty directory.
pub proof fn law_test_roots_are_private_and_empty(
    is_dir: bool,
    uid: u32,
    euid: u32,
    mode: u32,
    name: &[u8],
    empty: bool,
    r: Result<(), ExecutionDomainError>,
    s: Result<(), ExecutionDomainError>,
)
    requires
        call_ensures(verify_private_root, (is_dir, uid, euid, mode), r),
        call_ensures(verify_root_entry, (name, empty), s),
    ensures
        r is Ok <==> is_dir && uid == euid && mode % 4096 == 448,
        s is Ok <==> name@ == vstd::utf8::encode_utf8(".chimera.lock"@) || name@
            == vstd::utf8::encode_utf8("active"@) && empty,
{
    assert(mode & 0o7777 == mode % 4096) by (bit_vector);
}

/// What is needed is there only where every part is: the three paths, a host that fits,
/// what was verified, one account, its mapping, and the launcher.
pub proof fn law_everything_needed_is_there(
    root: Option<&[u8]>,
    cgroup: Option<&[u8]>,
    binary: Option<&[u8]>,
    resolved: (&[u8], &[u8], &[u8]),
    findings: Findings,
    first: Result<(), ExecutionDomainError>,
    second: Result<(), ExecutionDomainError>,
    third: Result<(), ExecutionDomainError>,
    fits: Result<(), ExecutionDomainError>,
    account: Result<String, ExecutionDomainError>,
    installed: bool,
    r: Result<NativePrerequisites, ExecutionDomainError>,
)
    requires
        call_ensures(
            NativePrerequisites::from_paths,
            (root, cgroup, binary, resolved, findings),
            r,
        ),
        call_ensures(canonical_required, (root, resolved.0), first),
        call_ensures(canonical_required, (cgroup, resolved.1), second),
        call_ensures(canonical_required, (binary, resolved.2), third),
        call_ensures(check_host, (&findings.host,), fits),
        call_ensures(service_user, (findings.passwd, findings.host.euid), account),
        call_ensures(installed_rootlesskit_235, (findings.packages,), installed),
    ensures
        r is Ok ==> first is Ok && second is Ok && third is Ok && fits is Ok && findings.verified
            is Ok && account is Ok && installed,
        r matches Ok(p) ==> root is Some && p.root@ == root->0@ && cgroup is Some && p.cgroup@
            == cgroup->0@ && binary is Some && p.binary@ == binary->0@,
        first is Err ==> r->Err_0 == first->Err_0,
        first is Ok && second is Err ==> r->Err_0 == second->Err_0,
{
}

/// A snapshot counts the groups that it enters, up to its limits of depth and number.
pub proof fn law_groups_are_counted(
    entries: usize,
    fresh: NativeSnapshot,
    s: &mut NativeSnapshot,
    depth: usize,
    r: Result<(), ExecutionDomainError>,
)
    requires
        call_ensures(NativeSnapshot::new, (entries,), fresh),
        call_ensures(NativeSnapshot::enter_group, (s, depth), r),
    ensures
        fresh.entries == entries && fresh.cgroups == 0 && fresh.mounts == 0 && fresh.live_processes
            == 0,
        r is Ok <==> depth < 64 && old(s).cgroups < 4096,
        final(s).cgroups == old(s).cgroups + (if r is Ok {
            1int
        } else {
            0
        }),
        final(s).live_processes == old(s).live_processes && final(s).mounts == old(s).mounts,
{
}

/// A snapshot counts every process that is listed, and one more where only the launcher
/// is left.
pub proof fn law_processes_are_counted(
    s: &mut NativeSnapshot,
    members: &str,
    r: Result<(), ExecutionDomainError>,
    t: &mut NativeSnapshot,
    ended: bool,
    done: (),
    i: int,
)
    requires
        call_ensures(NativeSnapshot::count_members, (s, members), r),
        old(s).live_processes + members@.len() <= usize::MAX,
        call_ensures(NativeSnapshot::count_launcher, (t, ended), done),
    ensures
        r is Ok ==> final(s).live_processes == old(s).live_processes + text::words(members@).len(),
        r is Err ==> final(s).live_processes == old(s).live_processes,
        r is Ok && 0 <= i < text::words(members@).len() ==> (text::unsigned(
            text::words(members@)[i],
            0xffff_ffff,
        ) matches Some(pid) && pid > 0),
        (forall|k: int|
            0 <= k < text::words(members@).len() ==> (text::unsigned(
                #[trigger] text::words(members@)[k],
                0xffff_ffff,
            ) matches Some(pid) && pid > 0)) ==> r is Ok,
        final(s).cgroups == old(s).cgroups,
        final(t).live_processes == (if ended || old(t).live_processes > 0 {
            old(t).live_processes
        } else {
            1
        }),
{
}

/// A snapshot counts every mount at a path or below it, and no other.
pub proof fn law_mounts_are_counted(
    s: &mut NativeSnapshot,
    mountinfo: &[u8],
    path: &[u8],
    r: Result<(), ExecutionDomainError>,
    free: Result<(), ExecutionDomainError>,
)
    requires
        call_ensures(NativeSnapshot::count_mounts, (s, mountinfo, path), r),
        call_ensures(strict::prove_no_mount_below, (path, mountinfo), free),
    ensures
        r is Ok ==> (free is Ok <==> final(s).mounts == 0),
        r is Err ==> free is Err && final(s).mounts == old(s).mounts,
        r is Ok ==> final(s).mounts <= bytes::split(mountinfo@, 10).len(),
{
    let lines = bytes::split(mountinfo@, 10);
    lemma_counted_mounts(lines, path@, lines.len() as int);
    assert(lines.take(lines.len() as int) =~= lines);
}

proof fn lemma_counted_mounts(lines: Seq<Seq<u8>>, path: Seq<u8>, n: int)
    requires
        0 <= n <= lines.len(),
    ensures
        mounts_at(lines, path, n) is None ==> strict::first_mount_problem(lines.take(n), path)
            is Some,
        mounts_at(lines, path, n) matches Some(count) ==> count <= n && (count == 0
            <==> strict::first_mount_problem(lines.take(n), path) is None),
    decreases n,
{
    if n > 0 {
        lemma_counted_mounts(lines, path, n - 1);
        assert(lines.take(n).drop_last() =~= lines.take(n - 1));
        assert(lines.take(n).last() == lines[n - 1]);
    }
}

/// A snapshot is clean where it counts nothing at all.
pub proof fn law_clean_snapshots_count_nothing(s: NativeSnapshot, r: bool)
    requires
        call_ensures(NativeSnapshot::is_clean, (&s,), r),
    ensures
        r <==> s.live_processes == 0 && s.cgroups == 0 && s.mounts == 0 && s.entries == 0,
{
}

/// A probe runs in the domain's working directory, sets nothing, and has half a minute; a
/// script stops at its first failure.
pub proof fn law_probes_run_in_the_domain(script: &str, a: CommandSpec, b: CommandSpec)
    requires
        call_ensures(shell_spec, (script,), a),
        call_ensures(control_fd_probe_spec, (), b),
    ensures
        a.target matches CommandTarget::Sandboxed { program, args, cwd } && program@
            == "/usr/bin/dash"@ && cwd@ == "/work"@ && args@.len() == 2 && args@[0]@ == "-c"@
            && "set -eu\n"@.is_prefix_of(args@[1]@) && script@.is_suffix_of(args@[1]@),
        b.target matches CommandTarget::Sandboxed { program, args, cwd } && program@
            == "/work/native-fd-probe"@ && cwd@ == "/work"@ && args@.len() == 0,
        a.timeout == 30_000_000_000 && b.timeout == 30_000_000_000,
        a.env@.dom() == Set::<Seq<char>>::empty() && b.env@.dom() == Set::<Seq<char>>::empty(),
        a.state is None && b.state is None,
{
    let line = "set -eu\n"@ + script@;
    assert(line.take("set -eu\n"@.len() as int) =~= "set -eu\n"@);
    assert(line.skip(line.len() - script@.len()) =~= script@);
}

} // verus!
