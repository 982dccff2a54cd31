//! What is mounted where, as the kernel lists it, and what has to be mounted in a
//! domain.

use vstd::prelude::*;

use crate::bytes;
use crate::contracts::{FailureCategory, Stage};
use crate::error;
use crate::error::ExecutionDomainError;
use crate::host_path;
use crate::host_path::Parts;
use crate::text;
use crate::text::Separator;

verus! {

/// A failure of the root file system.
pub open spec fn rootfs_error(category: FailureCategory) -> ExecutionDomainError {
    error::backend(Stage::Rootfs, category)
}

/// Reports a failure of the root file system.
pub fn failure(category: FailureCategory) -> (e: ExecutionDomainError)
    ensures
        e == rootfs_error(category),
{
    error::backend_failure(Stage::Rootfs, category)
}

/// The refusal of a plan or of a list of mounts.
pub open spec fn invalid_error() -> ExecutionDomainError {
    rootfs_error(FailureCategory::InvalidInput)
}

/// Refuses a plan or a list of mounts.
pub fn invalid() -> (e: ExecutionDomainError)
    ensures
        e == invalid_error(),
{
    failure(FailureCategory::InvalidInput)
}

/// Reports a failed system call on the root file system.
pub fn io_failure(errno: Option<i32>) -> (e: ExecutionDomainError)
    ensures
        e == error::backend_io(Stage::Rootfs, errno),
{
    error::backend_io_failure(Stage::Rootfs, errno)
}

/// The character that three octal digits after a backslash stand for. The kernel
/// writes only these.
pub open spec fn escaped_char(a: char, b: char, c: char) -> Option<char> {
    if a == '0' && b == '4' && c == '0' {
        Some(' ')
    } else if a == '0' && b == '1' && c == '1' {
        Some('\t')
    } else if a == '0' && b == '1' && c == '2' {
        Some('\n')
    } else if a == '1' && b == '3' && c == '4' {
        Some('\\')
    } else {
        None
    }
}

/// The path that an escaped field stands for, where it can be read.
pub open spec fn unescaped(s: Seq<char>) -> Option<Seq<char>>
    decreases s.len(),
{
    if s.len() == 0 {
        Some(Seq::empty())
    } else if s[0] != '\\' {
        match unescaped(s.skip(1)) {
            Some(rest) => Some(seq![s[0]] + rest),
            None => None,
        }
    } else if s.len() < 4 {
        None
    } else {
        match (escaped_char(s[1], s[2], s[3]), unescaped(s.skip(4))) {
            (Some(c), Some(rest)) => Some(seq![c] + rest),
            _ => None,
        }
    }
}

/// Reads an escaped field.
pub fn unescape_mount(value: &[char]) -> (r: Result<Vec<char>, ExecutionDomainError>)
    ensures
        match r {
            Ok(path) => unescaped(value@) == Some(path@),
            Err(e) => unescaped(value@) is None && e == invalid_error(),
        },
{
    let mut output: Vec<char> = Vec::new();
    let mut index: usize = 0;
    proof {
        assert(value@.skip(0) =~= value@);
    }
    while index < value.len()
        invariant
            index <= value@.len(),
            match unescaped(value@.skip(index as int)) {
                Some(rest) => unescaped(value@) == Some(output@ + rest),
                None => unescaped(value@) is None,
            },
        decreases value.len() - index,
    {
        let ghost here = value@.skip(index as int);
        let ghost done = output@;
        assert(here[0] == value@[index as int]);
        if value[index] != '\\' {
            output.push(value[index]);
            index = index + 1;
            proof {
                let after = value@.skip(index as int);
                assert(here.skip(1) =~= after);
                if unescaped(after) is Some {
                    assert(output@ + unescaped(after)->0 =~= done + unescaped(here)->0);
                }
            }
            continue;
        }
        if value.len() - index < 4 {
            return Err(invalid());
        }
        let a: char = value[index + 1];
        let b: char = value[index + 2];
        let c: char = value[index + 3];
        proof {
            assert(here[1] == a && here[2] == b && here[3] == c);
        }
        let decoded: char = if a == '0' && b == '4' && c == '0' {
            ' '
        } else if a == '0' && b == '1' && c == '1' {
            '\t'
        } else if a == '0' && b == '1' && c == '2' {
            '\n'
        } else if a == '1' && b == '3' && c == '4' {
            '\\'
        } else {
            return Err(invalid());
        };
        output.push(decoded);
        index = index + 4;
        proof {
            let after = value@.skip(index as int);
            assert(here.skip(4) =~= after);
            if unescaped(after) is Some {
                assert(output@ + unescaped(after)->0 =~= done + unescaped(here)->0);
            }
        }
    }
    proof {
        assert(value@.skip(index as int) =~= Seq::empty());
        assert(output@ + Seq::<char>::empty() =~= output@);
    }
    Ok(output)
}

/// A mount.
pub struct MountLine {
    pub id: Option<u64>,
    pub root: Parts,
    pub target: Parts,
    pub filesystem: Vec<char>,
    pub options: Vec<Vec<char>>,
    /// Whether mounts spread to or from other namespaces.
    pub propagation: bool,
    /// Whether the file system itself, and not just this mount, is read-only.
    pub super_readonly: bool,
}

/// A mount, as it is listed.
pub ghost struct Mount {
    pub id: Option<nat>,
    pub root: Seq<Seq<u8>>,
    pub target: Seq<Seq<u8>>,
    pub filesystem: Seq<char>,
    pub options: Seq<Seq<char>>,
    pub propagation: bool,
    pub super_readonly: bool,
}

impl View for MountLine {
    type V = Mount;

    open spec fn view(&self) -> Mount {
        Mount {
            id: match self.id {
                Some(n) => Some(n as nat),
                None => None,
            },
            root: self.root@,
            target: self.target@,
            filesystem: self.filesystem@,
            options: text::views(self.options@),
            propagation: self.propagation,
            super_readonly: self.super_readonly,
        }
    }
}

/// The mounts of a list.
pub open spec fn mounts(v: Seq<MountLine>) -> Seq<Mount> {
    Seq::new(v.len(), |i: int| v[i]@)
}

/// Whether a field says that mounts spread.
pub open spec fn spreads(field: Seq<char>) -> bool {
    "shared:"@.is_prefix_of(field) || "master:"@.is_prefix_of(field)
        || "propagate_from:"@.is_prefix_of(field)
}

/// The components of the path that a field stands for.
pub open spec fn path_of(field: Seq<char>) -> Option<Seq<Seq<u8>>> {
    match unescaped(field) {
        Some(path) => Some(host_path::components(bytes::encoded(path))),
        None => None,
    }
}

/// The parts of a list that a comma separates.
pub open spec fn list_of(field: Seq<char>) -> Seq<Seq<char>> {
    text::split(field, Separator::Exactly(','))
}

/// The mount that the fields of a line describe.
pub open spec fn mount_of(left: Seq<Seq<char>>, right: Seq<Seq<char>>) -> Option<Mount> {
    if left.len() < 6 || right.len() != 3 {
        None
    } else {
        match (path_of(left[3]), path_of(left[4])) {
            (Some(root), Some(target)) => Some(
                Mount {
                    id: text::unsigned(left[0], u64::MAX as nat),
                    root,
                    target,
                    filesystem: right[0],
                    options: list_of(left[5]),
                    propagation: exists|i: int| 6 <= i < left.len() && spreads(#[trigger] left[i]),
                    super_readonly: list_of(right[2]).contains("ro"@),
                },
            ),
            _ => None,
        }
    }
}

/// The mount that a line describes.
pub open spec fn line_mount(line: Seq<char>) -> Option<Mount> {
    match text::cut_once(line, " - "@) {
        None => None,
        Some((left, right)) => mount_of(text::words(left), text::words(right)),
    }
}

/// The mounts that lines describe, where every line can be read.
pub open spec fn line_mounts(lines: Seq<Seq<char>>) -> Option<Seq<Mount>>
    decreases lines.len(),
{
    if lines.len() == 0 {
        Some(seq![])
    } else {
        match (line_mounts(lines.drop_last()), line_mount(lines.last())) {
            (Some(before), Some(m)) => Some(before.push(m)),
            _ => None,
        }
    }
}

/// The mounts that a text lists.
pub open spec fn listed(contents: Seq<char>) -> Option<Seq<Mount>> {
    line_mounts(text::lines(contents))
}

proof fn lemma_unreadable(lines: Seq<Seq<char>>, n: int)
    requires
        0 <= n <= lines.len(),
        line_mounts(lines.take(n)) is None,
    ensures
        line_mounts(lines) is None,
    decreases lines.len(),
{
    if n == lines.len() {
        assert(lines.take(n) =~= lines);
    } else {
        assert(lines.drop_last().take(n) =~= lines.take(n));
        lemma_unreadable(lines.drop_last(), n);
    }
}

fn listed_option(list: &[Vec<char>], name: &str) -> (r: bool)
    ensures
        r == text::views(list@).contains(name@),
{
    for i in 0..list.len()
        invariant
            forall|k: int| 0 <= k < i ==> text::views(list@)[k] != name@,
    {
        assert(text::views(list@)[i as int] == list@[i as int]@);
        if text::text_is(list[i].as_slice(), name) {
            return true;
        }
    }
    false
}

fn field_spreads(field: &[char]) -> (r: bool)
    ensures
        r == spreads(field@),
{
    let shared: Vec<char> = text::chars("shared:");
    let master: Vec<char> = text::chars("master:");
    let from: Vec<char> = text::chars("propagate_from:");
    text::begins(field, shared.as_slice()) || text::begins(field, master.as_slice())
        || text::begins(field, from.as_slice())
}

fn field_path(field: &[char]) -> (r: Option<Parts>)
    ensures
        match r {
            Some(p) => path_of(field@) == Some(p@),
            None => path_of(field@) is None,
        },
{
    match unescape_mount(field) {
        Err(_) => None,
        Ok(path) => {
            let s: String = text::string(path.as_slice());
            let raw: Vec<u8> = bytes::of(s.as_str());
            Some(host_path::parts_of(raw.as_slice()))
        },
    }
}

fn parse_line(line: &[char]) -> (r: Option<MountLine>)
    ensures
        match r {
            Some(m) => line_mount(line@) == Some(m@),
            None => line_mount(line@) is None,
        },
{
    let dash: Vec<char> = text::chars(" - ");
    let (left, right): (Vec<char>, Vec<char>) = match text::split_once(line, dash.as_slice()) {
        None => {
            return None;
        },
        Some(halves) => halves,
    };
    let left: Vec<Vec<char>> = text::fields(left.as_slice());
    let right: Vec<Vec<char>> = text::fields(right.as_slice());
    let ghost l = text::views(left@);
    let ghost r = text::views(right@);
    proof {
        assert(l.len() == left@.len());
        assert(r.len() == right@.len());
    }
    if left.len() < 6 || right.len() != 3 {
        return None;
    }
    proof {
        assert(l[0] == left@[0]@ && l[3] == left@[3]@ && l[4] == left@[4]@ && l[5] == left@[5]@);
        assert(r[0] == right@[0]@ && r[2] == right@[2]@);
    }
    let root: Parts = match field_path(left[3].as_slice()) {
        Some(p) => p,
        None => {
            return None;
        },
    };
    let target: Parts = match field_path(left[4].as_slice()) {
        Some(p) => p,
        None => {
            return None;
        },
    };
    let mut propagation: bool = false;
    let count: usize = left.len();
    for i in 6..count
        invariant
            count == left@.len(),
            l == text::views(left@),
            l.len() == left@.len(),
            propagation == exists|k: int| 6 <= k < i && spreads(#[trigger] l[k]),
    {
        assert(l[i as int] == left@[i as int]@);
        if field_spreads(left[i].as_slice()) {
            assert(spreads(l[i as int]));
            propagation = true;
        }
    }
    let options: Vec<Vec<char>> = text::pieces(left[5].as_slice(), Separator::Exactly(','));
    let own: Vec<Vec<char>> = text::pieces(right[2].as_slice(), Separator::Exactly(','));
    let super_readonly: bool = listed_option(own.as_slice(), "ro");
    let id: Option<u64> = text::number(left[0].as_slice(), u64::MAX);
    let filesystem: Vec<char> = vstd::slice::slice_to_vec(right[0].as_slice());
    Some(
        MountLine { id, root, target, filesystem, options, propagation, super_readonly },
    )
}

/// Reads a list of mounts. One line that cannot be read spoils it.
pub fn parse_mountinfo(contents: &str) -> (r: Result<Vec<MountLine>, ExecutionDomainError>)
    ensures
        match r {
            Ok(v) => listed(contents@) == Some(mounts(v@)),
            Err(e) => listed(contents@) is None && e == invalid_error(),
        },
{
    let all: Vec<char> = text::chars(contents);
    let lines: Vec<Vec<char>> = text::line_list(all.as_slice());
    let ghost views = text::lines(contents@);
    let mut out: Vec<MountLine> = Vec::new();
    proof {
        assert(text::views(lines@).len() == lines@.len());
        assert(views.take(0) =~= seq![]);
        assert(mounts(out@) =~= seq![]);
    }
    for i in 0..lines.len()
        invariant
            text::views(lines@) == views,
            views == text::lines(contents@),
            views.len() == lines@.len(),
            line_mounts(views.take(i as int)) == Some(mounts(out@)),
    {
        let ghost before = out@;
        proof {
            assert(views[i as int] == lines@[i as int]@);
            assert(views.take(i + 1).drop_last() =~= views.take(i as int));
            assert(views.take(i + 1).last() == views[i as int]);
        }
        match parse_line(lines[i].as_slice()) {
            None => {
                proof {
                    lemma_unreadable(views, i + 1);
                }
                return Err(invalid());
            },
            Some(m) => {
                out.push(m);
                proof {
                    assert(mounts(out@) =~= mounts(before).push(m@));
                }
            },
        }
    }
    proof {
        assert(views.take(views.len() as int) =~= views);
    }
    Ok(out)
}

/// A mount that has to be there.
pub struct ExpectedMount {
    pub target: Parts,
    pub root: Parts,
    pub filesystem: String,
    pub readonly: bool,
    pub nodev: bool,
    pub noexec: bool,
}

/// The first expected mount, from the given one on, with a target.
pub open spec fn first_with(expected: Seq<ExpectedMount>, target: Seq<Seq<u8>>, from: int) -> Option<
    int,
>
    decreases expected.len() - from,
{
    if from < 0 || from >= expected.len() {
        None
    } else if expected[from].target@ == target {
        Some(from)
    } else {
        first_with(expected, target, from + 1)
    }
}

/// Whether a mount is what is expected: from the right place, of the right kind, not
/// spreading, and with every restriction.
pub open spec fn mount_fits(m: Mount, e: ExpectedMount) -> bool {
    &&& !m.propagation
    &&& m.root == e.root@
    &&& m.filesystem == e.filesystem@
    &&& m.options.contains("nosuid"@)
    &&& if e.readonly {
        m.options.contains("ro"@)
    } else {
        m.options.contains("rw"@)
    }
    &&& e.nodev ==> m.options.contains("nodev"@)
    &&& e.noexec ==> m.options.contains("noexec"@)
}

/// What is wrong with one of the mounts: it is not expected at all, it hides another,
/// or it is not as expected.
pub open spec fn mount_fault(list: Seq<Mount>, k: int, expected: Seq<ExpectedMount>) -> Option<
    ExecutionDomainError,
> {
    match first_with(expected, list[k].target, 0) {
        None => Some(invalid_error()),
        Some(i) => if (exists|j: int| 0 <= j < k && (#[trigger] list[j]).target == list[k].target)
            || !mount_fits(list[k], expected[i]) {
            Some(rootfs_error(FailureCategory::IdentityMismatch))
        } else {
            None
        },
    }
}

/// What is wrong with the first of the first `n` mounts that is wrong.
pub open spec fn first_fault(list: Seq<Mount>, expected: Seq<ExpectedMount>, n: int) -> Option<
    ExecutionDomainError,
>
    decreases n,
{
    if n <= 0 {
        None
    } else {
        match first_fault(list, expected, n - 1) {
            Some(e) => Some(e),
            None => mount_fault(list, n - 1, expected),
        }
    }
}

proof fn lemma_first_fault(list: Seq<Mount>, expected: Seq<ExpectedMount>, n: int, all: int)
    requires
        0 <= n <= all,
        first_fault(list, expected, n) is Some,
    ensures
        first_fault(list, expected, all) == first_fault(list, expected, n),
    decreases all,
{
    if n < all {
        lemma_first_fault(list, expected, n, all - 1);
    }
}

/// What is wrong with a list of mounts.
pub open spec fn mounts_verdict(contents: Seq<char>, expected: Seq<ExpectedMount>) -> Option<
    ExecutionDomainError,
> {
    match listed(contents) {
        None => Some(invalid_error()),
        Some(list) => if list.len() != expected.len() {
            Some(rootfs_error(FailureCategory::IdentityMismatch))
        } else {
            first_fault(list, expected, list.len() as int)
        },
    }
}

fn find_expected(expected: &[ExpectedMount], target: &Parts) -> (r: Option<usize>)
    ensures
        match r {
            Some(i) => first_with(expected@, target@, 0) == Some(i as int) && i < expected@.len(),
            None => first_with(expected@, target@, 0) is None,
        },
{
    for i in 0..expected.len()
        invariant
            first_with(expected@, target@, 0) == first_with(expected@, target@, i as int),
    {
        if expected[i].target.same(target) {
            return Some(i);
        }
    }
    None
}

fn fits(m: &MountLine, e: &ExpectedMount) -> (r: bool)
    ensures
        r == mount_fits(m@, *e),
{
    let options: &[Vec<char>] = m.options.as_slice();
    !m.propagation && m.root.same(&e.root) && text::text_is(
        m.filesystem.as_slice(),
        e.filesystem.as_str(),
    ) && listed_option(options, "nosuid") && (if e.readonly {
        listed_option(options, "ro")
    } else {
        listed_option(options, "rw")
    }) && (!e.nodev || listed_option(options, "nodev")) && (!e.noexec || listed_option(
        options,
        "noexec",
    ))
}

/// Accepts a list of mounts only if it holds exactly the expected ones.
pub fn verify_mountinfo(contents: &str, expected: &[ExpectedMount]) -> (r: Result<
    (),
    ExecutionDomainError,
>)
    ensures
        r == (match mounts_verdict(contents@, expected@) {
            Some(e) => Err::<(), ExecutionDomainError>(e),
            None => Ok(()),
        }),
{
    let actual: Vec<MountLine> = match parse_mountinfo(contents) {
        Ok(v) => v,
        Err(e) => {
            return Err(e);
        },
    };
    let ghost list = mounts(actual@);
    if actual.len() != expected.len() {
        return Err(failure(FailureCategory::IdentityMismatch));
    }
    for k in 0..actual.len()
        invariant
            list == mounts(actual@),
            listed(contents@) == Some(list),
            list.len() == expected@.len(),
            first_fault(list, expected@, k as int) is None,
    {
        let line: &MountLine = &actual[k];
        proof {
            assert(list[k as int] == line@);
            assert(first_fault(list, expected@, k + 1) == mount_fault(list, k as int, expected@));
            if mount_fault(list, k as int, expected@) is Some {
                lemma_first_fault(list, expected@, k + 1, list.len() as int);
            }
        }
        match find_expected(expected, &line.target) {
            None => {
                return Err(invalid());
            },
            Some(i) => {
                for j in 0..k
                    invariant
                        k < actual@.len(),
                        list == mounts(actual@),
                        line == actual@[k as int],
                        first_with(expected@, list[k as int].target, 0) == Some(i as int),
                        listed(contents@) == Some(list),
                        list.len() == expected@.len(),
                        mount_fault(list, k as int, expected@) is Some ==> first_fault(
                            list,
                            expected@,
                            list.len() as int,
                        ) == mount_fault(list, k as int, expected@),
                        forall|x: int| 0 <= x < j ==> (#[trigger] list[x]).target != list[k as int].target,
                {
                    assert(list[j as int] == actual@[j as int]@);
                    assert(list[k as int] == actual@[k as int]@);
                    if actual[j].target.same(&line.target) {
                        return Err(failure(FailureCategory::IdentityMismatch));
                    }
                }
                if !fits(line, &expected[i]) {
                    return Err(failure(FailureCategory::IdentityMismatch));
                }
            },
        }
    }
    Ok(())
}

/// In an accepted list every mount is an expected one, as expected, and no two have
/// the same target.
pub proof fn law_accepted_mounts_are_expected(
    contents: Seq<char>,
    expected: Seq<ExpectedMount>,
    k: int,
)
    requires
        mounts_verdict(contents, expected) is None,
        0 <= k < expected.len(),
    ensures
        listed(contents) matches Some(list) && list.len() == expected.len() && (exists|i: int|
            0 <= i < expected.len() && #[trigger] mount_fits(list[k], expected[i])
                && expected[i].target@ == list[k].target) && (forall|j: int|
            0 <= j < k ==> (#[trigger] list[j]).target != list[k].target),
{
    let list = listed(contents)->0;
    lemma_no_fault(list, expected, k, list.len() as int);
    lemma_first_with(expected, list[k].target, 0);
    let i = first_with(expected, list[k].target, 0)->0;
    assert(mount_fits(list[k], expected[i]));
}

proof fn lemma_no_fault(list: Seq<Mount>, expected: Seq<ExpectedMount>, k: int, n: int)
    requires
        0 <= k < n,
        first_fault(list, expected, n) is None,
    ensures
        mount_fault(list, k, expected) is None,
    decreases n,
{
    if k < n - 1 {
        lemma_no_fault(list, expected, k, n - 1);
    }
}

proof fn lemma_first_with(expected: Seq<ExpectedMount>, target: Seq<Seq<u8>>, from: int)
    requires
        0 <= from,
    ensures
        first_with(expected, target, from) matches Some(i) ==> from <= i < expected.len()
            && expected[i].target@ == target,
    decreases expected.len() - from,
{
    if from < expected.len() && expected[from].target@ != target {
        lemma_first_with(expected, target, from + 1);
    }
}

/// The mount of the host that holds a path: the one with the longest target, and of
/// two on the same target the later, among the first `n`.
pub open spec fn covering(list: Seq<Mount>, source: Seq<Seq<u8>>, n: int) -> Option<int>
    decreases n,
{
    if n <= 0 {
        None
    } else {
        let before = covering(list, source, n - 1);
        let here = list[n - 1].target;
        if here.is_prefix_of(source) && (before is None || list[before->0].target.len()
            <= here.len()) {
            Some(n - 1)
        } else {
            before
        }
    }
}

/// Whether something else is mounted below a path.
pub open spec fn nested(list: Seq<Mount>, source: Seq<Seq<u8>>) -> bool {
    exists|i: int|
        0 <= i < list.len() && (#[trigger] list[i]).target != source && source.is_prefix_of(
            list[i].target,
        )
}

/// What has to be mounted where a directory of the host is bound: the part of the
/// mount that holds it. Nothing may be mounted below, or another part of the host
/// would come along.
pub fn expected_bind(
    source: &Parts,
    target: Parts,
    readonly: bool,
    nodev: bool,
    host: &[MountLine],
) -> (r: Result<ExpectedMount, ExecutionDomainError>)
    ensures
        ({
            let list = mounts(host@);
            let found = covering(list, source@, list.len() as int);
            match r {
                Ok(e) => !nested(list, source@) && (found matches Some(i) && e.root@
                    == list[i].root + source@.skip(list[i].target.len() as int) && e.filesystem@
                    == list[i].filesystem) && e.target == target && e.readonly == readonly
                    && e.nodev == nodev && !e.noexec,
                Err(e) => (nested(list, source@) || found is None) && e == invalid_error(),
            }
        }),
{
    let ghost list = mounts(host@);
    let mut found: Option<usize> = None;
    let mut below: bool = false;
    for i in 0..host.len()
        invariant
            list == mounts(host@),
            match found {
                Some(f) => f < i && covering(list, source@, i as int) == Some(f as int)
                    && list[f as int].target.is_prefix_of(source@),
                None => covering(list, source@, i as int) is None,
            },
            below == exists|k: int|
                0 <= k < i && (#[trigger] list[k]).target != source@ && source@.is_prefix_of(
                    list[k].target,
                ),
    {
        let line: &MountLine = &host[i];
        assert(list[i as int] == line@);
        if source.starts_with(&line.target) {
            let better: bool = match found {
                None => true,
                Some(f) => {
                    assert(list[f as int] == host@[f as int]@);
                    host[f].target.list.len() <= line.target.list.len()
                },
            };
            if better {
                found = Some(i);
            }
        }
        if !line.target.same(source) && line.target.starts_with(source) {
            assert(list[i as int].target != source@);
            below = true;
        }
    }
    let index: usize = match found {
        Some(f) => f,
        None => {
            return Err(invalid());
        },
    };
    if below {
        return Err(invalid());
    }
    let cover: &MountLine = &host[index];
    assert(list[index as int] == cover@);
    let root: Parts = cover.root.joined(source, cover.target.list.len());
    let filesystem: String = text::string(cover.filesystem.as_slice());
    Ok(ExpectedMount { target, root, filesystem, readonly, nodev, noexec: false })
}

/// The mount of a file system of its own.
pub fn mounted(target: &str, filesystem: &str, readonly: bool, nodev: bool, noexec: bool) -> (r:
    ExpectedMount)
    ensures
        r.target@ == host_path::components(bytes::encoded(target@)),
        r.root@ == host_path::components(bytes::encoded("/"@)),
        r.filesystem@ == filesystem@,
        r.readonly == readonly,
        r.nodev == nodev,
        r.noexec == noexec,
{
    let target: Vec<u8> = bytes::of(target);
    let root: Vec<u8> = bytes::of("/");
    ExpectedMount {
        target: host_path::parts_of(target.as_slice()),
        root: host_path::parts_of(root.as_slice()),
        filesystem: filesystem.to_owned(),
        readonly,
        nodev,
        noexec,
    }
}

/// The mount that holds a path has the longest target of all that do.
pub proof fn law_binding_uses_the_nearest_mount(
    list: Seq<Mount>,
    source: Seq<Seq<u8>>,
    k: int,
    n: int,
)
    requires
        0 <= k < n <= list.len(),
        list[k].target.is_prefix_of(source),
    ensures
        covering(list, source, n) matches Some(i) && 0 <= i < n && list[i].target.is_prefix_of(
            source,
        ) && list[k].target.len() <= list[i].target.len(),
    decreases n,
{
    if k < n - 1 {
        law_binding_uses_the_nearest_mount(list, source, k, n - 1);
    } else {
        lemma_covering_in_range(list, source, n - 1);
    }
}

proof fn lemma_covering_in_range(list: Seq<Mount>, source: Seq<Seq<u8>>, n: int)
    requires
        0 <= n <= list.len(),
    ensures
        covering(list, source, n) matches Some(i) ==> 0 <= i < n && list[i].target.is_prefix_of(
            source,
        ),
    decreases n,
{
    if n > 0 {
        lemma_covering_in_range(list, source, n - 1);
    }
}

/// A list that holds each expected mount on a line of its own is accepted: from the
/// same place, of the same kind, not spreading, without set-user-id programs, writable
/// or read-only as planned, and without devices or programs where that is asked.
/// `order` says which expected mount each line is.
pub proof fn law_planned_mounts_are_accepted(
    contents: Seq<char>,
    list: Seq<Mount>,
    expected: Seq<ExpectedMount>,
    order: Seq<int>,
)
    requires
        listed(contents) == Some(list),
        list.len() == expected.len(),
        order.len() == expected.len(),
        forall|i: int, j: int|
            0 <= i < j < expected.len() ==> (#[trigger] expected[i]).target@ != (
            #[trigger] expected[j]).target@,
        forall|k: int, l: int|
            0 <= k < l < order.len() ==> #[trigger] order[k] != #[trigger] order[l],
        forall|k: int|
            0 <= k < list.len() ==> {
                let e = expected[#[trigger] order[k]];
                let line = list[k];
                &&& 0 <= order[k] < expected.len()
                &&& line.target == e.target@
                &&& line.root == e.root@
                &&& line.filesystem == e.filesystem@
                &&& !line.propagation
                &&& line.options.contains("nosuid"@)
                &&& e.readonly ==> line.options.contains("ro"@)
                &&& !e.readonly ==> line.options.contains("rw"@)
                &&& e.nodev ==> line.options.contains("nodev"@)
                &&& e.noexec ==> line.options.contains("noexec"@)
            },
    ensures
        mounts_verdict(contents, expected) is None,
{
    assert forall|n: int| 0 <= n <= list.len() implies first_fault(list, expected, n) is None by {
        lemma_planned_has_no_fault(list, expected, order, n);
    }
}

proof fn lemma_planned_has_no_fault(
    list: Seq<Mount>,
    expected: Seq<ExpectedMount>,
    order: Seq<int>,
    n: int,
)
    requires
        0 <= n <= list.len(),
        list.len() == expected.len(),
        order.len() == expected.len(),
        forall|i: int, j: int|
            0 <= i < j < expected.len() ==> (#[trigger] expected[i]).target@ != (
            #[trigger] expected[j]).target@,
        forall|k: int, l: int|
            0 <= k < l < order.len() ==> #[trigger] order[k] != #[trigger] order[l],
        forall|k: int|
            0 <= k < list.len() ==> 0 <= #[trigger] order[k] < expected.len() && list[k].target
                == expected[order[k]].target@ && mount_fits(list[k], expected[order[k]]),
    ensures
        first_fault(list, expected, n) is None,
    decreases n,
{
    if n > 0 {
        lemma_planned_has_no_fault(list, expected, order, n - 1);
        let k = n - 1;
        lemma_first_with_finds(expected, list[k].target, 0, order[k]);
        assert forall|j: int| 0 <= j < k implies (#[trigger] list[j]).target != list[k].target by {
            assert(order[j] != order[k]);
            if order[j] < order[k] {
                assert(expected[order[j]].target@ != expected[order[k]].target@);
            } else {
                assert(expected[order[k]].target@ != expected[order[j]].target@);
            }
        }
    }
}

proof fn lemma_first_with_finds(
    expected: Seq<ExpectedMount>,
    target: Seq<Seq<u8>>,
    from: int,
    i: int,
)
    requires
        0 <= from <= i < expected.len(),
        expected[i].target@ == target,
        forall|j: int| from <= j < i ==> (#[trigger] expected[j]).target@ != target,
    ensures
        first_with(expected, target, from) == Some(i),
    decreases i - from,
{
    if from < i {
        assert(expected[from].target@ != target);
        lemma_first_with_finds(expected, target, from + 1, i);
    }
}

/// A list with a line that no plan has is refused: a target that is not expected, a
/// second line for a target, or a line that is not as the mount with its target was
/// planned. A list of another length is refused too.
pub proof fn law_unplanned_mounts_are_refused(
    contents: Seq<char>,
    list: Seq<Mount>,
    expected: Seq<ExpectedMount>,
    k: int,
)
    requires
        listed(contents) == Some(list),
        0 <= k < list.len(),
        ({
            let line = list[k];
            ||| list.len() != expected.len()
            ||| (exists|j: int| 0 <= j < k && (#[trigger] list[j]).target == line.target)
            ||| line.propagation
            ||| !line.options.contains("nosuid"@)
            ||| forall|i: int|
                0 <= i < expected.len() ==> {
                    let e = #[trigger] expected[i];
                    ||| line.target != e.target@
                    ||| line.root != e.root@
                    ||| line.filesystem != e.filesystem@
                    ||| e.readonly && !line.options.contains("ro"@)
                    ||| !e.readonly && !line.options.contains("rw"@)
                    ||| e.nodev && !line.options.contains("nodev"@)
                    ||| e.noexec && !line.options.contains("noexec"@)
                }
        }),
    ensures
        mounts_verdict(contents, expected) is Some,
{
    if mounts_verdict(contents, expected) is None {
        lemma_no_fault(list, expected, k, list.len() as int);
        lemma_first_with(expected, list[k].target, 0);
        let i = first_with(expected, list[k].target, 0)->0;
        assert(expected[i].target@ == list[k].target);
        assert(mount_fits(list[k], expected[i]));
    }
}

/// A list that cannot be read is refused as invalid, and one with too few or too many
/// lines as not the expected one.
pub proof fn law_refusals_say_what_is_wrong(contents: Seq<char>, expected: Seq<ExpectedMount>)
    ensures
        listed(contents) is None ==> (mounts_verdict(contents, expected) matches Some(
            ExecutionDomainError::Backend { stage, category, errno, .. },
        ) && stage == Stage::Rootfs && category == FailureCategory::InvalidInput && errno is None),
        listed(contents) matches Some(list) && list.len() != expected.len() ==> (mounts_verdict(
            contents,
            expected,
        ) matches Some(ExecutionDomainError::Backend { stage, category, errno, .. }) && stage
            == Stage::Rootfs && category == FailureCategory::IdentityMismatch && errno is None),
{
}

/// A field without a backslash stands for itself; the four characters that the kernel
/// writes in octal are read back, and nothing else is written so.
pub proof fn law_escapes_are_undone(plain: Seq<char>, a: char, b: char, c: char, rest: Seq<char>)
    requires
        !plain.contains('\\'),
    ensures
        unescaped(plain) == Some(plain),
        ({
            let read = unescaped(plain + seq!['\\', a, b, c] + rest);
            let known = if (a, b, c) == ('0', '4', '0') {
                Some(' ')
            } else if (a, b, c) == ('0', '1', '1') {
                Some('\t')
            } else if (a, b, c) == ('0', '1', '2') {
                Some('\n')
            } else if (a, b, c) == ('1', '3', '4') {
                Some('\\')
            } else {
                None
            };
            match (known, unescaped(rest)) {
                (Some(x), Some(more)) => read == Some(plain.push(x) + more),
                _ => read is None,
            }
        }),
    decreases plain.len(),
{
    let whole = plain + seq!['\\', a, b, c] + rest;
    if plain.len() == 0 {
        assert(plain =~= Seq::empty());
        assert(whole[0] == '\\' && whole[1] == a && whole[2] == b && whole[3] == c);
        assert(whole.skip(4) =~= rest);
        if escaped_char(a, b, c) is Some && unescaped(rest) is Some {
            let x = escaped_char(a, b, c)->0;
            assert(seq![x] + unescaped(rest)->0 =~= plain.push(x) + unescaped(rest)->0);
        }
    } else {
        let short = plain.skip(1);
        assert(plain.contains(plain[0]));
        assert forall|k: int| 0 <= k < short.len() implies short[k] != '\\' by {
            assert(short[k] == plain[k + 1]);
            assert(plain.contains(plain[k + 1]));
        }
        law_escapes_are_undone(short, a, b, c, rest);
        assert(seq![plain[0]] + short =~= plain);
        assert(whole[0] == plain[0]);
        assert(whole.skip(1) =~= short + seq!['\\', a, b, c] + rest);
        if escaped_char(a, b, c) is Some && unescaped(rest) is Some {
            let x = escaped_char(a, b, c)->0;
            assert(seq![plain[0]] + (short.push(x) + unescaped(rest)->0) =~= plain.push(x)
                + unescaped(rest)->0);
        }
    }
}

/// A line says where a mount comes from, where it is, of which kind it is, with which
/// options, and whether it spreads: the fourth, fifth and sixth word before the dash,
/// the words that follow them, and the first and third word after it.
pub proof fn law_lines_describe_mounts(
    line: Seq<char>,
    before: Seq<char>,
    after: Seq<char>,
    root: Seq<char>,
    target: Seq<char>,
)
    requires
        text::cut_once(line, " - "@) == Some((before, after)),
        text::words(before).len() >= 6,
        text::words(after).len() == 3,
        unescaped(text::words(before)[3]) == Some(root),
        unescaped(text::words(before)[4]) == Some(target),
    ensures
        line_mount(line) matches Some(m) && {
            let fields = text::words(before);
            &&& m.root == host_path::components(vstd::utf8::encode_utf8(root))
            &&& m.target == host_path::components(vstd::utf8::encode_utf8(target))
            &&& m.filesystem == text::words(after)[0]
            &&& m.options == text::split(fields[5], Separator::Exactly(','))
            &&& m.propagation <==> exists|i: int|
                6 <= i < fields.len() && ("shared:"@.is_prefix_of(#[trigger] fields[i])
                    || "master:"@.is_prefix_of(fields[i]) || "propagate_from:"@.is_prefix_of(
                    fields[i],
                ))
            &&& m.super_readonly <==> text::split(
                text::words(after)[2],
                Separator::Exactly(','),
            ).contains("ro"@)
        },
{
    let fields = text::words(before);
    if exists|i: int| 6 <= i < fields.len() && spreads(#[trigger] fields[i]) {
        let i = choose|i: int| 6 <= i < fields.len() && spreads(#[trigger] fields[i]);
        assert(spreads(fields[i]));
    }
    if exists|i: int|
        6 <= i < fields.len() && ("shared:"@.is_prefix_of(#[trigger] fields[i])
            || "master:"@.is_prefix_of(fields[i]) || "propagate_from:"@.is_prefix_of(fields[i])) {
        let i = choose|i: int|
            6 <= i < fields.len() && ("shared:"@.is_prefix_of(#[trigger] fields[i])
                || "master:"@.is_prefix_of(fields[i]) || "propagate_from:"@.is_prefix_of(
                fields[i],
            ));
        assert(spreads(fields[i]));
    }
}

/// A list has one mount for each line, in order, and one line that is too short or has
/// no dash spoils it.
pub proof fn law_lists_have_a_mount_per_line(
    contents: &str,
    r: Result<Vec<MountLine>, ExecutionDomainError>,
    k: int,
)
    requires
        call_ensures(parse_mountinfo, (contents,), r),
    ensures
        r matches Ok(v) ==> v@.len() == text::lines(contents@).len() && (0 <= k < v@.len()
            ==> line_mount(text::lines(contents@)[k]) == Some(v@[k]@)),
        0 <= k < text::lines(contents@).len() && (match text::cut_once(
            text::lines(contents@)[k],
            " - "@,
        ) {
            None => true,
            Some((before, after)) => text::words(before).len() < 6 || text::words(after).len() != 3,
        }) ==> r is Err,
{
    lemma_line_by_line(text::lines(contents@), k);
    if r is Ok {
        assert(mounts(r->Ok_0@).len() == r->Ok_0@.len());
    }
}

proof fn lemma_line_by_line(lines: Seq<Seq<char>>, k: int)
    ensures
        line_mounts(lines) matches Some(list) ==> list.len() == lines.len() && (0 <= k < list.len()
            ==> line_mount(lines[k]) == Some(list[k])),
    decreases lines.len(),
{
    if lines.len() > 0 {
        lemma_line_by_line(lines.drop_last(), k);
    }
}

/// Where a directory of the host is bound, the mount that is expected shows the same
/// part of the same file system as the directory does on the host: the nearest mount
/// above it, and below its root the rest of the way.
pub proof fn law_bound_directories_show_themselves(
    source: Parts,
    target: Parts,
    readonly: bool,
    nodev: bool,
    host: &[MountLine],
    i: int,
    r: Result<ExpectedMount, ExecutionDomainError>,
)
    requires
        call_ensures(expected_bind, (&source, target, readonly, nodev, host), r),
        0 <= i < host@.len(),
        host@[i].target@.is_prefix_of(source@),
        forall|k: int|
            0 <= k < host@.len() && (#[trigger] host@[k]).target@.is_prefix_of(source@)
                ==> host@[k].target@.len() < host@[i].target@.len() || (host@[k].target@.len()
                == host@[i].target@.len() && k <= i),
    ensures
        (exists|k: int|
            0 <= k < host@.len() && (#[trigger] host@[k]).target@ != source@
                && source@.is_prefix_of(host@[k].target@)) ==> r is Err,
        !(exists|k: int|
            0 <= k < host@.len() && (#[trigger] host@[k]).target@ != source@
                && source@.is_prefix_of(host@[k].target@)) ==> (r matches Ok(e) && e.root@
            == host@[i].root@ + source@.skip(host@[i].target@.len() as int) && e.filesystem@
            == host@[i].filesystem@ && e.target == target && e.readonly == readonly && e.nodev
            == nodev && !e.noexec),
{
    let list = mounts(host@);
    assert(list.len() == host@.len());
    assert forall|k: int| 0 <= k < list.len() implies (#[trigger] list[k]) == host@[k]@ by {}
    lemma_covering_is_nearest(list, source@, list.len() as int, i);
    if exists|k: int|
        0 <= k < host@.len() && (#[trigger] host@[k]).target@ != source@ && source@.is_prefix_of(
            host@[k].target@,
        ) {
        let k = choose|k: int|
            0 <= k < host@.len() && (#[trigger] host@[k]).target@ != source@
                && source@.is_prefix_of(host@[k].target@);
        assert(list[k].target != source@ && source@.is_prefix_of(list[k].target));
    }
    if nested(list, source@) {
        let k = choose|k: int|
            0 <= k < list.len() && (#[trigger] list[k]).target != source@ && source@.is_prefix_of(
                list[k].target,
            );
        assert(host@[k].target@ != source@);
    }
}

proof fn lemma_covering_is_nearest(list: Seq<Mount>, source: Seq<Seq<u8>>, n: int, i: int)
    requires
        0 <= i < n <= list.len(),
        list[i].target.is_prefix_of(source),
        forall|k: int|
            0 <= k < n && (#[trigger] list[k]).target.is_prefix_of(source) ==> list[k].target.len()
                < list[i].target.len() || (list[k].target.len() == list[i].target.len() && k <= i),
    ensures
        covering(list, source, n) == Some(i),
    decreases n,
{
    lemma_covering_in_range(list, source, n - 1);
    if i < n - 1 {
        lemma_covering_is_nearest(list, source, n - 1, i);
    }
}

/// A file system of its own shows its root.
pub proof fn law_own_file_systems_show_their_root(
    target: &str,
    filesystem: &str,
    readonly: bool,
    nodev: bool,
    noexec: bool,
    r: ExpectedMount,
)
    requires
        call_ensures(mounted, (target, filesystem, readonly, nodev, noexec), r),
    ensures
        r.target@ == host_path::components(vstd::utf8::encode_utf8(target@)),
        r.root@ == host_path::components(vstd::utf8::encode_utf8("/"@)),
        r.filesystem@ == filesystem@,
        r.readonly == readonly,
        r.nodev == nodev,
        r.noexec == noexec,
{
}

/// Verifying a list comes to the verdict on it: it is refused for what is wrong with it,
/// and passes where nothing is.
pub proof fn law_lists_are_verified_by_the_verdict(
    contents: &str,
    expected: &[ExpectedMount],
    r: Result<(), ExecutionDomainError>,
)
    requires
        call_ensures(verify_mountinfo, (contents, expected), r),
    ensures
        r is Ok <==> mounts_verdict(contents@, expected@) is None,
        r is Err ==> mounts_verdict(contents@, expected@) == Some(r->Err_0),
{
}

/// A field is read as what the kernel wrote: plain characters as they are, and the four
/// escapes as what they stand for.
pub proof fn law_fields_are_unescaped(
    value: &[char],
    plain: Seq<char>,
    rest: Seq<char>,
    r: Result<Vec<char>, ExecutionDomainError>,
)
    requires
        call_ensures(unescape_mount, (value,), r),
        !plain.contains('\\'),
        !rest.contains('\\'),
    ensures
        value@ == plain ==> (r matches Ok(v) && v@ == plain),
        value@ == plain + seq!['\\', '0', '4', '0'] + rest ==> (r matches Ok(v) && v@
            == plain.push(' ') + rest),
        value@ == plain + seq!['\\', '0', '1', '1'] + rest ==> (r matches Ok(v) && v@
            == plain.push('\t') + rest),
        value@ == plain + seq!['\\', '0', '1', '2'] + rest ==> (r matches Ok(v) && v@
            == plain.push('\n') + rest),
        value@ == plain + seq!['\\', '1', '3', '4'] + rest ==> (r matches Ok(v) && v@
            == plain.push('\\') + rest),
        value@ == plain + seq!['\\', '0', '4', '1'] + rest ==> r is Err,
{
    law_escapes_are_undone(rest, '0', '4', '0', Seq::empty());
    law_escapes_are_undone(plain, '0', '4', '0', rest);
    law_escapes_are_undone(plain, '0', '1', '1', rest);
    law_escapes_are_undone(plain, '0', '1', '2', rest);
    law_escapes_are_undone(plain, '1', '3', '4', rest);
    law_escapes_are_undone(plain, '0', '4', '1', rest);
}

} // verus!
