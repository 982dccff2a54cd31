//! A domain that is prepared only to look at what the host makes of it: in which order
//! it comes about, what it is made of, and what is kept of it where that fails.

use vstd::prelude::*;

use crate::bytes;
use crate::contracts::AttemptIdentity;
use crate::error::ExecutionDomainError;
use crate::host_path;
use crate::ids;
use crate::linux::rootfs;
use crate::linux::rootfs::{MountInput, PlannedInput, WritableInput};

verus! {

/// A name below a directory.
pub open spec fn below(base: Seq<u8>, name: Seq<u8>) -> Seq<u8> {
    base.push(0x2f) + name
}

/// Whether a name is a component of any path that it stands in.
pub open spec fn plain(name: Seq<u8>) -> bool {
    host_path::counts(name) && !name.contains(0x2f)
}

proof fn lemma_split_more(base: Seq<u8>, name: Seq<u8>)
    requires
        !name.contains(0x2f),
    ensures
        bytes::split(below(base, name), 0x2f) == bytes::split(base, 0x2f).push(name),
    decreases name.len(),
{
    let all = below(base, name);
    let before = bytes::split(base, 0x2f);
    if name.len() == 0 {
        assert(all.drop_last() =~= base);
        assert(all.last() == 0x2f);
        assert(name =~= Seq::empty());
    } else {
        let short = name.drop_last();
        assert(short.contains(0x2f) ==> name.contains(0x2f)) by {
            if short.contains(0x2f) {
                let i = choose|i: int| 0 <= i < short.len() && short[i] == 0x2f;
                assert(name[i] == 0x2f);
            }
        }
        lemma_split_more(base, short);
        assert(all.drop_last() =~= below(base, short));
        assert(all.last() == name.last());
        assert(name[name.len() - 1] != 0x2f);
        assert(before.push(short).drop_last() =~= before);
        assert(short.push(name.last()) =~= name);
    }
}

/// A plain name below a directory is the one component after those of the directory.
pub proof fn law_names_follow_their_directory(base: Seq<u8>, name: Seq<u8>)
    requires
        host_path::absolute(base),
        plain(name),
    ensures
        host_path::absolute(below(base, name)),
        host_path::components(below(base, name)) == host_path::components(base).push(name),
{
    let all = below(base, name);
    let keep = |p: Seq<u8>| host_path::counts(p);
    lemma_split_more(base, name);
    bytes::lemma_split_nonempty(base, 0x2f);
    assert(all[0] == base[0]);
    let parts = bytes::split(base, 0x2f);
    assert(parts.push(name).skip(1) =~= parts.skip(1).push(name));
    parts.skip(1).lemma_filter_push(name, keep);
    assert(host_path::components(all) =~= host_path::components(base).push(name));
}

fn join(base: &[u8], name: &[u8]) -> (r: Vec<u8>)
    ensures
        r@ == below(base@, name@),
{
    let mut out: Vec<u8> = vstd::slice::slice_to_vec(base);
    out.push(0x2f);
    for i in 0..name.len()
        invariant
            out@ == base@.push(0x2f) + name@.take(i as int),
    {
        out.push(name[i]);
        assert(out@ =~= base@.push(0x2f) + name@.take(i + 1));
    }
    assert(name@.take(name@.len() as int) =~= name@);
    assert(out@ =~= below(base@, name@));
    out
}

/// The directories that the workflow can write, in the directory of an attempt.
pub open spec fn own_directories(attempt: Seq<u8>) -> Seq<(Seq<u8>, Seq<char>)> {
    Seq::new(
        rootfs::writable_inputs().len(),
        |i: int|
            (
                below(attempt, bytes::encoded(rootfs::writable_inputs()[i].0)),
                rootfs::writable_inputs()[i].1,
            ),
    )
}

/// Lists the directories that the workflow can write, in the directory of an attempt.
pub fn writable_directories(attempt: &[u8]) -> (r: Vec<PlannedInput>)
    ensures
        rootfs::planned(r@) == own_directories(attempt@),
{
    let list: Vec<WritableInput> = rootfs::writable_list();
    proof {
        assert(rootfs::writable(list@).len() == list@.len());
    }
    let mut out: Vec<PlannedInput> = Vec::new();
    for i in 0..list.len()
        invariant
            rootfs::writable(list@) == rootfs::writable_inputs(),
            list@.len() == rootfs::writable_inputs().len(),
            rootfs::planned(out@) == own_directories(attempt@).take(i as int),
    {
        assert(rootfs::writable(list@)[i as int] == (list@[i as int].name@, list@[i as int].target@));
        let ghost held = out@;
        let source: Vec<u8> = join(attempt, list[i].name.as_bytes());
        let target: String = list[i].target.to_owned();
        out.push(PlannedInput { source, target });
        assert(rootfs::planned(out@) =~= rootfs::planned(held).push((source@, target@)));
        assert(rootfs::planned(out@) =~= own_directories(attempt@).take(i + 1));
    }
    assert(own_directories(attempt@).take(list@.len() as int) =~= own_directories(attempt@));
    out
}

/// The group of a domain, below the group that was handed over.
pub open spec fn group_path(root: Seq<u8>, attempt: AttemptIdentity) -> Seq<u8> {
    below(
        below(root, bytes::encoded("attempt-"@) + bytes::encoded(ids::simple_text(attempt@))),
        bytes::encoded("domain"@),
    )
}

/// The group of a domain, below the group that was handed over.
pub fn group_directory(root: &[u8], attempt: &AttemptIdentity) -> (r: PlannedInput)
    ensures
        r.source@ == group_path(root@, *attempt),
        r.target@ == "/sys/fs/cgroup"@,
{
    let component: String = attempt.component();
    let mut name: Vec<u8> = bytes::of("attempt-");
    let own: Vec<u8> = bytes::of(component.as_str());
    let ghost prefix = name@;
    for i in 0..own.len()
        invariant
            name@ == prefix + own@.take(i as int),
    {
        name.push(own[i]);
        assert(name@ =~= prefix + own@.take(i + 1));
    }
    assert(own@.take(own@.len() as int) =~= own@);
    let outer: Vec<u8> = join(root, name.as_slice());
    let domain: Vec<u8> = bytes::of("domain");
    let source: Vec<u8> = join(outer.as_slice(), domain.as_slice());
    PlannedInput { source, target: "/sys/fs/cgroup".to_owned() }
}

proof fn lemma_writable_names_are_plain(i: int)
    requires
        0 <= i < rootfs::writable_inputs().len(),
    ensures
        plain(bytes::encoded(rootfs::writable_inputs()[i].0)),
        rootfs::writable_at(rootfs::writable_inputs()[i].1, 0) == Some(
            rootfs::writable_inputs()[i].0,
        ),
{
    reveal_strlit("work");
    reveal_strlit("tmp");
    reveal_strlit("home");
    reveal_strlit("run");
    reveal_strlit("docker");
    reveal_strlit("docker-data");
    reveal_strlit("docker-exec");
    reveal_strlit("/work");
    reveal_strlit("/tmp");
    reveal_strlit("/home/chimera");
    reveal_strlit("/run/chimera");
    reveal_strlit("/home/chimera/.docker");
    reveal_strlit("/var/lib/chimera/docker");
    reveal_strlit("/run/chimera/docker-exec");
    reveal_with_fuel(rootfs::writable_at, 8);
    let list = rootfs::writable_inputs();
    assert(list[0].1.len() == 5 && list[1].1.len() == 4 && list[2].1.len() == 13 && list[3].1.len()
        == 12 && list[4].1.len() == 21 && list[5].1.len() == 23 && list[6].1.len() == 24);
    let s = rootfs::writable_inputs()[i].0;
    assert(i == 0 || i == 1 || i == 2 || i == 3 || i == 4 || i == 5 || i == 6);
    assert(vstd::utf8::is_ascii_chars(s));
    vstd::utf8::is_ascii_chars_encode_utf8(s);
    assert(s.len() > 0);
    assert forall|k: int| 0 <= k < s.len() implies s[k] != '/' by {}
    let e = bytes::encoded(s);
    assert(e.len() == s.len());
    assert(e.len() > 1);
    assert(e != host_path::dot());
    assert forall|k: int| 0 <= k < e.len() implies e[k] != 0x2f by {
        assert(e[k] == s[k] as u8);
    }
}

proof fn lemma_hex_digits(n: nat, count: nat)
    ensures
        forall|i: int|
            0 <= i < ids::hex(n, count).len() ==> is_hex(#[trigger] ids::hex(n, count)[i]),
        (forall|i: int| 0 <= i < ids::hex(n, count).len() ==> #[trigger] ids::hex(n, count)[i] == '0')
            && n < ids::sixteens(count) ==> n == 0,
    decreases count,
{
    if count > 0 {
        let short = (count - 1) as nat;
        let before = ids::hex(n / 16, short);
        let digit = ids::hex_digit(n % 16);
        let all = ids::hex(n, count);
        lemma_hex_digits(n / 16, short);
        assert(all == before.push(digit));
        assert(is_hex(digit));
        assert forall|i: int| 0 <= i < all.len() implies is_hex(#[trigger] all[i]) by {
            if i < before.len() {
                assert(all[i] == before[i]);
            }
        }
        if (forall|i: int| 0 <= i < all.len() ==> #[trigger] all[i] == '0') && n < ids::sixteens(
            count,
        ) {
            assert forall|i: int| 0 <= i < before.len() implies #[trigger] before[i] == '0' by {
                assert(all[i] == before[i]);
            }
            assert(all[all.len() - 1] == digit);
            assert(n % 16 == 0);
            assert(n / 16 < ids::sixteens(short));
        }
    }
}

/// Whether a character is a lower-case hexadecimal digit.
pub open spec fn is_hex(c: char) -> bool {
    '0' <= c <= '9' || 'a' <= c <= 'f'
}

proof fn lemma_attempts_are_named(id: u128)
    requires
        id != 0,
    ensures
        rootfs::attempt_name(bytes::encoded(ids::simple_text(id))),
        plain(bytes::encoded(ids::simple_text(id))),
{
    let s = ids::simple_text(id);
    let e = bytes::encoded(s);
    reveal_with_fuel(ids::sixteens, 33);
    ids::lemma_hex_len(id as nat, 32);
    lemma_hex_digits(id as nat, 32);
    assert(vstd::utf8::is_ascii_chars(s)) by {
        assert forall|i: int| 0 <= i < s.len() implies '\0' <= #[trigger] s[i] <= '\u{7f}' by {
            assert(is_hex(s[i]));
        }
    }
    vstd::utf8::is_ascii_chars_encode_utf8(s);
    let k = choose|k: int| 0 <= k < s.len() && s[k] != '0';
    assert(is_hex(s[k]));
    assert(e[k] == s[k] as u8);
    assert(e[k] != 0x30);
    assert forall|i: int| 0 <= i < e.len() implies 0x30 <= #[trigger] e[i] <= 0x39 || 0x61 <= e[i]
        <= 0x66 by {
        assert(is_hex(s[i]));
        assert(e[i] == s[i] as u8);
    }
    assert(e != host_path::dot());
}

/// What a preparation puts together fits the attempt that it is made for: it is put
/// together in the attempt's own directory, and everything that can be written lies
/// there too, or is the attempt's own group.
pub proof fn law_prepared_domains_fit_their_attempt(
    active: Seq<u8>,
    groups: Seq<u8>,
    attempt: AttemptIdentity,
    input: MountInput,
)
    requires
        attempt@ != 0,
        host_path::absolute(active),
        host_path::file_name(host_path::components(active)) == Some(bytes::encoded("active"@)),
        host_path::absolute(groups),
        rootfs::text_components("/sys/fs/cgroup"@).is_prefix_of(host_path::components(groups)),
        !input.readonly,
    ensures
        ({
            let component = bytes::encoded(ids::simple_text(attempt@));
            let own = below(active, component);
            let place = host_path::components(own);
            &&& rootfs::staged(
                host_path::components(below(own, bytes::encoded("rootfs"@))),
                place,
                host_path::components(active),
                component,
            )
            &&& own_directories(own).contains((input.source@, input.target@)) ==> rootfs::placed(
                input,
                place,
                host_path::components(active),
                component,
            )
            &&& (input.source@, input.target@) == (group_path(groups, attempt), "/sys/fs/cgroup"@)
                ==> rootfs::placed(input, place, host_path::components(active), component)
        }),
{
    let component = bytes::encoded(ids::simple_text(attempt@));
    let own = below(active, component);
    let above = host_path::components(active);
    lemma_attempts_are_named(attempt@);
    law_names_follow_their_directory(active, component);
    let place = host_path::components(own);
    assert(place.drop_last() =~= above);
    assert(component != host_path::root_part() && component != host_path::dot_dot()) by {
        assert(component.len() == 32);
    }
    lemma_fixed_names();
    let rootfs_name = bytes::encoded("rootfs"@);
    law_names_follow_their_directory(own, rootfs_name);
    let staging = host_path::components(below(own, rootfs_name));
    assert(staging.drop_last() =~= place);
    if own_directories(own).contains((input.source@, input.target@)) {
        let i = choose|i: int|
            0 <= i < own_directories(own).len() && own_directories(own)[i] == (
                input.source@,
                input.target@,
            );
        lemma_writable_names_are_plain(i);
        let name = bytes::encoded(rootfs::writable_inputs()[i].0);
        law_names_follow_their_directory(own, name);
        lemma_writable_is_no_group(i);
    }
    if (input.source@, input.target@) == (group_path(groups, attempt), "/sys/fs/cgroup"@) {
        let group = bytes::encoded("attempt-"@) + component;
        let domain = bytes::encoded("domain"@);
        lemma_group_names_are_plain(component);
        let base = host_path::components(groups);
        law_names_follow_their_directory(groups, group);
        let outer = below(groups, group);
        law_names_follow_their_directory(outer, domain);
        let source = host_path::components(input.source@);
        assert(source == base.push(group).push(domain));
        assert(source.drop_last() =~= base.push(group));
        let prefix = rootfs::text_components("/sys/fs/cgroup"@);
        assert(prefix =~= base.subrange(0, prefix.len() as int));
        assert(prefix =~= source.subrange(0, prefix.len() as int));
    }
}

proof fn lemma_writable_is_no_group(i: int)
    requires
        0 <= i < rootfs::writable_inputs().len(),
    ensures
        rootfs::writable_inputs()[i].1 != "/sys/fs/cgroup"@,
{
    reveal_strlit("/work");
    reveal_strlit("/tmp");
    reveal_strlit("/home/chimera");
    reveal_strlit("/run/chimera");
    reveal_strlit("/home/chimera/.docker");
    reveal_strlit("/var/lib/chimera/docker");
    reveal_strlit("/run/chimera/docker-exec");
    reveal_strlit("/sys/fs/cgroup");
    let t = rootfs::writable_inputs()[i].1;
    assert(i == 0 || i == 1 || i == 2 || i == 3 || i == 4 || i == 5 || i == 6);
    assert(t[1] != 's');
}

proof fn lemma_encoded_name(s: Seq<char>)
    requires
        vstd::utf8::is_ascii_chars(s),
        s.len() > 2,
        !s.contains('/'),
    ensures
        plain(bytes::encoded(s)),
        bytes::encoded(s).len() == s.len(),
        bytes::encoded(s) != host_path::dot_dot(),
        bytes::encoded(s) != host_path::root_part(),
{
    vstd::utf8::is_ascii_chars_encode_utf8(s);
    let e = bytes::encoded(s);
    assert forall|k: int| 0 <= k < e.len() implies e[k] != 0x2f by {
        assert(e[k] == s[k] as u8);
        assert(s[k] != '/');
    }
}

proof fn lemma_fixed_names()
    ensures
        plain(bytes::encoded("rootfs"@)),
        plain(bytes::encoded("domain"@)),
        bytes::encoded("rootfs"@) != host_path::dot_dot(),
        bytes::encoded("rootfs"@) != host_path::root_part(),
        bytes::encoded("domain"@) != host_path::dot_dot(),
        bytes::encoded("domain"@) != host_path::root_part(),
{
    reveal_strlit("rootfs");
    reveal_strlit("domain");
    lemma_encoded_name("rootfs"@);
    lemma_encoded_name("domain"@);
}

proof fn lemma_group_names_are_plain(component: Seq<u8>)
    requires
        plain(component),
    ensures
        plain(bytes::encoded("attempt-"@) + component),
        bytes::encoded("attempt-"@) + component != host_path::dot_dot(),
        bytes::encoded("attempt-"@) + component != host_path::root_part(),
{
    reveal_strlit("attempt-");
    lemma_encoded_name("attempt-"@);
    let prefix = bytes::encoded("attempt-"@);
    let all = prefix + component;
    assert forall|k: int| 0 <= k < all.len() implies all[k] != 0x2f by {
        if k < prefix.len() {
            assert(all[k] == prefix[k]);
        } else {
            assert(all[k] == component[k - prefix.len()]);
        }
    }
}

/// A step of a preparation.
#[derive(Debug, Clone, Copy, PartialEq, Eq, Structural)]
pub enum PrepareStep {
    /// Look at the host.
    CheckHost,
    /// The service must have no groups besides its own.
    CheckGroups,
    VerifyWorker,
    /// Plan what the domain reads.
    PlanInputs,
    ValidateLimits,
    /// From here on nobody else prepares a domain in the same root.
    Lock,
    OpenRoot,
    /// Open the directory of all attempts, or make it.
    OpenActive,
    /// It must be empty.
    CheckActive,
    OpenGroups,
    PrepareSupervisor,
    CreateDirectories,
    InstallProbe,
    CreateGroup,
    CaptureGroup,
    Build,
    HoldLauncher,
    OpenGroup,
}

impl PrepareStep {
    /// The position of the step.
    pub open spec fn rank(self) -> int {
        match self {
            PrepareStep::CheckHost => 0,
            PrepareStep::CheckGroups => 1,
            PrepareStep::VerifyWorker => 2,
            PrepareStep::PlanInputs => 3,
            PrepareStep::ValidateLimits => 4,
            PrepareStep::Lock => 5,
            PrepareStep::OpenRoot => 6,
            PrepareStep::OpenActive => 7,
            PrepareStep::CheckActive => 8,
            PrepareStep::OpenGroups => 9,
            PrepareStep::PrepareSupervisor => 10,
            PrepareStep::CreateDirectories => 11,
            PrepareStep::InstallProbe => 12,
            PrepareStep::CreateGroup => 13,
            PrepareStep::CaptureGroup => 14,
            PrepareStep::Build => 15,
            PrepareStep::HoldLauncher => 16,
            PrepareStep::OpenGroup => 17,
        }
    }

    /// The step after this one.
    pub fn next(self) -> (r: Option<PrepareStep>)
        ensures
            match r {
                Some(n) => n.rank() == self.rank() + 1,
                None => self == PrepareStep::OpenGroup,
            },
    {
        match self {
            PrepareStep::CheckHost => Some(PrepareStep::CheckGroups),
            PrepareStep::CheckGroups => Some(PrepareStep::VerifyWorker),
            PrepareStep::VerifyWorker => Some(PrepareStep::PlanInputs),
            PrepareStep::PlanInputs => Some(PrepareStep::ValidateLimits),
            PrepareStep::ValidateLimits => Some(PrepareStep::Lock),
            PrepareStep::Lock => Some(PrepareStep::OpenRoot),
            PrepareStep::OpenRoot => Some(PrepareStep::OpenActive),
            PrepareStep::OpenActive => Some(PrepareStep::CheckActive),
            PrepareStep::CheckActive => Some(PrepareStep::OpenGroups),
            PrepareStep::OpenGroups => Some(PrepareStep::PrepareSupervisor),
            PrepareStep::PrepareSupervisor => Some(PrepareStep::CreateDirectories),
            PrepareStep::CreateDirectories => Some(PrepareStep::InstallProbe),
            PrepareStep::InstallProbe => Some(PrepareStep::CreateGroup),
            PrepareStep::CreateGroup => Some(PrepareStep::CaptureGroup),
            PrepareStep::CaptureGroup => Some(PrepareStep::Build),
            PrepareStep::Build => Some(PrepareStep::HoldLauncher),
            PrepareStep::HoldLauncher => Some(PrepareStep::OpenGroup),
            PrepareStep::OpenGroup => None,
        }
    }
}

/// What is left of a domain that could not be prepared.
#[derive(Debug, Clone, Copy, PartialEq, Eq, Structural)]
pub enum LeftBehind {
    Nothing,
    Group,
    /// The whole domain, or what building it left.
    Record,
}

/// What follows a step of a preparation.
pub enum PrepareResult {
    Continue(PrepareStep),
    Ready,
    /// The preparation failed. What it made is retried once, and kept with the lock
    /// for as long as the process lives.
    Failed { error: ExecutionDomainError, keep_lock: bool, left: LeftBehind },
}

/// What is left where a step fails, given what building the domain left.
pub open spec fn left_behind(step: PrepareStep, built: LeftBehind) -> LeftBehind {
    match step {
        PrepareStep::CaptureGroup => LeftBehind::Group,
        PrepareStep::Build => built,
        PrepareStep::HoldLauncher | PrepareStep::OpenGroup => LeftBehind::Record,
        _ => LeftBehind::Nothing,
    }
}

/// Carries a preparation on after one of its steps.
pub fn prepared(
    step: PrepareStep,
    outcome: Result<(), ExecutionDomainError>,
    built: LeftBehind,
) -> (r: PrepareResult)
    ensures
        match outcome {
            Ok(_) => match r {
                PrepareResult::Continue(next) => next.rank() == step.rank() + 1,
                PrepareResult::Ready => step == PrepareStep::OpenGroup,
                PrepareResult::Failed { .. } => false,
            },
            Err(e) => r == (PrepareResult::Failed {
                error: e,
                keep_lock: step.rank() > PrepareStep::Lock.rank(),
                left: left_behind(step, built),
            }),
        },
{
    match outcome {
        Ok(_) => match step.next() {
            Some(next) => PrepareResult::Continue(next),
            None => PrepareResult::Ready,
        },
        Err(error) => {
            let keep_lock: bool = match step {
                PrepareStep::CheckHost
                | PrepareStep::CheckGroups
                | PrepareStep::VerifyWorker
                | PrepareStep::PlanInputs
                | PrepareStep::ValidateLimits
                | PrepareStep::Lock => false,
                _ => true,
            };
            let left: LeftBehind = match step {
                PrepareStep::CaptureGroup => LeftBehind::Group,
                PrepareStep::Build => built,
                PrepareStep::HoldLauncher | PrepareStep::OpenGroup => LeftBehind::Record,
                _ => LeftBehind::Nothing,
            };
            PrepareResult::Failed { error, keep_lock, left }
        },
    }
}

/// Once a domain has been built, no failure of its preparation lets go of it, and none
/// lets go of the lock.
pub proof fn law_built_domains_are_not_lost(step: PrepareStep, built: LeftBehind)
    requires
        step.rank() > PrepareStep::Build.rank(),
    ensures
        left_behind(step, built) == LeftBehind::Record,
        step.rank() > PrepareStep::Lock.rank(),
{
}

/// Each writable directory of an attempt lies right below it, under a name of its own, and
/// is shown where a domain expects it.
pub proof fn law_writable_directories_lie_below_the_attempt(
    attempt: &[u8],
    r: Vec<PlannedInput>,
    i: int,
)
    requires
        call_ensures(writable_directories, (attempt,), r),
        0 <= i < r@.len(),
    ensures
        r@.len() == 7,
        r@[0].source@ == attempt@ + seq![47u8] + vstd::utf8::encode_utf8("work"@)
            && r@[0].target@ == "/work"@,
        r@[1].source@ == attempt@ + seq![47u8] + vstd::utf8::encode_utf8("tmp"@) && r@[1].target@
            == "/tmp"@,
        r@[2].source@ == attempt@ + seq![47u8] + vstd::utf8::encode_utf8("home"@)
            && r@[2].target@ == "/home/chimera"@,
        r@[3].source@ == attempt@ + seq![47u8] + vstd::utf8::encode_utf8("run"@) && r@[3].target@
            == "/run/chimera"@,
        r@[4].source@ == attempt@ + seq![47u8] + vstd::utf8::encode_utf8("docker"@)
            && r@[4].target@ == "/home/chimera/.docker"@,
        r@[5].source@ == attempt@ + seq![47u8] + vstd::utf8::encode_utf8("docker-data"@)
            && r@[5].target@ == "/var/lib/chimera/docker"@,
        r@[6].source@ == attempt@ + seq![47u8] + vstd::utf8::encode_utf8("docker-exec"@)
            && r@[6].target@ == "/run/chimera/docker-exec"@,
{
    let all = rootfs::planned(r@);
    assert(all.len() == 7);
    assert(attempt@.push(47u8) =~= attempt@ + seq![47u8]);
    assert forall|k: int| 0 <= k < 7 implies all[k] == (
        (#[trigger] r@[k]).source@,
        r@[k].target@,
    ) by {}
}

/// An attempt's group lies below the root of the groups, in a directory named after the
/// attempt, and is shown as the whole hierarchy.
pub proof fn law_groups_are_named_after_the_attempt(
    root: &[u8],
    attempt: AttemptIdentity,
    r: PlannedInput,
)
    requires
        call_ensures(group_directory, (root, &attempt), r),
    ensures
        r.target@ == "/sys/fs/cgroup"@,
        r.source@ == root@ + seq![47u8] + vstd::utf8::encode_utf8("attempt-"@)
            + vstd::utf8::encode_utf8(ids::simple_text(attempt@)) + seq![47u8]
            + vstd::utf8::encode_utf8("domain"@),
{
    let name = bytes::encoded("attempt-"@) + bytes::encoded(ids::simple_text(attempt@));
    assert(r.source@ =~= root@ + seq![47u8] + vstd::utf8::encode_utf8("attempt-"@)
        + vstd::utf8::encode_utf8(ids::simple_text(attempt@)) + seq![47u8]
        + vstd::utf8::encode_utf8("domain"@));
}

/// A domain is prepared in one order: the host is checked before anything is locked, and
/// nothing is made before the lock is held.
pub proof fn law_domains_are_prepared_in_order(
    step: PrepareStep,
    built: LeftBehind,
    r: Option<PrepareStep>,
    done: PrepareResult,
)
    requires
        call_ensures(PrepareStep::next, (step,), r),
        call_ensures(prepared, (step, Ok(()), built), done),
    ensures
        step is CheckHost ==> r == Some(PrepareStep::CheckGroups),
        step is CheckGroups ==> r == Some(PrepareStep::VerifyWorker),
        step is VerifyWorker ==> r == Some(PrepareStep::PlanInputs),
        step is PlanInputs ==> r == Some(PrepareStep::ValidateLimits),
        step is ValidateLimits ==> r == Some(PrepareStep::Lock),
        step is Lock ==> r == Some(PrepareStep::OpenRoot),
        step is OpenRoot ==> r == Some(PrepareStep::OpenActive),
        step is OpenActive ==> r == Some(PrepareStep::CheckActive),
        step is CheckActive ==> r == Some(PrepareStep::OpenGroups),
        step is OpenGroups ==> r == Some(PrepareStep::PrepareSupervisor),
        step is PrepareSupervisor ==> r == Some(PrepareStep::CreateDirectories),
        step is CreateDirectories ==> r == Some(PrepareStep::InstallProbe),
        step is InstallProbe ==> r == Some(PrepareStep::CreateGroup),
        step is CreateGroup ==> r == Some(PrepareStep::CaptureGroup),
        step is CaptureGroup ==> r == Some(PrepareStep::Build),
        step is Build ==> r == Some(PrepareStep::HoldLauncher),
        step is HoldLauncher ==> r == Some(PrepareStep::OpenGroup),
        step is OpenGroup ==> r is None && done is Ready,
        r matches Some(next) ==> done == PrepareResult::Continue(next),
{
}

/// A preparation that fails tells why, keeps its lock once anything may have been made
/// under it, and says what it left: the group once it was created, and the record once
/// the domain was built.
pub proof fn law_failed_preparations_say_what_is_left(
    step: PrepareStep,
    e: ExecutionDomainError,
    built: LeftBehind,
    r: PrepareResult,
)
    requires
        call_ensures(prepared, (step, Err(e), built), r),
    ensures
        r matches PrepareResult::Failed { error, keep_lock, left } && error == e && (keep_lock
            <==> !(step is CheckHost || step is CheckGroups || step is VerifyWorker || step
            is PlanInputs || step is ValidateLimits || step is Lock)) && left == (match step {
            PrepareStep::CaptureGroup => LeftBehind::Group,
            PrepareStep::Build => built,
            PrepareStep::HoldLauncher => LeftBehind::Record,
            PrepareStep::OpenGroup => LeftBehind::Record,
            _ => LeftBehind::Nothing,
        }),
{
}

} // verus!
