//! The root file system of a domain: what of the host may be part of it, and what
//! it is made of besides.

use vstd::prelude::*;

use crate::bytes;
use crate::contracts::{DomainPath, FailureCategory};
use crate::error::ExecutionDomainError;
use crate::filesystem;
use crate::host_path;
use crate::host_path::Parts;
use crate::linux::mounts;
use crate::linux::mounts::{ExpectedMount, MountLine};
use crate::text;

verus! {

/// A directory or file of the host that becomes part of the domain.
pub struct MountInput {
    pub source: Vec<u8>,
    pub target: DomainPath,
    pub readonly: bool,
    pub expected_device: u64,
    pub expected_inode: u64,
    /// What the contents of a read-only input looked like when it was accepted.
    pub immutable_fingerprint: Option<[u8; 32]>,
}

impl MountInput {
    /// Whether two inputs are the same.
    pub open spec fn same_as(self, other: MountInput) -> bool {
        &&& self.source@ == other.source@
        &&& self.target@ == other.target@
        &&& self.readonly == other.readonly
        &&& self.expected_device == other.expected_device
        &&& self.expected_inode == other.expected_inode
        &&& self.immutable_fingerprint == other.immutable_fingerprint
    }
}

impl Clone for MountInput {
    fn clone(&self) -> (r: MountInput)
        ensures
            r.same_as(*self),
    {
        MountInput {
            source: vstd::slice::slice_to_vec(self.source.as_slice()),
            target: self.target.clone(),
            readonly: self.readonly,
            expected_device: self.expected_device,
            expected_inode: self.expected_inode,
            immutable_fingerprint: self.immutable_fingerprint,
        }
    }
}

impl MountInput {
    /// An input with the given identity.
    pub fn capture(
        source: Vec<u8>,
        target: &str,
        readonly: bool,
        expected_device: u64,
        expected_inode: u64,
    ) -> (r: Result<MountInput, ExecutionDomainError>)
        ensures
            match r {
                Ok(i) => crate::contracts::absolute_valid(target@) && i.source == source
                    && i.target@ == target@ && i.readonly == readonly && i.expected_device
                    == expected_device && i.expected_inode == expected_inode
                    && i.immutable_fingerprint is None,
                Err(e) => !crate::contracts::absolute_valid(target@) && e
                    == ExecutionDomainError::InvalidDomainPath,
            },
    {
        match DomainPath::parse(target) {
            Ok(target) => Ok(
                MountInput {
                    source,
                    target,
                    readonly,
                    expected_device,
                    expected_inode,
                    immutable_fingerprint: None,
                },
            ),
            Err(e) => Err(e),
        }
    }
}

/// The contents of a domain.
pub struct RootfsPlan {
    pub inputs: Vec<MountInput>,
    pub staging_root: Vec<u8>,
}

impl Clone for RootfsPlan {
    fn clone(&self) -> (r: RootfsPlan)
        ensures
            r.staging_root@ == self.staging_root@,
            r.inputs@.len() == self.inputs@.len(),
            forall|i: int|
                0 <= i < r.inputs@.len() ==> (#[trigger] r.inputs@[i]).same_as(self.inputs@[i]),
    {
        let mut inputs: Vec<MountInput> = Vec::new();
        for i in 0..self.inputs.len()
            invariant
                inputs@.len() == i,
                forall|k: int| 0 <= k < i ==> (#[trigger] inputs@[k]).same_as(self.inputs@[k]),
        {
            inputs.push(self.inputs[i].clone());
        }
        RootfsPlan {
            inputs,
            staging_root: vstd::slice::slice_to_vec(self.staging_root.as_slice()),
        }
    }
}

/// The contents of a list of texts.
pub open spec fn names(v: Seq<&'static str>) -> Seq<Seq<char>> {
    Seq::new(v.len(), |i: int| v[i]@)
}

/// The parts of the host's own system that a domain may see.
pub open spec fn system_inputs() -> Seq<Seq<char>> {
    seq![
        "/usr/bin"@,
        "/usr/sbin"@,
        "/usr/lib"@,
        "/usr/lib64"@,
        "/usr/share/zoneinfo"@,
        "/usr/share/locale"@,
        "/etc/ssl/certs/ca-certificates.crt"@,
    ]
}

/// Lists the parts of the host's own system that a domain may see.
pub fn system_list() -> (r: Vec<&'static str>)
    ensures
        names(r@) == system_inputs(),
{
    let mut list: Vec<&'static str> = Vec::new();
    list.push("/usr/bin");
    list.push("/usr/sbin");
    list.push("/usr/lib");
    list.push("/usr/lib64");
    list.push("/usr/share/zoneinfo");
    list.push("/usr/share/locale");
    list.push("/etc/ssl/certs/ca-certificates.crt");
    proof {
        assert(names(list@) =~= system_inputs());
    }
    list
}

/// The parts of the host that are too much for a domain.
pub open spec fn broad_sources() -> Seq<Seq<char>> {
    seq![
        "/"@,
        "/usr"@,
        "/usr/local"@,
        "/home"@,
        "/root"@,
        "/run"@,
        "/var"@,
        "/var/run"@,
        "/etc"@,
        "/dev"@,
        "/sys"@,
        "/proc"@,
    ]
}

fn broad_list() -> (r: Vec<&'static str>)
    ensures
        names(r@) == broad_sources(),
{
    let mut list: Vec<&'static str> = Vec::new();
    list.push("/");
    list.push("/usr");
    list.push("/usr/local");
    list.push("/home");
    list.push("/root");
    list.push("/run");
    list.push("/var");
    list.push("/var/run");
    list.push("/etc");
    list.push("/dev");
    list.push("/sys");
    list.push("/proc");
    proof {
        assert(names(list@) =~= broad_sources());
    }
    list
}

/// The directories that the workflow can write, by their place in the domain, each
/// with its name in the attempt's own directory.
pub open spec fn writable_inputs() -> Seq<(Seq<char>, Seq<char>)> {
    seq![
        ("work"@, "/work"@),
        ("tmp"@, "/tmp"@),
        ("home"@, "/home/chimera"@),
        ("run"@, "/run/chimera"@),
        ("docker"@, "/home/chimera/.docker"@),
        ("docker-data"@, "/var/lib/chimera/docker"@),
        ("docker-exec"@, "/run/chimera/docker-exec"@),
    ]
}

/// A directory that the workflow can write.
pub struct WritableInput {
    pub name: &'static str,
    pub target: &'static str,
}

/// The names and places of a list.
pub open spec fn writable(v: Seq<WritableInput>) -> Seq<(Seq<char>, Seq<char>)> {
    Seq::new(v.len(), |i: int| (v[i].name@, v[i].target@))
}

/// Lists the directories that the workflow can write.
pub fn writable_list() -> (r: Vec<WritableInput>)
    ensures
        writable(r@) == writable_inputs(),
{
    let mut list: Vec<WritableInput> = Vec::new();
    list.push(WritableInput { name: "work", target: "/work" });
    list.push(WritableInput { name: "tmp", target: "/tmp" });
    list.push(WritableInput { name: "home", target: "/home/chimera" });
    list.push(WritableInput { name: "run", target: "/run/chimera" });
    list.push(WritableInput { name: "docker", target: "/home/chimera/.docker" });
    list.push(WritableInput { name: "docker-data", target: "/var/lib/chimera/docker" });
    list.push(WritableInput { name: "docker-exec", target: "/run/chimera/docker-exec" });
    proof {
        assert(writable(list@) =~= writable_inputs());
    }
    list
}

/// The first writable directory, from the given one on, at a place in the domain.
pub open spec fn writable_at(target: Seq<char>, from: int) -> Option<Seq<char>>
    decreases writable_inputs().len() - from,
{
    if from < 0 || from >= writable_inputs().len() {
        None
    } else if writable_inputs()[from].1 == target {
        Some(writable_inputs()[from].0)
    } else {
        writable_at(target, from + 1)
    }
}

fn writable_name(target: &str) -> (r: Option<&'static str>)
    ensures
        match r {
            Some(name) => writable_at(target@, 0) == Some(name@),
            None => writable_at(target@, 0) is None,
        },
{
    let list: Vec<WritableInput> = writable_list();
    proof {
        assert(writable(list@).len() == list@.len());
    }
    for i in 0..list.len()
        invariant
            writable(list@) == writable_inputs(),
            list@.len() == writable_inputs().len(),
            writable_at(target@, 0) == writable_at(target@, i as int),
    {
        assert(writable(list@)[i as int] == (list@[i as int].name@, list@[i as int].target@));
        if text::same_str(list[i].target, target) {
            return Some(list[i].name);
        }
    }
    None
}

fn is_listed(list: &Vec<&'static str>, s: &str) -> (r: bool)
    ensures
        r == names(list@).contains(s@),
{
    for i in 0..list.len()
        invariant
            forall|k: int| 0 <= k < i ==> names(list@)[k] != s@,
    {
        assert(names(list@)[i as int] == list@[i as int]@);
        if text::same_str(list[i], s) {
            return true;
        }
    }
    false
}

/// The components of a path that is given as text.
pub open spec fn text_components(s: Seq<char>) -> Seq<Seq<u8>> {
    host_path::components(bytes::encoded(s))
}

/// Takes a path that is given as text apart.
pub fn text_parts(s: &str) -> (r: Parts)
    ensures
        r@ == text_components(s@),
{
    let raw: Vec<u8> = bytes::of(s);
    host_path::parts_of(raw.as_slice())
}

/// Whether a path is one of those in a list.
pub open spec fn is_one_of(source: Seq<Seq<u8>>, list: Seq<Seq<char>>) -> bool {
    exists|i: int| 0 <= i < list.len() && source == text_components(#[trigger] list[i])
}

fn parts_in(source: &Parts, list: &Vec<&'static str>) -> (r: bool)
    ensures
        r == is_one_of(source@, names(list@)),
{
    for i in 0..list.len()
        invariant
            forall|k: int|
                0 <= k < i ==> source@ != text_components(#[trigger] names(list@)[k]),
    {
        assert(names(list@)[i as int] == list@[i as int]@);
        let other: Parts = text_parts(list[i]);
        if source.same(&other) {
            return true;
        }
    }
    false
}

/// Whether a read-only input may stand at its place: a part of the system at its own
/// place, one of the two caches, or a single tool. A part of the system can be
/// nothing else.
pub open spec fn readonly_allowed(source: Seq<Seq<u8>>, target: Seq<char>) -> bool {
    let system = system_inputs().contains(target) && source == text_components(target);
    let cache = target == "/opt/hostedtoolcache"@ || target == "/opt/chimera-actions"@;
    let extra = host_path::parent(text_components(target)) == Some(
        text_components("/opt/chimera-tools"@),
    );
    system || ((cache || extra) && !is_one_of(source, system_inputs()))
}

/// Whether something writable may stand at a place.
pub open spec fn writable_allowed(target: Seq<char>) -> bool {
    writable_at(target, 0) is Some || target == "/sys/fs/cgroup"@
}

/// Whether an input may be part of a domain.
pub open spec fn input_allowed(i: MountInput) -> bool {
    let source = host_path::components(i.source@);
    &&& host_path::absolute(i.source@)
    &&& !is_one_of(source, broad_sources())
    &&& if i.readonly {
        readonly_allowed(source, i.target@)
    } else {
        writable_allowed(i.target@)
    }
}

/// Whether every input may be part of a domain, and no two have the same place.
pub open spec fn inputs_valid(inputs: Seq<MountInput>) -> bool {
    &&& forall|i: int| 0 <= i < inputs.len() ==> input_allowed(#[trigger] inputs[i])
    &&& forall|i: int, j: int|
        0 <= i < j < inputs.len() ==> inputs[i].target@ != inputs[j].target@
}

fn check_readonly(source: &Parts, target: &str) -> (r: bool)
    ensures
        r == readonly_allowed(source@, target@),
{
    let systems: Vec<&'static str> = system_list();
    let place: Parts = text_parts(target);
    let system: bool = is_listed(&systems, target) && source.same(&place);
    let cache: bool = text::same_str(target, "/opt/hostedtoolcache") || text::same_str(
        target,
        "/opt/chimera-actions",
    );
    let tools: Parts = text_parts("/opt/chimera-tools");
    let extra: bool = match place.parent() {
        Some(above) => above.same(&tools),
        None => false,
    };
    system || ((cache || extra) && !parts_in(source, &systems))
}

fn check_input(input: &MountInput) -> (r: bool)
    ensures
        r == input_allowed(*input),
{
    let source: Parts = host_path::parts_of(input.source.as_slice());
    if input.source.len() == 0 || input.source[0] != 0x2f {
        return false;
    }
    let broad: Vec<&'static str> = broad_list();
    if parts_in(&source, &broad) {
        return false;
    }
    let target: &str = input.target.as_str();
    if input.readonly {
        check_readonly(&source, target)
    } else {
        writable_name(target).is_some() || text::same_str(target, "/sys/fs/cgroup")
    }
}

/// Accepts the inputs of a domain.
pub fn validate_inputs(inputs: &[MountInput]) -> (r: Result<(), ExecutionDomainError>)
    ensures
        match r {
            Ok(_) => inputs_valid(inputs@),
            Err(e) => !inputs_valid(inputs@) && e == mounts::invalid_error(),
        },
{
    for i in 0..inputs.len()
        invariant
            forall|k: int| 0 <= k < i ==> input_allowed(#[trigger] inputs@[k]),
            forall|a: int, b: int| 0 <= a < b < i ==> inputs@[a].target@ != inputs@[b].target@,
    {
        for j in 0..i
            invariant
                i < inputs@.len(),
                forall|k: int| 0 <= k < j ==> (#[trigger] inputs@[k]).target@ != inputs@[i as int].target@,
        {
            if text::same_str(inputs[j].target.as_str(), inputs[i].target.as_str()) {
                assert(inputs@[j as int].target@ == inputs@[i as int].target@);
                return Err(mounts::invalid());
            }
        }
        if !check_input(&inputs[i]) {
            return Err(mounts::invalid());
        }
    }
    Ok(())
}

/// Whether a name is that of an attempt.
pub open spec fn attempt_name(name: Seq<u8>) -> bool {
    &&& name.len() == 32
    &&& forall|i: int|
        0 <= i < name.len() ==> 0x30 <= #[trigger] name[i] <= 0x39 || 0x61 <= name[i] <= 0x66
    &&& exists|i: int| 0 <= i < name.len() && #[trigger] name[i] != 0x30
}

fn is_attempt_name(name: &[u8]) -> (r: bool)
    ensures
        r == attempt_name(name@),
{
    if name.len() != 32 {
        return false;
    }
    let mut zero: bool = true;
    for i in 0..name.len()
        invariant
            zero == forall|k: int| 0 <= k < i ==> #[trigger] name@[k] == 0x30,
            forall|k: int|
                0 <= k < i ==> 0x30 <= #[trigger] name@[k] <= 0x39 || 0x61 <= name@[k] <= 0x66,
    {
        let b: u8 = name[i];
        if !((0x30 <= b && b <= 0x39) || (0x61 <= b && b <= 0x66)) {
            assert(name@[i as int] == b);
            return false;
        }
        if b != 0x30 {
            assert(name@[i as int] != 0x30);
            zero = false;
        }
    }
    !zero
}

/// Where a domain is put together: a directory with a fixed name in the directory of
/// an attempt, which is in the directory of all attempts.
pub open spec fn staged(
    staging: Seq<Seq<u8>>,
    attempt: Seq<Seq<u8>>,
    active: Seq<Seq<u8>>,
    component: Seq<u8>,
) -> bool {
    &&& host_path::file_name(staging) == Some(bytes::encoded("rootfs"@))
    &&& host_path::parent(staging) == Some(attempt)
    &&& host_path::file_name(attempt) == Some(component)
    &&& attempt_name(component)
    &&& host_path::parent(attempt) == Some(active)
    &&& host_path::file_name(active) == Some(bytes::encoded("active"@))
}

/// Whether an input comes from the right place: nothing read-only has to do with the
/// directory of all attempts, and everything writable is the attempt's own.
pub open spec fn placed(
    i: MountInput,
    attempt: Seq<Seq<u8>>,
    active: Seq<Seq<u8>>,
    component: Seq<u8>,
) -> bool {
    let source = host_path::components(i.source@);
    if i.readonly {
        !active.is_prefix_of(source) && !source.is_prefix_of(active)
    } else if i.target@ == "/sys/fs/cgroup"@ {
        &&& text_components("/sys/fs/cgroup"@).is_prefix_of(source)
        &&& host_path::file_name(source) == Some(bytes::encoded("domain"@))
        &&& host_path::parent(source) matches Some(above)
        &&& host_path::file_name(above) == Some(bytes::encoded("attempt-"@) + component)
    } else {
        writable_at(i.target@, 0) matches Some(name) && source == attempt.push(
            bytes::encoded(name),
        )
    }
}

/// The places that no domain can do without.
pub open spec fn required_targets() -> Seq<Seq<char>> {
    seq![
        "/usr/bin"@,
        "/usr/lib"@,
        "/opt/hostedtoolcache"@,
        "/opt/chimera-actions"@,
        "/sys/fs/cgroup"@,
        "/work"@,
        "/tmp"@,
        "/home/chimera"@,
        "/run/chimera"@,
        "/home/chimera/.docker"@,
        "/var/lib/chimera/docker"@,
        "/run/chimera/docker-exec"@,
    ]
}

fn required_list() -> (r: Vec<&'static str>)
    ensures
        names(r@) == required_targets(),
{
    let mut list: Vec<&'static str> = Vec::new();
    list.push("/usr/bin");
    list.push("/usr/lib");
    list.push("/opt/hostedtoolcache");
    list.push("/opt/chimera-actions");
    list.push("/sys/fs/cgroup");
    list.push("/work");
    list.push("/tmp");
    list.push("/home/chimera");
    list.push("/run/chimera");
    list.push("/home/chimera/.docker");
    list.push("/var/lib/chimera/docker");
    list.push("/run/chimera/docker-exec");
    proof {
        assert(names(list@) =~= required_targets());
    }
    list
}

/// Whether something stands at a place.
pub open spec fn has_target(inputs: Seq<MountInput>, target: Seq<char>) -> bool {
    exists|i: int| 0 <= i < inputs.len() && (#[trigger] inputs[i]).target@ == target
}

/// Whether a plan is complete, and holds nothing but what belongs to the attempt or
/// may be shared.
pub open spec fn layout_valid(plan: RootfsPlan) -> bool {
    let staging = host_path::components(plan.staging_root@);
    &&& inputs_valid(plan.inputs@)
    &&& host_path::parent(staging) matches Some(attempt)
    &&& host_path::parent(attempt) matches Some(active)
    &&& host_path::file_name(attempt) matches Some(component)
    &&& staged(staging, attempt, active, component)
    &&& forall|i: int|
        0 <= i < plan.inputs@.len() ==> placed(
            #[trigger] plan.inputs@[i],
            attempt,
            active,
            component,
        )
    &&& forall|i: int|
        0 <= i < required_targets().len() ==> has_target(
            plan.inputs@,
            #[trigger] required_targets()[i],
        )
}

fn check_placed(input: &MountInput, attempt: &Parts, active: &Parts, component: &[u8]) -> (r: bool)
    ensures
        r == placed(*input, attempt@, active@, component@),
{
    let source: Parts = host_path::parts_of(input.source.as_slice());
    let target: &str = input.target.as_str();
    if input.readonly {
        !source.starts_with(active) && !active.starts_with(&source)
    } else if text::same_str(target, "/sys/fs/cgroup") {
        let base: Parts = text_parts("/sys/fs/cgroup");
        let mut own: Vec<u8> = bytes::of("attempt-");
        let ghost prefix = own@;
        for i in 0..component.len()
            invariant
                own@ == prefix + component@.take(i as int),
        {
            own.push(component[i]);
            assert(own@ =~= prefix + component@.take(i + 1));
        }
        assert(component@.take(component@.len() as int) =~= component@);
        let below: bool = match source.parent() {
            Some(above) => match above.file_name() {
                Some(name) => bytes::same(name.as_slice(), own.as_slice()),
                None => false,
            },
            None => false,
        };
        source.starts_with(&base) && source.named("domain") && below
    } else {
        match writable_name(target) {
            Some(name) => source.is_below(attempt, name),
            None => false,
        }
    }
}

fn check_has_target(inputs: &[MountInput], target: &str) -> (r: bool)
    ensures
        r == has_target(inputs@, target@),
{
    for i in 0..inputs.len()
        invariant
            forall|k: int| 0 <= k < i ==> (#[trigger] inputs@[k]).target@ != target@,
    {
        if text::same_str(inputs[i].target.as_str(), target) {
            return true;
        }
    }
    false
}

impl RootfsPlan {
    /// Accepts a plan only if it is complete, and holds nothing but what belongs to
    /// the attempt or may be shared.
    pub fn validate_layout(&self) -> (r: Result<(), ExecutionDomainError>)
        ensures
            match r {
                Ok(_) => layout_valid(*self),
                Err(e) => !layout_valid(*self) && e == mounts::invalid_error(),
            },
    {
        match validate_inputs(self.inputs.as_slice()) {
            Ok(_) => {},
            Err(e) => {
                return Err(e);
            },
        }
        let staging: Parts = host_path::parts_of(self.staging_root.as_slice());
        let attempt: Parts = match staging.parent() {
            Some(p) => p,
            None => {
                return Err(mounts::invalid());
            },
        };
        let active: Parts = match attempt.parent() {
            Some(p) => p,
            None => {
                return Err(mounts::invalid());
            },
        };
        let component: Vec<u8> = match attempt.file_name() {
            Some(name) => vstd::slice::slice_to_vec(name.as_slice()),
            None => {
                return Err(mounts::invalid());
            },
        };
        if !staging.named("rootfs") || !is_attempt_name(component.as_slice()) || !active.named(
            "active",
        ) {
            return Err(mounts::invalid());
        }
        for i in 0..self.inputs.len()
            invariant
                forall|k: int|
                    0 <= k < i ==> placed(
                        #[trigger] self.inputs@[k],
                        attempt@,
                        active@,
                        component@,
                    ),
                host_path::parent(host_path::components(self.staging_root@)) == Some(attempt@),
                host_path::parent(attempt@) == Some(active@),
                host_path::file_name(attempt@) == Some(component@),
        {
            if !check_placed(&self.inputs[i], &attempt, &active, component.as_slice()) {
                return Err(mounts::invalid());
            }
        }
        let required: Vec<&'static str> = required_list();
        proof {
            assert(names(required@).len() == required@.len());
        }
        for i in 0..required.len()
            invariant
                names(required@) == required_targets(),
                required@.len() == required_targets().len(),
                forall|k: int|
                    0 <= k < i ==> has_target(self.inputs@, #[trigger] required_targets()[k]),
        {
            assert(required_targets()[i as int] == required@[i as int]@);
            if !check_has_target(self.inputs.as_slice(), required[i]) {
                return Err(mounts::invalid());
            }
        }
        Ok(())
    }
}

/// The name of the attempt that a plan is for.
pub open spec fn attempt_of(plan: RootfsPlan) -> Option<Seq<u8>> {
    match host_path::parent(host_path::components(plan.staging_root@)) {
        Some(attempt) => host_path::file_name(attempt),
        None => None,
    }
}

/// Two valid plans for different attempts share nothing that can be written, but for
/// what the kernel keeps apart by the group.
pub proof fn law_attempts_share_nothing_writable(
    a: RootfsPlan,
    b: RootfsPlan,
    i: int,
    j: int,
)
    requires
        layout_valid(a),
        layout_valid(b),
        host_path::parent(host_path::components(a.staging_root@)) != host_path::parent(
            host_path::components(b.staging_root@),
        ),
        0 <= i < a.inputs@.len(),
        0 <= j < b.inputs@.len(),
        !a.inputs@[i].readonly && a.inputs@[i].target@ != "/sys/fs/cgroup"@,
        !b.inputs@[j].readonly && b.inputs@[j].target@ != "/sys/fs/cgroup"@,
    ensures
        host_path::components(a.inputs@[i].source@) != host_path::components(b.inputs@[j].source@),
{
    let first = host_path::parent(host_path::components(a.staging_root@))->0;
    let second = host_path::parent(host_path::components(b.staging_root@))->0;
    let x = host_path::components(a.inputs@[i].source@);
    let y = host_path::components(b.inputs@[j].source@);
    assert(x.drop_last() =~= first);
    assert(y.drop_last() =~= second);
}

/// Valid plans for attempts with different names give their domains different groups.
pub proof fn law_attempts_have_their_own_groups(a: RootfsPlan, b: RootfsPlan, i: int, j: int)
    requires
        layout_valid(a),
        layout_valid(b),
        attempt_of(a) != attempt_of(b),
        0 <= i < a.inputs@.len(),
        0 <= j < b.inputs@.len(),
        !a.inputs@[i].readonly && a.inputs@[i].target@ == "/sys/fs/cgroup"@,
        !b.inputs@[j].readonly && b.inputs@[j].target@ == "/sys/fs/cgroup"@,
    ensures
        host_path::components(a.inputs@[i].source@) != host_path::components(b.inputs@[j].source@),
{
    let first = host_path::parent(host_path::components(a.staging_root@))->0;
    let second = host_path::parent(host_path::components(b.staging_root@))->0;
    let start = bytes::encoded("attempt-"@);
    let own = attempt_of(a)->0;
    let other = attempt_of(b)->0;
    assert(placed(a.inputs@[i], first, host_path::parent(first)->0, own));
    assert(placed(b.inputs@[j], second, host_path::parent(second)->0, other));
    assert((start + own).skip(start.len() as int) =~= own);
    assert((start + other).skip(start.len() as int) =~= other);
}

/// A valid plan shows a domain nothing read-only that lies in the directory of all
/// attempts or holds it.
pub proof fn law_nothing_shared_holds_an_attempt(plan: RootfsPlan, i: int)
    requires
        layout_valid(plan),
        0 <= i < plan.inputs@.len(),
        plan.inputs@[i].readonly,
    ensures
        ({
            let source = host_path::components(plan.inputs@[i].source@);
            let staging = host_path::components(plan.staging_root@);
            !source.is_prefix_of(staging) && !staging.is_prefix_of(source)
        }),
{
    let source = host_path::components(plan.inputs@[i].source@);
    let staging = host_path::components(plan.staging_root@);
    let attempt = host_path::parent(staging)->0;
    let active = host_path::parent(attempt)->0;
    assert(placed(plan.inputs@[i], attempt, active, host_path::file_name(attempt)->0));
    assert(active.is_prefix_of(staging)) by {
        assert(active =~= staging.subrange(0, active.len() as int));
    }
    if staging.is_prefix_of(source) {
        assert(active =~= source.subrange(0, active.len() as int));
    }
    if source.is_prefix_of(staging) {
        if source.len() <= active.len() {
            assert(source =~= active.subrange(0, source.len() as int));
        } else {
            assert(active =~= source.subrange(0, active.len() as int));
        }
    }
}

/// What is known of the directory in which a domain is put together.
#[derive(Debug, Clone, Copy, PartialEq, Eq, Structural)]
pub struct DirectoryFacts {
    pub is_dir: bool,
    pub uid: u32,
    pub mode: u32,
}

/// Whether a directory is the service's alone.
pub open spec fn private(facts: DirectoryFacts, euid: u32) -> bool {
    facts.is_dir && facts.uid == euid && facts.mode & 0o077 == 0
}

/// Accepts the directory in which a domain is put together: it is the service's
/// alone, and empty.
pub fn check_staging(facts: DirectoryFacts, euid: u32, empty: bool) -> (r: Result<
    (),
    ExecutionDomainError,
>)
    ensures
        match r {
            Ok(_) => private(facts, euid) && empty,
            Err(e) => !(private(facts, euid) && empty) && e == mounts::invalid_error(),
        },
{
    if !facts.is_dir || facts.uid != euid || facts.mode & 0o077 != 0 || !empty {
        return Err(mounts::invalid());
    }
    Ok(())
}

/// The file system of groups, as the kernel numbers it.
pub const CGROUP2_SUPER_MAGIC: i64 = 0x6367_7270;

/// Accepts a writable source: the group must be on the file system of groups, and
/// any other must be the service's alone.
pub fn check_writable_source(
    input: &MountInput,
    facts: DirectoryFacts,
    euid: u32,
    filesystem: i64,
) -> (r: Result<(), ExecutionDomainError>)
    ensures
        ({
            let fine = if input.target@ == "/sys/fs/cgroup"@ {
                filesystem == CGROUP2_SUPER_MAGIC
            } else {
                private(facts, euid)
            };
            match r {
                Ok(_) => fine,
                Err(e) => !fine && e == mounts::invalid_error(),
            }
        }),
{
    if text::same_str(input.target.as_str(), "/sys/fs/cgroup") {
        if filesystem != CGROUP2_SUPER_MAGIC {
            return Err(mounts::invalid());
        }
        return Ok(());
    }
    if !facts.is_dir || facts.uid != euid || facts.mode & 0o077 != 0 {
        return Err(mounts::invalid());
    }
    Ok(())
}

/// Accepts a path only if it is written as the host resolves it.
pub fn canonical(path: &[u8], resolved: &[u8]) -> (r: Result<(), ExecutionDomainError>)
    ensures
        ({
            let same = host_path::components(resolved@) == host_path::components(path@);
            match r {
                Ok(_) => same,
                Err(e) => !same && e == mounts::invalid_error(),
            }
        }),
{
    let written: Parts = host_path::parts_of(path);
    let actual: Parts = host_path::parts_of(resolved);
    if !actual.same(&written) {
        return Err(mounts::invalid());
    }
    Ok(())
}

impl MountInput {
    /// Whether a source is the one that was accepted.
    pub open spec fn identified(self, device: u64, inode: u64) -> bool {
        device == self.expected_device && inode == self.expected_inode
    }

    /// Accepts the source only if it is the one that was accepted before.
    pub fn check_identity(&self, device: u64, inode: u64) -> (r: Result<(), ExecutionDomainError>)
        ensures
            match r {
                Ok(_) => self.identified(device, inode),
                Err(e) => !self.identified(device, inode) && e == mounts::rootfs_error(
                    FailureCategory::IdentityMismatch,
                ),
            },
    {
        if device != self.expected_device || inode != self.expected_inode {
            return Err(mounts::failure(FailureCategory::IdentityMismatch));
        }
        Ok(())
    }

    /// Accepts the source only if it is written as the host resolves it, and is the
    /// one that was accepted before.
    pub fn checked_metadata(&self, resolved: &[u8], device: u64, inode: u64) -> (r: Result<
        (),
        ExecutionDomainError,
    >)
        ensures
            ({
                let same = host_path::components(resolved@) == host_path::components(self.source@);
                r == (if !same {
                    Err::<(), ExecutionDomainError>(mounts::invalid_error())
                } else if !self.identified(device, inode) {
                    Err(mounts::rootfs_error(FailureCategory::IdentityMismatch))
                } else {
                    Ok(())
                })
            }),
    {
        match canonical(self.source.as_slice(), resolved) {
            Ok(_) => {},
            Err(e) => {
                return Err(e);
            },
        }
        match self.check_identity(device, inode) {
            Ok(_) => Ok(()),
            Err(e) => Err(e),
        }
    }
}

/// A file that is made for the domain.
pub struct EtcFile {
    pub name: String,
    pub contents: Vec<u8>,
}

/// The names and contents of a list of files.
pub open spec fn files(v: Seq<EtcFile>) -> Seq<(Seq<char>, Seq<u8>)> {
    Seq::new(v.len(), |i: int| (v[i].name@, v[i].contents@))
}

/// Whether a character may stand in the name of a host.
pub open spec fn host_char(c: char) -> bool {
    ('0' <= c && c <= '9') || ('a' <= c && c <= 'z') || ('A' <= c && c <= 'Z') || c == '-'
}

/// Whether a text is the name of a host.
pub open spec fn host_name(s: Seq<char>) -> bool {
    1 <= s.len() <= 63 && forall|i: int| 0 <= i < s.len() ==> host_char(#[trigger] s[i])
}

/// Whether a text is the name of a host.
pub fn valid_hostname(s: &str) -> (r: bool)
    ensures
        r == host_name(s@),
{
    let chars: Vec<char> = text::chars(s);
    if chars.len() == 0 || chars.len() > 63 {
        return false;
    }
    for i in 0..chars.len()
        invariant
            chars@ == s@,
            forall|k: int| 0 <= k < i ==> host_char(#[trigger] s@[k]),
    {
        let c: char = chars[i];
        if !(('0' <= c && c <= '9') || ('a' <= c && c <= 'z') || ('A' <= c && c <= 'Z') || c == '-') {
            assert(!host_char(s@[i as int]));
            return false;
        }
    }
    true
}

/// The files that are made for a domain, by name: one account, no account of the
/// host, and no name server of the host.
pub open spec fn etc_files(hostname: Seq<char>) -> Seq<(Seq<char>, Seq<u8>)> {
    seq![
        ("group"@, bytes::encoded("root:x:0:\n"@)),
        ("hostname"@, bytes::encoded(hostname + "\n"@)),
        ("hosts"@, bytes::encoded("127.0.0.1 localhost "@ + hostname + "\n::1 localhost\n"@)),
        (
            "nsswitch.conf"@,
            bytes::encoded("passwd: files\ngroup: files\nhosts: files dns\n"@),
        ),
        ("passwd"@, bytes::encoded("root:x:0:0:root:/home/chimera:/bin/sh\n"@)),
    ]
}

fn etc_file(name: &str, contents: &str) -> (r: EtcFile)
    ensures
        r.name@ == name@,
        r.contents@ == bytes::encoded(contents@),
{
    EtcFile { name: name.to_owned(), contents: bytes::of(contents) }
}

/// Makes the files for a domain with the given name.
pub fn generated_etc(hostname: &str) -> (r: Result<Vec<EtcFile>, ExecutionDomainError>)
    ensures
        match r {
            Ok(v) => host_name(hostname@) && files(v@) == etc_files(hostname@),
            Err(e) => !host_name(hostname@) && e == mounts::invalid_error(),
        },
{
    if !valid_hostname(hostname) {
        return Err(mounts::invalid());
    }
    let own: String = text::concat(hostname, "\n");
    let start: String = text::concat("127.0.0.1 localhost ", hostname);
    let hosts: String = text::concat(start.as_str(), "\n::1 localhost\n");
    let mut list: Vec<EtcFile> = Vec::new();
    list.push(etc_file("group", "root:x:0:\n"));
    list.push(etc_file("hostname", own.as_str()));
    list.push(etc_file("hosts", hosts.as_str()));
    list.push(etc_file("nsswitch.conf", "passwd: files\ngroup: files\nhosts: files dns\n"));
    list.push(etc_file("passwd", "root:x:0:0:root:/home/chimera:/bin/sh\n"));
    proof {
        assert(files(list@) =~= etc_files(hostname@));
    }
    Ok(list)
}

/// A source of the host and its place in the domain.
pub struct PlannedInput {
    pub source: Vec<u8>,
    pub target: String,
}

/// The sources and places of a list.
pub open spec fn planned(v: Seq<PlannedInput>) -> Seq<(Seq<u8>, Seq<char>)> {
    Seq::new(v.len(), |i: int| (v[i].source@, v[i].target@))
}

/// The parts of the system that are there.
pub open spec fn present_system(present: Seq<bool>, n: int) -> Seq<(Seq<u8>, Seq<char>)>
    decreases n,
{
    if n <= 0 {
        seq![]
    } else if present[n - 1] {
        let path = system_inputs()[n - 1];
        present_system(present, n - 1).push((bytes::encoded(path), path))
    } else {
        present_system(present, n - 1)
    }
}

/// The place of a tool: its own name below the directory of tools.
pub open spec fn tool_target(source: Seq<u8>) -> Option<Seq<u8>> {
    match host_path::file_name(host_path::components(source)) {
        Some(name) => if vstd::utf8::valid_utf8(name) {
            Some(bytes::encoded("/opt/chimera-tools/"@) + name)
        } else {
            None
        },
        None => None,
    }
}

/// Plans what a domain on this system reads: the parts of the system that are there,
/// the two caches, and single tools.
pub fn debian(
    present: &[bool],
    tool_cache: &[u8],
    actions_cache: &[u8],
    extra_tools: &[Vec<u8>],
) -> (r: Result<Vec<PlannedInput>, ExecutionDomainError>)
    requires
        present@.len() == system_inputs().len(),
    ensures
        match r {
            Ok(v) => {
                let base = present_system(present@, present@.len() as int).push(
                    (tool_cache@, "/opt/hostedtoolcache"@),
                ).push((actions_cache@, "/opt/chimera-actions"@));
                &&& v@.len() == base.len() + extra_tools@.len()
                &&& planned(v@).take(base.len() as int) == base
                &&& forall|i: int|
                    0 <= i < extra_tools@.len() ==> planned(v@)[base.len() + i].0 == (
                    #[trigger] extra_tools@[i])@ && tool_target(extra_tools@[i]@) == Some(
                        bytes::encoded(planned(v@)[base.len() + i].1),
                    )
            },
            Err(e) => (exists|i: int|
                0 <= i < extra_tools@.len() && tool_target((#[trigger] extra_tools@[i])@) is None)
                && e == mounts::invalid_error(),
        },
{
    let systems: Vec<&'static str> = system_list();
    let mut list: Vec<PlannedInput> = Vec::new();
    proof {
        assert(names(systems@).len() == systems@.len());
        assert(planned(list@) =~= seq![]);
    }
    for i in 0..systems.len()
        invariant
            names(systems@) == system_inputs(),
            systems@.len() == system_inputs().len(),
            present@.len() == systems@.len(),
            planned(list@) == present_system(present@, i as int),
    {
        let ghost before = list@;
        if present[i] {
            let path: &'static str = systems[i];
            assert(system_inputs()[i as int] == path@);
            list.push(PlannedInput { source: bytes::of(path), target: path.to_owned() });
            assert(planned(list@) =~= planned(before).push((bytes::encoded(path@), path@)));
        }
    }
    let ghost first = list@;
    list.push(
        PlannedInput {
            source: vstd::slice::slice_to_vec(tool_cache),
            target: "/opt/hostedtoolcache".to_owned(),
        },
    );
    list.push(
        PlannedInput {
            source: vstd::slice::slice_to_vec(actions_cache),
            target: "/opt/chimera-actions".to_owned(),
        },
    );
    let ghost base = present_system(present@, present@.len() as int).push(
        (tool_cache@, "/opt/hostedtoolcache"@),
    ).push((actions_cache@, "/opt/chimera-actions"@));
    proof {
        assert(planned(list@) =~= base);
        assert(planned(list@).take(base.len() as int) =~= base);
    }
    for i in 0..extra_tools.len()
        invariant
            list@.len() == base.len() + i,
            planned(list@).take(base.len() as int) == base,
            forall|k: int|
                0 <= k < i ==> planned(list@)[base.len() + k].0 == (#[trigger] extra_tools@[k])@
                    && tool_target(extra_tools@[k]@) == Some(
                    bytes::encoded(planned(list@)[base.len() + k].1),
                ),
    {
        let ghost before = planned(list@);
        let source: &Vec<u8> = &extra_tools[i];
        let parts: Parts = host_path::parts_of(source.as_slice());
        let name: String = match parts.file_name() {
            None => {
                assert(tool_target(extra_tools@[i as int]@) is None);
                return Err(mounts::invalid());
            },
            Some(name) => match filesystem::decode_utf8(name.as_slice()) {
                None => {
                    assert(tool_target(extra_tools@[i as int]@) is None);
                    return Err(mounts::invalid());
                },
                Some(name) => name,
            },
        };
        let target: String = text::concat("/opt/chimera-tools/", name.as_str());
        proof {
            lemma_encoding_adds("/opt/chimera-tools/"@, name@);
        }
        list.push(
            PlannedInput { source: vstd::slice::slice_to_vec(source.as_slice()), target },
        );
        proof {
            assert(planned(list@) =~= before.push((source@, target@)));
            assert(planned(list@).take(base.len() as int) =~= before.take(base.len() as int));
        }
    }
    Ok(list)
}

proof fn lemma_encoding_adds(a: Seq<char>, b: Seq<char>)
    ensures
        bytes::encoded(a + b) == bytes::encoded(a) + bytes::encoded(b),
    decreases a.len(),
{
    if a.len() == 0 {
        assert(a + b =~= b);
        assert(bytes::encoded(a) =~= seq![]);
        assert(bytes::encoded(a) + bytes::encoded(b) =~= bytes::encoded(b));
    } else {
        let rest = a.skip(1);
        lemma_encoding_adds(rest, b);
        assert((a + b).drop_first() =~= rest + b);
        assert(a.drop_first() =~= rest);
        assert(bytes::encoded(a + b) =~= bytes::encoded(a) + bytes::encoded(b));
    }
}

/// A name in the root, and the part of the system that it stands for.
pub struct Alias {
    pub name: &'static str,
    pub target: &'static str,
}

/// The names and targets of a list.
pub open spec fn alias_names(v: Seq<Alias>) -> Seq<(Seq<char>, Seq<char>)> {
    Seq::new(v.len(), |i: int| (v[i].name@, v[i].target@))
}

/// The names in the root that stand for parts of the system.
pub open spec fn aliases() -> Seq<(Seq<char>, Seq<char>)> {
    seq![
        ("bin"@, "/usr/bin"@),
        ("sbin"@, "/usr/sbin"@),
        ("lib"@, "/usr/lib"@),
        ("lib64"@, "/usr/lib64"@),
    ]
}

/// Lists the names in the root that stand for parts of the system.
pub fn alias_list() -> (r: Vec<Alias>)
    ensures
        alias_names(r@) == aliases(),
{
    let mut list: Vec<Alias> = Vec::new();
    list.push(Alias { name: "bin", target: "/usr/bin" });
    list.push(Alias { name: "sbin", target: "/usr/sbin" });
    list.push(Alias { name: "lib", target: "/usr/lib" });
    list.push(Alias { name: "lib64", target: "/usr/lib64" });
    assert(alias_names(list@) =~= aliases());
    list
}

/// What stands at the place of an alias on the host.
pub enum AliasFound {
    Missing,
    /// A link, and what it resolves to.
    Link(Vec<u8>),
    Other,
}

/// Whether an alias of the host is made in the domain too: it must be a link to the
/// part of the system that it stands for, and that part must be in the domain.
pub fn alias_made(found: &AliasFound, target: &str, inputs: &[MountInput]) -> (r: Result<
    bool,
    ExecutionDomainError,
>)
    ensures
        r == (match *found {
            AliasFound::Missing => Ok::<bool, ExecutionDomainError>(false),
            AliasFound::Link(resolved) => if host_path::components(resolved@) == text_components(
                target@,
            ) && has_target(inputs@, target@) {
                Ok(true)
            } else {
                Err(mounts::invalid_error())
            },
            AliasFound::Other => Err(mounts::invalid_error()),
        }),
{
    match found {
        AliasFound::Missing => Ok(false),
        AliasFound::Link(resolved) => {
            let actual: Parts = host_path::parts_of(resolved.as_slice());
            let own: Parts = text_parts(target);
            if actual.same(&own) && check_has_target(inputs, target) {
                Ok(true)
            } else {
                Err(mounts::invalid())
            }
        },
        AliasFound::Other => Err(mounts::invalid()),
    }
}

/// The number that tells a device of the kernel's memory from the others.
pub open spec fn device_minor(name: Seq<char>) -> Option<u32> {
    if name == "null"@ {
        Some(3)
    } else if name == "zero"@ {
        Some(5)
    } else if name == "full"@ {
        Some(7)
    } else if name == "random"@ {
        Some(8)
    } else if name == "urandom"@ {
        Some(9)
    } else {
        None
    }
}

/// A character device.
pub const S_IFCHR: u32 = 0o020000;

/// The part of a mode that holds the type.
pub const S_IFMT: u32 = 0o170000;

/// `libc::major` takes the major number out of a device number: the twelve bits from
/// bit 8 on and, above them, the bits from bit 44 on.
#[verifier::external_body]
pub(crate) fn device_major(device: u64) -> (r: u32)
    ensures
        r == ((device & 0x0000_0000_000f_ff00) >> 8 | (device & 0xffff_f000_0000_0000) >> 32) as u32,
{
    libc::major(device)
}

/// `libc::minor` takes the minor number out of a device number: its low eight bits
/// and, above them, the bits from bit 20 on up to bit 43.
#[verifier::external_body]
pub(crate) fn device_minor_of(device: u64) -> (r: u32)
    ensures
        r == (device & 0x0000_0000_0000_00ff | (device & 0x0000_0fff_fff0_0000) >> 12) as u32,
{
    libc::minor(device)
}

/// Whether a device number has the given major and minor numbers.
pub open spec fn device_is(device: u64, major: u32, minor: u32) -> bool {
    ((device & 0x0000_0000_000f_ff00) >> 8 | (device & 0xffff_f000_0000_0000) >> 32) as u32 == major
        && (device & 0x0000_0000_0000_00ff | (device & 0x0000_0fff_fff0_0000) >> 12) as u32 == minor
}

/// Accepts a device of the host only if it is the one that its name stands for.
pub fn check_device(name: &str, mode: u32, device: u64) -> (r: Result<(), ExecutionDomainError>)
    ensures
        ({
            let fine = device_minor(name@) matches Some(minor) && mode & S_IFMT == S_IFCHR
                && device_is(device, 1, minor);
            match r {
                Ok(_) => fine,
                Err(e) => !fine && e == mounts::invalid_error(),
            }
        }),
{
    let minor: u32 = if text::same_str(name, "null") {
        3
    } else if text::same_str(name, "zero") {
        5
    } else if text::same_str(name, "full") {
        7
    } else if text::same_str(name, "random") {
        8
    } else if text::same_str(name, "urandom") {
        9
    } else {
        return Err(mounts::invalid());
    };
    if mode & S_IFMT != S_IFCHR || device_major(device) != 1 || device_minor_of(device) != minor {
        return Err(mounts::invalid());
    }
    Ok(())
}

/// The mount of a device of the host.
pub fn device_mount(name: &str, host: &[MountLine]) -> (r: Result<
    ExpectedMount,
    ExecutionDomainError,
>)
    ensures
        ({
            let list = mounts::mounts(host@);
            let path = text_components("/dev/"@ + name@);
            let at = mounts::covering(list, path, list.len() as int);
            match r {
                Ok(e) => !mounts::nested(list, path) && (at matches Some(i) && e.root@
                    == list[i].root + path.skip(list[i].target.len() as int) && e.filesystem@
                    == list[i].filesystem) && e.target@ == path && !e.readonly && !e.nodev
                    && e.noexec,
                Err(e) => (mounts::nested(list, path) || at is None) && e
                    == mounts::invalid_error(),
            }
        }),
{
    let path: String = text::concat("/dev/", name);
    let source: Parts = text_parts(path.as_str());
    let target: Parts = text_parts(path.as_str());
    match mounts::expected_bind(&source, target, false, false, host) {
        Ok(mut e) => {
            e.noexec = true;
            Ok(e)
        },
        Err(e) => Err(e),
    }
}

/// A file system of the domain's own, with its restrictions.
pub open spec fn own_mount(
    e: ExpectedMount,
    target: Seq<char>,
    filesystem: Seq<char>,
    readonly: bool,
    nodev: bool,
    noexec: bool,
) -> bool {
    e.target@ == text_components(target) && e.root@ == text_components("/"@) && e.filesystem@
        == filesystem && e.readonly == readonly && e.nodev == nodev && e.noexec == noexec
}

/// The file systems that are made for every domain.
pub fn own_mounts() -> (r: Vec<ExpectedMount>)
    ensures
        r@.len() == 5,
        own_mount(r@[0], "/"@, "tmpfs"@, true, true, false),
        own_mount(r@[1], "/proc"@, "proc"@, false, true, true),
        own_mount(r@[2], "/dev"@, "tmpfs"@, true, false, true),
        own_mount(r@[3], "/dev/pts"@, "devpts"@, false, false, true),
        own_mount(r@[4], "/dev/shm"@, "tmpfs"@, false, true, true),
{
    let mut list: Vec<ExpectedMount> = Vec::new();
    list.push(mounts::mounted("/", "tmpfs", true, true, false));
    list.push(mounts::mounted("/proc", "proc", false, true, true));
    list.push(mounts::mounted("/dev", "tmpfs", true, false, true));
    list.push(mounts::mounted("/dev/pts", "devpts", false, false, true));
    list.push(mounts::mounted("/dev/shm", "tmpfs", false, true, true));
    list
}

/// Nobody gains rights through a file of the mount.
pub const MS_NOSUID: u64 = 2;

/// The mount holds no devices.
pub const MS_NODEV: u64 = 4;

/// No file of the mount is executed.
pub const MS_NOEXEC: u64 = 8;

/// The restrictions of a mount that holds neither devices nor programs.
pub const QUIET: u64 = MS_NOSUID | MS_NODEV | MS_NOEXEC;

/// The restrictions of a mount that holds devices, but no programs.
pub const DEVICES: u64 = MS_NOSUID | MS_NOEXEC;

/// The restrictions of the mount in which a domain is put together.
pub const STAGING: u64 = MS_NOSUID | MS_NODEV;

/// A step in giving a domain its view of the kernel. Places are below the new root.
pub enum KernelStep<T> {
    /// Mount a new file system.
    Mount { place: T, filesystem: T, flags: u64, data: Option<T> },
    /// Bind a device of the host.
    Device { name: T },
    /// Make a link among the devices.
    Link { name: T, target: T },
    /// Cover a part of the kernel's file system, if it is there.
    Cover { place: T },
    /// Restrict a mount that is complete.
    Seal { place: T, readonly: bool, nodev: bool, noexec: bool },
}

/// The step with its texts.
pub open spec fn kernel_step_view(step: KernelStep<&'static str>) -> KernelStep<Seq<char>> {
    match step {
        KernelStep::Mount { place, filesystem, flags, data } => KernelStep::Mount {
            place: place@,
            filesystem: filesystem@,
            flags,
            data: match data {
                Some(text) => Some(text@),
                None => None,
            },
        },
        KernelStep::Device { name } => KernelStep::Device { name: name@ },
        KernelStep::Link { name, target } => KernelStep::Link { name: name@, target: target@ },
        KernelStep::Cover { place } => KernelStep::Cover { place: place@ },
        KernelStep::Seal { place, readonly, nodev, noexec } => KernelStep::Seal {
            place: place@,
            readonly,
            nodev,
            noexec,
        },
    }
}

/// The steps with their texts.
pub open spec fn kernel_steps(v: Seq<KernelStep<&'static str>>) -> Seq<KernelStep<Seq<char>>> {
    Seq::new(v.len(), |i: int| kernel_step_view(v[i]))
}

/// What a domain sees of the kernel, step by step: its own processes, five devices, its
/// own terminals and shared memory, and nothing by which the kernel itself could be
/// changed or read.
pub open spec fn kernel_view() -> Seq<KernelStep<Seq<char>>> {
    seq![
        KernelStep::Mount {
            place: "proc"@,
            filesystem: "proc"@,
            flags: QUIET,
            data: None,
        },
        KernelStep::Mount {
            place: "dev"@,
            filesystem: "tmpfs"@,
            flags: DEVICES,
            data: Some("mode=0755"@),
        },
        KernelStep::Device { name: "null"@ },
        KernelStep::Device { name: "zero"@ },
        KernelStep::Device { name: "full"@ },
        KernelStep::Device { name: "random"@ },
        KernelStep::Device { name: "urandom"@ },
        KernelStep::Mount {
            place: "dev/pts"@,
            filesystem: "devpts"@,
            flags: DEVICES,
            data: Some("newinstance,ptmxmode=0666,mode=0620"@),
        },
        KernelStep::Mount {
            place: "dev/shm"@,
            filesystem: "tmpfs"@,
            flags: QUIET,
            data: Some("mode=1777"@),
        },
        KernelStep::Link { name: "ptmx"@, target: "pts/ptmx"@ },
        KernelStep::Link { name: "fd"@, target: "/proc/self/fd"@ },
        KernelStep::Link { name: "stdin"@, target: "/proc/self/fd/0"@ },
        KernelStep::Link { name: "stdout"@, target: "/proc/self/fd/1"@ },
        KernelStep::Link { name: "stderr"@, target: "/proc/self/fd/2"@ },
        KernelStep::Cover { place: "proc/sys"@ },
        KernelStep::Cover { place: "proc/sysrq-trigger"@ },
        KernelStep::Cover { place: "proc/kcore"@ },
        KernelStep::Cover { place: "proc/keys"@ },
        KernelStep::Cover { place: "proc/timer_list"@ },
        KernelStep::Cover { place: "proc/acpi"@ },
        KernelStep::Cover { place: "proc/scsi"@ },
        KernelStep::Seal { place: "dev"@, readonly: true, nodev: false, noexec: true },
    ]
}

/// Lists the steps in giving a domain its view of the kernel.
pub fn kernel_plan() -> (r: Vec<KernelStep<&'static str>>)
    ensures
        kernel_steps(r@) == kernel_view(),
{
    let mut list: Vec<KernelStep<&'static str>> = Vec::new();
    list.push(
        KernelStep::Mount {
            place: "proc",
            filesystem: "proc",
            flags: QUIET,
            data: None,
        },
    );
    list.push(
        KernelStep::Mount {
            place: "dev",
            filesystem: "tmpfs",
            flags: DEVICES,
            data: Some("mode=0755"),
        },
    );
    list.push(KernelStep::Device { name: "null" });
    list.push(KernelStep::Device { name: "zero" });
    list.push(KernelStep::Device { name: "full" });
    list.push(KernelStep::Device { name: "random" });
    list.push(KernelStep::Device { name: "urandom" });
    list.push(
        KernelStep::Mount {
            place: "dev/pts",
            filesystem: "devpts",
            flags: DEVICES,
            data: Some("newinstance,ptmxmode=0666,mode=0620"),
        },
    );
    list.push(
        KernelStep::Mount {
            place: "dev/shm",
            filesystem: "tmpfs",
            flags: QUIET,
            data: Some("mode=1777"),
        },
    );
    list.push(KernelStep::Link { name: "ptmx", target: "pts/ptmx" });
    list.push(KernelStep::Link { name: "fd", target: "/proc/self/fd" });
    list.push(KernelStep::Link { name: "stdin", target: "/proc/self/fd/0" });
    list.push(KernelStep::Link { name: "stdout", target: "/proc/self/fd/1" });
    list.push(KernelStep::Link { name: "stderr", target: "/proc/self/fd/2" });
    list.push(KernelStep::Cover { place: "proc/sys" });
    list.push(KernelStep::Cover { place: "proc/sysrq-trigger" });
    list.push(KernelStep::Cover { place: "proc/kcore" });
    list.push(KernelStep::Cover { place: "proc/keys" });
    list.push(KernelStep::Cover { place: "proc/timer_list" });
    list.push(KernelStep::Cover { place: "proc/acpi" });
    list.push(KernelStep::Cover { place: "proc/scsi" });
    list.push(KernelStep::Seal { place: "dev", readonly: true, nodev: false, noexec: true });
    assert(kernel_steps(list@) =~= kernel_view());
    list
}

/// In the view of the kernel nobody gains rights through a file and no program is run
/// from a new mount, and every device is one that is told from the others by its number.
pub proof fn law_kernel_view_is_restricted(i: int)
    requires
        0 <= i < kernel_view().len(),
    ensures
        match kernel_view()[i] {
            KernelStep::Mount { flags, .. } => flags & MS_NOSUID == MS_NOSUID && flags & MS_NOEXEC
                == MS_NOEXEC,
            KernelStep::Device { name } => device_minor(name) is Some,
            _ => true,
        },
{
    assert((2u64 | 4u64 | 8u64) & 2u64 == 2u64 && (2u64 | 4u64 | 8u64) & 8u64 == 8u64 && (2u64
        | 8u64) & 2u64 == 2u64 && (2u64 | 8u64) & 8u64 == 8u64) by (bit_vector);
    assert(forall|k: int|
        0 <= k < kernel_view().len() ==> (#[trigger] kernel_view()[k] matches KernelStep::Mount {
            flags,
            ..
        } ==> flags == QUIET || flags == DEVICES));
}

/// The options of the mount in which a domain is put together.
pub fn staging_options() -> (r: (u64, &'static str))
    ensures
        r.0 == STAGING,
        r.1@ == "mode=0755"@,
{
    (STAGING, "mode=0755")
}

/// The options of an empty mount that covers a directory.
pub fn cover_options() -> (r: (u64, &'static str))
    ensures
        r.0 == QUIET,
        r.1@ == "mode=000"@,
{
    (QUIET, "mode=000")
}

/// A place below the new root, and the permissions that it gets.
pub struct PlaceMode {
    pub place: &'static str,
    pub mode: u32,
}

/// The places and permissions of a list.
pub open spec fn place_modes(v: Seq<PlaceMode>) -> Seq<(Seq<char>, u32)> {
    Seq::new(v.len(), |i: int| (v[i].place@, v[i].mode))
}

/// Lists the places whose permissions are set. They are the attempt's own.
pub fn mode_list() -> (r: Vec<PlaceMode>)
    ensures
        place_modes(r@) == seq![
            ("tmp"@, 0o1777u32),
            ("home/chimera"@, 0o700u32),
            ("run/chimera"@, 0o700u32),
        ],
{
    let mut list: Vec<PlaceMode> = Vec::new();
    list.push(PlaceMode { place: "tmp", mode: 0o1777 });
    list.push(PlaceMode { place: "home/chimera", mode: 0o700 });
    list.push(PlaceMode { place: "run/chimera", mode: 0o700 });
    assert(place_modes(list@) =~= seq![
        ("tmp"@, 0o1777u32),
        ("home/chimera"@, 0o700u32),
        ("run/chimera"@, 0o700u32),
    ]);
    list
}

/// What stands in the kernel's file system where something has to be covered.
#[derive(Debug, Clone, Copy, PartialEq, Eq, Structural)]
pub enum Covered {
    Missing,
    Directory,
    File,
}

/// The mount that covers a part of the kernel's file system: an empty directory, or
/// the null device.
pub fn covering_mount(found: Covered, target: &str, host: &[MountLine]) -> (r: Result<
    Option<ExpectedMount>,
    ExecutionDomainError,
>)
    ensures
        ({
            let list = mounts::mounts(host@);
            let null = text_components("/dev/null"@);
            let at = mounts::covering(list, null, list.len() as int);
            match r {
                Ok(None) => found == Covered::Missing,
                Ok(Some(e)) => {
                    &&& found != Covered::Missing
                    &&& e.target@ == text_components(target@)
                    &&& e.readonly && e.nodev && e.noexec
                    &&& if found == Covered::Directory {
                        e.root@ == text_components("/"@) && e.filesystem@ == "tmpfs"@
                    } else {
                        !mounts::nested(list, null) && (at matches Some(i) && e.root@
                            == list[i].root + null.skip(list[i].target.len() as int)
                            && e.filesystem@ == list[i].filesystem)
                    }
                },
                Err(e) => found == Covered::File && (mounts::nested(list, null) || at is None) && e
                    == mounts::invalid_error(),
            }
        }),
{
    match found {
        Covered::Missing => Ok(None),
        Covered::Directory => Ok(Some(mounts::mounted(target, "tmpfs", true, true, true))),
        Covered::File => {
            let source: Parts = text_parts("/dev/null");
            let place: Parts = text_parts(target);
            match mounts::expected_bind(&source, place, true, true, host) {
                Ok(mut e) => {
                    e.noexec = true;
                    Ok(Some(e))
                },
                Err(e) => Err(e),
            }
        },
    }
}

/// The restrictions of a mount, as the kernel numbers them.
pub fn attribute_flags(readonly: bool, nodev: bool, noexec: bool) -> (r: u64)
    ensures
        r == 2 + (if readonly {
            1int
        } else {
            0
        }) + (if nodev {
            4int
        } else {
            0
        }) + (if noexec {
            8int
        } else {
            0
        }),
{
    let mut flags: u64 = 2;
    if readonly {
        flags = flags + 1;
    }
    if nodev {
        flags = flags + 4;
    }
    if noexec {
        flags = flags + 8;
    }
    flags
}

/// The descriptors to close around the control connection: those from 3 up to it,
/// and all above it.
pub fn descriptor_ranges(control: i32) -> (r: Result<
    (Option<(u32, u32)>, (u32, u32)),
    ExecutionDomainError,
>)
    ensures
        r == (if control < 3 {
            Err::<(Option<(u32, u32)>, (u32, u32)), ExecutionDomainError>(mounts::invalid_error())
        } else if control == 3 {
            Ok((None, (4u32, u32::MAX)))
        } else {
            Ok((Some((3u32, (control - 1) as u32)), ((control + 1) as u32, u32::MAX)))
        }),
{
    if control < 3 {
        return Err(mounts::invalid());
    }
    let above: u32 = control as u32 + 1;
    if control == 3 {
        return Ok((None, (above, u32::MAX)));
    }
    Ok((Some((3, (control - 1) as u32)), (above, u32::MAX)))
}

/// Accepts a process for putting a domain together: it is the first of its
/// namespace, it has one thread, and its mounts are its own.
pub fn check_assembling(pid: i32, threads: usize, own_mounts: u64, first_mounts: u64) -> (r: Result<
    (),
    ExecutionDomainError,
>)
    ensures
        ({
            let fine = pid == 1 && threads == 1 && own_mounts != first_mounts;
            match r {
                Ok(_) => fine,
                Err(e) => !fine && e == mounts::rootfs_error(FailureCategory::IdentityMismatch),
            }
        }),
{
    if pid != 1 || threads != 1 || own_mounts == first_mounts {
        return Err(mounts::failure(FailureCategory::IdentityMismatch));
    }
    Ok(())
}

/// What is left of the old root after it was let go.
pub struct Surroundings<'a> {
    pub own_mounts: u64,
    pub first_mounts: u64,
    pub own_pids: u64,
    pub first_pids: u64,
    pub directory: &'a [u8],
    pub root: &'a [u8],
    pub old_root: bool,
}

/// Accepts what is left only if the namespaces are the same as before, and neither
/// the old root nor a way to it is.
pub fn check_surroundings(s: &Surroundings, mount_namespace: u64, pid_namespace: u64) -> (r: Result<
    (),
    ExecutionDomainError,
>)
    ensures
        ({
            let same = s.own_mounts == mount_namespace && s.first_mounts == mount_namespace
                && s.own_pids == pid_namespace && s.first_pids == pid_namespace;
            let slash = text_components("/"@);
            r == (if !same {
                Err::<(), ExecutionDomainError>(
                    mounts::rootfs_error(FailureCategory::IdentityMismatch),
                )
            } else if host_path::components(s.directory@) != slash || host_path::components(s.root@)
                != slash || s.old_root {
                Err(mounts::invalid_error())
            } else {
                Ok(())
            })
        }),
{
    if s.own_mounts != mount_namespace || s.first_mounts != mount_namespace || s.own_pids
        != pid_namespace || s.first_pids != pid_namespace {
        return Err(mounts::failure(FailureCategory::IdentityMismatch));
    }
    let slash: Parts = text_parts("/");
    let directory: Parts = host_path::parts_of(s.directory);
    let root: Parts = host_path::parts_of(s.root);
    if !directory.same(&slash) || !root.same(&slash) || s.old_root {
        return Err(mounts::invalid());
    }
    Ok(())
}

/// Accepts a descriptor that is still open: the control connection, or one of the
/// first three, which must lead to the null device.
pub fn check_descriptor(number: Option<i32>, open: bool, control: i32, link: &[u8]) -> (r: Result<
    (),
    ExecutionDomainError,
>)
    ensures
        ({
            let fine = number matches Some(fd) && (!open || (if fd > 2 {
                fd == control
            } else {
                host_path::components(link@) == text_components("/dev/null"@)
            }));
            match r {
                Ok(_) => fine,
                Err(e) => !fine && e == mounts::invalid_error(),
            }
        }),
{
    let fd: i32 = match number {
        Some(fd) => fd,
        None => {
            return Err(mounts::invalid());
        },
    };
    if !open {
        return Ok(());
    }
    if fd > 2 {
        if fd != control {
            return Err(mounts::invalid());
        }
        return Ok(());
    }
    let null: Parts = text_parts("/dev/null");
    let actual: Parts = host_path::parts_of(link);
    if !actual.same(&null) {
        return Err(mounts::invalid());
    }
    Ok(())
}

/// The steps by which a domain is put together, in order.
#[derive(Debug, Clone, Copy, PartialEq, Eq, Structural)]
pub enum AssemblyStep {
    CheckProcess,
    ValidatePlan,
    PinInputs,
    FindAliases,
    MakeMountsPrivate,
    MountStaging,
    BindInputs,
    /// Let go of every descriptor of the host's files.
    DropPins,
    MakeAliases,
    WriteEtc,
    SetHostname,
    SetModes,
    MountKernelFiles,
    Pivot,
    LetOldRootGo,
    MakeRootReadonly,
    CloseDescriptors,
    VerifyMounts,
}

impl AssemblyStep {
    /// The place of the step in the order.
    pub open spec fn rank(self) -> int {
        match self {
            AssemblyStep::CheckProcess => 0,
            AssemblyStep::ValidatePlan => 1,
            AssemblyStep::PinInputs => 2,
            AssemblyStep::FindAliases => 3,
            AssemblyStep::MakeMountsPrivate => 4,
            AssemblyStep::MountStaging => 5,
            AssemblyStep::BindInputs => 6,
            AssemblyStep::DropPins => 7,
            AssemblyStep::MakeAliases => 8,
            AssemblyStep::WriteEtc => 9,
            AssemblyStep::SetHostname => 10,
            AssemblyStep::SetModes => 11,
            AssemblyStep::MountKernelFiles => 12,
            AssemblyStep::Pivot => 13,
            AssemblyStep::LetOldRootGo => 14,
            AssemblyStep::MakeRootReadonly => 15,
            AssemblyStep::CloseDescriptors => 16,
            AssemblyStep::VerifyMounts => 17,
        }
    }

    /// The step after this one. Nothing is mounted before the plan was accepted, and
    /// no descriptor of the host's files is left when its root is let go.
    pub fn next(self) -> (r: Option<AssemblyStep>)
        ensures
            match r {
                Some(n) => n.rank() == self.rank() + 1,
                None => self == AssemblyStep::VerifyMounts,
            },
    {
        match self {
            AssemblyStep::CheckProcess => Some(AssemblyStep::ValidatePlan),
            AssemblyStep::ValidatePlan => Some(AssemblyStep::PinInputs),
            AssemblyStep::PinInputs => Some(AssemblyStep::FindAliases),
            AssemblyStep::FindAliases => Some(AssemblyStep::MakeMountsPrivate),
            AssemblyStep::MakeMountsPrivate => Some(AssemblyStep::MountStaging),
            AssemblyStep::MountStaging => Some(AssemblyStep::BindInputs),
            AssemblyStep::BindInputs => Some(AssemblyStep::DropPins),
            AssemblyStep::DropPins => Some(AssemblyStep::MakeAliases),
            AssemblyStep::MakeAliases => Some(AssemblyStep::WriteEtc),
            AssemblyStep::WriteEtc => Some(AssemblyStep::SetHostname),
            AssemblyStep::SetHostname => Some(AssemblyStep::SetModes),
            AssemblyStep::SetModes => Some(AssemblyStep::MountKernelFiles),
            AssemblyStep::MountKernelFiles => Some(AssemblyStep::Pivot),
            AssemblyStep::Pivot => Some(AssemblyStep::LetOldRootGo),
            AssemblyStep::LetOldRootGo => Some(AssemblyStep::MakeRootReadonly),
            AssemblyStep::MakeRootReadonly => Some(AssemblyStep::CloseDescriptors),
            AssemblyStep::CloseDescriptors => Some(AssemblyStep::VerifyMounts),
            AssemblyStep::VerifyMounts => None,
        }
    }
}

/// What cannot be written in a domain is a part of the system shown under its own path,
/// one of the two caches, or a tool right below the directory for tools; a part of the
/// system is never shown under another path, and no directory that holds more than one
/// purpose is shown at all.
pub proof fn law_readonly_inputs_are_system_or_tools(
    inputs: &[MountInput],
    k: int,
    r: Result<(), ExecutionDomainError>,
)
    requires
        call_ensures(validate_inputs, (inputs,), r),
        r is Ok,
        0 <= k < inputs@.len(),
        inputs@[k].readonly,
    ensures
        ({
            let target = inputs@[k].target@;
            let source = host_path::components(inputs@[k].source@);
            let system = seq![
                "/usr/bin"@,
                "/usr/sbin"@,
                "/usr/lib"@,
                "/usr/lib64"@,
                "/usr/share/zoneinfo"@,
                "/usr/share/locale"@,
                "/etc/ssl/certs/ca-certificates.crt"@,
            ];
            if system.contains(target) {
                source == host_path::components(vstd::utf8::encode_utf8(target)) || target
                    == "/opt/hostedtoolcache"@ || target == "/opt/chimera-actions"@
                    || host_path::parent(text_components(target)) == Some(
                    text_components("/opt/chimera-tools"@),
                )
            } else {
                &&& target == "/opt/hostedtoolcache"@ || target == "/opt/chimera-actions"@
                    || host_path::parent(text_components(target)) == Some(
                    text_components("/opt/chimera-tools"@),
                )
                &&& forall|s: int|
                    0 <= s < 7 ==> source != host_path::components(
                        vstd::utf8::encode_utf8(#[trigger] system[s]),
                    )
            }
        }),
{
    assert(input_allowed(inputs@[k]));
    let target = inputs@[k].target@;
    if !system_inputs().contains(target) {
        assert forall|s: int| 0 <= s < 7 implies host_path::components(inputs@[k].source@)
            != host_path::components(vstd::utf8::encode_utf8(#[trigger] system_inputs()[s])) by {
            assert(text_components(system_inputs()[s]) == host_path::components(
                vstd::utf8::encode_utf8(system_inputs()[s]),
            ));
        }
    }
}

/// No whole part of the host is shown in a domain, whatever it is shown as.
pub proof fn law_broad_sources_are_refused(
    inputs: &[MountInput],
    k: int,
    r: Result<(), ExecutionDomainError>,
)
    requires
        call_ensures(validate_inputs, (inputs,), r),
        0 <= k < inputs@.len(),
        ({
            let source = host_path::components(inputs@[k].source@);
            ||| source == text_components("/"@)
            ||| source == text_components("/usr"@)
            ||| source == text_components("/usr/local"@)
            ||| source == text_components("/home"@)
            ||| source == text_components("/root"@)
            ||| source == text_components("/run"@)
            ||| source == text_components("/var"@)
            ||| source == text_components("/var/run"@)
            ||| source == text_components("/etc"@)
            ||| source == text_components("/dev"@)
            ||| source == text_components("/sys"@)
            ||| source == text_components("/proc"@)
            ||| !host_path::absolute(inputs@[k].source@)
        }),
    ensures
        r matches Err(ExecutionDomainError::Backend { stage, category, .. }) && stage
            == crate::contracts::Stage::Rootfs && category == FailureCategory::InvalidInput,
{
    let source = host_path::components(inputs@[k].source@);
    let all = broad_sources();
    if host_path::absolute(inputs@[k].source@) {
        assert(exists|i: int| 0 <= i < all.len() && source == text_components(#[trigger] all[i]))
            by {
            assert(source == text_components(all[0]) || source == text_components(all[1]) || source
                == text_components(all[2]) || source == text_components(all[3]) || source
                == text_components(all[4]) || source == text_components(all[5]) || source
                == text_components(all[6]) || source == text_components(all[7]) || source
                == text_components(all[8]) || source == text_components(all[9]) || source
                == text_components(all[10]) || source == text_components(all[11]));
        }
    }
    assert(!input_allowed(inputs@[k]));
}

/// Two inputs under one path are refused, and so is one that could be written outside the
/// domain's own directories and its group.
pub proof fn law_stray_inputs_are_refused(
    inputs: &[MountInput],
    i: int,
    j: int,
    r: Result<(), ExecutionDomainError>,
)
    requires
        call_ensures(validate_inputs, (inputs,), r),
        0 <= i < inputs@.len(),
        0 <= j < inputs@.len(),
    ensures
        i != j && inputs@[i].target@ == inputs@[j].target@ ==> r is Err,
        !inputs@[i].readonly && r is Ok ==> ({
            ||| inputs@[i].target@ == "/work"@
            ||| inputs@[i].target@ == "/tmp"@
            ||| inputs@[i].target@ == "/home/chimera"@
            ||| inputs@[i].target@ == "/run/chimera"@
            ||| inputs@[i].target@ == "/home/chimera/.docker"@
            ||| inputs@[i].target@ == "/var/lib/chimera/docker"@
            ||| inputs@[i].target@ == "/run/chimera/docker-exec"@
            ||| inputs@[i].target@ == "/sys/fs/cgroup"@
        }),
{
    if r is Ok {
        assert(input_allowed(inputs@[i]));
        reveal_with_fuel(writable_at, 8);
        if i < j {
            assert(inputs@[i].target@ != inputs@[j].target@);
        } else if j < i {
            assert(inputs@[j].target@ != inputs@[i].target@);
        }
    }
}

/// Inputs under different paths are accepted where each is a part of the system under
/// its own path, a cache or a tool from elsewhere, or one of the writable ones, from no
/// whole part of the host.
pub proof fn law_planned_inputs_are_accepted(
    inputs: &[MountInput],
    r: Result<(), ExecutionDomainError>,
)
    requires
        call_ensures(validate_inputs, (inputs,), r),
        forall|i: int, j: int|
            0 <= i < j < inputs@.len() ==> inputs@[i].target@ != inputs@[j].target@,
        forall|i: int|
            0 <= i < inputs@.len() ==> host_path::absolute((#[trigger] inputs@[i]).source@)
                && !is_one_of(host_path::components(inputs@[i].source@), broad_sources()),
        forall|i: int|
            0 <= i < inputs@.len() ==> ({
                let t = (#[trigger] inputs@[i]).target@;
                let source = host_path::components(inputs@[i].source@);
                if inputs@[i].readonly {
                    ||| (t == "/usr/bin"@ || t == "/usr/sbin"@ || t == "/usr/lib"@ || t
                        == "/usr/lib64"@ || t == "/usr/share/zoneinfo"@ || t == "/usr/share/locale"@
                        || t == "/etc/ssl/certs/ca-certificates.crt"@) && source
                        == text_components(t)
                    ||| (t == "/opt/hostedtoolcache"@ || t == "/opt/chimera-actions"@
                        || host_path::parent(text_components(t)) == Some(
                        text_components("/opt/chimera-tools"@),
                    )) && !is_one_of(source, system_inputs())
                } else {
                    t == "/work"@ || t == "/tmp"@ || t == "/home/chimera"@ || t == "/run/chimera"@
                        || t == "/home/chimera/.docker"@ || t == "/var/lib/chimera/docker"@ || t
                        == "/run/chimera/docker-exec"@ || t == "/sys/fs/cgroup"@
                }
            }),
    ensures
        r is Ok,
{
    reveal_with_fuel(writable_at, 8);
    assert forall|i: int| 0 <= i < inputs@.len() implies input_allowed(#[trigger] inputs@[i]) by {
        let t = inputs@[i].target@;
        let all = system_inputs();
        assert(all[0] == "/usr/bin"@ && all[1] == "/usr/sbin"@ && all[2] == "/usr/lib"@ && all[3]
            == "/usr/lib64"@ && all[4] == "/usr/share/zoneinfo"@ && all[5] == "/usr/share/locale"@
            && all[6] == "/etc/ssl/certs/ca-certificates.crt"@);
    }
}

/// A domain's writable directories are its attempt's own, each under the name it goes by,
/// and its group is the one named after the attempt.
pub proof fn law_writable_inputs_are_the_attempts_own(
    plan: RootfsPlan,
    k: int,
    attempt: Seq<Seq<u8>>,
    r: Result<(), ExecutionDomainError>,
)
    requires
        call_ensures(RootfsPlan::validate_layout, (&plan,), r),
        r is Ok,
        0 <= k < plan.inputs@.len(),
        !plan.inputs@[k].readonly,
        host_path::parent(host_path::components(plan.staging_root@)) == Some(attempt),
    ensures
        ({
            let t = plan.inputs@[k].target@;
            let source = host_path::components(plan.inputs@[k].source@);
            &&& t == "/work"@ ==> source == attempt.push(vstd::utf8::encode_utf8("work"@))
            &&& t == "/tmp"@ ==> source == attempt.push(vstd::utf8::encode_utf8("tmp"@))
            &&& t == "/home/chimera"@ ==> source == attempt.push(vstd::utf8::encode_utf8("home"@))
            &&& t == "/run/chimera"@ ==> source == attempt.push(vstd::utf8::encode_utf8("run"@))
            &&& t == "/home/chimera/.docker"@ ==> source == attempt.push(
                vstd::utf8::encode_utf8("docker"@),
            )
            &&& t == "/var/lib/chimera/docker"@ ==> source == attempt.push(
                vstd::utf8::encode_utf8("docker-data"@),
            )
            &&& t == "/run/chimera/docker-exec"@ ==> source == attempt.push(
                vstd::utf8::encode_utf8("docker-exec"@),
            )
            &&& t == "/sys/fs/cgroup"@ ==> text_components("/sys/fs/cgroup"@).is_prefix_of(source)
                && host_path::file_name(source) == Some(vstd::utf8::encode_utf8("domain"@))
                && host_path::file_name(host_path::parent(source).unwrap()) == Some(
                vstd::utf8::encode_utf8("attempt-"@) + host_path::file_name(attempt).unwrap(),
            )
        }),
{
    reveal_with_fuel(writable_at, 8);
    reveal_strlit("/work");
    reveal_strlit("/tmp");
    reveal_strlit("/home/chimera");
    reveal_strlit("/run/chimera");
    reveal_strlit("/home/chimera/.docker");
    reveal_strlit("/var/lib/chimera/docker");
    reveal_strlit("/run/chimera/docker-exec");
    reveal_strlit("/sys/fs/cgroup");
    let t = plan.inputs@[k].target@;
    assert(placed(
        plan.inputs@[k],
        attempt,
        host_path::parent(attempt).unwrap(),
        host_path::file_name(attempt).unwrap(),
    ));
    let all = writable_inputs();
    assert(all.len() == 7);
    assert(all[0].1 == "/work"@ && all[1].1 == "/tmp"@ && all[2].1 == "/home/chimera"@ && all[3].1
        == "/run/chimera"@ && all[4].1 == "/home/chimera/.docker"@ && all[5].1
        == "/var/lib/chimera/docker"@ && all[6].1 == "/run/chimera/docker-exec"@);
    assert(t == "/work"@ ==> writable_at(t, 0) == Some(all[0].0));
    assert(t == "/tmp"@ ==> writable_at(t, 0) == Some(all[1].0));
    assert(t == "/home/chimera"@ ==> writable_at(t, 0) == Some(all[2].0));
    assert(t == "/run/chimera"@ ==> writable_at(t, 0) == Some(all[3].0));
    assert(t == "/home/chimera/.docker"@ ==> writable_at(t, 0) == Some(all[4].0));
    assert(t == "/var/lib/chimera/docker"@ ==> writable_at(t, 0) == Some(all[5].0));
    assert(t == "/run/chimera/docker-exec"@ ==> writable_at(t, 0) == Some(all[6].0));
}

/// A layout is agreed to only where the root is assembled in the attempt's own directory
/// among the active ones and everything that a domain needs is shown.
pub proof fn law_layouts_are_staged_and_whole(
    plan: RootfsPlan,
    r: Result<(), ExecutionDomainError>,
)
    requires
        call_ensures(RootfsPlan::validate_layout, (&plan,), r),
        r is Ok,
    ensures
        ({
            let staging = host_path::components(plan.staging_root@);
            let attempt = host_path::parent(staging).unwrap();
            let active = host_path::parent(attempt).unwrap();
            let id = host_path::file_name(attempt).unwrap();
            &&& host_path::file_name(staging) == Some(vstd::utf8::encode_utf8("rootfs"@))
            &&& host_path::file_name(active) == Some(vstd::utf8::encode_utf8("active"@))
            &&& id.len() == 32
            &&& forall|i: int|
                0 <= i < 32 ==> 48 <= #[trigger] id[i] <= 57 || 97 <= id[i] <= 102
            &&& exists|i: int| 0 <= i < 32 && #[trigger] id[i] != 48
        }),
        has_target(plan.inputs@, "/usr/bin"@),
        has_target(plan.inputs@, "/usr/lib"@),
        has_target(plan.inputs@, "/opt/hostedtoolcache"@),
        has_target(plan.inputs@, "/opt/chimera-actions"@),
        has_target(plan.inputs@, "/sys/fs/cgroup"@),
        has_target(plan.inputs@, "/work"@),
        has_target(plan.inputs@, "/tmp"@),
        has_target(plan.inputs@, "/home/chimera"@),
        has_target(plan.inputs@, "/run/chimera"@),
        has_target(plan.inputs@, "/home/chimera/.docker"@),
        has_target(plan.inputs@, "/var/lib/chimera/docker"@),
        has_target(plan.inputs@, "/run/chimera/docker-exec"@),
        forall|i: int|
            0 <= i < plan.inputs@.len() && (#[trigger] plan.inputs@[i]).readonly ==> ({
                let staging = host_path::components(plan.staging_root@);
                let active = host_path::parent(host_path::parent(staging).unwrap()).unwrap();
                let source = host_path::components(plan.inputs@[i].source@);
                !active.is_prefix_of(source) && !source.is_prefix_of(active)
            }),
{
    let all = required_targets();
    assert(has_target(plan.inputs@, all[0]) && has_target(plan.inputs@, all[1]) && has_target(
        plan.inputs@,
        all[2],
    ) && has_target(plan.inputs@, all[3]) && has_target(plan.inputs@, all[4]) && has_target(
        plan.inputs@,
        all[5],
    ) && has_target(plan.inputs@, all[6]) && has_target(plan.inputs@, all[7]) && has_target(
        plan.inputs@,
        all[8],
    ) && has_target(plan.inputs@, all[9]) && has_target(plan.inputs@, all[10]) && has_target(
        plan.inputs@,
        all[11],
    ));
    assert forall|i: int|
        0 <= i < plan.inputs@.len() && (#[trigger] plan.inputs@[i]).readonly implies ({
        let staging = host_path::components(plan.staging_root@);
        let active = host_path::parent(host_path::parent(staging).unwrap()).unwrap();
        let source = host_path::components(plan.inputs@[i].source@);
        !active.is_prefix_of(source) && !source.is_prefix_of(active)
    }) by {
        let attempt = host_path::parent(host_path::components(plan.staging_root@)).unwrap();
        assert(placed(
            plan.inputs@[i],
            attempt,
            host_path::parent(attempt).unwrap(),
            host_path::file_name(attempt).unwrap(),
        ));
    }
}

/// An input that is captured keeps what it was captured with, and has no fingerprint yet.
pub proof fn law_captured_inputs_keep_their_identity(
    source: Vec<u8>,
    target: &str,
    readonly: bool,
    device: u64,
    inode: u64,
    input: Result<MountInput, ExecutionDomainError>,
    r: Result<(), ExecutionDomainError>,
    found_device: u64,
    found_inode: u64,
    resolved: &[u8],
    whole: Result<(), ExecutionDomainError>,
)
    requires
        call_ensures(MountInput::capture, (source, target, readonly, device, inode), input),
        input is Ok,
        call_ensures(MountInput::check_identity, (&input->Ok_0, found_device, found_inode), r),
        call_ensures(
            MountInput::checked_metadata,
            (&input->Ok_0, resolved, found_device, found_inode),
            whole,
        ),
    ensures
        input->Ok_0.target@ == target@,
        input->Ok_0.readonly == readonly,
        input->Ok_0.immutable_fingerprint is None,
        r is Ok <==> found_device == device && found_inode == inode,
        resolved@ == source@ ==> (whole is Ok <==> r is Ok),
        host_path::components(resolved@) != host_path::components(source@) ==> whole is Err,
{
}

/// A directory for assembling is empty, and it and the writable ones belong to the caller
/// and are closed to everyone else; the group needs to be one of the second hierarchy.
pub proof fn law_own_directories_are_private(
    facts: DirectoryFacts,
    euid: u32,
    empty: bool,
    input: MountInput,
    filesystem: i64,
    staging: Result<(), ExecutionDomainError>,
    source: Result<(), ExecutionDomainError>,
)
    requires
        call_ensures(check_staging, (facts, euid, empty), staging),
        call_ensures(check_writable_source, (&input, facts, euid, filesystem), source),
    ensures
        staging is Ok <==> empty && facts.is_dir && facts.uid == euid && facts.mode % 64 == 0,
        input.target@ != "/sys/fs/cgroup"@ ==> (source is Ok <==> facts.is_dir && facts.uid == euid
            && facts.mode % 64 == 0),
        input.target@ == "/sys/fs/cgroup"@ ==> (source is Ok <==> filesystem == 1667723888),
{
    let mode = facts.mode;
    assert(mode & 0o077 == mode % 64) by (bit_vector);
}

/// A path is its own where it resolves to its own names.
pub proof fn law_canonical_paths_resolve_to_themselves(
    path: &[u8],
    resolved: &[u8],
    r: Result<(), ExecutionDomainError>,
)
    requires
        call_ensures(canonical, (path, resolved), r),
    ensures
        path@ == resolved@ ==> r is Ok,
        r is Ok <==> host_path::components(path@) == host_path::components(resolved@),
{
}

proof fn lemma_host_char(c: char)
    ensures
        host_char(c) == (48 <= c as u32 <= 57 || 65 <= c as u32 <= 90 || 97 <= c as u32 <= 122
            || c as u32 == 45),
{
}

/// A host name has one to sixty-three letters, digits and dashes; the files that are
/// written name it, and the only user is the first one.
pub proof fn law_host_names_are_plain(
    hostname: &str,
    valid: bool,
    r: Result<Vec<EtcFile>, ExecutionDomainError>,
)
    requires
        call_ensures(valid_hostname, (hostname,), valid),
        call_ensures(generated_etc, (hostname,), r),
    ensures
        valid <==> 1 <= hostname@.len() <= 63 && forall|i: int|
            0 <= i < hostname@.len() ==> {
                let c = (#[trigger] hostname@[i]) as u32;
                48 <= c <= 57 || 65 <= c <= 90 || 97 <= c <= 122 || c == 45
            },
        r is Ok <==> valid,
        r matches Ok(v) ==> ({
            &&& v@.len() == 5
            &&& v@[0].name@ == "group"@ && v@[0].contents@ == vstd::utf8::encode_utf8(
                "root:x:0:\n"@,
            )
            &&& v@[1].name@ == "hostname"@ && v@[1].contents@ == vstd::utf8::encode_utf8(
                hostname@ + "\n"@,
            )
            &&& v@[2].name@ == "hosts"@ && v@[2].contents@ == vstd::utf8::encode_utf8(
                "127.0.0.1 localhost "@ + hostname@ + "\n::1 localhost\n"@,
            )
            &&& v@[3].name@ == "nsswitch.conf"@ && v@[3].contents@ == vstd::utf8::encode_utf8(
                "passwd: files\ngroup: files\nhosts: files dns\n"@,
            )
            &&& v@[4].name@ == "passwd"@ && v@[4].contents@ == vstd::utf8::encode_utf8(
                "root:x:0:0:root:/home/chimera:/bin/sh\n"@,
            )
        }),
{
    if valid {
        assert forall|i: int| 0 <= i < hostname@.len() implies ({
            let c = (#[trigger] hostname@[i]) as u32;
            48 <= c <= 57 || 65 <= c <= 90 || 97 <= c <= 122 || c == 45
        }) by {
            assert(host_char(hostname@[i]));
            lemma_host_char(hostname@[i]);
        }
    } else if 1 <= hostname@.len() <= 63 {
        let i = choose|i: int| 0 <= i < hostname@.len() && !host_char(#[trigger] hostname@[i]);
        lemma_host_char(hostname@[i]);
    }
    if r is Ok {
        let v = r->Ok_0;
        assert(files(v@).len() == 5);
        assert(files(v@)[0] == (v@[0].name@, v@[0].contents@));
        assert(files(v@)[1] == (v@[1].name@, v@[1].contents@));
        assert(files(v@)[2] == (v@[2].name@, v@[2].contents@));
        assert(files(v@)[3] == (v@[3].name@, v@[3].contents@));
        assert(files(v@)[4] == (v@[4].name@, v@[4].contents@));
    }
}

/// The inputs of a domain begin with the parts of the system that the host has, each
/// under its own path, then the two caches, then the tools.
pub proof fn law_inputs_follow_the_host(
    present: &[bool],
    tool_cache: &[u8],
    actions_cache: &[u8],
    extra_tools: &[Vec<u8>],
    k: int,
    r: Result<Vec<PlannedInput>, ExecutionDomainError>,
)
    requires
        call_ensures(debian, (present, tool_cache, actions_cache, extra_tools), r),
        present@.len() == 7,
        r is Ok,
    ensures
        ({
            let v = r->Ok_0@;
            let n = v.len() - extra_tools@.len();
            &&& 2 <= n <= 9
            &&& v[n - 2].source@ == tool_cache@ && v[n - 2].target@ == "/opt/hostedtoolcache"@
            &&& v[n - 1].source@ == actions_cache@ && v[n - 1].target@ == "/opt/chimera-actions"@
            &&& 0 <= k < n - 2 ==> v[k].source@ == vstd::utf8::encode_utf8(v[k].target@)
                && exists|i: int|
                0 <= i < 7 && present@[i] && v[k].target@ == #[trigger] system_inputs()[i]
            &&& 0 <= k < extra_tools@.len() ==> v[n + k].source@ == extra_tools@[k]@
                && vstd::utf8::encode_utf8(v[n + k].target@) == vstd::utf8::encode_utf8(
                "/opt/chimera-tools/"@,
            ) + host_path::file_name(host_path::components(extra_tools@[k]@)).unwrap()
            &&& 0 <= k < 7 && present@[k] ==> exists|i: int|
                0 <= i < n - 2 && (#[trigger] v[i]).target@ == system_inputs()[k]
        }),
{
    let v = r->Ok_0@;
    let system = present_system(present@, 7);
    let base = system.push((tool_cache@, "/opt/hostedtoolcache"@)).push(
        (actions_cache@, "/opt/chimera-actions"@),
    );
    lemma_present_system(present@, 7);
    assert(planned(v).take(base.len() as int) == base);
    assert(planned(v)[base.len() - 1] == base[base.len() - 1]);
    assert(planned(v)[base.len() - 2] == base[base.len() - 2]);
    if 0 <= k < system.len() {
        assert(planned(v)[k] == base[k]);
        assert(base[k] == system[k]);
    }
    if 0 <= k < extra_tools@.len() {
        assert(extra_tools@[k]@ == planned(v)[base.len() + k].0);
    }
    if 0 <= k < 7 && present@[k] {
        let i = choose|i: int| 0 <= i < system.len() && (#[trigger] system[i]).1 == system_inputs()[k];
        assert(planned(v)[i] == base[i]);
        assert(base[i] == system[i]);
        assert(v[i].target@ == system_inputs()[k]);
    }
}

proof fn lemma_present_system(present: Seq<bool>, n: int)
    requires
        0 <= n <= 7,
        present.len() == 7,
    ensures
        present_system(present, n).len() <= n,
        forall|j: int|
            #![trigger present_system(present, n)[j]]
            0 <= j < present_system(present, n).len() ==> present_system(present, n)[j].0
                == bytes::encoded(present_system(present, n)[j].1) && exists|i: int|
                0 <= i < n && present[i] && present_system(present, n)[j].1
                    == #[trigger] system_inputs()[i],
        forall|i: int|
            0 <= i < n && #[trigger] present[i] ==> exists|j: int|
                0 <= j < present_system(present, n).len() && (#[trigger] present_system(
                    present,
                    n,
                )[j]).1 == system_inputs()[i],
    decreases n,
{
    if n > 0 {
        lemma_present_system(present, n - 1);
        let before = present_system(present, n - 1);
        let now = present_system(present, n);
        assert forall|j: int| 0 <= j < now.len() implies (#[trigger] now[j]).0 == bytes::encoded(
            now[j].1,
        ) && exists|i: int| 0 <= i < n && present[i] && now[j].1 == #[trigger] system_inputs()[i] by {
            if j < before.len() {
                assert(now[j] == before[j]);
                let i = choose|i: int|
                    0 <= i < n - 1 && present[i] && before[j].1 == #[trigger] system_inputs()[i];
                assert(now[j].1 == system_inputs()[i]);
            } else {
                assert(now[j].1 == system_inputs()[n - 1]);
            }
        }
        assert forall|i: int| 0 <= i < n && #[trigger] present[i] implies exists|j: int|
            0 <= j < now.len() && (#[trigger] now[j]).1 == system_inputs()[i] by {
            if i < n - 1 {
                let j = choose|j: int|
                    0 <= j < before.len() && (#[trigger] before[j]).1 == system_inputs()[i];
                assert(now[j] == before[j]);
            } else {
                assert(now[now.len() - 1].1 == system_inputs()[i]);
            }
        }
    }
}

/// An alias is made where the host has the same link and what it leads to is shown; a
/// host without the link gets none, and anything else there is refused.
pub proof fn law_aliases_lead_where_the_host_leads(
    found: AliasFound,
    target: &str,
    inputs: &[MountInput],
    k: int,
    r: Result<bool, ExecutionDomainError>,
)
    requires
        call_ensures(alias_made, (&found, target, inputs), r),
    ensures
        found is Missing ==> r == Ok::<bool, ExecutionDomainError>(false),
        found is Other ==> r is Err,
        found is Link && host_path::components(found->Link_0@) == text_components(target@) && 0 <= k
            < inputs@.len() && inputs@[k].target@ == target@ ==> r == Ok::<
            bool,
            ExecutionDomainError,
        >(true),
        r == Ok::<bool, ExecutionDomainError>(true) ==> found is Link && host_path::components(
            found->Link_0@,
        ) == text_components(target@) && exists|i: int|
            0 <= i < inputs@.len() && (#[trigger] inputs@[i]).target@ == target@,
        found is Link && (forall|i: int|
            0 <= i < inputs@.len() ==> (#[trigger] inputs@[i]).target@ != target@) ==> r is Err,
{
}

/// Every alias leads to the directory of its own name below the system's.
pub proof fn law_aliases_keep_their_names(r: Vec<Alias>, i: int)
    requires
        call_ensures(alias_list, (), r),
        0 <= i < r@.len(),
    ensures
        r@.len() == 4,
        r@[i].target@ == "/usr/"@ + r@[i].name@,
        system_inputs().contains(r@[i].target@),
{
    assert(alias_names(r@).len() == 4);
    assert(alias_names(r@)[i] == (r@[i].name@, r@[i].target@));
    reveal_strlit("/usr/");
    reveal_strlit("bin");
    reveal_strlit("sbin");
    reveal_strlit("lib");
    reveal_strlit("lib64");
    reveal_strlit("/usr/bin");
    reveal_strlit("/usr/sbin");
    reveal_strlit("/usr/lib");
    reveal_strlit("/usr/lib64");
    assert(r@[i].target@ =~= "/usr/"@ + r@[i].name@);
    assert(system_inputs()[0] == "/usr/bin"@ && system_inputs()[1] == "/usr/sbin"@
        && system_inputs()[2] == "/usr/lib"@ && system_inputs()[3] == "/usr/lib64"@);
}

/// A device is the one of its name where it is a character device of the first major
/// number with the minor number that the kernel gives that name.
pub proof fn law_devices_have_their_numbers(
    name: &str,
    mode: u32,
    device: u64,
    r: Result<(), ExecutionDomainError>,
)
    requires
        call_ensures(check_device, (name, mode, device), r),
        device < 65536,
    ensures
        r is Ok <==> mode / 4096 % 16 == 2 && ({
            ||| name@ == "null"@ && device == 256 + 3
            ||| name@ == "zero"@ && device == 256 + 5
            ||| name@ == "full"@ && device == 256 + 7
            ||| name@ == "random"@ && device == 256 + 8
            ||| name@ == "urandom"@ && device == 256 + 9
        }),
{
    reveal_strlit("null");
    reveal_strlit("zero");
    reveal_strlit("full");
    reveal_strlit("random");
    reveal_strlit("urandom");
    assert("null"@[0] == 'n' && "zero"@[0] == 'z' && "full"@[0] == 'f');
    assert((mode & 0o170000 == 0o020000) == (mode / 4096 % 16 == 2)) by (bit_vector);
    let major = ((device & 0x0000_0000_000f_ff00) >> 8 | (device & 0xffff_f000_0000_0000) >> 32) as u32;
    let minor = (device & 0x0000_0000_0000_00ff | (device & 0x0000_0fff_fff0_0000) >> 12) as u32;
    assert(major == device / 256) by (bit_vector)
        requires
            device < 65536,
            major == ((device & 0x0000_0000_000f_ff00) >> 8 | (device & 0xffff_f000_0000_0000)
                >> 32) as u32,
    ;
    assert(minor == device % 256) by (bit_vector)
        requires
            device < 65536,
            minor == (device & 0x0000_0000_0000_00ff | (device & 0x0000_0fff_fff0_0000)
                >> 12) as u32,
    ;
    assert(forall|m: u32| #[trigger]
        device_is(device, 1, m) <==> major == 1 && minor == m);
    assert("null"@ != "zero"@ && "null"@ != "full"@ && "zero"@ != "full"@);
    assert("null"@.len() == 4 && "zero"@.len() == 4 && "full"@.len() == 4 && "random"@.len() == 6
        && "urandom"@.len() == 7);
    assert(device_minor(name@) matches Some(m) ==> m == 3 || m == 5 || m == 7 || m == 8 || m == 9);
    assert(name@ == "zero"@ ==> device_minor(name@) == Some(5u32));
    assert(name@ == "full"@ ==> device_minor(name@) == Some(7u32));
    assert(name@ == "random"@ ==> device_minor(name@) == Some(8u32));
    assert(name@ == "urandom"@ ==> device_minor(name@) == Some(9u32));
}

/// No mount that is made lets a program change who it runs as; the staging root lets no
/// device be opened, and what covers others lets nothing be done.
pub proof fn law_mounts_are_made_restricted(
    plan: Vec<KernelStep<&'static str>>,
    i: int,
    staging: (u64, &'static str),
    cover: (u64, &'static str),
)
    requires
        call_ensures(kernel_plan, (), plan),
        0 <= i < plan@.len(),
        call_ensures(staging_options, (), staging),
        call_ensures(cover_options, (), cover),
    ensures
        plan@[i] matches KernelStep::Mount { flags, .. } ==> flags / 2 % 2 == 1 && flags / 8 % 2
            == 1,
        plan@[i] matches KernelStep::Mount { place, flags, .. } ==> (flags / 4 % 2 == 1 <==> !(
        place@ == "dev"@ || place@ == "dev/pts"@)),
        staging.0 == 6 && staging.1@ == "mode=0755"@,
        cover.0 == 14 && cover.1@ == "mode=000"@,
{
    assert(kernel_steps(plan@).len() == 22);
    assert(kernel_steps(plan@)[i] == kernel_step_view(plan@[i]));
    assert(2u64 | 4u64 | 8u64 == 14u64) by (bit_vector);
    assert(2u64 | 8u64 == 10u64) by (bit_vector);
    assert(2u64 | 4u64 == 6u64) by (bit_vector);
    assert(QUIET == 14 && DEVICES == 10);
    assert(14u64 / 2 % 2 == 1 && 14u64 / 4 % 2 == 1 && 14u64 / 8 % 2 == 1);
    assert(10u64 / 2 % 2 == 1 && 10u64 / 4 % 2 == 0 && 10u64 / 8 % 2 == 1);
    reveal_strlit("proc");
    reveal_strlit("dev");
    reveal_strlit("dev/pts");
    reveal_strlit("dev/shm");
    assert("dev/pts"@[4] == 'p' && "dev/shm"@[4] == 's');
    assert("dev"@.len() == 3 && "proc"@.len() == 4 && "dev/pts"@.len() == 7 && "dev/shm"@.len()
        == 7);
    if plan@[i] is Mount {
        let place = plan@[i]->Mount_place@;
        let flags = plan@[i]->flags;
        assert(kernel_view()[i] == kernel_step_view(plan@[i]));
        assert(i == 0 || i == 1 || i == 7 || i == 8);
        assert(i == 0 ==> place == "proc"@ && flags == 14);
        assert(i == 1 ==> place == "dev"@ && flags == 10);
        assert(i == 7 ==> place == "dev/pts"@ && flags == 10);
        assert(i == 8 ==> place == "dev/shm"@ && flags == 14);
    }
}

/// The files of the kernel come first, the devices after the directory that holds them;
/// what could change the host is covered once the kernel's files are there; and the
/// devices are sealed last, read-only and without programs.
pub proof fn law_kernel_files_come_in_order(plan: Vec<KernelStep<&'static str>>, i: int)
    requires
        call_ensures(kernel_plan, (), plan),
        0 <= i < plan@.len(),
    ensures
        plan@.len() == 22,
        plan@[0] matches KernelStep::Mount { place, filesystem, .. } && place@ == "proc"@
            && filesystem@ == "proc"@,
        plan@[1] matches KernelStep::Mount { place, filesystem, .. } && place@ == "dev"@
            && filesystem@ == "tmpfs"@,
        plan@[i] is Device <==> 2 <= i < 7,
        plan@[i] is Link <==> 9 <= i < 14,
        plan@[i] is Cover <==> 14 <= i < 21,
        plan@[i] is Seal <==> i == 21,
        plan@[21] matches KernelStep::Seal { place, readonly, nodev, noexec } && place@ == "dev"@
            && readonly && !nodev && noexec,
        plan@[i] matches KernelStep::Cover { place } ==> "proc/"@.is_prefix_of(place@),
{
    assert(kernel_steps(plan@).len() == 22);
    assert(kernel_steps(plan@)[i] == kernel_step_view(plan@[i]));
    assert(kernel_steps(plan@)[0] == kernel_step_view(plan@[0]));
    assert(kernel_steps(plan@)[1] == kernel_step_view(plan@[1]));
    assert(kernel_steps(plan@)[21] == kernel_step_view(plan@[21]));
    reveal_strlit("proc/");
    reveal_strlit("proc/sys");
    reveal_strlit("proc/sysrq-trigger");
    reveal_strlit("proc/kcore");
    reveal_strlit("proc/keys");
    reveal_strlit("proc/timer_list");
    reveal_strlit("proc/acpi");
    reveal_strlit("proc/scsi");
    if plan@[i] is Cover {
        let place = plan@[i]->Cover_place@;
        assert(place.take(5) =~= "proc/"@);
    }
}

/// Every device that is bound is one that is checked by its numbers: the five that every
/// program may use, each once.
pub proof fn law_plain_devices_are_bound(plan: Vec<KernelStep<&'static str>>)
    requires
        call_ensures(kernel_plan, (), plan),
    ensures
        plan@[2] matches KernelStep::Device { name } && name@ == "null"@,
        plan@[3] matches KernelStep::Device { name } && name@ == "zero"@,
        plan@[4] matches KernelStep::Device { name } && name@ == "full"@,
        plan@[5] matches KernelStep::Device { name } && name@ == "random"@,
        plan@[6] matches KernelStep::Device { name } && name@ == "urandom"@,
        plan@[14] matches KernelStep::Cover { place } && place@ == "proc/sys"@,
        plan@[15] matches KernelStep::Cover { place } && place@ == "proc/sysrq-trigger"@,
        plan@[16] matches KernelStep::Cover { place } && place@ == "proc/kcore"@,
        plan@[17] matches KernelStep::Cover { place } && place@ == "proc/keys"@,
        plan@[18] matches KernelStep::Cover { place } && place@ == "proc/timer_list"@,
        plan@[19] matches KernelStep::Cover { place } && place@ == "proc/acpi"@,
        plan@[20] matches KernelStep::Cover { place } && place@ == "proc/scsi"@,
{
    assert forall|i: int| 0 <= i < plan@.len() implies kernel_step_view(#[trigger] plan@[i])
        == kernel_view()[i] by {
        assert(kernel_steps(plan@)[i] == kernel_step_view(plan@[i]));
    }
    assert(plan@.len() == kernel_steps(plan@).len());
}

/// A mount of the domain's own is sealed with the flags that its mount line will show:
/// never with leave to change who runs, and with each of the others where it is asked.
pub proof fn law_flags_say_what_is_asked(readonly: bool, nodev: bool, noexec: bool, r: u64)
    requires
        call_ensures(attribute_flags, (readonly, nodev, noexec), r),
    ensures
        r % 2 == 1 <==> readonly,
        r / 2 % 2 == 1,
        r / 4 % 2 == 1 <==> nodev,
        r / 8 == 1 <==> noexec,
        r < 16,
{
}

/// Every descriptor above the standard ones is closed but the one for control.
pub proof fn law_other_descriptors_are_closed(
    control: i32,
    fd: u32,
    r: Result<(Option<(u32, u32)>, (u32, u32)), ExecutionDomainError>,
)
    requires
        call_ensures(descriptor_ranges, (control,), r),
    ensures
        r is Ok <==> control >= 3,
        r matches Ok(ranges) ==> ({
            let (below, above) = ranges;
            let closed = (below matches Some(range) && range.0 <= fd <= range.1) || above.0 <= fd
                <= above.1;
            &&& closed <==> fd >= 3 && fd != control
            &&& below matches Some(range) ==> range.0 <= range.1
        }),
{
}

/// A root is assembled by the first process of a domain alone, with mounts of its own.
pub proof fn law_roots_are_assembled_by_the_first_process(
    pid: i32,
    threads: usize,
    own: u64,
    first: u64,
    r: Result<(), ExecutionDomainError>,
)
    requires
        call_ensures(check_assembling, (pid, threads, own, first), r),
    ensures
        r is Ok <==> pid == 1 && threads == 1 && own != first,
{
}

/// A process is where it should be: with the domain's mounts and processes, its first
/// process too, at the root and with no way back to the old one.
pub proof fn law_surroundings_are_the_domains(
    s: Surroundings,
    mounts: u64,
    pids: u64,
    r: Result<(), ExecutionDomainError>,
)
    requires
        call_ensures(check_surroundings, (&s, mounts, pids), r),
    ensures
        r is Ok <==> s.own_mounts == mounts && s.first_mounts == mounts && s.own_pids == pids
            && s.first_pids == pids && host_path::components(s.directory@) == text_components("/"@)
            && host_path::components(s.root@) == text_components("/"@) && !s.old_root,
{
}

/// An open descriptor is a standard one that leads nowhere, or the one for control; one
/// that is closed does not matter.
pub proof fn law_descriptors_lead_nowhere(
    number: Option<i32>,
    open: bool,
    control: i32,
    link: &[u8],
    r: Result<(), ExecutionDomainError>,
)
    requires
        call_ensures(check_descriptor, (number, open, control, link), r),
    ensures
        number is None ==> r is Err,
        number is Some && !open ==> r is Ok,
        number is Some && open && number->0 > 2 ==> (r is Ok <==> number->0 == control),
        number is Some && open && number->0 <= 2 ==> (r is Ok <==> host_path::components(link@)
            == text_components("/dev/null"@)),
{
}

/// A root is assembled in one order: the inputs are held before any mount changes and
/// bound before they are let go, the root turns before the old one goes and before it is
/// made read-only, and the mounts are verified last.
pub proof fn law_roots_are_assembled_in_order(step: AssemblyStep, r: Option<AssemblyStep>)
    requires
        call_ensures(AssemblyStep::next, (step,), r),
    ensures
        step is CheckProcess ==> r == Some(AssemblyStep::ValidatePlan),
        step is ValidatePlan ==> r == Some(AssemblyStep::PinInputs),
        step is PinInputs ==> r == Some(AssemblyStep::FindAliases),
        step is FindAliases ==> r == Some(AssemblyStep::MakeMountsPrivate),
        step is MakeMountsPrivate ==> r == Some(AssemblyStep::MountStaging),
        step is MountStaging ==> r == Some(AssemblyStep::BindInputs),
        step is BindInputs ==> r == Some(AssemblyStep::DropPins),
        step is DropPins ==> r == Some(AssemblyStep::MakeAliases),
        step is MakeAliases ==> r == Some(AssemblyStep::WriteEtc),
        step is WriteEtc ==> r == Some(AssemblyStep::SetHostname),
        step is SetHostname ==> r == Some(AssemblyStep::SetModes),
        step is SetModes ==> r == Some(AssemblyStep::MountKernelFiles),
        step is MountKernelFiles ==> r == Some(AssemblyStep::Pivot),
        step is Pivot ==> r == Some(AssemblyStep::LetOldRootGo),
        step is LetOldRootGo ==> r == Some(AssemblyStep::MakeRootReadonly),
        step is MakeRootReadonly ==> r == Some(AssemblyStep::CloseDescriptors),
        step is CloseDescriptors ==> r == Some(AssemblyStep::VerifyMounts),
        step is VerifyMounts ==> r is None,
{
}

/// What is covered shows an empty file system where it was a directory, and is always
/// read-only, without devices and without programs; what is missing needs no cover.
pub proof fn law_covers_show_nothing(
    found: Covered,
    target: &str,
    host: &[MountLine],
    r: Result<Option<ExpectedMount>, ExecutionDomainError>,
)
    requires
        call_ensures(covering_mount, (found, target, host), r),
    ensures
        found is Missing <==> r == Ok::<Option<ExpectedMount>, ExecutionDomainError>(None),
        found is Directory ==> (r matches Ok(Some(e)) && e.filesystem@ == "tmpfs"@ && e.root@
            == text_components("/"@)),
        r matches Ok(Some(e)) ==> e.readonly && e.nodev && e.noexec && e.target@ == text_components(
            target@,
        ),
        r is Err ==> found is File,
{
}

/// A covered file and a bound device show the same thing of the host: a file that is
/// covered shows the device that is nothing, sealed where the device itself is not.
pub proof fn law_covered_files_show_the_null_device(
    target: &str,
    name: &str,
    host: &[MountLine],
    covered: Result<Option<ExpectedMount>, ExecutionDomainError>,
    device: Result<ExpectedMount, ExecutionDomainError>,
)
    requires
        name@ == "null"@,
        call_ensures(covering_mount, (Covered::File, target, host), covered),
        call_ensures(device_mount, (name, host), device),
    ensures
        covered is Ok <==> device is Ok,
        device matches Ok(d) ==> (covered matches Ok(Some(c)) && c.root@ == d.root@ && c.filesystem@
            == d.filesystem@ && !d.readonly && !d.nodev && d.noexec && d.target@ == text_components(
            "/dev/null"@,
        )),
{
    reveal_strlit("/dev/");
    reveal_strlit("null");
    reveal_strlit("/dev/null");
    assert("/dev/"@ + "null"@ =~= "/dev/null"@);
}

/// The domain's own mounts show whole file systems; the root and the devices cannot be
/// written, only the devices' mounts let devices be opened, and only the root programs.
pub proof fn law_own_mounts_are_restricted(r: Vec<ExpectedMount>, i: int)
    requires
        call_ensures(own_mounts, (), r),
        0 <= i < r@.len(),
    ensures
        r@.len() == 5,
        r@[i].root@ == text_components("/"@),
        r@[0].target@ == text_components("/"@) && r@[0].filesystem@ == "tmpfs"@,
        r@[1].target@ == text_components("/proc"@) && r@[1].filesystem@ == "proc"@,
        r@[2].target@ == text_components("/dev"@) && r@[2].filesystem@ == "tmpfs"@,
        r@[3].target@ == text_components("/dev/pts"@) && r@[3].filesystem@ == "devpts"@,
        r@[4].target@ == text_components("/dev/shm"@) && r@[4].filesystem@ == "tmpfs"@,
        r@[i].readonly <==> i == 0 || i == 2,
        r@[i].nodev <==> i == 0 || i == 1 || i == 4,
        r@[i].noexec <==> i != 0,
{
}

/// Everyone may use the directory for temporary files and only remove their own; the
/// others are the user's alone.
pub proof fn law_modes_keep_others_out(r: Vec<PlaceMode>, i: int)
    requires
        call_ensures(mode_list, (), r),
        0 <= i < r@.len(),
    ensures
        r@.len() == 3,
        r@[0].place@ == "tmp"@ && r@[1].place@ == "home/chimera"@ && r@[2].place@ == "run/chimera"@,
        r@[i].mode == (if i == 0 {
            1023
        } else {
            448int
        }),
{
    assert(place_modes(r@).len() == 3);
    assert(place_modes(r@)[i] == (r@[i].place@, r@[i].mode));
    assert(place_modes(r@)[0] == (r@[0].place@, r@[0].mode));
    assert(place_modes(r@)[1] == (r@[1].place@, r@[1].mode));
    assert(place_modes(r@)[2] == (r@[2].place@, r@[2].mode));
}

/// Copies of a plan and of its inputs hold the same.
pub proof fn law_copied_plans_hold_the_same(plan: RootfsPlan, copy: RootfsPlan, i: int)
    requires
        call_ensures(RootfsPlan::clone, (&plan,), copy),
        0 <= i < plan.inputs@.len(),
    ensures
        copy.staging_root@ == plan.staging_root@,
        copy.inputs@.len() == plan.inputs@.len(),
        copy.inputs@[i].source@ == plan.inputs@[i].source@,
        copy.inputs@[i].target@ == plan.inputs@[i].target@,
        copy.inputs@[i].readonly == plan.inputs@[i].readonly,
        copy.inputs@[i].expected_device == plan.inputs@[i].expected_device,
        copy.inputs@[i].expected_inode == plan.inputs@[i].expected_inode,
        copy.inputs@[i].immutable_fingerprint == plan.inputs@[i].immutable_fingerprint,
{
    assert(copy.inputs@[i].same_as(plan.inputs@[i]));
}

} // verus!
