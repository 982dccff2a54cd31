//! What a command of the workflow may do once it runs: the files it reaches, the
//! capabilities it keeps, and the system calls it can make.

use vstd::prelude::*;

use crate::contracts::{FailureCategory, Stage};
use crate::error::ExecutionDomainError;
use crate::text;

verus! {

/// Read files and list directories.
pub const READ: u64 = 12;

/// Execute files.
pub const EXECUTE: u64 = 1;

/// Everything but to make devices, character or block.
pub const WRITE: u64 = 0x77bf;

/// Every right that the rules speak of.
pub const HANDLED: u64 = 0x7fff;

/// The rights that mean something for a file that is no directory.
pub const FILE_RIGHTS: u64 = 0x4007;

/// The settings under which the administrator gets no capability, and which nobody
/// can change again.
pub const SECUREBITS: u64 = 15;

/// The flags of a new process that ask for a new namespace.
pub const NEW_NAMESPACES: u32 = 0x7e02_0080;

/// The capabilities that the first process of a domain keeps: to set groups, and to
/// give up capabilities.
pub const INIT_CAPABILITIES: u64 = 384;

/// The smallest version of the file rules that is enough.
pub const MIN_LANDLOCK: i64 = 3;

/// A system call is allowed.
pub const ALLOW: u32 = 0x7fff_0000;

/// The process is killed.
pub const KILL: u32 = 0x8000_0000;

/// The system call is refused.
pub const REFUSE: u32 = 0x0005_0001;

/// The system call is said not to exist.
pub const ABSENT: u32 = 0x0005_0026;

/// The bit of a system call number that stands for the other calling convention.
pub const OTHER_CONVENTION: u32 = 0x4000_0000;

/// A failure of the hardening, with what the last system call said.
pub open spec fn hardening_error(category: FailureCategory, errno: Option<i32>) -> ExecutionDomainError {
    ExecutionDomainError::Backend { attempt: None, stage: Stage::Command, category, errno }
}

/// Reports a failure of the hardening.
pub fn failure(category: FailureCategory, errno: Option<i32>) -> (e: ExecutionDomainError)
    ensures
        e == hardening_error(category, errno),
{
    ExecutionDomainError::Backend { attempt: None, stage: Stage::Command, category, errno }
}

/// What the result of a system call means.
pub fn checked(result: i64, errno: Option<i32>) -> (r: Result<i64, ExecutionDomainError>)
    ensures
        r == (if result < 0 {
            Err::<i64, ExecutionDomainError>(hardening_error(FailureCategory::Io, errno))
        } else {
            Ok(result)
        }),
{
    if result < 0 {
        Err(failure(FailureCategory::Io, errno))
    } else {
        Ok(result)
    }
}

/// Accepts the version of the file rules.
pub fn landlock_abi(abi: i64, errno: Option<i32>) -> (r: Result<(), ExecutionDomainError>)
    ensures
        r == (if abi < MIN_LANDLOCK {
            Err::<(), ExecutionDomainError>(hardening_error(FailureCategory::Unsupported, errno))
        } else {
            Ok(())
        }),
{
    if abi < MIN_LANDLOCK {
        return Err(failure(FailureCategory::Unsupported, errno));
    }
    Ok(())
}

/// Whether the process has no supplementary groups: they were given up, or there are
/// none and none can be set.
pub fn clear_groups(set: i32, remaining: i32, errno: Option<i32>) -> (r: Result<
    (),
    ExecutionDomainError,
>)
    ensures
        r == (if set == 0 || remaining == 0 {
            Ok::<(), ExecutionDomainError>(())
        } else {
            Err(hardening_error(FailureCategory::Unavailable, errno))
        }),
{
    if set == 0 || remaining == 0 {
        return Ok(());
    }
    Err(failure(FailureCategory::Unavailable, errno))
}

/// What to do about one capability of the bounding set.
#[derive(Debug, Clone, Copy, PartialEq, Eq, Structural)]
pub enum BoundingStep {
    /// The system knows no such capability, nor any after it.
    Finished,
    Drop,
    Keep,
}

/// The error number for an argument that the system does not know.
pub const EINVAL: i32 = 22;

/// Decides about one capability, given what asking for it gave. A system that knows
/// more capabilities than there are bits is not supported.
pub fn bounding_step(capability: u32, present: i64, errno: Option<i32>, keep: u64) -> (r: Result<
    BoundingStep,
    ExecutionDomainError,
>)
    ensures
        r == (if capability >= 64 {
            Err::<BoundingStep, ExecutionDomainError>(
                hardening_error(FailureCategory::Unsupported, errno),
            )
        } else if present < 0 {
            if errno == Some(EINVAL) {
                Ok(BoundingStep::Finished)
            } else {
                Err(hardening_error(FailureCategory::Io, errno))
            }
        } else if keep & (1u64 << capability) == 0 {
            Ok(BoundingStep::Drop)
        } else {
            Ok(BoundingStep::Keep)
        }),
{
    if capability >= 64 {
        return Err(failure(FailureCategory::Unsupported, errno));
    }
    if present < 0 {
        match errno {
            Some(number) => {
                if number == EINVAL {
                    return Ok(BoundingStep::Finished);
                }
            },
            None => {},
        }
        return Err(failure(FailureCategory::Io, errno));
    }
    if keep & (1u64 << capability) == 0 {
        Ok(BoundingStep::Drop)
    } else {
        Ok(BoundingStep::Keep)
    }
}

/// The two words in which a set of capabilities is handed to the system.
pub fn capability_words(mask: u64) -> (r: (u32, u32))
    ensures
        r.0 == mask % 0x1_0000_0000,
        r.1 == mask / 0x1_0000_0000,
{
    let low: u64 = mask % 0x1_0000_0000;
    let high: u64 = mask / 0x1_0000_0000;
    (low as u32, high as u32)
}

/// The steps by which a command gives up its rights, in order.
#[derive(Debug, Clone, Copy, PartialEq, Eq, Structural)]
pub enum HardeningStep {
    CloseDescriptors,
    ClearGroups,
    ClearAmbient,
    DropBounding,
    SetSecureBits,
    DropCapabilities,
    SetNoNewPrivileges,
    RestrictFilesystem,
    InstallFilter,
}

impl HardeningStep {
    /// The place of the step in the order.
    pub open spec fn rank(self) -> int {
        match self {
            HardeningStep::CloseDescriptors => 0,
            HardeningStep::ClearGroups => 1,
            HardeningStep::ClearAmbient => 2,
            HardeningStep::DropBounding => 3,
            HardeningStep::SetSecureBits => 4,
            HardeningStep::DropCapabilities => 5,
            HardeningStep::SetNoNewPrivileges => 6,
            HardeningStep::RestrictFilesystem => 7,
            HardeningStep::InstallFilter => 8,
        }
    }

    /// The step after this one. The capability that the settings need is given up
    /// only after they were made, and the filter, which would refuse the other
    /// steps, comes last.
    pub fn next(self) -> (r: Option<HardeningStep>)
        ensures
            match r {
                Some(n) => n.rank() == self.rank() + 1,
                None => self == HardeningStep::InstallFilter,
            },
    {
        match self {
            HardeningStep::CloseDescriptors => Some(HardeningStep::ClearGroups),
            HardeningStep::ClearGroups => Some(HardeningStep::ClearAmbient),
            HardeningStep::ClearAmbient => Some(HardeningStep::DropBounding),
            HardeningStep::DropBounding => Some(HardeningStep::SetSecureBits),
            HardeningStep::SetSecureBits => Some(HardeningStep::DropCapabilities),
            HardeningStep::DropCapabilities => Some(HardeningStep::SetNoNewPrivileges),
            HardeningStep::SetNoNewPrivileges => Some(HardeningStep::RestrictFilesystem),
            HardeningStep::RestrictFilesystem => Some(HardeningStep::InstallFilter),
            HardeningStep::InstallFilter => None,
        }
    }
}

/// A path below which a command has the given rights.
pub struct PathRule {
    pub path: String,
    pub access: u64,
}

/// A path and the rights below it.
pub open spec fn rules(v: Seq<PathRule>) -> Seq<(Seq<char>, u64)> {
    Seq::new(v.len(), |i: int| (v[i].path@, v[i].access))
}

/// A path of the root file system, and whether it is read-only.
pub struct WorkflowPath {
    pub path: String,
    pub readonly: bool,
}

/// The rights below a path of the root file system.
pub open spec fn workflow_rule(path: Seq<char>, readonly: bool) -> (Seq<char>, u64) {
    (
        path,
        if readonly {
            13u64
        } else {
            WRITE
        },
    )
}

/// The rights below the paths of the root file system, but for the groups.
pub open spec fn workflow_rules(v: Seq<WorkflowPath>) -> Seq<(Seq<char>, u64)>
    decreases v.len(),
{
    if v.len() == 0 {
        seq![]
    } else {
        let before = workflow_rules(v.drop_last());
        if v.last().path@ == "/sys/fs/cgroup"@ {
            before
        } else {
            before.push(workflow_rule(v.last().path@, v.last().readonly))
        }
    }
}

/// The rights that every command has.
pub open spec fn common_rules() -> Seq<(Seq<char>, u64)> {
    seq![
        ("/etc"@, READ),
        ("/proc"@, READ),
        ("/sys"@, READ),
        ("/dev/null"@, 6u64),
        ("/dev/zero"@, 6u64),
        ("/dev/full"@, 6u64),
        ("/dev/random"@, 6u64),
        ("/dev/urandom"@, 6u64),
        ("/dev/pts"@, 14u64),
        ("/dev/shm"@, WRITE),
    ]
}

/// Whether a path can be handed to the system.
pub open spec fn passable(path: Seq<char>) -> bool {
    !path.contains('\0')
}

/// Whether every path that gets a rule can be handed to the system.
pub open spec fn all_passable(v: Seq<WorkflowPath>) -> bool {
    forall|i: int|
        0 <= i < v.len() ==> (#[trigger] v[i]).path@ == "/sys/fs/cgroup"@ || passable(v[i].path@)
}

fn has_nul(path: &str) -> (r: bool)
    ensures
        r == !passable(path@),
{
    let chars: Vec<char> = text::chars(path);
    for i in 0..chars.len()
        invariant
            chars@ == path@,
            forall|k: int| 0 <= k < i ==> path@[k] != '\0',
    {
        if chars[i] == '\0' {
            assert(path@[i as int] == '\0');
            return true;
        }
    }
    false
}

fn push_rule(list: &mut Vec<PathRule>, path: &str, access: u64)
    ensures
        rules(final(list)@) == rules(old(list)@).push((path@, access)),
{
    let ghost before = list@;
    list.push(PathRule { path: path.to_owned(), access });
    proof {
        assert(rules(list@) =~= rules(before).push((path@, access)));
    }
}

fn add_common(list: &mut Vec<PathRule>)
    ensures
        rules(final(list)@) == rules(old(list)@) + common_rules(),
{
    let ghost before = rules(list@);
    push_rule(list, "/etc", READ);
    push_rule(list, "/proc", READ);
    push_rule(list, "/sys", READ);
    push_rule(list, "/dev/null", 6);
    push_rule(list, "/dev/zero", 6);
    push_rule(list, "/dev/full", 6);
    push_rule(list, "/dev/random", 6);
    push_rule(list, "/dev/urandom", 6);
    push_rule(list, "/dev/pts", 14);
    push_rule(list, "/dev/shm", WRITE);
    proof {
        assert(rules(list@) =~= before + common_rules());
    }
}

/// What a command of the workflow may do.
pub struct ChildPolicy {
    pub paths: Vec<PathRule>,
    pub seccomp: SeccompPolicy,
}

impl ChildPolicy {
    /// The policy for a root file system on a machine.
    pub fn workflow(
        abi: i64,
        errno: Option<i32>,
        machine: &str,
        paths: &[WorkflowPath],
    ) -> (r: Result<ChildPolicy, ExecutionDomainError>)
        ensures
            match r {
                Ok(p) => abi >= MIN_LANDLOCK && all_passable(paths@) && rules(p.paths@)
                    == workflow_rules(paths@) + common_rules() && architecture(machine@) == Some(
                    p.seccomp.arch,
                ) && p.seccomp.filter@ == program(p.seccomp.arch),
                Err(e) => e == hardening_error(
                    if abi < MIN_LANDLOCK {
                        FailureCategory::Unsupported
                    } else if !all_passable(paths@) {
                        FailureCategory::InvalidInput
                    } else {
                        FailureCategory::Unsupported
                    },
                    errno,
                ) && (abi < MIN_LANDLOCK || !all_passable(paths@) || architecture(
                    machine@,
                ) is None),
            },
    {
        match landlock_abi(abi, errno) {
            Ok(_) => {},
            Err(e) => {
                return Err(e);
            },
        }
        let mut list: Vec<PathRule> = Vec::new();
        proof {
            assert(rules(list@) =~= seq![]);
            assert(paths@.take(0) =~= seq![]);
        }
        for i in 0..paths.len()
            invariant
                abi >= MIN_LANDLOCK,
                rules(list@) == workflow_rules(paths@.take(i as int)),
                forall|k: int|
                    0 <= k < i ==> (#[trigger] paths@[k]).path@ == "/sys/fs/cgroup"@ || passable(
                        paths@[k].path@,
                    ),
        {
            proof {
                assert(paths@.take(i + 1).drop_last() =~= paths@.take(i as int));
                assert(paths@.take(i + 1).last() == paths@[i as int]);
            }
            let entry: &WorkflowPath = &paths[i];
            if !text::same_str(entry.path.as_str(), "/sys/fs/cgroup") {
                if has_nul(entry.path.as_str()) {
                    proof {
                        assert(!(paths@[i as int].path@ == "/sys/fs/cgroup"@ || passable(
                            paths@[i as int].path@,
                        )));
                    }
                    return Err(failure(FailureCategory::InvalidInput, errno));
                }
                push_rule(
                    &mut list,
                    entry.path.as_str(),
                    if entry.readonly {
                        13
                    } else {
                        WRITE
                    },
                );
            }
        }
        proof {
            assert(paths@.take(paths@.len() as int) =~= paths@);
        }
        add_common(&mut list);
        match SeccompPolicy::native(machine, errno) {
            Ok(seccomp) => Ok(ChildPolicy { paths: list, seccomp }),
            Err(e) => Err(e),
        }
    }
}

/// The rights of a rule, cut down to what means something for the file it is about.
pub open spec fn granted(access: u64, is_directory: bool) -> u64 {
    if is_directory {
        access
    } else {
        access & FILE_RIGHTS
    }
}

/// The rights of a rule, cut down to what means something for the file it is about.
pub fn rule_access(access: u64, is_directory: bool) -> (r: u64)
    ensures
        r == granted(access, is_directory),
{
    if is_directory {
        access
    } else {
        access & FILE_RIGHTS
    }
}

/// The rules for the root file system give one of two sets of rights, and none is
/// about the groups.
proof fn lemma_workflow_rules(v: Seq<WorkflowPath>)
    ensures
        forall|i: int|
            0 <= i < workflow_rules(v).len() ==> {
                let rule = #[trigger] workflow_rules(v)[i];
                (rule.1 == 13 || rule.1 == WRITE) && rule.0 != "/sys/fs/cgroup"@
            },
    decreases v.len(),
{
    if v.len() > 0 {
        lemma_workflow_rules(v.drop_last());
        let before = workflow_rules(v.drop_last());
        assert forall|i: int| 0 <= i < workflow_rules(v).len() implies {
            let rule = #[trigger] workflow_rules(v)[i];
            (rule.1 == 13 || rule.1 == WRITE) && rule.0 != "/sys/fs/cgroup"@
        } by {
            if i < before.len() {
                assert(workflow_rules(v)[i] == before[i]);
            }
        }
    }
}

/// The rules that every command has give one of four sets of rights, and none is about
/// the groups.
proof fn lemma_common_rules()
    ensures
        forall|i: int|
            0 <= i < common_rules().len() ==> {
                let rule = #[trigger] common_rules()[i];
                (rule.1 == READ || rule.1 == 6 || rule.1 == 14 || rule.1 == WRITE) && rule.0
                    != "/sys/fs/cgroup"@
            },
{
    reveal_strlit("/sys/fs/cgroup");
    reveal_strlit("/etc");
    reveal_strlit("/proc");
    reveal_strlit("/sys");
    reveal_strlit("/dev/null");
    reveal_strlit("/dev/zero");
    reveal_strlit("/dev/full");
    reveal_strlit("/dev/random");
    reveal_strlit("/dev/urandom");
    reveal_strlit("/dev/pts");
    reveal_strlit("/dev/shm");
    let list = common_rules();
    assert(forall|i: int|
        0 <= i < list.len() ==> (#[trigger] list[i]).0.len() < "/sys/fs/cgroup"@.len() && (list[i].1
            == READ || list[i].1 == 6 || list[i].1 == 14 || list[i].1 == WRITE));
}

/// No rule of a command gives a right that the rules do not handle, none lets it make
/// devices, and none is about the groups, whatever the root file system holds and
/// whatever the paths turn out to be.
pub proof fn law_rules_stay_within_what_is_handled(
    v: Seq<WorkflowPath>,
    i: int,
    is_directory: bool,
)
    requires
        0 <= i < (workflow_rules(v) + common_rules()).len(),
    ensures
        ({
            let (path, access) = (workflow_rules(v) + common_rules())[i];
            let given = granted(access, is_directory);
            given & HANDLED == given && given & 0x840 == 0 && path != "/sys/fs/cgroup"@
        }),
{
    lemma_workflow_rules(v);
    lemma_common_rules();
    let rule = (workflow_rules(v) + common_rules())[i];
    let access = rule.1;
    if i < workflow_rules(v).len() {
        assert(rule == workflow_rules(v)[i]);
    } else {
        assert(rule == common_rules()[i - workflow_rules(v).len()]);
    }
    assert(access & 0x7fff == access && access & 0x840 == 0 && (access & 0x4007) & 0x7fff == (access
        & 0x4007) && (access & 0x4007) & 0x840 == 0) by (bit_vector)
        requires
            access == 13u64 || access == 0x77bfu64 || access == 12u64 || access == 6u64 || access
                == 14u64,
    ;
}

/// A kind of machine.
#[derive(Debug, Clone, Copy, PartialEq, Eq, Structural)]
pub enum Architecture {
    X86_64,
    Aarch64,
}

/// The kind of machine with a name.
pub open spec fn architecture(machine: Seq<char>) -> Option<Architecture> {
    if machine == "x86_64"@ {
        Some(Architecture::X86_64)
    } else if machine == "aarch64"@ {
        Some(Architecture::Aarch64)
    } else {
        None
    }
}

/// Finds the kind of machine by its name.
pub fn native_arch(machine: &str, errno: Option<i32>) -> (r: Result<
    Architecture,
    ExecutionDomainError,
>)
    ensures
        r == (match architecture(machine@) {
            Some(arch) => Ok::<Architecture, ExecutionDomainError>(arch),
            None => Err(hardening_error(FailureCategory::Unsupported, errno)),
        }),
{
    if text::same_str(machine, "x86_64") {
        Ok(Architecture::X86_64)
    } else if text::same_str(machine, "aarch64") {
        Ok(Architecture::Aarch64)
    } else {
        Err(failure(FailureCategory::Unsupported, errno))
    }
}

/// A system call that no command may make.
#[derive(Debug, Clone, Copy, PartialEq, Eq, Structural)]
pub enum DeniedCall {
    Ptrace,
    ProcessVmReadv,
    ProcessVmWritev,
    PidfdGetfd,
    Bpf,
    PerfEventOpen,
    Keyctl,
    AddKey,
    RequestKey,
    KexecLoad,
    KexecFileLoad,
    Reboot,
    OpenByHandleAt,
    NameToHandleAt,
    Mount,
    Umount2,
    PivotRoot,
    Chroot,
    Setns,
    Unshare,
    OpenTree,
    MoveMount,
    Fsopen,
    Fsconfig,
    Fsmount,
    Fspick,
    MountSetattr,
}

impl Architecture {
    /// The number by which the system names the kind of machine.
    pub open spec fn code(self) -> u32 {
        if self == Architecture::X86_64 {
            0xc000_003e
        } else {
            0xc000_00b7
        }
    }

    /// The number of a system call.
    pub open spec fn number(self, call: DeniedCall) -> u32 {
        let x86 = self == Architecture::X86_64;
        match call {
            DeniedCall::Ptrace => if x86 { 101 } else { 117 },
            DeniedCall::ProcessVmReadv => if x86 { 310 } else { 270 },
            DeniedCall::ProcessVmWritev => if x86 { 311 } else { 271 },
            DeniedCall::PidfdGetfd => if x86 { 438 } else { 438 },
            DeniedCall::Bpf => if x86 { 321 } else { 280 },
            DeniedCall::PerfEventOpen => if x86 { 298 } else { 241 },
            DeniedCall::Keyctl => if x86 { 250 } else { 219 },
            DeniedCall::AddKey => if x86 { 248 } else { 217 },
            DeniedCall::RequestKey => if x86 { 249 } else { 218 },
            DeniedCall::KexecLoad => if x86 { 246 } else { 104 },
            DeniedCall::KexecFileLoad => if x86 { 320 } else { 294 },
            DeniedCall::Reboot => if x86 { 169 } else { 142 },
            DeniedCall::OpenByHandleAt => if x86 { 304 } else { 265 },
            DeniedCall::NameToHandleAt => if x86 { 303 } else { 264 },
            DeniedCall::Mount => if x86 { 165 } else { 40 },
            DeniedCall::Umount2 => if x86 { 166 } else { 39 },
            DeniedCall::PivotRoot => if x86 { 155 } else { 41 },
            DeniedCall::Chroot => if x86 { 161 } else { 51 },
            DeniedCall::Setns => if x86 { 308 } else { 268 },
            DeniedCall::Unshare => if x86 { 272 } else { 97 },
            DeniedCall::OpenTree => if x86 { 428 } else { 428 },
            DeniedCall::MoveMount => if x86 { 429 } else { 429 },
            DeniedCall::Fsopen => if x86 { 430 } else { 430 },
            DeniedCall::Fsconfig => if x86 { 431 } else { 431 },
            DeniedCall::Fsmount => if x86 { 432 } else { 432 },
            DeniedCall::Fspick => if x86 { 433 } else { 433 },
            DeniedCall::MountSetattr => if x86 { 442 } else { 442 },
        }
    }

    /// The number of the call that makes a process.
    pub open spec fn clone_number(self) -> u32 {
        if self == Architecture::X86_64 {
            56
        } else {
            220
        }
    }

    /// The number of the call that makes a process from a description in memory.
    pub open spec fn clone3_number(self) -> u32 {
        435
    }

    /// The number by which the system names the kind of machine.
    pub fn audit_code(self) -> (r: u32)
        ensures
            r == self.code(),
    {
        match self {
            Architecture::X86_64 => 0xc000_003e,
            Architecture::Aarch64 => 0xc000_00b7,
        }
    }

    /// The number of a system call.
    pub fn call_number(self, call: DeniedCall) -> (r: u32)
        ensures
            r == self.number(call),
    {
        let x86: bool = match self {
            Architecture::X86_64 => true,
            Architecture::Aarch64 => false,
        };
        match call {
            DeniedCall::Ptrace => if x86 { 101 } else { 117 },
            DeniedCall::ProcessVmReadv => if x86 { 310 } else { 270 },
            DeniedCall::ProcessVmWritev => if x86 { 311 } else { 271 },
            DeniedCall::PidfdGetfd => if x86 { 438 } else { 438 },
            DeniedCall::Bpf => if x86 { 321 } else { 280 },
            DeniedCall::PerfEventOpen => if x86 { 298 } else { 241 },
            DeniedCall::Keyctl => if x86 { 250 } else { 219 },
            DeniedCall::AddKey => if x86 { 248 } else { 217 },
            DeniedCall::RequestKey => if x86 { 249 } else { 218 },
            DeniedCall::KexecLoad => if x86 { 246 } else { 104 },
            DeniedCall::KexecFileLoad => if x86 { 320 } else { 294 },
            DeniedCall::Reboot => if x86 { 169 } else { 142 },
            DeniedCall::OpenByHandleAt => if x86 { 304 } else { 265 },
            DeniedCall::NameToHandleAt => if x86 { 303 } else { 264 },
            DeniedCall::Mount => if x86 { 165 } else { 40 },
            DeniedCall::Umount2 => if x86 { 166 } else { 39 },
            DeniedCall::PivotRoot => if x86 { 155 } else { 41 },
            DeniedCall::Chroot => if x86 { 161 } else { 51 },
            DeniedCall::Setns => if x86 { 308 } else { 268 },
            DeniedCall::Unshare => if x86 { 272 } else { 97 },
            DeniedCall::OpenTree => if x86 { 428 } else { 428 },
            DeniedCall::MoveMount => if x86 { 429 } else { 429 },
            DeniedCall::Fsopen => if x86 { 430 } else { 430 },
            DeniedCall::Fsconfig => if x86 { 431 } else { 431 },
            DeniedCall::Fsmount => if x86 { 432 } else { 432 },
            DeniedCall::Fspick => if x86 { 433 } else { 433 },
            DeniedCall::MountSetattr => if x86 { 442 } else { 442 },
        }
    }

    /// The number of the call that makes a process.
    pub fn clone_call(self) -> (r: u32)
        ensures
            r == self.clone_number(),
    {
        match self {
            Architecture::X86_64 => 56,
            Architecture::Aarch64 => 220,
        }
    }
}

/// Every system call that no command may make.
pub open spec fn denied_calls() -> Seq<DeniedCall> {
    seq![
        DeniedCall::Ptrace,
        DeniedCall::ProcessVmReadv,
        DeniedCall::ProcessVmWritev,
        DeniedCall::PidfdGetfd,
        DeniedCall::Bpf,
        DeniedCall::PerfEventOpen,
        DeniedCall::Keyctl,
        DeniedCall::AddKey,
        DeniedCall::RequestKey,
        DeniedCall::KexecLoad,
        DeniedCall::KexecFileLoad,
        DeniedCall::Reboot,
        DeniedCall::OpenByHandleAt,
        DeniedCall::NameToHandleAt,
        DeniedCall::Mount,
        DeniedCall::Umount2,
        DeniedCall::PivotRoot,
        DeniedCall::Chroot,
        DeniedCall::Setns,
        DeniedCall::Unshare,
        DeniedCall::OpenTree,
        DeniedCall::MoveMount,
        DeniedCall::Fsopen,
        DeniedCall::Fsconfig,
        DeniedCall::Fsmount,
        DeniedCall::Fspick,
        DeniedCall::MountSetattr,
    ]
}

/// Lists every system call that no command may make.
pub fn denied_list() -> (r: Vec<DeniedCall>)
    ensures
        r@ == denied_calls(),
{
    let mut calls: Vec<DeniedCall> = Vec::new();
    calls.push(DeniedCall::Ptrace);
    calls.push(DeniedCall::ProcessVmReadv);
    calls.push(DeniedCall::ProcessVmWritev);
    calls.push(DeniedCall::PidfdGetfd);
    calls.push(DeniedCall::Bpf);
    calls.push(DeniedCall::PerfEventOpen);
    calls.push(DeniedCall::Keyctl);
    calls.push(DeniedCall::AddKey);
    calls.push(DeniedCall::RequestKey);
    calls.push(DeniedCall::KexecLoad);
    calls.push(DeniedCall::KexecFileLoad);
    calls.push(DeniedCall::Reboot);
    calls.push(DeniedCall::OpenByHandleAt);
    calls.push(DeniedCall::NameToHandleAt);
    calls.push(DeniedCall::Mount);
    calls.push(DeniedCall::Umount2);
    calls.push(DeniedCall::PivotRoot);
    calls.push(DeniedCall::Chroot);
    calls.push(DeniedCall::Setns);
    calls.push(DeniedCall::Unshare);
    calls.push(DeniedCall::OpenTree);
    calls.push(DeniedCall::MoveMount);
    calls.push(DeniedCall::Fsopen);
    calls.push(DeniedCall::Fsconfig);
    calls.push(DeniedCall::Fsmount);
    calls.push(DeniedCall::Fspick);
    calls.push(DeniedCall::MountSetattr);
    proof {
        assert(calls@ =~= denied_calls());
    }
    calls
}

/// An instruction of a filter.
#[derive(Debug, Clone, Copy, PartialEq, Eq, Structural)]
pub struct Instruction {
    pub code: u16,
    /// How many instructions to skip where the test holds.
    pub jt: u8,
    /// How many instructions to skip where it does not.
    pub jf: u8,
    pub k: u32,
}

/// Load a word.
pub open spec fn load(at: u32) -> Instruction {
    Instruction { code: 0x20, jt: 0, jf: 0, k: at }
}

/// Test for equality.
pub open spec fn equal(jt: u8, jf: u8, k: u32) -> Instruction {
    Instruction { code: 0x15, jt, jf, k }
}

/// Test for common bits.
pub open spec fn common(jt: u8, jf: u8, k: u32) -> Instruction {
    Instruction { code: 0x45, jt, jf, k }
}

/// End with a verdict.
pub open spec fn verdict(k: u32) -> Instruction {
    Instruction { code: 0x06, jt: 0, jf: 0, k }
}

/// The start of the filter: anything from another kind of machine is killed, and so
/// is the other calling convention where there is one.
pub open spec fn prologue(arch: Architecture) -> Seq<Instruction> {
    let checks = seq![load(4), equal(1, 0, arch.code()), verdict(KILL), load(0)];
    if arch == Architecture::X86_64 {
        checks + seq![common(0, 1, OTHER_CONVENTION), verdict(KILL)]
    } else {
        checks
    }
}

/// The part of the filter that refuses system calls.
pub open spec fn refusals(arch: Architecture, calls: Seq<DeniedCall>) -> Seq<Instruction>
    decreases calls.len(),
{
    if calls.len() == 0 {
        seq![]
    } else {
        refusals(arch, calls.drop_last()).push(equal(0, 1, arch.number(calls.last()))).push(
            verdict(REFUSE),
        )
    }
}

/// The end of the filter: a new process gets no new namespace.
pub open spec fn epilogue(arch: Architecture) -> Seq<Instruction> {
    seq![
        equal(0, 1, arch.clone3_number()),
        verdict(ABSENT),
        equal(0, 3, arch.clone_number()),
        load(16),
        common(0, 1, NEW_NAMESPACES),
        verdict(REFUSE),
        verdict(ALLOW),
    ]
}

/// The whole filter.
pub open spec fn program(arch: Architecture) -> Seq<Instruction> {
    prologue(arch) + refusals(arch, denied_calls()) + epilogue(arch)
}

/// The filter of system calls.
pub struct SeccompPolicy {
    pub arch: Architecture,
    pub filter: Vec<Instruction>,
}

fn insn(code: u16, jt: u8, jf: u8, k: u32) -> (r: Instruction)
    ensures
        r == (Instruction { code, jt, jf, k }),
{
    Instruction { code, jt, jf, k }
}

impl SeccompPolicy {
    /// The filter for a machine.
    pub fn native(machine: &str, errno: Option<i32>) -> (r: Result<
        SeccompPolicy,
        ExecutionDomainError,
    >)
        ensures
            match r {
                Ok(p) => architecture(machine@) == Some(p.arch) && p.filter@ == program(p.arch),
                Err(e) => architecture(machine@) is None && e == hardening_error(
                    FailureCategory::Unsupported,
                    errno,
                ),
            },
    {
        let arch: Architecture = match native_arch(machine, errno) {
            Ok(arch) => arch,
            Err(e) => {
                return Err(e);
            },
        };
        let mut filter: Vec<Instruction> = Vec::new();
        filter.push(insn(0x20, 0, 0, 4));
        filter.push(insn(0x15, 1, 0, arch.audit_code()));
        filter.push(insn(0x06, 0, 0, KILL));
        filter.push(insn(0x20, 0, 0, 0));
        match arch {
            Architecture::X86_64 => {
                filter.push(insn(0x45, 0, 1, OTHER_CONVENTION));
                filter.push(insn(0x06, 0, 0, KILL));
            },
            Architecture::Aarch64 => {},
        }
        proof {
            assert(filter@ =~= prologue(arch));
        }
        let calls: Vec<DeniedCall> = denied_list();
        proof {
            assert(calls@.take(0) =~= seq![]);
            assert(filter@ =~= prologue(arch) + refusals(arch, calls@.take(0)));
        }
        for i in 0..calls.len()
            invariant
                filter@ == prologue(arch) + refusals(arch, calls@.take(i as int)),
        {
            let ghost before = filter@;
            let number: u32 = arch.call_number(calls[i]);
            filter.push(insn(0x15, 0, 1, number));
            filter.push(insn(0x06, 0, 0, REFUSE));
            proof {
                assert(calls@.take(i + 1).drop_last() =~= calls@.take(i as int));
                assert(calls@.take(i + 1).last() == calls@[i as int]);
                assert(filter@ =~= prologue(arch) + refusals(arch, calls@.take(i + 1)));
            }
        }
        proof {
            assert(calls@.take(calls@.len() as int) =~= calls@);
        }
        filter.push(insn(0x15, 0, 1, 435));
        filter.push(insn(0x06, 0, 0, ABSENT));
        filter.push(insn(0x15, 0, 3, arch.clone_call()));
        filter.push(insn(0x20, 0, 0, 16));
        filter.push(insn(0x45, 0, 1, NEW_NAMESPACES));
        filter.push(insn(0x06, 0, 0, REFUSE));
        filter.push(insn(0x06, 0, 0, ALLOW));
        proof {
            assert(filter@ =~= program(arch));
        }
        Ok(SeccompPolicy { arch, filter })
    }
}

/// A system call as a filter sees it: its number, the kind of machine, and the low
/// half of its first argument.
pub struct SystemCall {
    pub number: u32,
    pub machine: u32,
    pub flags: u32,
}

/// The word that a filter loads.
pub open spec fn loaded(call: SystemCall, at: u32) -> Option<u32> {
    if at == 0 {
        Some(call.number)
    } else if at == 4 {
        Some(call.machine)
    } else if at == 16 {
        Some(call.flags)
    } else {
        None
    }
}

/// The verdict of a filter from an instruction on, with the word loaded last.
pub open spec fn run(filter: Seq<Instruction>, call: SystemCall, pc: nat, word: u32) -> Option<u32>
    decreases
            if pc < filter.len() {
                filter.len() - pc
            } else {
                0
            },
{
    if pc >= filter.len() {
        None
    } else {
        let i = filter[pc as int];
        if i.code == 0x06 {
            Some(i.k)
        } else if i.code == 0x20 {
            match loaded(call, i.k) {
                Some(w) => run(filter, call, pc + 1, w),
                None => None,
            }
        } else if i.code == 0x15 {
            if word == i.k {
                run(filter, call, pc + 1 + i.jt as nat, word)
            } else {
                run(filter, call, pc + 1 + i.jf as nat, word)
            }
        } else if i.code == 0x45 {
            if word & i.k != 0 {
                run(filter, call, pc + 1 + i.jt as nat, word)
            } else {
                run(filter, call, pc + 1 + i.jf as nat, word)
            }
        } else {
            None
        }
    }
}

/// Whether a number is that of a system call that no command may make.
pub open spec fn is_denied(arch: Architecture, number: u32) -> bool {
    exists|i: int|
        0 <= i < denied_calls().len() && arch.number(#[trigger] denied_calls()[i]) == number
}

/// What should become of a system call.
pub open spec fn decision(arch: Architecture, call: SystemCall) -> u32 {
    if call.machine != arch.code() {
        KILL
    } else if arch == Architecture::X86_64 && call.number & OTHER_CONVENTION != 0 {
        KILL
    } else if is_denied(arch, call.number) {
        REFUSE
    } else if call.number == arch.clone3_number() {
        ABSENT
    } else if call.number == arch.clone_number() && call.flags & NEW_NAMESPACES != 0 {
        REFUSE
    } else {
        ALLOW
    }
}

proof fn lemma_refusals(arch: Architecture, calls: Seq<DeniedCall>)
    ensures
        refusals(arch, calls).len() == 2 * calls.len(),
        forall|i: int|
            0 <= i < calls.len() ==> refusals(arch, calls)[2 * i] == equal(
                0,
                1,
                arch.number(#[trigger] calls[i]),
            ) && refusals(arch, calls)[2 * i + 1] == verdict(REFUSE),
    decreases calls.len(),
{
    if calls.len() > 0 {
        let rest = calls.drop_last();
        lemma_refusals(arch, rest);
        assert forall|i: int| 0 <= i < calls.len() implies refusals(arch, calls)[2 * i] == equal(
            0,
            1,
            arch.number(#[trigger] calls[i]),
        ) && refusals(arch, calls)[2 * i + 1] == verdict(REFUSE) by {
            if i < calls.len() - 1 {
                assert(rest[i] == calls[i]);
            }
        }
    }
}

/// From the first refusal on that does not fit, the filter goes on to the next, and
/// after the last to its end.
proof fn lemma_run_refusals(arch: Architecture, call: SystemCall, start: nat, from: int)
    requires
        start == prologue(arch).len(),
        0 <= from <= denied_calls().len(),
        forall|i: int|
            0 <= i < from ==> arch.number(#[trigger] denied_calls()[i]) != call.number,
    ensures
        run(program(arch), call, (start + 2 * from) as nat, call.number) == (if is_denied(
            arch,
            call.number,
        ) {
            Some(REFUSE)
        } else {
            run(
                program(arch),
                call,
                (start + 2 * denied_calls().len()) as nat,
                call.number,
            )
        }),
    decreases denied_calls().len() - from,
{
    let calls = denied_calls();
    let filter = program(arch);
    lemma_refusals(arch, calls);
    if from < calls.len() {
        let pc = (start + 2 * from) as nat;
        assert(filter[pc as int] == refusals(arch, calls)[2 * from]);
        assert(filter[pc as int + 1] == refusals(arch, calls)[2 * from + 1]);
        assert(filter[pc as int] == equal(0, 1, arch.number(calls[from])));
        if arch.number(calls[from]) == call.number {
            assert(is_denied(arch, call.number));
            assert(run(filter, call, pc + 1, call.number) == Some(REFUSE));
        } else {
            lemma_run_refusals(arch, call, start, from + 1);
        }
    } else {
        assert(!is_denied(arch, call.number));
    }
}

proof fn lemma_run_epilogue(arch: Architecture, call: SystemCall)
    ensures
        run(
            program(arch),
            call,
            (prologue(arch).len() + 2 * denied_calls().len()) as nat,
            call.number,
        ) == Some(
            if call.number == arch.clone3_number() {
                ABSENT
            } else if call.number == arch.clone_number() && call.flags & NEW_NAMESPACES != 0 {
                REFUSE
            } else {
                ALLOW
            },
        ),
{
    let filter = program(arch);
    lemma_refusals(arch, denied_calls());
    let pc = (prologue(arch).len() + 2 * denied_calls().len()) as nat;
    assert(filter.len() == pc + 7);
    assert(filter[pc as int] == epilogue(arch)[0]);
    assert(filter[pc as int + 1] == epilogue(arch)[1]);
    assert(filter[pc as int + 2] == epilogue(arch)[2]);
    assert(filter[pc as int + 3] == epilogue(arch)[3]);
    assert(filter[pc as int + 4] == epilogue(arch)[4]);
    assert(filter[pc as int + 5] == epilogue(arch)[5]);
    assert(filter[pc as int + 6] == epilogue(arch)[6]);
    assert(run(filter, call, pc + 1, call.number) == Some(ABSENT));
    assert(run(filter, call, pc + 6, call.number) == Some(ALLOW));
    assert(run(filter, call, pc + 6, call.flags) == Some(ALLOW));
    assert(run(filter, call, pc + 5, call.flags) == Some(REFUSE));
    assert(run(filter, call, pc + 4, call.flags) == (if call.flags & NEW_NAMESPACES != 0 {
        Some(REFUSE)
    } else {
        Some(ALLOW)
    }));
    assert(loaded(call, 16) == Some(call.flags));
    assert(run(filter, call, pc + 3, call.number) == run(filter, call, pc + 4, call.flags));
    assert(run(filter, call, pc + 2, call.number) == (if call.number == arch.clone_number() {
        run(filter, call, pc + 3, call.number)
    } else {
        run(filter, call, pc + 6, call.number)
    }));
}

/// The filter decides every system call as it should: another kind of machine and
/// the other calling convention are killed, the listed calls are refused, and a new
/// process gets no new namespace.
pub proof fn law_filter_decides_every_call(arch: Architecture, call: SystemCall)
    ensures
        run(program(arch), call, 0, 0) == Some(decision(arch, call)),
{
    let filter = program(arch);
    lemma_refusals(arch, denied_calls());
    let start = prologue(arch).len();
    assert(filter.len() == start + 2 * denied_calls().len() + 7);
    assert(filter[0] == prologue(arch)[0]);
    assert(filter[1] == prologue(arch)[1]);
    assert(filter[2] == prologue(arch)[2]);
    assert(filter[3] == prologue(arch)[3]);
    assert(loaded(call, 4) == Some(call.machine));
    assert(loaded(call, 0) == Some(call.number));
    assert(run(filter, call, 2, call.machine) == Some(KILL));
    assert(run(filter, call, 3, call.machine) == run(filter, call, 4, call.number));
    assert(run(filter, call, 1, call.machine) == (if call.machine == arch.code() {
        run(filter, call, 3, call.machine)
    } else {
        run(filter, call, 2, call.machine)
    }));
    assert(run(filter, call, 0, 0) == run(filter, call, 1, call.machine));
    if arch == Architecture::X86_64 {
        assert(filter[4] == prologue(arch)[4]);
        assert(filter[5] == prologue(arch)[5]);
        assert(run(filter, call, 5, call.number) == Some(KILL));
        assert(run(filter, call, 4, call.number) == (if call.number & OTHER_CONVENTION != 0 {
            Some(KILL)
        } else {
            run(filter, call, 6, call.number)
        }));
    }
    lemma_run_refusals(arch, call, start, 0);
    lemma_run_epilogue(arch, call);
}

/// On an x86 machine of 64 bits a call of another machine or convention ends the process,
/// each call that reaches beyond the domain is refused by its number, the newer way to
/// make a process is not there, the older one may make no namespaces, and every other
/// call is allowed.
pub proof fn law_the_filter_for_x86_denies_by_number(
    machine: &str,
    errno: Option<i32>,
    call: SystemCall,
    r: Result<SeccompPolicy, ExecutionDomainError>,
)
    requires
        call_ensures(SeccompPolicy::native, (machine, errno), r),
        machine@ == "x86_64"@,
    ensures
        r matches Ok(p) && ({
            let answer = run(p.filter@, call, 0, 0);
            let n = call.number;
            let denied = n == 101 || n == 310 || n == 311 || n == 438 || n == 321 || n == 298
                || n == 250 || n == 248 || n == 249 || n == 246 || n == 320 || n == 169 || n
                == 304 || n == 303 || n == 165 || n == 166 || n == 155 || n == 161 || n == 308
                || n == 272 || n == 428 || n == 429 || n == 430 || n == 431 || n == 432 || n
                == 433 || n == 442;
            &&& call.machine != 0xc000_003e ==> answer == Some(0x8000_0000u32)
            &&& call.machine == 0xc000_003e && n / 0x4000_0000 % 2 == 1 ==> answer
                == Some(0x8000_0000u32)
            &&& call.machine == 0xc000_003e && n / 0x4000_0000 % 2 == 0 && denied ==> answer
                == Some(0x0005_0001u32)
            &&& call.machine == 0xc000_003e && n / 0x4000_0000 % 2 == 0 && n == 435 ==> answer
                == Some(0x0005_0026u32)
            &&& call.machine == 0xc000_003e && n / 0x4000_0000 % 2 == 0 && n == 56 ==> answer
                == (if call.flags & 0x7e02_0080
                == 0 {
                Some(0x7fff_0000u32)
            } else {
                Some(0x0005_0001u32)
            })
            &&& call.machine == 0xc000_003e && n / 0x4000_0000 % 2 == 0 && !denied && n != 435
                && n != 56 ==> answer == Some(0x7fff_0000u32)
        }),
{
    reveal_strlit("x86_64");
    reveal_strlit("aarch64");
    assert("x86_64"@.len() != "aarch64"@.len());
    let n = call.number;
    assert(n & 0x4000_0000 != 0 <==> n / 0x4000_0000 % 2 == 1) by (bit_vector);
    law_filter_decides_every_call(Architecture::X86_64, call);
    let all = denied_calls();
    assert(Architecture::X86_64.number(all[0]) == 101);
    assert(Architecture::X86_64.number(all[1]) == 310);
    assert(Architecture::X86_64.number(all[2]) == 311);
    assert(Architecture::X86_64.number(all[3]) == 438);
    assert(Architecture::X86_64.number(all[4]) == 321);
    assert(Architecture::X86_64.number(all[5]) == 298);
    assert(Architecture::X86_64.number(all[6]) == 250);
    assert(Architecture::X86_64.number(all[7]) == 248);
    assert(Architecture::X86_64.number(all[8]) == 249);
    assert(Architecture::X86_64.number(all[9]) == 246);
    assert(Architecture::X86_64.number(all[10]) == 320);
    assert(Architecture::X86_64.number(all[11]) == 169);
    assert(Architecture::X86_64.number(all[12]) == 304);
    assert(Architecture::X86_64.number(all[13]) == 303);
    assert(Architecture::X86_64.number(all[14]) == 165);
    assert(Architecture::X86_64.number(all[15]) == 166);
    assert(Architecture::X86_64.number(all[16]) == 155);
    assert(Architecture::X86_64.number(all[17]) == 161);
    assert(Architecture::X86_64.number(all[18]) == 308);
    assert(Architecture::X86_64.number(all[19]) == 272);
    assert(Architecture::X86_64.number(all[20]) == 428);
    assert(Architecture::X86_64.number(all[21]) == 429);
    assert(Architecture::X86_64.number(all[22]) == 430);
    assert(Architecture::X86_64.number(all[23]) == 431);
    assert(Architecture::X86_64.number(all[24]) == 432);
    assert(Architecture::X86_64.number(all[25]) == 433);
    assert(Architecture::X86_64.number(all[26]) == 442);
    assert(is_denied(Architecture::X86_64, n) <==> n == 101 || n == 310 || n == 311 || n
        == 438 || n == 321 || n == 298 || n == 250 || n == 248 || n == 249 || n == 246 || n
        == 320 || n == 169 || n == 304 || n == 303 || n == 165 || n == 166 || n == 155 || n
        == 161 || n == 308 || n == 272 || n == 428 || n == 429 || n == 430 || n == 431 || n
        == 432 || n == 433 || n == 442);
}


/// On an ARM machine of 64 bits a call of another machine ends the process, each call that
/// reaches beyond the domain is refused by its number, the newer way to make a process is
/// not there, the older one may make no namespaces, and every other call is allowed.
pub proof fn law_the_filter_for_arm_denies_by_number(
    machine: &str,
    errno: Option<i32>,
    call: SystemCall,
    r: Result<SeccompPolicy, ExecutionDomainError>,
)
    requires
        call_ensures(SeccompPolicy::native, (machine, errno), r),
        machine@ == "aarch64"@,
    ensures
        r matches Ok(p) && ({
            let answer = run(p.filter@, call, 0, 0);
            let n = call.number;
            let denied = n == 117 || n == 270 || n == 271 || n == 438 || n == 280 || n == 241
                || n == 219 || n == 217 || n == 218 || n == 104 || n == 294 || n == 142 || n
                == 265 || n == 264 || n == 40 || n == 39 || n == 41 || n == 51 || n == 268
                || n == 97 || n == 428 || n == 429 || n == 430 || n == 431 || n == 432 || n
                == 433 || n == 442;
            &&& call.machine != 0xc000_00b7 ==> answer == Some(0x8000_0000u32)
            &&& call.machine == 0xc000_00b7 && denied ==> answer == Some(0x0005_0001u32)
            &&& call.machine == 0xc000_00b7 && n == 435 ==> answer == Some(0x0005_0026u32)
            &&& call.machine == 0xc000_00b7 && n == 220 ==> answer == (if call.flags & 0x7e02_0080
                == 0 {
                Some(0x7fff_0000u32)
            } else {
                Some(0x0005_0001u32)
            })
            &&& call.machine == 0xc000_00b7 && !denied && n != 435 && n != 220 ==> answer
                == Some(0x7fff_0000u32)
        }),
{
    reveal_strlit("x86_64");
    reveal_strlit("aarch64");
    assert("x86_64"@.len() != "aarch64"@.len());
    let n = call.number;
    law_filter_decides_every_call(Architecture::Aarch64, call);
    let all = denied_calls();
    assert(Architecture::Aarch64.number(all[0]) == 117);
    assert(Architecture::Aarch64.number(all[1]) == 270);
    assert(Architecture::Aarch64.number(all[2]) == 271);
    assert(Architecture::Aarch64.number(all[3]) == 438);
    assert(Architecture::Aarch64.number(all[4]) == 280);
    assert(Architecture::Aarch64.number(all[5]) == 241);
    assert(Architecture::Aarch64.number(all[6]) == 219);
    assert(Architecture::Aarch64.number(all[7]) == 217);
    assert(Architecture::Aarch64.number(all[8]) == 218);
    assert(Architecture::Aarch64.number(all[9]) == 104);
    assert(Architecture::Aarch64.number(all[10]) == 294);
    assert(Architecture::Aarch64.number(all[11]) == 142);
    assert(Architecture::Aarch64.number(all[12]) == 265);
    assert(Architecture::Aarch64.number(all[13]) == 264);
    assert(Architecture::Aarch64.number(all[14]) == 40);
    assert(Architecture::Aarch64.number(all[15]) == 39);
    assert(Architecture::Aarch64.number(all[16]) == 41);
    assert(Architecture::Aarch64.number(all[17]) == 51);
    assert(Architecture::Aarch64.number(all[18]) == 268);
    assert(Architecture::Aarch64.number(all[19]) == 97);
    assert(Architecture::Aarch64.number(all[20]) == 428);
    assert(Architecture::Aarch64.number(all[21]) == 429);
    assert(Architecture::Aarch64.number(all[22]) == 430);
    assert(Architecture::Aarch64.number(all[23]) == 431);
    assert(Architecture::Aarch64.number(all[24]) == 432);
    assert(Architecture::Aarch64.number(all[25]) == 433);
    assert(Architecture::Aarch64.number(all[26]) == 442);
    assert(is_denied(Architecture::Aarch64, n) <==> n == 117 || n == 270 || n == 271 || n
        == 438 || n == 280 || n == 241 || n == 219 || n == 217 || n == 218 || n == 104 || n
        == 294 || n == 142 || n == 265 || n == 264 || n == 40 || n == 39 || n == 41 || n == 51
        || n == 268 || n == 97 || n == 428 || n == 429 || n == 430 || n == 431 || n == 432
        || n == 433 || n == 442);
}


/// Every call that reaches beyond the domain is on the list, once.
pub proof fn law_every_call_is_listed_once(r: Vec<DeniedCall>, call: DeniedCall)
    requires
        call_ensures(denied_list, (), r),
    ensures
        r@.contains(call),
        forall|i: int, j: int| 0 <= i < j < r@.len() ==> r@[i] != r@[j],
        r@.len() == 27,
{
    let all = denied_calls();
    assert(all[0] == DeniedCall::Ptrace);
    assert(all[1] == DeniedCall::ProcessVmReadv);
    assert(all[2] == DeniedCall::ProcessVmWritev);
    assert(all[3] == DeniedCall::PidfdGetfd);
    assert(all[4] == DeniedCall::Bpf);
    assert(all[5] == DeniedCall::PerfEventOpen);
    assert(all[6] == DeniedCall::Keyctl);
    assert(all[7] == DeniedCall::AddKey);
    assert(all[8] == DeniedCall::RequestKey);
    assert(all[9] == DeniedCall::KexecLoad);
    assert(all[10] == DeniedCall::KexecFileLoad);
    assert(all[11] == DeniedCall::Reboot);
    assert(all[12] == DeniedCall::OpenByHandleAt);
    assert(all[13] == DeniedCall::NameToHandleAt);
    assert(all[14] == DeniedCall::Mount);
    assert(all[15] == DeniedCall::Umount2);
    assert(all[16] == DeniedCall::PivotRoot);
    assert(all[17] == DeniedCall::Chroot);
    assert(all[18] == DeniedCall::Setns);
    assert(all[19] == DeniedCall::Unshare);
    assert(all[20] == DeniedCall::OpenTree);
    assert(all[21] == DeniedCall::MoveMount);
    assert(all[22] == DeniedCall::Fsopen);
    assert(all[23] == DeniedCall::Fsconfig);
    assert(all[24] == DeniedCall::Fsmount);
    assert(all[25] == DeniedCall::Fspick);
    assert(all[26] == DeniedCall::MountSetattr);
}

/// Only machines whose numbers are known get a filter.
pub proof fn law_other_machines_get_no_filter(
    machine: &str,
    errno: Option<i32>,
    arch: Result<Architecture, ExecutionDomainError>,
    r: Result<SeccompPolicy, ExecutionDomainError>,
)
    requires
        call_ensures(native_arch, (machine, errno), arch),
        call_ensures(SeccompPolicy::native, (machine, errno), r),
    ensures
        r is Ok <==> machine@ == "x86_64"@ || machine@ == "aarch64"@,
        arch is Ok <==> r is Ok,
        r matches Ok(p) ==> p.arch == arch->Ok_0,
        r is Err ==> r->Err_0 == (ExecutionDomainError::Backend {
            attempt: None,
            stage: Stage::Command,
            category: FailureCategory::Unsupported,
            errno,
        }) && arch->Err_0 == r->Err_0,
{
}

/// A call into the kernel failed where its result is negative, and keeps the reason.
pub proof fn law_negative_results_are_failures(
    result: i64,
    errno: Option<i32>,
    r: Result<i64, ExecutionDomainError>,
)
    requires
        call_ensures(checked, (result, errno), r),
    ensures
        result >= 0 ==> r == Ok::<i64, ExecutionDomainError>(result),
        result < 0 ==> r == Err::<i64, ExecutionDomainError>(
            ExecutionDomainError::Backend {
                attempt: None,
                stage: Stage::Command,
                category: FailureCategory::Io,
                errno,
            },
        ),
{
}

/// Files are restricted from the third version on, and groups are gone where they could
/// be cleared or none are left.
pub proof fn law_hardening_needs_the_kernel(
    abi: i64,
    set: i32,
    remaining: i32,
    errno: Option<i32>,
    landlock: Result<(), ExecutionDomainError>,
    groups: Result<(), ExecutionDomainError>,
)
    requires
        call_ensures(landlock_abi, (abi, errno), landlock),
        call_ensures(clear_groups, (set, remaining, errno), groups),
    ensures
        landlock is Ok <==> abi >= 3,
        groups is Ok <==> set == 0 || remaining == 0,
        landlock matches Err(e) ==> (e matches ExecutionDomainError::Backend { category, errno: n, .. }
            && category == FailureCategory::Unsupported && n == errno),
        groups matches Err(e) ==> (e matches ExecutionDomainError::Backend { category, errno: n, .. }
            && category == FailureCategory::Unavailable && n == errno),
{
}

/// Every capability that the kernel knows is dropped but those that are kept, and the
/// list ends where the kernel knows no more.
pub proof fn law_capabilities_are_dropped(
    capability: u32,
    present: i64,
    errno: Option<i32>,
    keep: u64,
    r: Result<BoundingStep, ExecutionDomainError>,
)
    requires
        call_ensures(bounding_step, (capability, present, errno, keep), r),
    ensures
        capability >= 64 ==> r is Err,
        capability < 64 && present < 0 && errno == Some(22i32) ==> r == Ok::<
            BoundingStep,
            ExecutionDomainError,
        >(BoundingStep::Finished),
        capability < 64 && present < 0 && errno != Some(22i32) ==> r is Err,
        capability < 64 && present >= 0 && keep == 0 ==> r == Ok::<
            BoundingStep,
            ExecutionDomainError,
        >(BoundingStep::Drop),
        capability < 64 && present >= 0 && keep == 384 ==> (r == Ok::<
            BoundingStep,
            ExecutionDomainError,
        >(BoundingStep::Keep) <==> capability == 7 || capability == 8),
        capability < 64 && present >= 0 ==> (r == Ok::<BoundingStep, ExecutionDomainError>(
            BoundingStep::Keep,
        ) <==> keep >> capability & 1 == 1),
        capability < 64 && present >= 0 ==> (r == Ok::<BoundingStep, ExecutionDomainError>(
            BoundingStep::Drop,
        ) <==> keep >> capability & 1 == 0),
{
    if capability < 64 {
        let c = capability as u64;
        assert(keep & (1u64 << c) == 0 <==> keep >> c & 1 == 0) by (bit_vector)
            requires
                c < 64,
        ;
        assert(keep >> c & 1 == 0 || keep >> c & 1 == 1) by (bit_vector);
        assert(384u64 & (1u64 << c) != 0 <==> c == 7 || c == 8) by (bit_vector)
            requires
                c < 64,
        ;
        assert(0u64 & (1u64 << c) == 0) by (bit_vector);
    }
}

/// A set of capabilities is handed over in two words that hold all of it.
pub proof fn law_capability_words_hold_all(mask: u64, r: (u32, u32))
    requires
        call_ensures(capability_words, (mask,), r),
    ensures
        r.0 + 0x1_0000_0000 * r.1 == mask,
{
}

/// A process is hardened in one order: descriptors and groups go first, capabilities are
/// dropped once no bound lets them back, and the filter comes last, when nothing else is
/// left to do.
pub proof fn law_hardening_has_one_order(step: HardeningStep, r: Option<HardeningStep>)
    requires
        call_ensures(HardeningStep::next, (step,), r),
    ensures
        step is CloseDescriptors ==> r == Some(HardeningStep::ClearGroups),
        step is ClearGroups ==> r == Some(HardeningStep::ClearAmbient),
        step is ClearAmbient ==> r == Some(HardeningStep::DropBounding),
        step is DropBounding ==> r == Some(HardeningStep::SetSecureBits),
        step is SetSecureBits ==> r == Some(HardeningStep::DropCapabilities),
        step is DropCapabilities ==> r == Some(HardeningStep::SetNoNewPrivileges),
        step is SetNoNewPrivileges ==> r == Some(HardeningStep::RestrictFilesystem),
        step is RestrictFilesystem ==> r == Some(HardeningStep::InstallFilter),
        step is InstallFilter ==> r is None,
{
}

/// A file gets of a rule what makes sense of a file: to run, read, write and cut it; a
/// directory gets all of it.
pub proof fn law_files_get_the_rights_of_files(access: u64, is_directory: bool, r: u64)
    requires
        call_ensures(rule_access, (access, is_directory), r),
    ensures
        is_directory ==> r == access,
        !is_directory ==> r % 8 == access % 8 && r / 0x4000 % 2 == access / 0x4000 % 2 && r
            == access % 8 + 0x4000 * (access / 0x4000 % 2),
{
    assert(access & 0x4007 == access % 8 + 0x4000 * (access / 0x4000 % 2)) by (bit_vector);
}

/// Every path that a workflow is given is ruled on: one that is read-only may be read,
/// listed and run, any other may be changed but never hold new devices; the group's
/// directory gets no rule, and what every program uses comes after.
pub proof fn law_workflows_reach_what_they_are_given(
    abi: i64,
    errno: Option<i32>,
    machine: &str,
    paths: &[WorkflowPath],
    i: int,
    r: Result<ChildPolicy, ExecutionDomainError>,
)
    requires
        call_ensures(ChildPolicy::workflow, (abi, errno, machine, paths), r),
        0 <= i < paths@.len(),
        r is Ok,
    ensures
        abi >= 3,
        !paths@[i].path@.contains('\0') || paths@[i].path@ == "/sys/fs/cgroup"@,
        paths@[i].path@ != "/sys/fs/cgroup"@ ==> exists|j: int|
            0 <= j < r->Ok_0.paths@.len() - 10 && (#[trigger] r->Ok_0.paths@[j]).path@
                == paths@[i].path@ && r->Ok_0.paths@[j].access == (if paths@[i].readonly {
                13
            } else {
                30655int
            }),
        r->Ok_0.paths@.len() <= paths@.len() + 10,
{
    let list = r->Ok_0.paths@;
    let given = workflow_rules(paths@);
    lemma_rules_are_given(paths@, i);
    assert(rules(list) == given + common_rules());
    assert(rules(list).len() == given.len() + 10);
    if paths@[i].path@ != "/sys/fs/cgroup"@ {
        let j = choose|j: int|
            0 <= j < given.len() && #[trigger] given[j] == workflow_rule(
                paths@[i].path@,
                paths@[i].readonly,
            );
        assert(rules(list)[j] == given[j]);
        assert(list[j].path@ == paths@[i].path@);
    }
}

proof fn lemma_rules_are_given(v: Seq<WorkflowPath>, i: int)
    requires
        0 <= i < v.len(),
    ensures
        workflow_rules(v).len() <= v.len(),
        v[i].path@ != "/sys/fs/cgroup"@ ==> exists|j: int|
            0 <= j < workflow_rules(v).len() && #[trigger] workflow_rules(v)[j] == workflow_rule(
                v[i].path@,
                v[i].readonly,
            ),
    decreases v.len(),
{
    let before = workflow_rules(v.drop_last());
    let now = workflow_rules(v);
    if v.len() > 1 {
        lemma_rules_are_given(v.drop_last(), if i < v.len() - 1 {
            i
        } else {
            0
        });
    }
    if v[i].path@ != "/sys/fs/cgroup"@ {
        if i < v.len() - 1 {
            let j = choose|j: int|
                0 <= j < before.len() && #[trigger] before[j] == workflow_rule(
                    v[i].path@,
                    v[i].readonly,
                );
            assert(now[j] == before[j]);
        } else {
            assert(now[now.len() - 1] == workflow_rule(v[i].path@, v[i].readonly));
        }
    }
}

/// What every program uses: it may look at the system's settings and change none, use the
/// plain devices and its terminals, and change what is shared in memory.
pub proof fn law_common_paths_are_restricted(
    abi: i64,
    errno: Option<i32>,
    machine: &str,
    paths: &[WorkflowPath],
    k: int,
    r: Result<ChildPolicy, ExecutionDomainError>,
)
    requires
        call_ensures(ChildPolicy::workflow, (abi, errno, machine, paths), r),
        r is Ok,
        0 <= k < 10,
    ensures
        ({
            let list = r->Ok_0.paths@;
            let n = list.len() - 10;
            &&& n >= 0
            &&& list[n].path@ == "/etc"@ && list[n + 1].path@ == "/proc"@ && list[n + 2].path@
                == "/sys"@
            &&& list[n + 3].path@ == "/dev/null"@ && list[n + 4].path@ == "/dev/zero"@ && list[n
                + 5].path@ == "/dev/full"@
            &&& list[n + 6].path@ == "/dev/random"@ && list[n + 7].path@ == "/dev/urandom"@
            &&& list[n + 8].path@ == "/dev/pts"@ && list[n + 9].path@ == "/dev/shm"@
            &&& list[n + k].access == (if k < 3 {
                12
            } else if k < 8 {
                6
            } else if k == 8 {
                14
            } else {
                30655int
            })
        }),
{
    let list = r->Ok_0.paths@;
    let given = workflow_rules(paths@);
    assert(rules(list) == given + common_rules());
    assert(rules(list).len() == given.len() + 10);
    let n = list.len() - 10;
    assert forall|j: int| 0 <= j < 10 implies common_rules()[j] == (
        (#[trigger] list[n + j]).path@,
        list[n + j].access,
    ) by {
        assert(rules(list)[n + j] == (given + common_rules())[n + j]);
    }
    assert(common_rules()[0] == (list[n + 0].path@, list[n + 0].access));
}

/// A policy is refused for a kernel that cannot restrict files, a path that cannot be
/// handed over, or a machine whose calls are not known, and for nothing else.
pub proof fn law_policies_are_refused_for_a_reason(
    abi: i64,
    errno: Option<i32>,
    machine: &str,
    paths: &[WorkflowPath],
    r: Result<ChildPolicy, ExecutionDomainError>,
)
    requires
        call_ensures(ChildPolicy::workflow, (abi, errno, machine, paths), r),
    ensures
        abi < 3 ==> r is Err,
        machine@ != "x86_64"@ && machine@ != "aarch64"@ ==> r is Err,
        abi >= 3 && (machine@ == "x86_64"@ || machine@ == "aarch64"@) && (forall|i: int|
            0 <= i < paths@.len() ==> !(#[trigger] paths@[i]).path@.contains('\0')) ==> r is Ok,
        r matches Err(e) ==> (e matches ExecutionDomainError::Backend { category, .. } && (category
            == FailureCategory::InvalidInput || category == FailureCategory::Unsupported) && (
        category == FailureCategory::InvalidInput ==> abi >= 3)),
{
}

/// A path that may be changed gets every right that is handled but two, those to make
/// devices; one that may be read gets nothing that changes it; and a file gets nothing
/// that is not handled.
pub proof fn law_rights_are_handled(access: u64, given: u64)
    requires
        call_ensures(rule_access, (access, false), given),
        access == WRITE || access == READ || access == READ + EXECUTE,
    ensures
        HANDLED == WRITE + 0x40 + 0x800,
        HANDLED + 1 == 0x8000,
        given <= access,
        access == READ ==> given == 4,
        access == READ + EXECUTE ==> given == 5,
        access == WRITE ==> given == 0x4007,
{
    assert(0x77bfu64 & 0x4007 == 0x4007 && 12u64 & 0x4007 == 4 && 13u64 & 0x4007 == 5)
        by (bit_vector);
}

} // verus!
