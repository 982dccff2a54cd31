//! A domain as one transaction: what provisioning has created is undone in exactly
//! the opposite order, and nothing is forgotten on the way.

use vstd::prelude::*;

use crate::bytes;
use crate::contracts::{AttemptIdentity, DestroyReport, FailureCategory, Stage};
use crate::error;
use crate::error::ExecutionDomainError;
use crate::host_path;
use crate::host_path::Parts;
use crate::ids;
use crate::journal::DomainState;
use crate::linux::cgroup;
use crate::linux::cleanup::CleanupRootKind;
use crate::linux::destroy;
use crate::text;

verus! {

/// Something that provisioning has created.
#[derive(Debug, Clone, Copy, PartialEq, Eq, Structural)]
pub enum CreatedStage {
    AttemptCgroup,
    AttemptFilesystem,
    LifecycleJournal,
    RuntimeSocket,
    KernelDomain,
    RootlessKitSocket,
    Evacuated,
}

impl CreatedStage {
    /// The place of the stage in the order of creation.
    pub open spec fn rank(self) -> int {
        match self {
            CreatedStage::AttemptCgroup => 0,
            CreatedStage::AttemptFilesystem => 1,
            CreatedStage::LifecycleJournal => 2,
            CreatedStage::RuntimeSocket => 3,
            CreatedStage::RootlessKitSocket => 4,
            CreatedStage::KernelDomain => 5,
            CreatedStage::Evacuated => 6,
        }
    }
}

/// Whether stages follow the order of creation.
pub open spec fn in_order(stages: Seq<CreatedStage>) -> bool {
    forall|i: int, j: int| 0 <= i < j < stages.len() ==> stages[i].rank() < stages[j].rank()
}

/// The stages left once one of them is undone: nothing happens to one that was never
/// created, and one that is not the last cannot be undone.
pub open spec fn discharged(stages: Seq<CreatedStage>, expected: CreatedStage) -> Option<
    Seq<CreatedStage>,
> {
    if !stages.contains(expected) {
        Some(stages)
    } else if stages.last() == expected {
        Some(stages.drop_last())
    } else {
        None
    }
}

/// What provisioning has created and nobody has undone, in order.
#[derive(Debug)]
pub struct CreatedStageStack {
    pub stages: Vec<CreatedStage>,
}

impl View for CreatedStageStack {
    type V = Seq<CreatedStage>;

    open spec fn view(&self) -> Seq<CreatedStage> {
        self.stages@
    }
}

impl CreatedStageStack {
    /// The stack with the given stages.
    pub fn new(stages: Vec<CreatedStage>) -> (r: CreatedStageStack)
        ensures
            r@ == stages@,
    {
        CreatedStageStack { stages }
    }

    /// Adds a stage.
    pub fn push(&mut self, stage: CreatedStage)
        ensures
            final(self)@ == old(self)@.push(stage),
    {
        self.stages.push(stage);
    }

    /// Whether a stage was created and not undone.
    pub fn contains(&self, stage: CreatedStage) -> (r: bool)
        ensures
            r == self@.contains(stage),
    {
        for i in 0..self.stages.len()
            invariant
                forall|k: int| 0 <= k < i ==> self@[k] != stage,
        {
            if self.stages[i] == stage {
                assert(self@[i as int] == stage);
                return true;
            }
        }
        false
    }

    /// Undoes a stage. Nothing happens where it was never created; it is an error
    /// where it is not the last.
    pub fn discharge(&mut self, expected: CreatedStage) -> (r: Result<(), ExecutionDomainError>)
        ensures
            match discharged(old(self)@, expected) {
                Some(left) => r is Ok && final(self)@ == left,
                None => final(self)@ == old(self)@ && r == Err::<(), ExecutionDomainError>(
                    destroy::destroy_error(FailureCategory::IdentityMismatch),
                ),
            },
    {
        if !self.contains(expected) {
            return Ok(());
        }
        let last: usize = self.stages.len() - 1;
        if self.stages[last] != expected {
            return Err(destroy::failure(FailureCategory::IdentityMismatch));
        }
        let _ = self.stages.pop();
        Ok(())
    }

    /// Whether everything was undone.
    pub fn is_empty(&self) -> (r: bool)
        ensures
            r == (self@.len() == 0),
    {
        self.stages.len() == 0
    }
}

proof fn lemma_discharge_highest(stages: Seq<CreatedStage>, expected: CreatedStage)
    requires
        in_order(stages),
        forall|i: int| 0 <= i < stages.len() ==> (#[trigger] stages[i]).rank() <= expected.rank(),
    ensures
        discharged(stages, expected) matches Some(left) && in_order(left) && (forall|i: int|
            0 <= i < left.len() ==> (#[trigger] left[i]).rank() < expected.rank()),
{
    if stages.contains(expected) {
        let k = choose|k: int| 0 <= k < stages.len() && stages[k] == expected;
        if k < stages.len() - 1 {
            assert(stages[k].rank() < stages[stages.len() - 1].rank());
        }
        let left = stages.drop_last();
        assert forall|i: int| 0 <= i < left.len() implies (#[trigger] left[i]).rank()
            < expected.rank() by {
            assert(stages[i].rank() < stages[stages.len() - 1].rank());
        }
    } else {
        assert forall|i: int| 0 <= i < stages.len() implies (#[trigger] stages[i]).rank()
            < expected.rank() by {
            if stages[i].rank() == expected.rank() {
                assert(stages[i] == expected);
            }
        }
    }
}

/// The stages left once several are undone, one after the other.
pub open spec fn discharged_all(stages: Seq<CreatedStage>, order: Seq<CreatedStage>) -> Option<
    Seq<CreatedStage>,
>
    decreases order.len(),
{
    if order.len() == 0 {
        Some(stages)
    } else {
        match discharged_all(stages, order.drop_last()) {
            None => None,
            Some(left) => discharged(left, order.last()),
        }
    }
}

/// The order in which a destruction undoes the stages.
pub open spec fn destroy_order() -> Seq<CreatedStage> {
    seq![
        CreatedStage::Evacuated,
        CreatedStage::KernelDomain,
        CreatedStage::RootlessKitSocket,
        CreatedStage::RuntimeSocket,
        CreatedStage::LifecycleJournal,
        CreatedStage::AttemptFilesystem,
        CreatedStage::AttemptCgroup,
    ]
}

/// Whatever part of the stages provisioning has created, in its order, a destruction
/// undoes all of it without an error.
pub proof fn law_destroy_undoes_every_provisioning(stages: Seq<CreatedStage>)
    requires
        in_order(stages),
    ensures
        discharged_all(stages, destroy_order()) == Some(Seq::<CreatedStage>::empty()),
{
    lemma_undone(stages, 7);
    assert(destroy_order().take(7) =~= destroy_order());
    let left = discharged_all(stages, destroy_order())->0;
    if left.len() > 0 {
        assert(left[0].rank() < 0);
    }
    assert(left =~= Seq::empty());
}

proof fn lemma_undone(stages: Seq<CreatedStage>, n: int)
    requires
        in_order(stages),
        0 <= n <= 7,
    ensures
        discharged_all(stages, destroy_order().take(n)) matches Some(left) && in_order(left) && (
        forall|i: int| 0 <= i < left.len() ==> (#[trigger] left[i]).rank() < 7 - n),
    decreases n,
{
    if n == 0 {
        assert(destroy_order().take(0) =~= Seq::empty());
    } else {
        lemma_undone(stages, n - 1);
        let order = destroy_order().take(n);
        assert(order.drop_last() =~= destroy_order().take(n - 1));
        let left = discharged_all(stages, order.drop_last())->0;
        let stage = order.last();
        assert(stage == destroy_order()[n - 1]);
        assert(stage.rank() == 7 - n);
        lemma_discharge_highest(left, stage);
    }
}

/// Whether what others were told of a domain has been taken back.
#[derive(Debug, Clone, Copy, PartialEq, Eq, Structural)]
pub enum ExternalRevocationState {
    /// Nobody was told of the domain.
    Unpublished,
    /// Others may use the domain.
    Required,
    /// Nobody can use the domain any more.
    Proven,
}

impl ExternalRevocationState {
    /// Notes that others were told of the domain.
    pub fn publish(&mut self)
        ensures
            *final(self) == (if *old(self) == ExternalRevocationState::Unpublished {
                ExternalRevocationState::Required
            } else {
                *old(self)
            }),
    {
        match *self {
            ExternalRevocationState::Unpublished => {
                *self = ExternalRevocationState::Required;
            },
            _ => {},
        }
    }

    /// Notes that nobody can use the domain any more.
    pub fn prove(&mut self)
        ensures
            *final(self) == ExternalRevocationState::Proven,
    {
        *self = ExternalRevocationState::Proven;
    }

    /// Whether the domain may be cleaned up.
    pub fn cleanup_allowed(self) -> (r: bool)
        ensures
            r == (self != ExternalRevocationState::Required),
    {
        match self {
            ExternalRevocationState::Required => false,
            _ => true,
        }
    }
}

/// The directories of an attempt, read off the directory of its root file system.
pub struct AttemptDirectories {
    pub attempt: Parts,
    pub active: Parts,
}

/// Finds the directory of the attempt and the one that holds all attempts. The first
/// must have the attempt's own name.
pub fn attempt_directories(staging_root: &[u8], attempt: AttemptIdentity) -> (r: Result<
    AttemptDirectories,
    ExecutionDomainError,
>)
    ensures
        ({
            let own = host_path::parent(host_path::components(staging_root@));
            match r {
                Ok(d) => own == Some(d.attempt@) && host_path::parent(d.attempt@) == Some(
                    d.active@,
                ) && host_path::file_name(d.attempt@) == Some(
                    bytes::encoded(ids::simple_text(attempt@)),
                ),
                Err(e) => if own is None || host_path::parent(own->0) is None {
                    e == destroy::destroy_error(FailureCategory::InvalidInput)
                } else {
                    host_path::file_name(own->0) != Some(
                        bytes::encoded(ids::simple_text(attempt@)),
                    ) && e == destroy::destroy_error(FailureCategory::IdentityMismatch)
                },
            }
        }),
{
    let staging: Parts = host_path::parts_of(staging_root);
    let own: Parts = match staging.parent() {
        Some(p) => p,
        None => {
            return Err(destroy::failure(FailureCategory::InvalidInput));
        },
    };
    let active: Parts = match own.parent() {
        Some(p) => p,
        None => {
            return Err(destroy::failure(FailureCategory::InvalidInput));
        },
    };
    let name: String = attempt.component();
    if !own.named(name.as_str()) {
        return Err(destroy::failure(FailureCategory::IdentityMismatch));
    }
    Ok(AttemptDirectories { attempt: own, active })
}

/// The operation of a provisioning that comes next.
#[derive(Debug, Clone, Copy, PartialEq, Eq, Structural)]
pub enum ProvisionOperation {
    /// Open the directories of the attempt.
    BindDirectories,
    CreateJournal,
    VerifyGroups,
    /// Open the directories that the workflow can write.
    OpenRoots,
    Launch,
    CaptureSocket,
    /// Hold the launched namespace to the mapping.
    VerifyMap,
    FinishEvacuation,
}

/// A provisioning under way.
pub struct Provision {
    pub operation: ProvisionOperation,
    pub stages: CreatedStageStack,
    /// Whether a socket of the run-time was handed over.
    pub runtime_socket: bool,
    /// Whether the users of the domain are mapped.
    pub mapped: bool,
}

/// How a provisioning goes on.
pub enum ProvisionStep {
    Continue(Provision),
    /// Nothing but the group is known to be ours: remove it, and report this.
    RemoveCgroup(ExecutionDomainError),
    /// Destroy what was created, and report this.
    Rollback(CreatedStageStack, ExecutionDomainError),
    /// The domain is there.
    Done(CreatedStageStack),
}

impl Provision {
    /// What has been created before an operation.
    pub open spec fn created(operation: ProvisionOperation, runtime_socket: bool) -> Seq<
        CreatedStage,
    > {
        let base = seq![CreatedStage::AttemptCgroup, CreatedStage::AttemptFilesystem];
        let recorded = if runtime_socket {
            base.push(CreatedStage::LifecycleJournal).push(CreatedStage::RuntimeSocket)
        } else {
            base.push(CreatedStage::LifecycleJournal)
        };
        match operation {
            ProvisionOperation::BindDirectories | ProvisionOperation::CreateJournal => base,
            ProvisionOperation::VerifyGroups | ProvisionOperation::OpenRoots
            | ProvisionOperation::Launch | ProvisionOperation::CaptureSocket => recorded,
            ProvisionOperation::VerifyMap | ProvisionOperation::FinishEvacuation => recorded.push(
                CreatedStage::RootlessKitSocket,
            ).push(CreatedStage::KernelDomain),
        }
    }

    /// Whether the stages are those that the operations so far have created.
    pub open spec fn wf(self) -> bool {
        self.stages@ == Self::created(self.operation, self.runtime_socket)
    }

    /// Begins a provisioning for which a group was created.
    pub fn begin(runtime_socket: bool, mapped: bool) -> (r: Provision)
        ensures
            r.wf(),
            r.operation == ProvisionOperation::BindDirectories,
            r.runtime_socket == runtime_socket,
            r.mapped == mapped,
    {
        let mut stages: Vec<CreatedStage> = Vec::new();
        stages.push(CreatedStage::AttemptCgroup);
        stages.push(CreatedStage::AttemptFilesystem);
        proof {
            assert(stages@ =~= Self::created(ProvisionOperation::BindDirectories, runtime_socket));
        }
        Provision {
            operation: ProvisionOperation::BindDirectories,
            stages: CreatedStageStack::new(stages),
            runtime_socket,
            mapped,
        }
    }

    /// The operation after one that succeeded.
    pub open spec fn following(operation: ProvisionOperation) -> Option<ProvisionOperation> {
        match operation {
            ProvisionOperation::BindDirectories => Some(ProvisionOperation::CreateJournal),
            ProvisionOperation::CreateJournal => Some(ProvisionOperation::VerifyGroups),
            ProvisionOperation::VerifyGroups => Some(ProvisionOperation::OpenRoots),
            ProvisionOperation::OpenRoots => Some(ProvisionOperation::Launch),
            ProvisionOperation::Launch => Some(ProvisionOperation::CaptureSocket),
            ProvisionOperation::CaptureSocket => Some(ProvisionOperation::VerifyMap),
            ProvisionOperation::VerifyMap => Some(ProvisionOperation::FinishEvacuation),
            ProvisionOperation::FinishEvacuation => None,
        }
    }

    /// What has to be destroyed after an operation has failed. A launched domain
    /// whose socket could not be captured is there all the same.
    pub open spec fn to_undo(self) -> Seq<CreatedStage> {
        if self.operation == ProvisionOperation::CaptureSocket {
            self.stages@.push(CreatedStage::KernelDomain)
        } else {
            self.stages@
        }
    }

    /// Takes the outcome of the current operation.
    pub fn advance(self, outcome: Result<(), ExecutionDomainError>) -> (r: ProvisionStep)
        requires
            self.wf(),
        ensures
            match r {
                ProvisionStep::Continue(next) => {
                    &&& outcome is Ok
                    &&& Self::following(self.operation) == Some(next.operation)
                    &&& next.wf()
                    &&& next.runtime_socket == self.runtime_socket
                    &&& next.mapped == self.mapped
                    &&& self.operation == ProvisionOperation::CaptureSocket ==> self.mapped
                },
                ProvisionStep::RemoveCgroup(e) => self.operation
                    == ProvisionOperation::BindDirectories && outcome == Err::<
                    (),
                    ExecutionDomainError,
                >(e),
                ProvisionStep::Rollback(stages, e) => {
                    &&& self.operation != ProvisionOperation::BindDirectories
                    &&& in_order(stages@)
                    &&& match outcome {
                        Err(failed) => e == failed && stages@ == self.to_undo(),
                        Ok(_) => self.operation == ProvisionOperation::CaptureSocket && !self.mapped
                            && e == destroy::destroy_error(FailureCategory::NotReady) && stages@
                            == Self::created(ProvisionOperation::VerifyMap, self.runtime_socket),
                    }
                },
                ProvisionStep::Done(stages) => {
                    &&& outcome is Ok
                    &&& self.operation == ProvisionOperation::FinishEvacuation
                    &&& stages@ == self.stages@.push(CreatedStage::Evacuated)
                    &&& in_order(stages@)
                },
            },
    {
        let Provision { operation, mut stages, runtime_socket, mapped } = self;
        match outcome {
            Err(e) => {
                match operation {
                    ProvisionOperation::BindDirectories => ProvisionStep::RemoveCgroup(e),
                    ProvisionOperation::CaptureSocket => {
                        stages.push(CreatedStage::KernelDomain);
                        ProvisionStep::Rollback(stages, e)
                    },
                    _ => ProvisionStep::Rollback(stages, e),
                }
            },
            Ok(_) => {
                match operation {
                    ProvisionOperation::BindDirectories => ProvisionStep::Continue(
                        Provision {
                            operation: ProvisionOperation::CreateJournal,
                            stages,
                            runtime_socket,
                            mapped,
                        },
                    ),
                    ProvisionOperation::CreateJournal => {
                        stages.push(CreatedStage::LifecycleJournal);
                        if runtime_socket {
                            stages.push(CreatedStage::RuntimeSocket);
                        }
                        ProvisionStep::Continue(
                            Provision {
                                operation: ProvisionOperation::VerifyGroups,
                                stages,
                                runtime_socket,
                                mapped,
                            },
                        )
                    },
                    ProvisionOperation::VerifyGroups => ProvisionStep::Continue(
                        Provision {
                            operation: ProvisionOperation::OpenRoots,
                            stages,
                            runtime_socket,
                            mapped,
                        },
                    ),
                    ProvisionOperation::OpenRoots => ProvisionStep::Continue(
                        Provision {
                            operation: ProvisionOperation::Launch,
                            stages,
                            runtime_socket,
                            mapped,
                        },
                    ),
                    ProvisionOperation::Launch => ProvisionStep::Continue(
                        Provision {
                            operation: ProvisionOperation::CaptureSocket,
                            stages,
                            runtime_socket,
                            mapped,
                        },
                    ),
                    ProvisionOperation::CaptureSocket => {
                        stages.push(CreatedStage::RootlessKitSocket);
                        stages.push(CreatedStage::KernelDomain);
                        if mapped {
                            ProvisionStep::Continue(
                                Provision {
                                    operation: ProvisionOperation::VerifyMap,
                                    stages,
                                    runtime_socket,
                                    mapped,
                                },
                            )
                        } else {
                            ProvisionStep::Rollback(
                                stages,
                                destroy::failure(FailureCategory::NotReady),
                            )
                        }
                    },
                    ProvisionOperation::VerifyMap => ProvisionStep::Continue(
                        Provision {
                            operation: ProvisionOperation::FinishEvacuation,
                            stages,
                            runtime_socket,
                            mapped,
                        },
                    ),
                    ProvisionOperation::FinishEvacuation => {
                        stages.push(CreatedStage::Evacuated);
                        ProvisionStep::Done(stages)
                    },
                }
            },
        }
    }
}

/// Wherever a provisioning stops, what it hands over can be undone completely.
pub proof fn law_every_rollback_is_complete(p: Provision)
    requires
        p.wf(),
        p.operation != ProvisionOperation::BindDirectories,
    ensures
        discharged_all(p.to_undo(), destroy_order()) == Some(Seq::<CreatedStage>::empty()),
{
    law_destroy_undoes_every_provisioning(p.to_undo());
}

/// Why a provisioning failed, whether the attempt may never be used again, and
/// whether something is left to clean up later.
pub struct StrictProvisionFailure {
    pub error: ExecutionDomainError,
    pub quarantine: bool,
    pub retained: bool,
}

impl StrictProvisionFailure {
    /// A failure of which nothing is known: the attempt is never used again.
    pub fn unknown(error: ExecutionDomainError) -> (r: StrictProvisionFailure)
        ensures
            r == (StrictProvisionFailure { error, quarantine: true, retained: false }),
    {
        StrictProvisionFailure { error, quarantine: true, retained: false }
    }

    /// The failure after what was created has been destroyed, or not.
    pub fn rollback(
        source: ExecutionDomainError,
        destroyed: Result<(), ExecutionDomainError>,
    ) -> (r: StrictProvisionFailure)
        ensures
            r == (StrictProvisionFailure {
                error: cgroup::combined(source, destroyed),
                quarantine: destroyed is Err,
                retained: destroyed is Err,
            }),
    {
        let failed: bool = destroyed.is_err();
        StrictProvisionFailure {
            error: cgroup::combine(source, destroyed),
            quarantine: failed,
            retained: failed,
        }
    }

    /// The failure after the group alone has been removed, or not. The attempt is
    /// never used again, since nothing is known of its files.
    pub fn rollback_partial_cgroup(
        source: ExecutionDomainError,
        removed: Result<(), ExecutionDomainError>,
    ) -> (r: StrictProvisionFailure)
        ensures
            r == (StrictProvisionFailure {
                error: cgroup::combined(source, removed),
                quarantine: true,
                retained: removed is Err,
            }),
    {
        let failed: bool = removed.is_err();
        StrictProvisionFailure {
            error: cgroup::combine(source, removed),
            quarantine: true,
            retained: failed,
        }
    }
}

/// What is known of a domain that has to be destroyed.
pub struct StrictCleanupRecord {
    pub attempt: AttemptIdentity,
    pub stages: CreatedStageStack,
    /// The state in the journal, where there is one.
    pub lifecycle: Option<DomainState>,
    /// Whether the connection to the domain is held.
    pub kernel: bool,
    pub rootlesskit_socket: bool,
    pub runtime_socket: bool,
    pub admission_closed: bool,
    pub handles_closed: bool,
    pub external_revocation: ExternalRevocationState,
    pub destroy_report: Option<DestroyReport>,
}

/// What is done with a socket of the domain.
#[derive(Debug, Clone, Copy, PartialEq, Eq, Structural)]
pub enum SocketAction {
    /// Nothing.
    Skip,
    /// Remove the captured socket.
    Remove,
    /// Make sure that there is none.
    Refuse,
}

impl StrictCleanupRecord {
    /// The record of a domain that nobody was told of.
    pub fn new(
        attempt: AttemptIdentity,
        stages: CreatedStageStack,
        lifecycle: Option<DomainState>,
        kernel: bool,
        rootlesskit_socket: bool,
        runtime_socket: bool,
    ) -> (r: StrictCleanupRecord)
        ensures
            r == (StrictCleanupRecord {
                attempt,
                stages,
                lifecycle,
                kernel,
                rootlesskit_socket,
                runtime_socket,
                admission_closed: false,
                handles_closed: false,
                external_revocation: ExternalRevocationState::Unpublished,
                destroy_report: None,
            }),
    {
        StrictCleanupRecord {
            attempt,
            stages,
            lifecycle,
            kernel,
            rootlesskit_socket,
            runtime_socket,
            admission_closed: false,
            handles_closed: false,
            external_revocation: ExternalRevocationState::Unpublished,
            destroy_report: None,
        }
    }

    /// Whether two records agree on the attempt, its journal, and what others and
    /// earlier destructions have to do with it.
    pub open spec fn agrees(self, other: StrictCleanupRecord) -> bool {
        &&& self.attempt == other.attempt
        &&& self.lifecycle == other.lifecycle
        &&& self.external_revocation == other.external_revocation
        &&& self.destroy_report == other.destroy_report
        &&& self.admission_closed == other.admission_closed
    }

    /// Whether two records agree on what is held open.
    pub open spec fn same_handles(self, other: StrictCleanupRecord) -> bool {
        &&& self.kernel == other.kernel
        &&& self.handles_closed == other.handles_closed
        &&& self.rootlesskit_socket == other.rootlesskit_socket
        &&& self.runtime_socket == other.runtime_socket
    }

    /// Notes that nobody can use the domain any more.
    pub fn authorize_external_revocation(&mut self)
        ensures
            *final(self) == (StrictCleanupRecord {
                external_revocation: ExternalRevocationState::Proven,
                ..*old(self)
            }),
    {
        self.external_revocation.prove();
    }

    /// Notes that others were told of the domain.
    pub fn mark_published(&mut self)
        ensures
            *final(self) == (StrictCleanupRecord {
                external_revocation: if old(self).external_revocation
                    == ExternalRevocationState::Unpublished {
                    ExternalRevocationState::Required
                } else {
                    old(self).external_revocation
                },
                ..*old(self)
            }),
    {
        self.external_revocation.publish();
    }

    /// Closes the domain for new work. It fails while others may use the domain.
    pub fn close_admission(&mut self) -> (r: Result<(), ExecutionDomainError>)
        ensures
            *final(self) == (StrictCleanupRecord { admission_closed: true, ..*old(self) }),
            r == (if old(self).external_revocation == ExternalRevocationState::Required {
                Err::<(), ExecutionDomainError>(
                    destroy::destroy_error(FailureCategory::Unavailable),
                )
            } else {
                Ok(())
            }),
    {
        self.admission_closed = true;
        if self.external_revocation.cleanup_allowed() {
            Ok(())
        } else {
            Err(destroy::failure(FailureCategory::Unavailable))
        }
    }

    /// Whether the journal has to be moved to its destroying state.
    pub fn needs_destroying(&self) -> (r: bool)
        ensures
            r == (self.lifecycle matches Some(s) && s != DomainState::Destroying && s
                != DomainState::Destroyed && s != DomainState::Quarantined),
    {
        match self.lifecycle {
            None => false,
            Some(DomainState::Destroying) | Some(DomainState::Destroyed) | Some(
                DomainState::Quarantined,
            ) => false,
            Some(_) => true,
        }
    }

    /// Takes what the move of the journal gave, with the state it has now.
    pub fn persist_destroying(
        &mut self,
        moved: Result<(), ExecutionDomainError>,
        state: Option<DomainState>,
    ) -> (r: Result<(), ExecutionDomainError>)
        ensures
            final(self).agrees(StrictCleanupRecord { lifecycle: state, ..*old(self) }),
            final(self).same_handles(*old(self)),
            match moved {
                Err(e) => r == Err::<(), ExecutionDomainError>(e) && final(self).stages@ == old(self).stages@,
                Ok(_) => match discharged(old(self).stages@, CreatedStage::Evacuated) {
                    Some(left) => r is Ok && final(self).stages@ == left,
                    None => r == Err::<(), ExecutionDomainError>(
                        destroy::destroy_error(FailureCategory::IdentityMismatch),
                    ) && final(self).stages@ == old(self).stages@,
                },
            },
    {
        self.lifecycle = state;
        match moved {
            Err(e) => Err(e),
            Ok(_) => self.stages.discharge(CreatedStage::Evacuated),
        }
    }

    /// Lets go of the connection to the domain, given whether its launcher was seen
    /// to have ended. A domain whose launcher still runs is kept.
    pub fn close_handles(&mut self, ended: Result<bool, Option<i32>>) -> (r: Result<
        (),
        ExecutionDomainError,
    >)
        ensures
            final(self).agrees(*old(self)),
            final(self).rootlesskit_socket == old(self).rootlesskit_socket,
            final(self).runtime_socket == old(self).runtime_socket,
            if !old(self).stages@.contains(CreatedStage::KernelDomain) {
                r is Ok && final(self).handles_closed && final(self).stages@ == old(self).stages@
                    && final(self).kernel == old(self).kernel
            } else if old(self).kernel && ended is Err {
                r == Err::<(), ExecutionDomainError>(
                    error::backend_io(Stage::Destroy, ended->Err_0),
                ) && final(self).stages@ == old(self).stages@ && final(self).handles_closed == old(self).handles_closed && !final(self).kernel
            } else if old(self).kernel && ended == Ok::<bool, Option<i32>>(false) {
                r == Err::<(), ExecutionDomainError>(
                    destroy::destroy_error(FailureCategory::Unavailable),
                ) && final(self).stages@ == old(self).stages@ && final(self).handles_closed == old(self).handles_closed && final(self).kernel
            } else {
                &&& final(self).handles_closed
                &&& !final(self).kernel
                &&& match discharged(old(self).stages@, CreatedStage::KernelDomain) {
                    Some(left) => r is Ok && final(self).stages@ == left,
                    None => r == Err::<(), ExecutionDomainError>(
                        destroy::destroy_error(FailureCategory::IdentityMismatch),
                    ) && final(self).stages@ == old(self).stages@,
                }
            },
    {
        if !self.stages.contains(CreatedStage::KernelDomain) {
            self.handles_closed = true;
            return Ok(());
        }
        if self.kernel {
            self.kernel = false;
            match ended {
                Err(errno) => {
                    return Err(error::backend_io_failure(Stage::Destroy, errno));
                },
                Ok(over) => {
                    if !over {
                        self.kernel = true;
                        return Err(destroy::failure(FailureCategory::Unavailable));
                    }
                },
            }
        }
        self.handles_closed = true;
        self.stages.discharge(CreatedStage::KernelDomain)
    }

    /// Makes sure that nothing is mounted in the attempt's directory, given whether
    /// the directories are still the right ones and what is mounted where.
    pub fn prove_no_mounts(
        &self,
        active: Result<(), ExecutionDomainError>,
        attempt: Result<(), ExecutionDomainError>,
        rootfs: Result<(), ExecutionDomainError>,
        path: &[u8],
        mountinfo: Result<Vec<u8>, Option<i32>>,
    ) -> (r: Result<(), ExecutionDomainError>)
        ensures
            r == (if !self.handles_closed {
                Err::<(), ExecutionDomainError>(
                    destroy::destroy_error(FailureCategory::Unavailable),
                )
            } else if active is Err {
                active
            } else if self.stages@.contains(CreatedStage::AttemptFilesystem) && attempt is Err {
                attempt
            } else if self.stages@.contains(CreatedStage::AttemptFilesystem) && rootfs is Err {
                rootfs
            } else {
                match mountinfo {
                    Err(errno) => Err(error::backend_io(Stage::Destroy, errno)),
                    Ok(contents) => match first_mount_problem(
                        bytes::split(contents@, 10),
                        path@,
                    ) {
                        Some(e) => Err(e),
                        None => Ok(()),
                    },
                }
            }),
    {
        if !self.handles_closed {
            return Err(destroy::failure(FailureCategory::Unavailable));
        }
        match active {
            Err(e) => {
                return Err(e);
            },
            Ok(_) => {},
        }
        if self.stages.contains(CreatedStage::AttemptFilesystem) {
            match attempt {
                Err(e) => {
                    return Err(e);
                },
                Ok(_) => {},
            }
            match rootfs {
                Err(e) => {
                    return Err(e);
                },
                Ok(_) => {},
            }
        }
        match mountinfo {
            Err(errno) => Err(error::backend_io_failure(Stage::Destroy, errno)),
            Ok(contents) => prove_no_mount_below(path, contents.as_slice()),
        }
    }

    /// Whether a socket may still be there.
    pub open spec fn has_sockets(self) -> bool {
        self.stages@.contains(CreatedStage::RootlessKitSocket) || self.stages@.contains(
            CreatedStage::RuntimeSocket,
        )
    }

    /// What is done with the control socket of the launcher.
    pub fn control_action(&self) -> (r: SocketAction)
        ensures
            r == (if !self.has_sockets() {
                SocketAction::Skip
            } else if self.rootlesskit_socket {
                SocketAction::Remove
            } else {
                SocketAction::Refuse
            }),
    {
        if !self.stages.contains(CreatedStage::RootlessKitSocket) && !self.stages.contains(
            CreatedStage::RuntimeSocket,
        ) {
            SocketAction::Skip
        } else if self.rootlesskit_socket {
            SocketAction::Remove
        } else {
            SocketAction::Refuse
        }
    }

    /// What is then done with the socket of the run-time, given whether the
    /// directory for it is one of those that the workflow can write.
    pub fn runtime_action(&self, has_run: bool) -> (r: SocketAction)
        ensures
            r == (if !self.has_sockets() {
                SocketAction::Skip
            } else if self.runtime_socket {
                SocketAction::Remove
            } else if has_run {
                SocketAction::Refuse
            } else {
                SocketAction::Skip
            }),
    {
        if !self.stages.contains(CreatedStage::RootlessKitSocket) && !self.stages.contains(
            CreatedStage::RuntimeSocket,
        ) {
            SocketAction::Skip
        } else if self.runtime_socket {
            SocketAction::Remove
        } else if has_run {
            SocketAction::Refuse
        } else {
            SocketAction::Skip
        }
    }

    /// Takes the outcomes of the two actions on sockets. The second counts only
    /// where the first succeeded.
    pub fn remove_runtime_socket(
        &mut self,
        control: Result<(), ExecutionDomainError>,
        runtime: Result<(), ExecutionDomainError>,
    ) -> (r: Result<(), ExecutionDomainError>)
        ensures
            final(self).agrees(*old(self)),
            final(self).handles_closed == old(self).handles_closed,
            final(self).kernel == old(self).kernel,
            ({
                let refused = Err::<(), ExecutionDomainError>(
                    destroy::destroy_error(FailureCategory::IdentityMismatch),
                );
                let first = discharged(old(self).stages@, CreatedStage::RootlessKitSocket);
                if !old(self).has_sockets() {
                    r is Ok && final(self).stages@ == old(self).stages@ && final(self).rootlesskit_socket == old(self).rootlesskit_socket && final(self).runtime_socket == old(self).runtime_socket
                } else if control is Err {
                    r == control && final(self).stages@ == old(self).stages@ && final(self).rootlesskit_socket == old(self).rootlesskit_socket && final(self).runtime_socket == old(self).runtime_socket
                } else if first is None {
                    r == refused && final(self).stages@ == old(self).stages@ && !final(self).rootlesskit_socket && final(self).runtime_socket == old(self).runtime_socket
                } else if runtime is Err {
                    r == runtime && final(self).stages@ == first->0 && !final(self).rootlesskit_socket && final(self).runtime_socket == old(self).runtime_socket
                } else {
                    &&& !final(self).rootlesskit_socket
                    &&& !final(self).runtime_socket
                    &&& match discharged(first->0, CreatedStage::RuntimeSocket) {
                        Some(left) => r is Ok && final(self).stages@ == left,
                        None => r == refused && final(self).stages@ == first->0,
                    }
                }
            }),
    {
        if !self.stages.contains(CreatedStage::RootlessKitSocket) && !self.stages.contains(
            CreatedStage::RuntimeSocket,
        ) {
            return Ok(());
        }
        match control {
            Err(e) => {
                return Err(e);
            },
            Ok(_) => {},
        }
        self.rootlesskit_socket = false;
        match self.stages.discharge(CreatedStage::RootlessKitSocket) {
            Err(e) => {
                return Err(e);
            },
            Ok(_) => {},
        }
        match runtime {
            Err(e) => {
                return Err(e);
            },
            Ok(_) => {},
        }
        self.runtime_socket = false;
        self.stages.discharge(CreatedStage::RuntimeSocket)
    }

    /// Whether the attempt's directory is still to be removed.
    pub fn filesystem_due(&self) -> (r: bool)
        ensures
            r == self.stages@.contains(CreatedStage::AttemptFilesystem),
    {
        self.stages.contains(CreatedStage::AttemptFilesystem)
    }

    /// Takes the outcomes of emptying the directories that the workflow could write,
    /// and of removing the attempt's directory.
    pub fn remove_filesystem(
        &mut self,
        emptied: Result<(), ExecutionDomainError>,
        removed: Result<(), ExecutionDomainError>,
    ) -> (r: Result<(), ExecutionDomainError>)
        ensures
            final(self).agrees(*old(self)),
            final(self).same_handles(*old(self)),
            ({
                let refused = Err::<(), ExecutionDomainError>(
                    destroy::destroy_error(FailureCategory::IdentityMismatch),
                );
                let first = discharged(old(self).stages@, CreatedStage::LifecycleJournal);
                if !old(self).stages@.contains(CreatedStage::AttemptFilesystem) {
                    r is Ok && final(self).stages@ == old(self).stages@
                } else if emptied is Err {
                    r == emptied && final(self).stages@ == old(self).stages@
                } else if removed is Err {
                    r == removed && final(self).stages@ == old(self).stages@
                } else if first is None {
                    r == refused && final(self).stages@ == old(self).stages@
                } else {
                    match discharged(first->0, CreatedStage::AttemptFilesystem) {
                        Some(left) => r is Ok && final(self).stages@ == left,
                        None => r == refused && final(self).stages@ == first->0,
                    }
                }
            }),
    {
        if !self.stages.contains(CreatedStage::AttemptFilesystem) {
            return Ok(());
        }
        match emptied {
            Err(e) => {
                return Err(e);
            },
            Ok(_) => {},
        }
        match removed {
            Err(e) => {
                return Err(e);
            },
            Ok(_) => {},
        }
        match self.stages.discharge(CreatedStage::LifecycleJournal) {
            Err(e) => {
                return Err(e);
            },
            Ok(_) => {},
        }
        self.stages.discharge(CreatedStage::AttemptFilesystem)
    }

    /// Whether the group is still to be removed.
    pub fn cgroup_due(&self) -> (r: bool)
        ensures
            r == self.stages@.contains(CreatedStage::AttemptCgroup),
    {
        self.stages.contains(CreatedStage::AttemptCgroup)
    }

    /// Takes the outcome of removing the group.
    pub fn remove_cgroup(&mut self, removed: Result<(), ExecutionDomainError>) -> (r: Result<
        (),
        ExecutionDomainError,
    >)
        ensures
            final(self).agrees(*old(self)),
            final(self).same_handles(*old(self)),
            if !old(self).stages@.contains(CreatedStage::AttemptCgroup) {
                r is Ok && final(self).stages@ == old(self).stages@
            } else if removed is Err {
                r == removed && final(self).stages@ == old(self).stages@
            } else {
                match discharged(old(self).stages@, CreatedStage::AttemptCgroup) {
                    Some(left) => r is Ok && final(self).stages@ == left,
                    None => r == Err::<(), ExecutionDomainError>(
                        destroy::destroy_error(FailureCategory::IdentityMismatch),
                    ) && final(self).stages@ == old(self).stages@,
                }
            },
    {
        if !self.stages.contains(CreatedStage::AttemptCgroup) {
            return Ok(());
        }
        match removed {
            Err(e) => Err(e),
            Ok(_) => self.stages.discharge(CreatedStage::AttemptCgroup),
        }
    }

    /// Ends a destruction, given the outcome of the last entry in the journal.
    /// Nothing that was created may be left.
    pub fn mark_destroyed(&self, completed: Result<(), ExecutionDomainError>) -> (r: Result<
        (),
        ExecutionDomainError,
    >)
        ensures
            r == (if self.lifecycle is Some && completed is Err {
                completed
            } else if self.stages@.len() > 0 {
                Err::<(), ExecutionDomainError>(
                    destroy::destroy_error(FailureCategory::IdentityMismatch),
                )
            } else {
                Ok(())
            }),
    {
        if self.lifecycle.is_some() {
            match completed {
                Err(e) => {
                    return Err(e);
                },
                Ok(_) => {},
            }
        }
        if !self.stages.is_empty() {
            return Err(destroy::failure(FailureCategory::IdentityMismatch));
        }
        Ok(())
    }

    /// The report of an earlier destruction. A domain is destroyed once.
    pub fn earlier_report(&self) -> (r: Option<DestroyReport>)
        ensures
            r == self.destroy_report,
    {
        self.destroy_report
    }

    /// Takes what a destruction came to. `true` stands for a domain whose journal
    /// has to say that it may never be used again.
    pub fn finish_destroy(&mut self, result: &Result<DestroyReport, ExecutionDomainError>) -> (r:
        bool)
        ensures
            match *result {
                Ok(report) => *final(self) == (StrictCleanupRecord {
                    destroy_report: Some(report),
                    ..*old(self)
                }) && !r,
                Err(_) => *final(self) == *old(self) && r == (old(self).lifecycle == Some(DomainState::Destroying)),
            },
    {
        match result {
            Ok(report) => {
                self.destroy_report = Some(*report);
                false
            },
            Err(_) => match self.lifecycle {
                Some(DomainState::Destroying) => true,
                _ => false,
            },
        }
    }
}

/// What waiting for the launcher gives: the end, a failure, or a pause in
/// nanoseconds before the next look.
pub enum ReapStep {
    Ended,
    Failed(ExecutionDomainError),
    Pause(u128),
}

/// The longest pause between two looks at the launcher, in nanoseconds.
pub const REAP_PAUSE: u128 = 10_000_000;

/// Takes a look at the launcher.
pub fn reap_launcher(ended: Result<bool, Option<i32>>, now: u128, deadline: u128) -> (r: ReapStep)
    ensures
        r == (match ended {
            Err(errno) => ReapStep::Failed(error::backend_io(Stage::Destroy, errno)),
            Ok(true) => ReapStep::Ended,
            Ok(false) => if now >= deadline {
                ReapStep::Failed(destroy::destroy_error(FailureCategory::Timeout))
            } else if deadline - now < REAP_PAUSE {
                ReapStep::Pause((deadline - now) as u128)
            } else {
                ReapStep::Pause(REAP_PAUSE)
            },
        }),
{
    match ended {
        Err(errno) => ReapStep::Failed(error::backend_io_failure(Stage::Destroy, errno)),
        Ok(over) => {
            if over {
                ReapStep::Ended
            } else if now >= deadline {
                ReapStep::Failed(destroy::failure(FailureCategory::Timeout))
            } else if deadline - now < REAP_PAUSE {
                ReapStep::Pause(deadline - now)
            } else {
                ReapStep::Pause(REAP_PAUSE)
            }
        },
    }
}

/// Whether a byte is a decimal digit.
pub open spec fn digit_byte(b: u8) -> bool {
    0x30 <= b <= 0x39
}

/// The number that three digits after a backslash stand for.
pub open spec fn escape_value(a: u8, b: u8, c: u8) -> int {
    (a - 0x30) * 64 + (b - 0x30) * 8 + (c - 0x30)
}

/// Whether an escape can be read.
pub open spec fn escape_valid(s: Seq<u8>) -> bool {
    s.len() >= 4 && digit_byte(s[1]) && digit_byte(s[2]) && digit_byte(s[3]) && escape_value(
        s[1],
        s[2],
        s[3],
    ) <= 255
}

/// The path that an escaped field stands for, where it can be read.
pub open spec fn unescaped(s: Seq<u8>) -> Option<Seq<u8>>
    decreases s.len(),
{
    if s.len() == 0 {
        Some(Seq::empty())
    } else if s[0] != 0x5c {
        match unescaped(s.skip(1)) {
            Some(rest) => Some(seq![s[0]] + rest),
            None => None,
        }
    } else if escape_valid(s) {
        match unescaped(s.skip(4)) {
            Some(rest) => Some(seq![escape_value(s[1], s[2], s[3]) as u8] + rest),
            None => None,
        }
    } else {
        None
    }
}

/// Reads an escaped field.
pub fn unescape_mountinfo(value: &[u8]) -> (r: Result<Vec<u8>, ExecutionDomainError>)
    ensures
        match r {
            Ok(path) => unescaped(value@) == Some(path@),
            Err(e) => unescaped(value@) is None && e == destroy::destroy_error(
                FailureCategory::IdentityMismatch,
            ),
        },
{
    let mut output: Vec<u8> = Vec::new();
    let mut index: usize = 0;
    proof {
        assert(value@.skip(0) =~= value@);
    }
    while index < value.len()
        invariant
            index <= value@.len(),
            match unescaped(value@.skip(index as int)) {
                Some(rest) => unescaped(value@) == Some(output@ + rest),
                None => unescaped(value@) is None,
            },
        decreases value.len() - index,
    {
        let ghost here = value@.skip(index as int);
        let ghost done = output@;
        assert(here[0] == value@[index as int]);
        if value[index] != 0x5c {
            output.push(value[index]);
            index = index + 1;
            proof {
                let after = value@.skip(index as int);
                assert(here.skip(1) =~= after);
                if unescaped(after) is Some {
                    assert(output@ + unescaped(after)->0 =~= done + unescaped(here)->0);
                }
            }
            continue;
        }
        if value.len() - index < 4 {
            return Err(destroy::failure(FailureCategory::IdentityMismatch));
        }
        let a: u8 = value[index + 1];
        let b: u8 = value[index + 2];
        let c: u8 = value[index + 3];
        proof {
            assert(here[1] == a && here[2] == b && here[3] == c);
        }
        if !(0x30 <= a && a <= 0x39 && 0x30 <= b && b <= 0x39 && 0x30 <= c && c <= 0x39) {
            return Err(destroy::failure(FailureCategory::IdentityMismatch));
        }
        let decoded: u32 = (a - 0x30) as u32 * 64 + (b - 0x30) as u32 * 8 + (c - 0x30) as u32;
        if decoded > 255 {
            return Err(destroy::failure(FailureCategory::IdentityMismatch));
        }
        output.push(decoded as u8);
        index = index + 4;
        proof {
            let after = value@.skip(index as int);
            assert(here.skip(4) =~= after);
            if unescaped(after) is Some {
                assert(output@ + unescaped(after)->0 =~= done + unescaped(here)->0);
            }
        }
    }
    proof {
        assert(value@.skip(index as int) =~= Seq::empty());
        assert(output@ + Seq::<u8>::empty() =~= output@);
    }
    Ok(output)
}

/// Whether a mount point is at a path or below it.
pub open spec fn at_or_below(point: Seq<u8>, path: Seq<u8>) -> bool {
    point == path || (path.is_prefix_of(point) && point.len() > path.len() && point[path.len() as int]
        == 0x2f)
}

/// The field of a line that holds the mount point.
pub open spec fn mount_field(line: Seq<u8>) -> Option<Seq<u8>> {
    let fields = bytes::split(line, 0x20);
    if fields.len() > 4 {
        Some(fields[4])
    } else {
        None
    }
}

/// Why a line speaks against removing a path: it cannot be read, or something is
/// mounted there.
pub open spec fn mount_problem(line: Seq<u8>, path: Seq<u8>) -> Option<ExecutionDomainError> {
    match mount_field(line) {
        None => None,
        Some(field) => match unescaped(field) {
            None => Some(destroy::destroy_error(FailureCategory::IdentityMismatch)),
            Some(point) => if at_or_below(point, path) {
                Some(destroy::destroy_error(FailureCategory::Unavailable))
            } else {
                None
            },
        },
    }
}

/// Why the first line that does so speaks against removing a path.
pub open spec fn first_mount_problem(lines: Seq<Seq<u8>>, path: Seq<u8>) -> Option<
    ExecutionDomainError,
>
    decreases lines.len(),
{
    if lines.len() == 0 {
        None
    } else {
        match first_mount_problem(lines.drop_last(), path) {
            Some(e) => Some(e),
            None => mount_problem(lines.last(), path),
        }
    }
}

proof fn lemma_first_problem(lines: Seq<Seq<u8>>, n: int, path: Seq<u8>)
    requires
        0 <= n <= lines.len(),
        first_mount_problem(lines.take(n), path) is Some,
    ensures
        first_mount_problem(lines, path) == first_mount_problem(lines.take(n), path),
    decreases lines.len(),
{
    if n == lines.len() {
        assert(lines.take(n) =~= lines);
    } else {
        assert(lines.drop_last().take(n) =~= lines.take(n));
        lemma_first_problem(lines.drop_last(), n, path);
    }
}

/// Whether a line lists something mounted at a path or below it, where it can be
/// read.
pub fn mounted_there(line: &[u8], path: &[u8]) -> (r: Result<bool, ExecutionDomainError>)
    ensures
        r == (match mount_field(line@) {
            None => Ok::<bool, ExecutionDomainError>(false),
            Some(field) => match unescaped(field) {
                None => Err(destroy::destroy_error(FailureCategory::IdentityMismatch)),
                Some(point) => Ok(at_or_below(point, path@)),
            },
        }),
{
    let fields: Vec<Vec<u8>> = bytes::pieces(line, 0x20);
    proof {
        assert(bytes::views(fields@).len() == fields@.len());
    }
    if fields.len() <= 4 {
        return Ok(false);
    }
    assert(bytes::views(fields@)[4] == fields@[4]@);
    match unescape_mountinfo(fields[4].as_slice()) {
        Err(e) => Err(e),
        Ok(point) => {
            let same: bool = bytes::same(point.as_slice(), path);
            let below: bool = if point.len() > path.len() {
                let start: &[u8] = vstd::slice::slice_subrange(point.as_slice(), 0, path.len());
                assert(start@ =~= point@.take(path@.len() as int));
                bytes::same(start, path) && point[path.len()] == 0x2f
            } else {
                false
            };
            proof {
                if path@.is_prefix_of(point@) {
                    assert(point@.take(path@.len() as int) =~= path@);
                }
            }
            Ok(same || below)
        },
    }
}

fn check_mount_line(line: &[u8], path: &[u8]) -> (r: Result<(), ExecutionDomainError>)
    ensures
        r == (match mount_problem(line@, path@) {
            Some(e) => Err::<(), ExecutionDomainError>(e),
            None => Ok(()),
        }),
{
    match mounted_there(line, path) {
        Err(e) => Err(e),
        Ok(there) => {
            if there {
                Err(destroy::failure(FailureCategory::Unavailable))
            } else {
                Ok(())
            }
        },
    }
}

/// Makes sure that nothing is mounted at a path or below it, as the kernel lists the
/// mounts. A line that cannot be read is an error.
pub fn prove_no_mount_below(path: &[u8], mountinfo: &[u8]) -> (r: Result<(), ExecutionDomainError>)
    ensures
        r == (match first_mount_problem(bytes::split(mountinfo@, 10), path@) {
            Some(e) => Err::<(), ExecutionDomainError>(e),
            None => Ok(()),
        }),
{
    let lines: Vec<Vec<u8>> = bytes::pieces(mountinfo, 10);
    let ghost all = bytes::split(mountinfo@, 10);
    proof {
        assert(bytes::views(lines@).len() == lines@.len());
        assert(all.take(0) =~= Seq::empty());
    }
    for i in 0..lines.len()
        invariant
            bytes::views(lines@) == all,
            all == bytes::split(mountinfo@, 10),
            all.len() == lines@.len(),
            first_mount_problem(all.take(i as int), path@) is None,
    {
        proof {
            assert(all[i as int] == lines@[i as int]@);
            assert(all.take(i + 1).drop_last() =~= all.take(i as int));
            assert(all.take(i + 1).last() == all[i as int]);
        }
        match check_mount_line(lines[i].as_slice(), path) {
            Ok(_) => {},
            Err(e) => {
                proof {
                    lemma_first_problem(all, i + 1, path@);
                }
                return Err(e);
            },
        }
    }
    proof {
        assert(all.take(all.len() as int) =~= all);
    }
    Ok(())
}

/// Where nothing speaks against removing a path, every mount point is readable, and
/// none is at that path or below it.
pub proof fn law_proof_covers_every_mount(lines: Seq<Seq<u8>>, path: Seq<u8>, i: int)
    requires
        0 <= i < lines.len(),
        first_mount_problem(lines, path) is None,
        mount_field(lines[i]) is Some,
    ensures
        unescaped(mount_field(lines[i])->0) matches Some(point) && !at_or_below(point, path),
    decreases lines.len(),
{
    if i < lines.len() - 1 {
        law_proof_covers_every_mount(lines.drop_last(), path, i);
    }
}

/// The kind of a directory that the workflow can write, by its place in the domain.
pub open spec fn kind_at(target: Seq<char>) -> Option<CleanupRootKind> {
    if target == "/work"@ {
        Some(CleanupRootKind::Work)
    } else if target == "/tmp"@ {
        Some(CleanupRootKind::Tmp)
    } else if target == "/home/chimera"@ {
        Some(CleanupRootKind::Home)
    } else if target == "/run/chimera"@ {
        Some(CleanupRootKind::Run)
    } else if target == "/home/chimera/.docker"@ {
        Some(CleanupRootKind::DockerConfig)
    } else if target == "/var/lib/chimera/docker"@ {
        Some(CleanupRootKind::DockerData)
    } else if target == "/run/chimera/docker-exec"@ {
        Some(CleanupRootKind::DockerExec)
    } else {
        None
    }
}

/// Finds the kind of a directory by its place in the domain.
pub fn cleanup_kind(target: &str) -> (r: Option<CleanupRootKind>)
    ensures
        r == kind_at(target@),
{
    if text::same_str(target, "/work") {
        Some(CleanupRootKind::Work)
    } else if text::same_str(target, "/tmp") {
        Some(CleanupRootKind::Tmp)
    } else if text::same_str(target, "/home/chimera") {
        Some(CleanupRootKind::Home)
    } else if text::same_str(target, "/run/chimera") {
        Some(CleanupRootKind::Run)
    } else if text::same_str(target, "/home/chimera/.docker") {
        Some(CleanupRootKind::DockerConfig)
    } else if text::same_str(target, "/var/lib/chimera/docker") {
        Some(CleanupRootKind::DockerData)
    } else if text::same_str(target, "/run/chimera/docker-exec") {
        Some(CleanupRootKind::DockerExec)
    } else {
        None
    }
}

/// What was made last is undone first: a stage on top comes off, one that was never made
/// needs nothing, and one with others above it is refused and stays.
pub proof fn law_stages_come_off_the_top(
    stack: &mut CreatedStageStack,
    stage: CreatedStage,
    below: Seq<CreatedStage>,
    r: Result<(), ExecutionDomainError>,
)
    requires
        call_ensures(CreatedStageStack::discharge, (stack, stage), r),
    ensures
        old(stack)@ == below.push(stage) ==> r is Ok && final(stack)@ == below,
        (forall|i: int| 0 <= i < old(stack)@.len() ==> #[trigger] old(stack)@[i] != stage) ==> r
            is Ok && final(stack)@ == old(stack)@,
        old(stack)@.len() > 0 && old(stack)@.last() != stage && old(stack)@.contains(stage) ==> r
            == Err::<(), ExecutionDomainError>(
            ExecutionDomainError::Backend {
                attempt: None,
                stage: Stage::Destroy,
                category: FailureCategory::IdentityMismatch,
                errno: None,
            },
        ) && final(stack)@ == old(stack)@,
{
    if old(stack)@ == below.push(stage) {
        assert(old(stack)@[below.len() as int] == stage);
        assert(below.push(stage).drop_last() =~= below);
    }
}

/// A stage that was put on is found there, and comes off again.
pub proof fn law_stages_put_on_come_off(
    a: &mut CreatedStageStack,
    b: &mut CreatedStageStack,
    stage: CreatedStage,
    done: (),
    found: bool,
    empty: bool,
    r: Result<(), ExecutionDomainError>,
)
    requires
        call_ensures(CreatedStageStack::push, (a, stage), done),
        *old(b) == *final(a),
        call_ensures(CreatedStageStack::contains, (&*final(a), stage), found),
        call_ensures(CreatedStageStack::is_empty, (&*final(a),), empty),
        call_ensures(CreatedStageStack::discharge, (b, stage), r),
    ensures
        found && !empty,
        r is Ok,
        final(b)@ == old(a)@,
{
    assert(final(a)@[old(a)@.len() as int] == stage);
    assert(old(a)@.push(stage).drop_last() =~= old(a)@);
}

/// A domain is provisioned in one order, and no step is passed over: directories, journal,
/// groups, roots, launch, socket, map, evacuation.
pub proof fn law_provisioning_has_one_order(
    p: Provision,
    r: ProvisionStep,
    socket: bool,
    mapped: bool,
    first: Provision,
)
    requires
        call_ensures(Provision::begin, (socket, mapped), first),
        p.wf(),
        call_ensures(Provision::advance, (p, Ok(())), r),
    ensures
        first.operation == ProvisionOperation::BindDirectories && first.wf(),
        first.runtime_socket == socket && first.mapped == mapped,
        r matches ProvisionStep::Continue(n) ==> n.wf() && n.runtime_socket == p.runtime_socket
            && n.mapped == p.mapped,
        !(r is RemoveCgroup),
        p.operation == ProvisionOperation::BindDirectories ==> (r matches ProvisionStep::Continue(n)
            && n.operation == ProvisionOperation::CreateJournal),
        p.operation == ProvisionOperation::CreateJournal ==> (r matches ProvisionStep::Continue(n)
            && n.operation == ProvisionOperation::VerifyGroups),
        p.operation == ProvisionOperation::VerifyGroups ==> (r matches ProvisionStep::Continue(n)
            && n.operation == ProvisionOperation::OpenRoots),
        p.operation == ProvisionOperation::OpenRoots ==> (r matches ProvisionStep::Continue(n)
            && n.operation == ProvisionOperation::Launch),
        p.operation == ProvisionOperation::Launch ==> (r matches ProvisionStep::Continue(n)
            && n.operation == ProvisionOperation::CaptureSocket),
        p.operation == ProvisionOperation::CaptureSocket && p.mapped ==> (
        r matches ProvisionStep::Continue(n) && n.operation == ProvisionOperation::VerifyMap),
        p.operation == ProvisionOperation::CaptureSocket && !p.mapped ==> (
        r matches ProvisionStep::Rollback(_, e) && e == (ExecutionDomainError::Backend {
            attempt: None,
            stage: Stage::Destroy,
            category: FailureCategory::NotReady,
            errno: None,
        })),
        p.operation == ProvisionOperation::VerifyMap ==> (r matches ProvisionStep::Continue(n)
            && n.operation == ProvisionOperation::FinishEvacuation),
        p.operation == ProvisionOperation::FinishEvacuation <==> r is Done,
{
}

/// A domain that is provisioned has every stage, in the order in which they were made;
/// the socket for the runtime only where one was asked for.
pub proof fn law_provisioned_domains_have_every_stage(p: Provision, r: ProvisionStep)
    requires
        p.wf(),
        call_ensures(Provision::advance, (p, Ok(())), r),
        r is Done,
    ensures
        r->Done_0@ == (if p.runtime_socket {
            seq![
                CreatedStage::AttemptCgroup,
                CreatedStage::AttemptFilesystem,
                CreatedStage::LifecycleJournal,
                CreatedStage::RuntimeSocket,
                CreatedStage::RootlessKitSocket,
                CreatedStage::KernelDomain,
                CreatedStage::Evacuated,
            ]
        } else {
            seq![
                CreatedStage::AttemptCgroup,
                CreatedStage::AttemptFilesystem,
                CreatedStage::LifecycleJournal,
                CreatedStage::RootlessKitSocket,
                CreatedStage::KernelDomain,
                CreatedStage::Evacuated,
            ]
        }),
{
    if p.runtime_socket {
        assert(r->Done_0@ =~= seq![
            CreatedStage::AttemptCgroup,
            CreatedStage::AttemptFilesystem,
            CreatedStage::LifecycleJournal,
            CreatedStage::RuntimeSocket,
            CreatedStage::RootlessKitSocket,
            CreatedStage::KernelDomain,
            CreatedStage::Evacuated,
        ]);
    } else {
        assert(r->Done_0@ =~= seq![
            CreatedStage::AttemptCgroup,
            CreatedStage::AttemptFilesystem,
            CreatedStage::LifecycleJournal,
            CreatedStage::RootlessKitSocket,
            CreatedStage::KernelDomain,
            CreatedStage::Evacuated,
        ]);
    }
}

/// A step that fails leaves what was made so far to be undone: the group alone before the
/// directories are bound, the journal once it was created, and the process once it was
/// launched, even where its socket was never seen.
pub proof fn law_failed_steps_leave_what_was_made(
    p: Provision,
    e: ExecutionDomainError,
    r: ProvisionStep,
)
    requires
        p.wf(),
        call_ensures(Provision::advance, (p, Err(e)), r),
    ensures
        p.operation == ProvisionOperation::BindDirectories ==> r == ProvisionStep::RemoveCgroup(e),
        p.operation != ProvisionOperation::BindDirectories ==> (r matches ProvisionStep::Rollback(
            left,
            why,
        ) && why == e && left@.contains(CreatedStage::AttemptCgroup) && left@.contains(
            CreatedStage::AttemptFilesystem,
        ) && !left@.contains(CreatedStage::Evacuated)),
        r matches ProvisionStep::Rollback(left, _) ==> (left@.contains(
            CreatedStage::LifecycleJournal,
        ) <==> p.operation != ProvisionOperation::CreateJournal),
        r matches ProvisionStep::Rollback(left, _) ==> (left@.contains(CreatedStage::RuntimeSocket)
            <==> p.operation != ProvisionOperation::CreateJournal && p.runtime_socket),
        r matches ProvisionStep::Rollback(left, _) ==> (left@.contains(
            CreatedStage::RootlessKitSocket,
        ) <==> p.operation == ProvisionOperation::VerifyMap || p.operation
            == ProvisionOperation::FinishEvacuation),
        r matches ProvisionStep::Rollback(left, _) ==> (left@.contains(CreatedStage::KernelDomain)
            <==> p.operation == ProvisionOperation::CaptureSocket || p.operation
            == ProvisionOperation::VerifyMap || p.operation
            == ProvisionOperation::FinishEvacuation),
{
    if let ProvisionStep::Rollback(left, _) = r {
        let s = left@;
        assert(s[0] == CreatedStage::AttemptCgroup && s[1] == CreatedStage::AttemptFilesystem);
        if p.operation != ProvisionOperation::CreateJournal {
            assert(s[2] == CreatedStage::LifecycleJournal);
            if p.runtime_socket {
                assert(s[3] == CreatedStage::RuntimeSocket);
            }
        }
        if p.operation == ProvisionOperation::CaptureSocket {
            assert(s.last() == CreatedStage::KernelDomain);
        }
        if p.operation == ProvisionOperation::VerifyMap || p.operation
            == ProvisionOperation::FinishEvacuation {
            assert(s[s.len() - 1] == CreatedStage::KernelDomain);
            assert(s[s.len() - 2] == CreatedStage::RootlessKitSocket);
        }
    }
}

/// Cleaning up waits for what was handed out: from when it is published until it is
/// proven gone.
pub proof fn law_published_domains_wait_for_their_revocation(
    a: &mut ExternalRevocationState,
    b: &mut ExternalRevocationState,
    done: (),
    proven: (),
    published: bool,
    revoked: bool,
)
    requires
        call_ensures(ExternalRevocationState::publish, (a,), done),
        call_ensures(ExternalRevocationState::cleanup_allowed, (*final(a),), published),
        call_ensures(ExternalRevocationState::prove, (b,), proven),
        call_ensures(ExternalRevocationState::cleanup_allowed, (*final(b),), revoked),
    ensures
        published <==> *old(a) is Proven,
        revoked,
        *final(b) is Proven,
        *old(a) is Proven ==> *final(a) is Proven,
{
}

/// A record begins unpublished, with nothing closed and nothing reported.
pub proof fn law_records_begin_open(
    attempt: AttemptIdentity,
    stages: CreatedStageStack,
    lifecycle: Option<DomainState>,
    kernel: bool,
    rootlesskit: bool,
    runtime: bool,
    r: StrictCleanupRecord,
    earlier: Option<DestroyReport>,
)
    requires
        call_ensures(
            StrictCleanupRecord::new,
            (attempt, stages, lifecycle, kernel, rootlesskit, runtime),
            r,
        ),
        call_ensures(StrictCleanupRecord::earlier_report, (&r,), earlier),
    ensures
        r.attempt == attempt && r.stages == stages && r.lifecycle == lifecycle,
        r.kernel == kernel && r.rootlesskit_socket == rootlesskit && r.runtime_socket == runtime,
        !r.admission_closed && !r.handles_closed,
        r.external_revocation is Unpublished,
        earlier is None,
{
}

/// Admission is closed whatever else happens; a record that was published goes on only
/// once the revocation is proven.
pub proof fn law_admission_is_closed_first(
    a: &mut StrictCleanupRecord,
    b: &mut StrictCleanupRecord,
    c: &mut StrictCleanupRecord,
    published: (),
    proven: (),
    r: Result<(), ExecutionDomainError>,
    s: Result<(), ExecutionDomainError>,
    d: &mut StrictCleanupRecord,
)
    requires
        call_ensures(StrictCleanupRecord::mark_published, (a,), published),
        *old(b) == *final(a),
        call_ensures(StrictCleanupRecord::close_admission, (b,), r),
        *old(c) == *final(b),
        call_ensures(StrictCleanupRecord::authorize_external_revocation, (c,), proven),
        *old(d) == *final(c),
        call_ensures(StrictCleanupRecord::close_admission, (d,), s),
    ensures
        final(b).admission_closed,
        old(a).external_revocation is Proven <==> r is Ok,
        r matches Err(e) ==> e == (ExecutionDomainError::Backend {
            attempt: None,
            stage: Stage::Destroy,
            category: FailureCategory::Unavailable,
            errno: None,
        }),
        s is Ok,
        final(d).stages == old(a).stages && final(d).lifecycle == old(a).lifecycle,
        final(d).kernel == old(a).kernel,
{
}

/// A lifecycle is moved to its destruction unless it is on its way there, given up or
/// gone.
pub proof fn law_living_records_need_destroying(record: StrictCleanupRecord, r: bool)
    requires
        call_ensures(StrictCleanupRecord::needs_destroying, (&record,), r),
    ensures
        r <==> (record.lifecycle matches Some(s) && (s is Provisioning || s is Ready || s is Running
            || s is Cleaning)),
{
}

/// A whole domain is taken apart stage by stage: with every step done nothing is left, and
/// the record can be closed.
pub proof fn law_whole_domains_are_taken_apart(
    a: &mut StrictCleanupRecord,
    b: &mut StrictCleanupRecord,
    c: &mut StrictCleanupRecord,
    d: &mut StrictCleanupRecord,
    e: &mut StrictCleanupRecord,
    persisted: Result<(), ExecutionDomainError>,
    closed: Result<(), ExecutionDomainError>,
    sockets: Result<(), ExecutionDomainError>,
    files: Result<(), ExecutionDomainError>,
    group: Result<(), ExecutionDomainError>,
    last: Result<(), ExecutionDomainError>,
)
    requires
        call_ensures(
            StrictCleanupRecord::persist_destroying,
            (a, Ok(()), Some(DomainState::Destroying)),
            persisted,
        ),
        *old(b) == *final(a),
        call_ensures(StrictCleanupRecord::close_handles, (b, Ok(true)), closed),
        *old(c) == *final(b),
        call_ensures(StrictCleanupRecord::remove_runtime_socket, (c, Ok(()), Ok(())), sockets),
        *old(d) == *final(c),
        call_ensures(StrictCleanupRecord::remove_filesystem, (d, Ok(()), Ok(())), files),
        *old(e) == *final(d),
        call_ensures(StrictCleanupRecord::remove_cgroup, (e, Ok(())), group),
        call_ensures(StrictCleanupRecord::mark_destroyed, (&*final(e), Ok(())), last),
        old(a).stages@ == seq![
            CreatedStage::AttemptCgroup,
            CreatedStage::AttemptFilesystem,
            CreatedStage::LifecycleJournal,
            CreatedStage::RuntimeSocket,
            CreatedStage::RootlessKitSocket,
            CreatedStage::KernelDomain,
            CreatedStage::Evacuated,
        ],
    ensures
        persisted is Ok && final(a).stages@.len() == 6 && final(a).lifecycle == Some(
            DomainState::Destroying,
        ),
        closed is Ok && final(b).stages@.len() == 5 && final(b).handles_closed && !final(b).kernel,
        sockets is Ok && final(c).stages@.len() == 3 && !final(c).rootlesskit_socket
            && !final(c).runtime_socket,
        files is Ok && final(d).stages@.len() == 1,
        group is Ok && final(e).stages@.len() == 0,
        last is Ok,
{
    let all = old(a).stages@;
    assert(all[6] == CreatedStage::Evacuated);
    assert(final(a).stages@ =~= all.take(6));
    assert(all.take(6)[5] == CreatedStage::KernelDomain);
    assert(final(b).stages@ =~= all.take(5));
    assert(all.take(5)[4] == CreatedStage::RootlessKitSocket);
    assert(all.take(5).drop_last() =~= all.take(4));
    assert(all.take(4)[3] == CreatedStage::RuntimeSocket);
    assert(final(c).stages@ =~= all.take(3));
    assert(all.take(3)[2] == CreatedStage::LifecycleJournal);
    assert(all.take(3)[1] == CreatedStage::AttemptFilesystem);
    assert(all.take(3).drop_last() =~= all.take(2));
    assert(all.take(2)[1] == CreatedStage::AttemptFilesystem);
    assert(final(d).stages@ =~= all.take(1));
    assert(all.take(1)[0] == CreatedStage::AttemptCgroup);
}

/// A step that fails keeps its stage, so that it is tried again.
pub proof fn law_failed_steps_keep_their_stage(
    a: &mut StrictCleanupRecord,
    b: &mut StrictCleanupRecord,
    c: &mut StrictCleanupRecord,
    d: &mut StrictCleanupRecord,
    why: ExecutionDomainError,
    done: Result<(), ExecutionDomainError>,
    state: Option<DomainState>,
    persisted: Result<(), ExecutionDomainError>,
    sockets: Result<(), ExecutionDomainError>,
    files: Result<(), ExecutionDomainError>,
    group: Result<(), ExecutionDomainError>,
)
    requires
        call_ensures(StrictCleanupRecord::persist_destroying, (a, Err(why), state), persisted),
        call_ensures(StrictCleanupRecord::remove_runtime_socket, (b, Err(why), done), sockets),
        call_ensures(StrictCleanupRecord::remove_filesystem, (c, done, Err(why)), files),
        call_ensures(StrictCleanupRecord::remove_cgroup, (d, Err(why)), group),
    ensures
        persisted == Err::<(), ExecutionDomainError>(why) && final(a).stages@ == old(a).stages@
            && final(a).lifecycle == state,
        final(b).stages@ == old(b).stages@,
        sockets is Ok <==> !old(b).stages@.contains(CreatedStage::RootlessKitSocket)
            && !old(b).stages@.contains(CreatedStage::RuntimeSocket),
        final(c).stages@ == old(c).stages@,
        files is Ok <==> !old(c).stages@.contains(CreatedStage::AttemptFilesystem),
        final(d).stages@ == old(d).stages@,
        group is Ok <==> !old(d).stages@.contains(CreatedStage::AttemptCgroup),
{
}

/// Handles are closed once the launcher has ended; one that still runs, or cannot be
/// asked, keeps its stage.
pub proof fn law_handles_close_once_the_launcher_ended(
    record: &mut StrictCleanupRecord,
    ended: Result<bool, Option<i32>>,
    r: Result<(), ExecutionDomainError>,
)
    requires
        call_ensures(StrictCleanupRecord::close_handles, (record, ended), r),
    ensures
        !old(record).stages@.contains(CreatedStage::KernelDomain) ==> r is Ok
            && final(record).handles_closed,
        old(record).stages@.contains(CreatedStage::KernelDomain) && old(record).kernel && ended
            != Ok::<bool, Option<i32>>(true) ==> r is Err && final(record).stages@
            == old(record).stages@ && final(record).handles_closed == old(record).handles_closed,
        old(record).stages@.len() > 0 && old(record).stages@.last() == CreatedStage::KernelDomain
            && (ended == Ok::<bool, Option<i32>>(true) || !old(record).kernel) ==> r is Ok
            && final(record).handles_closed && !final(record).kernel && final(record).stages@
            == old(record).stages@.drop_last(),
        ended == Ok::<bool, Option<i32>>(false) && old(record).kernel
            && old(record).stages@.contains(CreatedStage::KernelDomain) ==> final(record).kernel,
        final(record).lifecycle == old(record).lifecycle,
{
    if old(record).stages@.len() > 0 {
        assert(old(record).stages@.contains(old(record).stages@.last()));
    }
    if ended is Ok {
        assert(ended == Ok::<bool, Option<i32>>(ended->Ok_0));
    }
}

/// No mount is left is proven only with the handles closed and every directory still the
/// one it was; a directory that was never made need not be there.
pub proof fn law_mounts_are_proven_gone_last(
    record: StrictCleanupRecord,
    active: Result<(), ExecutionDomainError>,
    attempt: Result<(), ExecutionDomainError>,
    rootfs: Result<(), ExecutionDomainError>,
    path: &[u8],
    mountinfo: Result<Vec<u8>, Option<i32>>,
    contents: &[u8],
    gone: Result<(), ExecutionDomainError>,
    r: Result<(), ExecutionDomainError>,
)
    requires
        call_ensures(
            StrictCleanupRecord::prove_no_mounts,
            (&record, active, attempt, rootfs, path, mountinfo),
            r,
        ),
        mountinfo is Ok ==> mountinfo->Ok_0@ == contents@,
        call_ensures(prove_no_mount_below, (path, contents), gone),
    ensures
        r is Ok ==> record.handles_closed && active is Ok && mountinfo is Ok,
        r is Ok && record.stages@.contains(CreatedStage::AttemptFilesystem) ==> attempt is Ok
            && rootfs is Ok,
        record.handles_closed && active is Ok && (record.stages@.contains(
            CreatedStage::AttemptFilesystem,
        ) ==> attempt is Ok && rootfs is Ok) && mountinfo is Ok ==> (r is Ok <==> gone is Ok),
{
}

/// Sockets are removed where they were captured; the control socket must have been, and
/// the runtime's where its directory is there.
pub proof fn law_captured_sockets_are_removed(
    record: StrictCleanupRecord,
    has_run: bool,
    control: SocketAction,
    runtime: SocketAction,
)
    requires
        call_ensures(StrictCleanupRecord::control_action, (&record,), control),
        call_ensures(StrictCleanupRecord::runtime_action, (&record, has_run), runtime),
    ensures
        ({
            let made = record.stages@.contains(CreatedStage::RootlessKitSocket)
                || record.stages@.contains(CreatedStage::RuntimeSocket);
            &&& control == SocketAction::Skip <==> !made
            &&& control == SocketAction::Remove <==> made && record.rootlesskit_socket
            &&& runtime == SocketAction::Remove <==> made && record.runtime_socket
            &&& runtime == SocketAction::Refuse <==> made && !record.runtime_socket && has_run
        }),
{
}

/// What is left of a domain is due, and what is not left is not.
pub proof fn law_what_is_left_is_due(record: StrictCleanupRecord, files: bool, group: bool)
    requires
        call_ensures(StrictCleanupRecord::filesystem_due, (&record,), files),
        call_ensures(StrictCleanupRecord::cgroup_due, (&record,), group),
    ensures
        files <==> exists|i: int|
            0 <= i < record.stages@.len() && #[trigger] record.stages@[i]
                == CreatedStage::AttemptFilesystem,
        group <==> exists|i: int|
            0 <= i < record.stages@.len() && #[trigger] record.stages@[i]
                == CreatedStage::AttemptCgroup,
{
}

/// A record with a stage left is never gone, and a journal that could not be completed is
/// told.
pub proof fn law_records_with_stages_left_are_not_gone(
    record: StrictCleanupRecord,
    completed: Result<(), ExecutionDomainError>,
    r: Result<(), ExecutionDomainError>,
)
    requires
        call_ensures(StrictCleanupRecord::mark_destroyed, (&record, completed), r),
    ensures
        r is Ok <==> record.stages@.len() == 0 && (record.lifecycle is None || completed is Ok),
        record.lifecycle is Some && completed is Err ==> r->Err_0 == completed->Err_0,
{
}

/// A report is kept and given again; a failure keeps nothing, and gives the domain up only
/// where its destruction was written down.
pub proof fn law_reports_are_given_again(
    record: &mut StrictCleanupRecord,
    result: Result<DestroyReport, ExecutionDomainError>,
    give_up: bool,
    later: Option<DestroyReport>,
)
    requires
        call_ensures(StrictCleanupRecord::finish_destroy, (record, &result), give_up),
        call_ensures(StrictCleanupRecord::earlier_report, (&*final(record),), later),
    ensures
        result matches Ok(report) ==> later == Some(report),
        result is Err ==> later == old(record).destroy_report,
        give_up <==> result is Err && old(record).lifecycle == Some(DomainState::Destroying),
        final(record).stages == old(record).stages,
{
}

/// A launcher is waited for until it ended or the time is over, a hundredth of a second at
/// a time and never past the end.
pub proof fn law_launchers_are_waited_for(
    ended: Result<bool, Option<i32>>,
    now: u128,
    deadline: u128,
    r: ReapStep,
)
    requires
        call_ensures(reap_launcher, (ended, now, deadline), r),
    ensures
        r is Ended <==> ended == Ok::<bool, Option<i32>>(true),
        r matches ReapStep::Pause(p) ==> ended == Ok::<bool, Option<i32>>(false) && now < deadline
            && 0 < p <= 10_000_000 && now + p <= deadline && (p < 10_000_000 ==> now + p
            == deadline),
        ended == Ok::<bool, Option<i32>>(false) && now < deadline ==> r is Pause,
        ended == Ok::<bool, Option<i32>>(false) && now >= deadline ==> (r matches ReapStep::Failed(
            ExecutionDomainError::Backend { category, .. },
        ) && category == FailureCategory::Timeout),
        ended matches Err(n) ==> (r matches ReapStep::Failed(
            ExecutionDomainError::Backend { category, errno, stage, .. },
        ) && category == FailureCategory::Io && errno == n && stage == Stage::Destroy),
{
}

/// What the kernel escaped in a mount point is undone, wherever it stands: three digits
/// behind a backslash are one byte, and every other byte stands for itself.
pub proof fn law_mount_points_are_unescaped(
    value: &[u8],
    before: Seq<u8>,
    a: u8,
    b: u8,
    c: u8,
    after: Seq<u8>,
    r: Result<Vec<u8>, ExecutionDomainError>,
)
    requires
        call_ensures(unescape_mountinfo, (value,), r),
        forall|i: int| 0 <= i < before.len() ==> #[trigger] before[i] != 92,
        forall|i: int| 0 <= i < after.len() ==> #[trigger] after[i] != 92,
        a < 4,
        b < 8,
        c < 8,
    ensures
        value@ == before ==> (r matches Ok(path) && path@ == before),
        value@ == before + seq![92u8, (48 + a) as u8, (48 + b) as u8, (48 + c) as u8] + after ==> (
        r matches Ok(path) && path@ == before + seq![(64 * a + 8 * b + c) as u8] + after),
        value@ == before + seq![92u8] ==> r is Err,
{
    let escape = seq![92u8, (48 + a) as u8, (48 + b) as u8, (48 + c) as u8];
    lemma_plain_prefix(before, Seq::empty());
    assert(before + Seq::<u8>::empty() =~= before);
    assert(unescaped(Seq::<u8>::empty()) == Some(Seq::<u8>::empty()));
    lemma_plain_prefix(after, Seq::empty());
    assert(after + Seq::<u8>::empty() =~= after);
    lemma_plain_prefix(before, escape + after);
    assert(before + escape + after =~= before + (escape + after));
    assert((escape + after).skip(4) =~= after);
    assert(unescaped(escape + after) == Some(seq![(64 * a + 8 * b + c) as u8] + after));
    assert(before + (seq![(64 * a + 8 * b + c) as u8] + after) =~= before + seq![
        (64 * a + 8 * b + c) as u8,
    ] + after);
    lemma_plain_prefix(before, seq![92u8]);
}

proof fn lemma_plain_prefix(before: Seq<u8>, rest: Seq<u8>)
    requires
        forall|i: int| 0 <= i < before.len() ==> #[trigger] before[i] != 92,
    ensures
        unescaped(before + rest) == (match unescaped(rest) {
            Some(s) => Some(before + s),
            None => None,
        }),
    decreases before.len(),
{
    if before.len() == 0 {
        assert(before + rest =~= rest);
        if let Some(s) = unescaped(rest) {
            assert(before + s =~= s);
        }
    } else {
        let tail = before.skip(1);
        lemma_plain_prefix(tail, rest);
        assert((before + rest).skip(1) =~= tail + rest);
        assert((before + rest)[0] == before[0]);
        if let Some(s) = unescaped(rest) {
            assert(seq![before[0]] + (tail + s) =~= before + s);
        }
    }
}

/// A directory is proven free of mounts only where no line of the kernel's list names it,
/// or anything below it, as its mount point.
pub proof fn law_mounts_left_are_found(
    path: &[u8],
    mountinfo: &[u8],
    i: int,
    below: Seq<u8>,
    r: Result<(), ExecutionDomainError>,
)
    requires
        call_ensures(prove_no_mount_below, (path, mountinfo), r),
        0 <= i < bytes::split(mountinfo@, 10).len(),
        ({
            let fields = bytes::split(bytes::split(mountinfo@, 10)[i], 32);
            &&& fields.len() > 4
            &&& fields[4] == path@ || fields[4] == path@ + seq![47u8] + below
            &&& forall|k: int| 0 <= k < fields[4].len() ==> #[trigger] fields[4][k] != 92
        }),
    ensures
        r is Err,
{
    let lines = bytes::split(mountinfo@, 10);
    let point = bytes::split(lines[i], 32)[4];
    lemma_plain_prefix(point, Seq::empty());
    assert(point + Seq::<u8>::empty() =~= point);
    assert(unescaped(Seq::<u8>::empty()) == Some(Seq::<u8>::empty()));
    if point == path@ + seq![47u8] + below {
        assert(point.take(path@.len() as int) =~= path@);
        assert(point[path@.len() as int] == 47);
    }
    if r is Ok {
        law_proof_covers_every_mount(lines, path@, i);
    }
}

/// A directory is proven free of mounts where every line is too short to be a mount or has
/// its mount point elsewhere.
pub proof fn law_other_mounts_are_no_hindrance(
    path: &[u8],
    mountinfo: &[u8],
    r: Result<(), ExecutionDomainError>,
)
    requires
        call_ensures(prove_no_mount_below, (path, mountinfo), r),
        forall|i: int|
            0 <= i < bytes::split(mountinfo@, 10).len() ==> elsewhere(
                #[trigger] bytes::split(mountinfo@, 10)[i],
                path@,
            ),
    ensures
        r is Ok,
{
    lemma_no_problem(bytes::split(mountinfo@, 10), path@);
}

/// Whether a line is too short for a mount, or is one whose point, with nothing escaped in
/// it, is neither the path nor below it.
pub open spec fn elsewhere(line: Seq<u8>, path: Seq<u8>) -> bool {
    let fields = bytes::split(line, 32);
    fields.len() > 4 ==> fields[4] != path && !(path + seq![47u8]).is_prefix_of(fields[4]) && (
    forall|k: int| 0 <= k < fields[4].len() ==> #[trigger] fields[4][k] != 92)
}

proof fn lemma_no_problem(lines: Seq<Seq<u8>>, path: Seq<u8>)
    requires
        forall|i: int| 0 <= i < lines.len() ==> elsewhere(#[trigger] lines[i], path),
    ensures
        first_mount_problem(lines, path) is None,
    decreases lines.len(),
{
    if lines.len() > 0 {
        assert forall|i: int| 0 <= i < lines.drop_last().len() implies elsewhere(
            #[trigger] lines.drop_last()[i],
            path,
        ) by {
            assert(lines.drop_last()[i] == lines[i]);
        }
        lemma_no_problem(lines.drop_last(), path);
        let line = lines[lines.len() - 1];
        assert(elsewhere(line, path));
        let fields = bytes::split(line, 32);
        if fields.len() > 4 {
            let point = fields[4];
            lemma_plain_prefix(point, Seq::empty());
            assert(point + Seq::<u8>::empty() =~= point);
            assert(unescaped(Seq::<u8>::empty()) == Some(Seq::<u8>::empty()));
            if at_or_below(point, path) {
                assert(path + seq![47u8] =~= point.take(path.len() as int + 1));
            }
        }
    }
}

/// A line is a mount at a directory, or below it, exactly where its point says so; a line
/// that is no mount is none there.
pub proof fn law_mount_lines_are_read(
    line: &[u8],
    path: &[u8],
    point: Seq<u8>,
    r: Result<bool, ExecutionDomainError>,
)
    requires
        call_ensures(mounted_there, (line, path), r),
    ensures
        bytes::split(line@, 32).len() <= 4 ==> r == Ok::<bool, ExecutionDomainError>(false),
        bytes::split(line@, 32).len() > 4 && bytes::split(line@, 32)[4] == point && (forall|k: int|
            0 <= k < point.len() ==> #[trigger] point[k] != 92) ==> r == Ok::<
            bool,
            ExecutionDomainError,
        >(point == path@ || (path@ + seq![47u8]).is_prefix_of(point)),
{
    if bytes::split(line@, 32).len() > 4 && bytes::split(line@, 32)[4] == point && (forall|k: int|
        0 <= k < point.len() ==> #[trigger] point[k] != 92) {
        lemma_plain_prefix(point, Seq::empty());
        assert(point + Seq::<u8>::empty() =~= point);
        assert(unescaped(Seq::<u8>::empty()) == Some(Seq::<u8>::empty()));
        let p = path@;
        if at_or_below(point, p) && point != p {
            assert(p + seq![47u8] =~= point.take(p.len() as int + 1));
        }
        if (p + seq![47u8]).is_prefix_of(point) {
            assert((p + seq![47u8]).take(p.len() as int) =~= p);
            assert((p + seq![47u8])[p.len() as int] == 47);
            assert(point.take(p.len() as int) =~= p);
        }
    }
}

/// Every writable place of a domain is cleaned as what it is, and nothing else is.
pub proof fn law_writable_places_are_cleaned(target: &str, r: Option<CleanupRootKind>)
    requires
        call_ensures(cleanup_kind, (target,), r),
    ensures
        r == Some(CleanupRootKind::Work) <==> target@ == "/work"@,
        r == Some(CleanupRootKind::Tmp) <==> target@ == "/tmp"@,
        r == Some(CleanupRootKind::Home) <==> target@ == "/home/chimera"@,
        r == Some(CleanupRootKind::Run) <==> target@ == "/run/chimera"@,
        r == Some(CleanupRootKind::DockerConfig) <==> target@ == "/home/chimera/.docker"@,
        r == Some(CleanupRootKind::DockerData) <==> target@ == "/var/lib/chimera/docker"@,
        r == Some(CleanupRootKind::DockerExec) <==> target@ == "/run/chimera/docker-exec"@,
        r is None <==> target@ != "/work"@ && target@ != "/tmp"@ && target@ != "/home/chimera"@
            && target@ != "/run/chimera"@ && target@ != "/home/chimera/.docker"@ && target@
            != "/var/lib/chimera/docker"@ && target@ != "/run/chimera/docker-exec"@,
{
    reveal_strlit("/work");
    reveal_strlit("/tmp");
    reveal_strlit("/home/chimera");
    reveal_strlit("/run/chimera");
    reveal_strlit("/home/chimera/.docker");
    reveal_strlit("/var/lib/chimera/docker");
    reveal_strlit("/run/chimera/docker-exec");
    assert("/work"@.len() == 5 && "/tmp"@.len() == 4 && "/home/chimera"@.len() == 13
        && "/run/chimera"@.len() == 12 && "/home/chimera/.docker"@.len() == 21
        && "/var/lib/chimera/docker"@.len() == 23 && "/run/chimera/docker-exec"@.len() == 24);
}

/// An attempt's directories are those above the root that it assembles, under its own
/// identity.
pub proof fn law_attempts_work_in_their_own_directory(
    staging_root: &[u8],
    attempt: AttemptIdentity,
    active: Seq<Seq<u8>>,
    name: Seq<u8>,
    r: Result<AttemptDirectories, ExecutionDomainError>,
)
    requires
        call_ensures(attempt_directories, (staging_root, attempt), r),
    ensures
        r matches Ok(d) ==> host_path::parent(host_path::components(staging_root@)) == Some(
            d.attempt@,
        ) && host_path::parent(d.attempt@) == Some(d.active@) && host_path::file_name(d.attempt@)
            == Some(bytes::encoded(ids::simple_text(attempt@))),
        ({
            let own = host_path::parent(host_path::components(staging_root@));
            own is Some && host_path::parent(own->0) is Some ==> (r is Ok <==> host_path::file_name(
                own->0,
            ) == Some(vstd::utf8::encode_utf8(ids::simple_text(attempt@))))
        }),
        r matches Err(e) ==> (e matches ExecutionDomainError::Backend { stage, category, .. }
            && stage == Stage::Destroy && (category == FailureCategory::InvalidInput || category
            == FailureCategory::IdentityMismatch)),
{
}

/// A provisioning that failed is given up for good unless everything it made is gone: the
/// first error is told, and what could not be removed is kept.
pub proof fn law_failed_provisionings_are_given_up_unless_undone(
    source: ExecutionDomainError,
    undone: Result<(), ExecutionDomainError>,
    unknown: StrictProvisionFailure,
    rolled: StrictProvisionFailure,
    partial: StrictProvisionFailure,
)
    requires
        call_ensures(StrictProvisionFailure::unknown, (source,), unknown),
        call_ensures(StrictProvisionFailure::rollback, (source, undone), rolled),
        call_ensures(StrictProvisionFailure::rollback_partial_cgroup, (source, undone), partial),
    ensures
        unknown.quarantine && !unknown.retained && unknown.error == source,
        rolled.quarantine == (undone is Err) && rolled.retained == (undone is Err),
        partial.quarantine && partial.retained == (undone is Err),
        undone is Ok ==> rolled.error == source && partial.error == source,
        undone matches Err(e) ==> rolled.error == (
        ExecutionDomainError::LifecycleAndDestroyFailed {
            lifecycle: Box::new(source),
            destroy: Box::new(e),
        }) && partial.error == rolled.error,
{
}

} // verus!
