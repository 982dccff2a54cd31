//! How the supervisor of a cleanup and its worker agree: the worker gets its users
//! mapped, receives the roots, reports everything it finds, and removes nothing
//! until the supervisor has accepted every entry.

use vstd::prelude::*;

use crate::bytes;
use crate::contracts::FailureCategory;
use crate::error::ExecutionDomainError;
use crate::linux::cgroup;
use crate::linux::cleanup;
use crate::linux::cleanup::{CleanupRootKind, IdExtent, MappedIdRange, MAX_ENTRIES};
use crate::linux::cleanup_tree;
use crate::linux::cleanup_tree::{
    InventoryWalk, MappedCleanupAuthority, OwnedIdentity, OwnedMove, OwnedStep, PinnedCleanupRoot,
};
use crate::linux::dirfd::{lemma_kind_bits, Metadata, S_IFDIR, S_IFMT};

verus! {

/// The largest packet.
pub const MAX_PACKET: usize = 64;

/// The largest number of descriptors in one packet.
pub const MAX_DESCRIPTORS: usize = 8;

/// The refusal of a packet.
pub open spec fn protocol_error() -> ExecutionDomainError {
    cleanup::cleanup_error(FailureCategory::Protocol)
}

/// A packet that was received: its bytes, how many descriptors came with it, and
/// who sent it, where the kernel said so.
pub struct Packet {
    pub bytes: Vec<u8>,
    pub descriptors: usize,
    pub sender: Option<i32>,
}

/// Accepts a packet for sending only if it can be sent in one piece.
pub fn check_outgoing(length: usize, descriptors: usize) -> (r: Result<(), ExecutionDomainError>)
    ensures
        match r {
            Ok(_) => 0 < length <= MAX_PACKET && descriptors <= MAX_DESCRIPTORS,
            Err(e) => !(0 < length <= MAX_PACKET && descriptors <= MAX_DESCRIPTORS) && e
                == cleanup::cleanup_error(FailureCategory::InvalidInput),
        },
{
    if length == 0 || length > MAX_PACKET || descriptors > MAX_DESCRIPTORS {
        return Err(cleanup::failure(FailureCategory::InvalidInput));
    }
    Ok(())
}

/// What the number of bytes that were sent means.
pub fn check_sent(sent: i64, length: usize, errno: Option<i32>) -> (r: Result<
    (),
    ExecutionDomainError,
>)
    ensures
        r == (if sent == length {
            Ok::<(), ExecutionDomainError>(())
        } else if sent < 0 {
            Err(cleanup::cleanup_io_error(errno))
        } else {
            Err(protocol_error())
        }),
{
    if sent >= 0 && sent as u64 == length as u64 {
        Ok(())
    } else if sent < 0 {
        Err(cleanup::io_failure(errno))
    } else {
        Err(cleanup::failure(FailureCategory::Protocol))
    }
}

/// What the number of bytes that were received means. An empty packet is the end of
/// the connection, and a truncated one is refused.
pub fn check_received(count: i64, truncated: bool, errno: Option<i32>) -> (r: Result<
    (),
    ExecutionDomainError,
>)
    ensures
        r == (if count < 0 {
            Err::<(), ExecutionDomainError>(cleanup::cleanup_io_error(errno))
        } else if count == 0 || truncated {
            Err(protocol_error())
        } else {
            Ok(())
        }),
{
    if count < 0 {
        Err(cleanup::io_failure(errno))
    } else if count == 0 || truncated {
        Err(cleanup::failure(FailureCategory::Protocol))
    } else {
        Ok(())
    }
}

/// A control message of a packet.
#[derive(Debug, Clone, Copy, PartialEq, Eq, Structural)]
pub enum ControlMessage {
    /// Descriptors, in so many bytes; nothing where the message is shorter than its
    /// own header.
    Rights(Option<usize>),
    /// The sender, and whether the message has the exact length of one.
    Credentials { exact: bool, pid: i32 },
    Other,
}

/// What the control messages of a packet say.
#[derive(Debug, Clone, Copy, PartialEq, Eq, Structural)]
pub struct Control {
    pub descriptors: usize,
    pub sender: Option<i32>,
}

/// What the control messages say, read in order, where they can be accepted: whole
/// descriptors up to the limit, at most one sender, and nothing else.
pub open spec fn control_of(list: Seq<ControlMessage>, limit: usize) -> Option<(
    int,
    Option<i32>,
)>
    decreases list.len(),
{
    if list.len() == 0 {
        Some((0int, None))
    } else {
        match control_of(list.drop_last(), limit) {
            None => None,
            Some((count, sender)) => match list.last() {
                ControlMessage::Rights(Some(size)) => if size % 4 == 0 && count + size / 4
                    <= limit {
                    Some((count + size / 4, sender))
                } else {
                    None
                },
                ControlMessage::Credentials { exact, pid } => if exact && sender is None {
                    Some((count, Some(pid)))
                } else {
                    None
                },
                _ => None,
            },
        }
    }
}

proof fn lemma_control_prefix(list: Seq<ControlMessage>, n: int, limit: usize)
    requires
        0 <= n <= list.len(),
        control_of(list.take(n), limit) is None,
    ensures
        control_of(list, limit) is None,
    decreases list.len(),
{
    if n == list.len() {
        assert(list.take(n) =~= list);
    } else {
        assert(list.drop_last().take(n) =~= list.take(n));
        lemma_control_prefix(list.drop_last(), n, limit);
    }
}

/// Reads the control messages of a packet.
pub fn accept_control(list: &[ControlMessage], limit: usize) -> (r: Result<
    Control,
    ExecutionDomainError,
>)
    ensures
        match r {
            Ok(c) => control_of(list@, limit) == Some((c.descriptors as int, c.sender)),
            Err(e) => control_of(list@, limit) is None && e == protocol_error(),
        },
{
    let mut descriptors: usize = 0;
    let mut sender: Option<i32> = None;
    proof {
        assert(list@.take(0) =~= Seq::<ControlMessage>::empty());
    }
    for i in 0..list.len()
        invariant
            control_of(list@.take(i as int), limit) == Some((descriptors as int, sender)),
            descriptors <= limit,
    {
        let ghost next = list@.take(i + 1);
        proof {
            assert(next.drop_last() =~= list@.take(i as int));
            assert(next.last() == list@[i as int]);
        }
        let message: ControlMessage = list[i];
        match message {
            ControlMessage::Rights(Some(size)) => {
                if size % 4 != 0 || size / 4 > limit - descriptors {
                    proof {
                        lemma_control_prefix(list@, i + 1, limit);
                    }
                    return Err(cleanup::failure(FailureCategory::Protocol));
                }
                descriptors = descriptors + size / 4;
            },
            ControlMessage::Credentials { exact, pid } => {
                if !exact || sender.is_some() {
                    proof {
                        lemma_control_prefix(list@, i + 1, limit);
                    }
                    return Err(cleanup::failure(FailureCategory::Protocol));
                }
                sender = Some(pid);
            },
            _ => {
                proof {
                    lemma_control_prefix(list@, i + 1, limit);
                }
                return Err(cleanup::failure(FailureCategory::Protocol));
            },
        }
    }
    proof {
        assert(list@.take(list@.len() as int) =~= list@);
    }
    Ok(Control { descriptors, sender })
}

/// Whether a packet is the expected one: just these bytes, no descriptor, and from
/// the expected process where one is expected.
pub open spec fn packet_is(packet: Packet, expected: Seq<u8>, sender: Option<i32>) -> bool {
    packet.bytes@ == expected && packet.descriptors == 0 && (sender is Some ==> packet.sender
        == sender)
}

/// Accepts only the expected packet.
pub fn expect_packet(packet: &Packet, expected: &[u8], sender: Option<i32>) -> (r: Result<
    (),
    ExecutionDomainError,
>)
    ensures
        match r {
            Ok(_) => packet_is(*packet, expected@, sender),
            Err(e) => !packet_is(*packet, expected@, sender) && e == protocol_error(),
        },
{
    let sender_fits: bool = match sender {
        None => true,
        Some(pid) => match packet.sender {
            None => false,
            Some(actual) => actual == pid,
        },
    };
    if !bytes::same(packet.bytes.as_slice(), expected) || packet.descriptors != 0 || !sender_fits {
        return Err(cleanup::failure(FailureCategory::Protocol));
    }
    Ok(())
}

/// How many milliseconds a wait on the socket may take.
pub fn poll_limit(deadline: u128, now: u128) -> (r: Result<i32, ExecutionDomainError>)
    ensures
        match r {
            Ok(millis) => now < deadline && millis == (if (deadline - now) / 1_000_000 > i32::MAX {
                i32::MAX as int
            } else {
                (deadline - now) / 1_000_000
            }),
            Err(e) => now >= deadline && e == cleanup::cleanup_error(FailureCategory::Timeout),
        },
{
    if now >= deadline {
        return Err(cleanup::failure(FailureCategory::Timeout));
    }
    let millis: u128 = (deadline - now) / 1_000_000;
    if millis > i32::MAX as u128 {
        Ok(i32::MAX)
    } else {
        Ok(millis as i32)
    }
}

/// What a wait on the socket gave: `true` where it is ready, `false` where the wait
/// has to be repeated.
pub fn check_poll(result: i32, ready: bool, interrupted: bool, errno: Option<i32>) -> (r: Result<
    bool,
    ExecutionDomainError,
>)
    ensures
        r == (if result > 0 {
            Ok::<bool, ExecutionDomainError>(ready)
        } else if result == 0 {
            Err(cleanup::cleanup_error(FailureCategory::Timeout))
        } else if interrupted {
            Ok(false)
        } else {
            Err(cleanup::cleanup_io_error(errno))
        }),
{
    if result > 0 {
        Ok(ready)
    } else if result == 0 {
        Err(cleanup::failure(FailureCategory::Timeout))
    } else if interrupted {
        Ok(false)
    } else {
        Err(cleanup::io_failure(errno))
    }
}

/// The bytes that announce the roots.
pub open spec fn root_bytes(roots: Seq<PinnedCleanupRoot>) -> Seq<u8> {
    seq![82u8] + Seq::new(roots.len(), |i: int| cleanup::kind_byte(roots[i].kind))
}

/// The packet that announces the roots: a mark for the start directory, and the
/// kind of each root.
pub fn root_announcement(roots: &[PinnedCleanupRoot]) -> (r: Vec<u8>)
    ensures
        r@ == root_bytes(roots@),
{
    let mut out: Vec<u8> = Vec::new();
    out.push(82);
    for i in 0..roots.len()
        invariant
            out@ == root_bytes(roots@.take(i as int)),
    {
        out.push(cleanup::root_kind_byte(roots[i].kind));
        proof {
            assert(out@ =~= root_bytes(roots@.take(i + 1)));
        }
    }
    proof {
        assert(roots@.take(roots@.len() as int) =~= roots@);
    }
    out
}

/// How the worker takes the announced roots, given what each descriptor after the
/// first leads to.
pub open spec fn accepted_roots(
    kinds: Seq<u8>,
    metadata: Seq<Metadata>,
    roots: Seq<PinnedCleanupRoot>,
) -> bool {
    &&& roots.len() == metadata.len()
    &&& forall|i: int|
        0 <= i < roots.len() ==> (#[trigger] roots[i]).identity == cleanup_tree::owned_identity(
            metadata[i],
        ) && cleanup::kind_byte(roots[i].kind) == kinds[i + 1]
}

/// Whether the announcement of the roots has the right form and sender.
pub open spec fn announcement_valid(packet: Packet, parent: i32) -> bool {
    packet.sender == Some(parent) && packet.bytes@.len() == packet.descriptors
        && packet.bytes@.len() >= 2 && packet.bytes@[0] == 82u8
}

/// Whether a byte stands for a kind of root.
pub open spec fn kind_known(value: u8) -> bool {
    exists|kind: CleanupRootKind| #[trigger] cleanup::kind_byte(kind) == value
}

/// Whether the first descriptors after the list lead to directories of known kinds.
pub open spec fn roots_pass(kinds: Seq<u8>, metadata: Seq<Metadata>, count: int) -> bool {
    forall|j: int|
        0 <= j < count ==> (#[trigger] metadata[j]).kind() == S_IFDIR && kind_known(kinds[j + 1])
}

/// Accepts the announcement of the roots. The first root that is no directory, or has
/// no known kind, decides what is wrong with it.
pub fn accept_roots(packet: &Packet, parent: i32, metadata: &[Metadata]) -> (r: Result<
    Vec<PinnedCleanupRoot>,
    ExecutionDomainError,
>)
    requires
        announcement_valid(*packet, parent) ==> metadata@.len() == packet.descriptors - 1,
    ensures
        match r {
            Ok(roots) => announcement_valid(*packet, parent) && accepted_roots(
                packet.bytes@,
                metadata@,
                roots@,
            ) && forall|i: int|
                0 <= i < metadata@.len() ==> (#[trigger] metadata@[i]).kind() == S_IFDIR,
            Err(e) => if !announcement_valid(*packet, parent) {
                e == protocol_error()
            } else {
                exists|i: int|
                    0 <= i < metadata@.len() && roots_pass(packet.bytes@, metadata@, i) && (if (
                    #[trigger] metadata@[i]).kind() != S_IFDIR {
                        e == cleanup_tree::mismatch()
                    } else {
                        !kind_known(packet.bytes@[i + 1]) && e == protocol_error()
                    })
            },
        },
{
    let from_parent: bool = match packet.sender {
        None => false,
        Some(pid) => pid == parent,
    };
    if !from_parent || packet.bytes.len() != packet.descriptors || packet.bytes.len() < 2
        || packet.bytes[0] != 82 {
        return Err(cleanup::failure(FailureCategory::Protocol));
    }
    let mut roots: Vec<PinnedCleanupRoot> = Vec::new();
    for i in 0..metadata.len()
        invariant
            metadata@.len() + 1 == packet.bytes@.len(),
            announcement_valid(*packet, parent),
            accepted_roots(packet.bytes@, metadata@.take(i as int), roots@),
            roots_pass(packet.bytes@, metadata@, i as int),
    {
        let identity: OwnedIdentity = cleanup_tree::identity(&metadata[i]);
        if identity.mode & S_IFMT != S_IFDIR {
            assert(metadata@[i as int].kind() != S_IFDIR);
            return Err(cleanup::failure(FailureCategory::IdentityMismatch));
        }
        match cleanup::parse_root_kind(packet.bytes[i + 1]) {
            Ok(kind) => {
                assert(kind_known(packet.bytes@[i + 1]));
                roots.push(PinnedCleanupRoot { kind, identity });
            },
            Err(e) => {
                assert(metadata@[i as int].kind() == S_IFDIR);
                return Err(e);
            },
        }
    }
    proof {
        assert(metadata@.take(metadata@.len() as int) =~= metadata@);
    }
    Ok(roots)
}

/// What the supervisor does next.
#[derive(Debug, Clone, Copy, PartialEq, Eq, Structural)]
pub enum SupervisorAction {
    /// Receive the report that the worker has its own user namespace.
    AwaitUnshared,
    InstallUserMap,
    DenySetgroups,
    InstallGroupMap,
    VerifyUserMap,
    VerifyGroupMap,
    SendMapped,
    SendRoots,
    /// Receive the next entry, or the end of the list.
    AwaitEntry,
    SendCommit,
    /// Receive the report that everything was removed.
    AwaitRemoved,
    Finished,
}

/// What happened to the supervisor.
pub enum SupervisorEvent {
    /// The action succeeded.
    Done,
    /// The action failed.
    Failed(ExecutionDomainError),
    /// A packet was received.
    Received(Packet),
    /// An entry was received, which the descriptor leads to.
    Entry(Packet, Metadata),
}

/// The supervisor's side of one cleanup.
pub struct Supervisor {
    pub worker: i32,
    pub map: MappedIdRange,
    pub roots: Vec<PinnedCleanupRoot>,
    pub action: SupervisorAction,
    pub entries: usize,
}

/// How the supervisor goes on.
pub enum SupervisorStep {
    Continue(Supervisor),
    Done(Result<(), ExecutionDomainError>),
}

impl Supervisor {
    /// Begins the supervision of a worker.
    pub fn begin(worker: i32, map: MappedIdRange, roots: Vec<PinnedCleanupRoot>) -> (r: Supervisor)
        ensures
            r == (Supervisor {
                worker,
                map,
                roots,
                action: SupervisorAction::AwaitUnshared,
                entries: 0,
            }),
    {
        Supervisor { worker, map, roots, action: SupervisorAction::AwaitUnshared, entries: 0 }
    }

    /// The action after one that succeeded.
    pub open spec fn following(action: SupervisorAction) -> SupervisorAction {
        match action {
            SupervisorAction::AwaitUnshared => SupervisorAction::InstallUserMap,
            SupervisorAction::InstallUserMap => SupervisorAction::DenySetgroups,
            SupervisorAction::DenySetgroups => SupervisorAction::InstallGroupMap,
            SupervisorAction::InstallGroupMap => SupervisorAction::VerifyUserMap,
            SupervisorAction::VerifyUserMap => SupervisorAction::VerifyGroupMap,
            SupervisorAction::VerifyGroupMap => SupervisorAction::SendMapped,
            SupervisorAction::SendMapped => SupervisorAction::SendRoots,
            SupervisorAction::SendRoots => SupervisorAction::AwaitEntry,
            SupervisorAction::AwaitEntry => SupervisorAction::SendCommit,
            SupervisorAction::SendCommit => SupervisorAction::AwaitRemoved,
            SupervisorAction::AwaitRemoved => SupervisorAction::Finished,
            SupervisorAction::Finished => SupervisorAction::Finished,
        }
    }

    fn next_action(action: SupervisorAction) -> (r: SupervisorAction)
        ensures
            r == Self::following(action),
    {
        match action {
            SupervisorAction::AwaitUnshared => SupervisorAction::InstallUserMap,
            SupervisorAction::InstallUserMap => SupervisorAction::DenySetgroups,
            SupervisorAction::DenySetgroups => SupervisorAction::InstallGroupMap,
            SupervisorAction::InstallGroupMap => SupervisorAction::VerifyUserMap,
            SupervisorAction::VerifyUserMap => SupervisorAction::VerifyGroupMap,
            SupervisorAction::VerifyGroupMap => SupervisorAction::SendMapped,
            SupervisorAction::SendMapped => SupervisorAction::SendRoots,
            SupervisorAction::SendRoots => SupervisorAction::AwaitEntry,
            SupervisorAction::AwaitEntry => SupervisorAction::SendCommit,
            SupervisorAction::SendCommit => SupervisorAction::AwaitRemoved,
            SupervisorAction::AwaitRemoved => SupervisorAction::Finished,
            SupervisorAction::Finished => SupervisorAction::Finished,
        }
    }

    /// Whether an action waits for a packet.
    pub open spec fn waits(action: SupervisorAction) -> bool {
        action == SupervisorAction::AwaitUnshared || action == SupervisorAction::AwaitEntry
            || action == SupervisorAction::AwaitRemoved
    }

    /// Whether a packet ends the list of entries.
    pub open spec fn ends_list(packet: Packet) -> bool {
        packet.bytes@ == bytes::encoded("D"@)
    }

    /// Whether a packet has the form of an entry.
    pub open spec fn entry_form(packet: Packet) -> bool {
        packet.bytes@.len() == 2 && packet.bytes@[0] == 69u8 && packet.descriptors == 1
    }

    /// How an entry, or the end of the list, is taken. `None` stands for an accepted
    /// entry.
    pub open spec fn entry_outcome(self, packet: Packet, entry: Option<Metadata>) -> Option<
        Result<(), ExecutionDomainError>,
    > {
        if packet.sender != Some(self.worker) {
            Some(Err(cleanup_tree::mismatch()))
        } else if Self::ends_list(packet) {
            if packet.descriptors == 0 {
                Some(Ok(()))
            } else {
                Some(Err(protocol_error()))
            }
        } else if !Self::entry_form(packet) || entry is None {
            Some(Err(protocol_error()))
        } else if self.entries >= MAX_ENTRIES {
            Some(Err(cleanup::cleanup_error(FailureCategory::Unavailable)))
        } else if packet.bytes@[1] >= self.roots@.len() {
            Some(Err(protocol_error()))
        } else {
            let root = self.roots@[packet.bytes@[1] as int].identity;
            let m = entry->0;
            if cleanup_tree::entry_owned(cleanup_tree::owned_identity(m), root, self.map) && (
            m.kind() == S_IFDIR || cleanup_tree::leaf_kind(m.kind())) {
                None
            } else {
                Some(Err(cleanup_tree::mismatch()))
            }
        }
    }

    fn check_entry(&self, packet: &Packet, entry: Option<Metadata>) -> (r: Option<
        Result<(), ExecutionDomainError>,
    >)
        ensures
            r == self.entry_outcome(*packet, entry),
    {
        let from_worker: bool = match packet.sender {
            None => false,
            Some(pid) => pid == self.worker,
        };
        if !from_worker {
            return Some(Err(cleanup::failure(FailureCategory::IdentityMismatch)));
        }
        if bytes::are(packet.bytes.as_slice(), "D") {
            if packet.descriptors != 0 {
                return Some(Err(cleanup::failure(FailureCategory::Protocol)));
            }
            return Some(Ok(()));
        }
        if packet.bytes.len() != 2 || packet.bytes[0] != 69 || packet.descriptors != 1 {
            return Some(Err(cleanup::failure(FailureCategory::Protocol)));
        }
        let m: Metadata = match entry {
            Some(m) => m,
            None => {
                return Some(Err(cleanup::failure(FailureCategory::Protocol)));
            },
        };
        if self.entries >= MAX_ENTRIES {
            return Some(Err(cleanup::failure(FailureCategory::Unavailable)));
        }
        let index: usize = packet.bytes[1] as usize;
        if index >= self.roots.len() {
            return Some(Err(cleanup::failure(FailureCategory::Protocol)));
        }
        match cleanup_tree::validate_host_entry(&m, &self.roots[index].identity, &self.map) {
            Ok(_) => None,
            Err(e) => Some(Err(e)),
        }
    }

    /// The bytes of the one packet that is expected where no entry is.
    pub open spec fn expected_reply(action: SupervisorAction) -> Seq<u8> {
        if action == SupervisorAction::AwaitUnshared {
            bytes::encoded("U"@)
        } else {
            bytes::encoded("O"@)
        }
    }

    /// What an event leads to: the next action, the number of accepted entries, or
    /// the end.
    pub open spec fn outcome(self, event: SupervisorEvent) -> Result<
        (SupervisorAction, int),
        ExecutionDomainError,
    > {
        let next = (Self::following(self.action), self.entries as int);
        match event {
            SupervisorEvent::Failed(e) => Err(e),
            SupervisorEvent::Done => if Self::waits(self.action) {
                Err(protocol_error())
            } else {
                Ok(next)
            },
            SupervisorEvent::Received(packet) => if self.action == SupervisorAction::AwaitEntry {
                match self.entry_outcome(packet, None) {
                    None => Err(protocol_error()),
                    Some(Ok(_)) => Ok(next),
                    Some(Err(e)) => Err(e),
                }
            } else if Self::waits(self.action) && packet_is(
                packet,
                Self::expected_reply(self.action),
                Some(self.worker),
            ) {
                Ok(next)
            } else {
                Err(protocol_error())
            },
            SupervisorEvent::Entry(packet, m) => if self.action == SupervisorAction::AwaitEntry {
                match self.entry_outcome(packet, Some(m)) {
                    None => Ok((SupervisorAction::AwaitEntry, self.entries + 1)),
                    Some(Ok(_)) => Ok(next),
                    Some(Err(e)) => Err(e),
                }
            } else {
                Err(protocol_error())
            },
        }
    }

    /// Takes an event. Any failure ends the exchange, so that the worker never
    /// receives the word to remove.
    pub fn advance(self, event: SupervisorEvent) -> (r: SupervisorStep)
        requires
            self.action != SupervisorAction::Finished,
        ensures
            match self.outcome(event) {
                Err(e) => r == SupervisorStep::Done(Err(e)),
                Ok((action, entries)) => if action == SupervisorAction::Finished {
                    r == SupervisorStep::Done(Ok(()))
                } else {
                    r == SupervisorStep::Continue(
                        Supervisor { action, entries: entries as usize, ..self },
                    )
                },
            },
    {
        let mut entries: usize = self.entries;
        let next: SupervisorAction = Self::next_action(self.action);
        let waits: bool = match self.action {
            SupervisorAction::AwaitUnshared | SupervisorAction::AwaitEntry
            | SupervisorAction::AwaitRemoved => true,
            _ => false,
        };
        let action: SupervisorAction = match event {
            SupervisorEvent::Failed(e) => {
                return SupervisorStep::Done(Err(e));
            },
            SupervisorEvent::Done => {
                if waits {
                    return SupervisorStep::Done(Err(cleanup::failure(FailureCategory::Protocol)));
                }
                next
            },
            SupervisorEvent::Received(packet) => {
                if self.action == SupervisorAction::AwaitEntry {
                    match self.check_entry(&packet, None) {
                        None => {
                            return SupervisorStep::Done(
                                Err(cleanup::failure(FailureCategory::Protocol)),
                            );
                        },
                        Some(Ok(_)) => next,
                        Some(Err(e)) => {
                            return SupervisorStep::Done(Err(e));
                        },
                    }
                } else {
                    let expected: Vec<u8> = if self.action == SupervisorAction::AwaitUnshared {
                        bytes::of("U")
                    } else {
                        bytes::of("O")
                    };
                    if !waits {
                        return SupervisorStep::Done(
                            Err(cleanup::failure(FailureCategory::Protocol)),
                        );
                    }
                    match expect_packet(&packet, expected.as_slice(), Some(self.worker)) {
                        Ok(_) => next,
                        Err(e) => {
                            return SupervisorStep::Done(Err(e));
                        },
                    }
                }
            },
            SupervisorEvent::Entry(packet, m) => {
                if self.action == SupervisorAction::AwaitEntry {
                    match self.check_entry(&packet, Some(m)) {
                        None => {
                            entries = entries + 1;
                            SupervisorAction::AwaitEntry
                        },
                        Some(Ok(_)) => next,
                        Some(Err(e)) => {
                            return SupervisorStep::Done(Err(e));
                        },
                    }
                } else {
                    return SupervisorStep::Done(Err(cleanup::failure(FailureCategory::Protocol)));
                }
            },
        };
        if action == SupervisorAction::Finished {
            return SupervisorStep::Done(Ok(()));
        }
        SupervisorStep::Continue(
            Supervisor { worker: self.worker, map: self.map, roots: self.roots, action, entries },
        )
    }
}

/// The word to remove is sent only after the worker itself has ended its list, and
/// every entry of that list, within the limit, was accepted.
pub proof fn law_commit_follows_the_whole_list(s: Supervisor, event: SupervisorEvent)
    requires
        s.action != SupervisorAction::Finished,
        s.entries <= MAX_ENTRIES,
    ensures
        match s.outcome(event) {
            Ok((action, entries)) => {
                &&& entries <= MAX_ENTRIES
                &&& action == SupervisorAction::SendCommit ==> s.action
                    == SupervisorAction::AwaitEntry && (match event {
                    SupervisorEvent::Received(p) | SupervisorEvent::Entry(p, _) => p.sender
                        == Some(s.worker) && Supervisor::ends_list(p) && p.descriptors == 0,
                    _ => false,
                })
                &&& entries > s.entries ==> (event matches SupervisorEvent::Entry(p, m)
                    && Supervisor::entry_form(p) && cleanup_tree::entry_owned(
                    cleanup_tree::owned_identity(m),
                    s.roots@[p.bytes@[1] as int].identity,
                    s.map,
                ))
            },
            Err(_) => true,
        },
{
}

/// The steps of the worker, in order.
#[derive(Debug, Clone, Copy, PartialEq, Eq, Structural)]
pub enum WorkerStage {
    CloseDescriptors,
    RequireNoGroups,
    UnshareUsers,
    SendUnshared,
    AwaitMapped,
    VerifyMaps,
    AwaitRoots,
    EnterMounts,
    Inventory,
    SendDone,
    AwaitCommit,
    Remove,
    SendRemoved,
}

impl WorkerStage {
    /// The place of the stage in the order.
    pub open spec fn rank(self) -> int {
        match self {
            WorkerStage::CloseDescriptors => 0,
            WorkerStage::RequireNoGroups => 1,
            WorkerStage::UnshareUsers => 2,
            WorkerStage::SendUnshared => 3,
            WorkerStage::AwaitMapped => 4,
            WorkerStage::VerifyMaps => 5,
            WorkerStage::AwaitRoots => 6,
            WorkerStage::EnterMounts => 7,
            WorkerStage::Inventory => 8,
            WorkerStage::SendDone => 9,
            WorkerStage::AwaitCommit => 10,
            WorkerStage::Remove => 11,
            WorkerStage::SendRemoved => 12,
        }
    }

    /// The stage after this one, where there is one.
    pub fn next(self) -> (r: Option<WorkerStage>)
        ensures
            match r {
                Some(n) => n.rank() == self.rank() + 1,
                None => self == WorkerStage::SendRemoved,
            },
    {
        match self {
            WorkerStage::CloseDescriptors => Some(WorkerStage::RequireNoGroups),
            WorkerStage::RequireNoGroups => Some(WorkerStage::UnshareUsers),
            WorkerStage::UnshareUsers => Some(WorkerStage::SendUnshared),
            WorkerStage::SendUnshared => Some(WorkerStage::AwaitMapped),
            WorkerStage::AwaitMapped => Some(WorkerStage::VerifyMaps),
            WorkerStage::VerifyMaps => Some(WorkerStage::AwaitRoots),
            WorkerStage::AwaitRoots => Some(WorkerStage::EnterMounts),
            WorkerStage::EnterMounts => Some(WorkerStage::Inventory),
            WorkerStage::Inventory => Some(WorkerStage::SendDone),
            WorkerStage::SendDone => Some(WorkerStage::AwaitCommit),
            WorkerStage::AwaitCommit => Some(WorkerStage::Remove),
            WorkerStage::Remove => Some(WorkerStage::SendRemoved),
            WorkerStage::SendRemoved => None,
        }
    }

    /// The packet that the worker sends at a stage.
    pub fn message(self) -> (r: Option<Vec<u8>>)
        ensures
            match self {
                WorkerStage::SendUnshared => r matches Some(b) && b@ == bytes::encoded("U"@),
                WorkerStage::SendDone => r matches Some(b) && b@ == bytes::encoded("D"@),
                WorkerStage::SendRemoved => r matches Some(b) && b@ == bytes::encoded("O"@),
                _ => r is None,
            },
    {
        match self {
            WorkerStage::SendUnshared => Some(bytes::of("U")),
            WorkerStage::SendDone => Some(bytes::of("D")),
            WorkerStage::SendRemoved => Some(bytes::of("O")),
            _ => None,
        }
    }

    /// The packet that the worker waits for at a stage.
    pub fn awaited(self) -> (r: Option<Vec<u8>>)
        ensures
            match self {
                WorkerStage::AwaitMapped => r matches Some(b) && b@ == bytes::encoded("M"@),
                WorkerStage::AwaitCommit => r matches Some(b) && b@ == bytes::encoded("C"@),
                _ => r is None,
            },
    {
        match self {
            WorkerStage::AwaitMapped => Some(bytes::of("M")),
            WorkerStage::AwaitCommit => Some(bytes::of("C")),
            _ => None,
        }
    }
}

/// The worker's map as it sees it itself: it is user 0, and its subordinate users
/// start at 1.
pub fn worker_range(uid_count: u32, gid_count: u32) -> (r: Result<
    MappedIdRange,
    ExecutionDomainError,
>)
    ensures
        match r {
            Ok(map) => 0 < uid_count < u32::MAX && 0 < gid_count < u32::MAX && map.users() == (
            IdExtent { service: 0, start: 1, count: uid_count }) && map.groups() == (IdExtent {
                service: 0,
                start: 1,
                count: gid_count,
            }),
            Err(e) => !(0 < uid_count < u32::MAX && 0 < gid_count < u32::MAX) && e
                == cleanup::cleanup_error(FailureCategory::InvalidInput),
        },
{
    MappedIdRange::new(0, 0, 1, uid_count, 1, gid_count)
}

/// The removal of everything that was found below the roots. It can begin only once
/// every root has been walked to its end.
pub struct Removal {
    pub roots: Vec<PinnedCleanupRoot>,
    pub plans: Vec<Vec<OwnedStep>>,
}

/// The plans of finished walks.
pub open spec fn walked(walks: Seq<InventoryWalk>) -> Seq<Seq<OwnedMove>> {
    Seq::new(walks.len(), |i: int| walks[i].moves())
}

/// The plans of a removal.
pub open spec fn planned(plans: Seq<Vec<OwnedStep>>) -> Seq<Seq<OwnedMove>> {
    Seq::new(plans.len(), |i: int| cleanup_tree::moves(plans[i]@))
}

impl Removal {
    /// Puts the plans of finished walks together, one for each root, in order.
    pub fn begin(authority: MappedCleanupAuthority, walks: Vec<InventoryWalk>) -> (r: Removal)
        requires
            walks@.len() == authority.roots@.len(),
            forall|i: int|
                0 <= i < walks@.len() ==> (#[trigger] walks@[i]).wf() && walks@[i].open@.len() == 0
                    && walks@[i].root == authority.roots@[i].identity && walks@[i].map
                    == authority.map,
        ensures
            r.roots == authority.roots,
            planned(r.plans@) == walked(walks@),
            forall|i: int, j: int|
                0 <= i < planned(r.plans@).len() && 0 <= j < planned(r.plans@)[i].len()
                    ==> cleanup_tree::move_allowed(
                    #[trigger] planned(r.plans@)[i][j],
                    authority.roots@[i].identity,
                    authority.map,
                ),
    {
        let ghost all = walks@;
        let mut rest: Vec<InventoryWalk> = walks;
        let mut back: Vec<Vec<OwnedStep>> = Vec::new();
        while rest.len() > 0
            invariant
                rest@.len() + back@.len() == all.len(),
                rest@ == all.take(rest@.len() as int),
                forall|k: int|
                    0 <= k < back@.len() ==> cleanup_tree::moves((#[trigger] back@[k])@) == all[
                        all.len() - 1 - k
                    ].moves(),
            decreases rest.len(),
        {
            match rest.pop() {
                Some(walk) => {
                    back.push(walk.plan);
                },
                None => {},
            }
        }
        let mut plans: Vec<Vec<OwnedStep>> = Vec::new();
        while back.len() > 0
            invariant
                plans@.len() + back@.len() == all.len(),
                forall|k: int|
                    0 <= k < back@.len() ==> cleanup_tree::moves((#[trigger] back@[k])@) == all[
                        all.len() - 1 - k
                    ].moves(),
                forall|k: int|
                    0 <= k < plans@.len() ==> cleanup_tree::moves((#[trigger] plans@[k])@)
                        == all[k].moves(),
            decreases back.len(),
        {
            let ghost last = back@.len() - 1;
            proof {
                assert(cleanup_tree::moves(back@[last]@) == all[all.len() - 1 - last].moves());
            }
            match back.pop() {
                Some(plan) => {
                    plans.push(plan);
                },
                None => {},
            }
        }
        proof {
            assert(planned(plans@) =~= walked(all));
            assert forall|i: int, j: int|
                0 <= i < planned(plans@).len() && 0 <= j < planned(plans@)[i].len() implies cleanup_tree::move_allowed(
            #[trigger] planned(plans@)[i][j], authority.roots@[i].identity, authority.map) by {
                assert(all[i].wf());
                assert(planned(plans@)[i] == all[i].moves());
            }
        }
        Removal { roots: authority.roots, plans }
    }
}

/// Whether a step of a removal may be done, given what its name leads to and, for a
/// directory, what its open descriptor leads to.
pub open spec fn step_held(
    step: OwnedMove,
    root: OwnedIdentity,
    named: Metadata,
    opened: Option<Metadata>,
) -> bool {
    match step {
        OwnedMove::Unlink { name, identity } => cleanup_tree::named_matches(named, identity, root),
        OwnedMove::Enter { name, identity } | OwnedMove::Leave { name, identity } => {
            &&& cleanup_tree::named_matches(named, identity, root)
            &&& opened matches Some(m)
            &&& cleanup_tree::owned_identity(m) == identity
            &&& identity.kind() == S_IFDIR
        },
    }
}

/// Accepts a step of a removal only if it still concerns what was found. A new entry
/// is begun only within the time.
pub fn check_removal_step(
    step: &OwnedStep,
    root: &OwnedIdentity,
    named: &Metadata,
    opened: Option<Metadata>,
    now: u128,
    deadline: u128,
) -> (r: Result<(), ExecutionDomainError>)
    ensures
        r == (if now >= deadline && !(step@ is Leave) {
            Err::<(), ExecutionDomainError>(cleanup::cleanup_error(FailureCategory::Timeout))
        } else if step_held(step@, *root, *named, opened) {
            Ok(())
        } else {
            Err(cleanup_tree::mismatch())
        }),
{
    let (leaving, leaf, identity): (bool, bool, OwnedIdentity) = match step {
        OwnedStep::Unlink { name: _, identity } => (false, true, *identity),
        OwnedStep::Enter { name: _, identity } => (false, false, *identity),
        OwnedStep::Leave { name: _, identity } => (true, false, *identity),
    };
    if now >= deadline && !leaving {
        return Err(cleanup::failure(FailureCategory::Timeout));
    }
    if leaf {
        match cleanup_tree::verify_named(named, &identity, root) {
            Ok(_) => Ok(()),
            Err(e) => Err(e),
        }
    } else {
        match opened {
            Some(m) => match cleanup_tree::verify_open_directory(named, &m, &identity, root) {
                Ok(_) => Ok(()),
                Err(e) => Err(e),
            },
            None => Err(cleanup::failure(FailureCategory::IdentityMismatch)),
        }
    }
}

/// What to do after a worker could not be put into its group.
pub enum AttachFailure {
    /// Keep the worker and its start directory for later, and report this.
    Retain(ExecutionDomainError),
    /// The worker has ended; remove its start directory, and report this error with
    /// the outcome of that.
    RemoveBootstrap(ExecutionDomainError),
}

/// Decides what follows after a worker could not be put into its group, given what
/// waiting for it gave and whether it was then still seen running.
pub fn after_failed_attach(
    error: ExecutionDomainError,
    reap: Result<bool, ExecutionDomainError>,
    running: Result<bool, ExecutionDomainError>,
) -> (r: AttachFailure)
    ensures
        r == (match running {
            Ok(false) => AttachFailure::RemoveBootstrap(error),
            Ok(true) => AttachFailure::Retain(
                cgroup::combined(
                    error,
                    Err(
                        match reap {
                            Err(e) => e,
                            Ok(_) => cleanup::cleanup_error(FailureCategory::Timeout),
                        },
                    ),
                ),
            ),
            Err(e) => AttachFailure::Retain(cgroup::combined(error, Err(e))),
        }),
{
    match running {
        Ok(alive) => {
            if alive {
                let reason: ExecutionDomainError = match reap {
                    Err(e) => e,
                    Ok(_) => cleanup::failure(FailureCategory::Timeout),
                };
                AttachFailure::Retain(cgroup::combine(error, Err(reason)))
            } else {
                AttachFailure::RemoveBootstrap(error)
            }
        },
        Err(e) => AttachFailure::Retain(cgroup::combine(error, Err(e))),
    }
}

/// What a helper that installs a map came to, and whether it has to be kept for
/// later: it must end with success, and one that failed to end is only forgotten
/// once it was seen to have ended.
pub fn helper_outcome(
    status: Result<bool, ExecutionDomainError>,
    running: Result<bool, ExecutionDomainError>,
) -> (r: (bool, Result<(), ExecutionDomainError>))
    ensures
        r == (match (status, running) {
            (Ok(true), _) => (false, Ok::<(), ExecutionDomainError>(())),
            (Ok(false), _) => (
                false,
                Err(cleanup::cleanup_error(FailureCategory::Unavailable)),
            ),
            (Err(e), Ok(alive)) => (alive, Err(e)),
            (Err(e), Err(seen)) => (true, Err(cgroup::combined(e, Err(seen)))),
        }),
{
    match status {
        Ok(success) => {
            if success {
                (false, Ok(()))
            } else {
                (false, Err(cleanup::failure(FailureCategory::Unavailable)))
            }
        },
        Err(e) => match running {
            Ok(alive) => (alive, Err(e)),
            Err(seen) => (true, Err(cgroup::combine(e, Err(seen)))),
        },
    }
}

/// The outcomes at the end of a worker.
pub struct WorkerEnd {
    pub exchange: Result<(), ExecutionDomainError>,
    pub wait: Result<(), ExecutionDomainError>,
    pub running: Result<bool, ExecutionDomainError>,
    pub cgroup: Result<(), ExecutionDomainError>,
    /// The removal of the start directory, which is tried only once the group is
    /// gone.
    pub bootstrap: Result<(), ExecutionDomainError>,
}

/// What is kept for later after a worker, and what the cleanup came to.
pub struct WorkerReport {
    pub keep_child: bool,
    pub keep_cgroup: bool,
    pub keep_bootstrap: bool,
    pub result: Result<(), ExecutionDomainError>,
}

/// The first of several outcomes that is a failure.
pub open spec fn first_error_of(
    a: Result<(), ExecutionDomainError>,
    b: Result<(), ExecutionDomainError>,
) -> Result<(), ExecutionDomainError> {
    match a {
        Ok(_) => b,
        Err(e) => Err(e),
    }
}

fn both(a: Result<(), ExecutionDomainError>, b: Result<(), ExecutionDomainError>) -> (r: Result<
    (),
    ExecutionDomainError,
>)
    ensures
        r == first_error_of(a, b),
{
    match a {
        Ok(_) => b,
        Err(e) => Err(e),
    }
}

/// Whether the start directory may be removed now: it is evidence, and stays until
/// the group of the worker is gone.
pub fn bootstrap_removable(cgroup: &Result<(), ExecutionDomainError>) -> (r: bool)
    ensures
        r == (*cgroup is Ok),
{
    match cgroup {
        Ok(_) => true,
        Err(_) => false,
    }
}

/// Sums up the end of a worker. What was not shown to be gone is kept, and the first
/// failure in the order of the outcomes is reported.
pub fn worker_report(end: WorkerEnd) -> (r: WorkerReport)
    ensures
        r.keep_child == (end.running != Ok::<bool, ExecutionDomainError>(false)),
        r.keep_cgroup == (end.cgroup is Err),
        r.keep_bootstrap == (end.cgroup is Err || end.bootstrap is Err),
        r.result == first_error_of(
            end.exchange,
            first_error_of(
                end.wait,
                first_error_of(
                    match end.running {
                        Ok(_) => Ok(()),
                        Err(e) => Err(e),
                    },
                    first_error_of(end.cgroup, end.bootstrap),
                ),
            ),
        ),
{
    let WorkerEnd { exchange, wait, running, cgroup, bootstrap } = end;
    let keep_cgroup: bool = cgroup.is_err();
    let keep_bootstrap: bool = keep_cgroup || bootstrap.is_err();
    let (keep_child, observed): (bool, Result<(), ExecutionDomainError>) = match running {
        Ok(alive) => (alive, Ok(())),
        Err(e) => (true, Err(e)),
    };
    let result: Result<(), ExecutionDomainError> = both(
        exchange,
        both(wait, both(observed, both(cgroup, bootstrap))),
    );
    WorkerReport { keep_child, keep_cgroup, keep_bootstrap, result }
}

/// Accepts a root after a cleanup only if it is still the same, and empty.
pub fn check_emptied_root(root: &PinnedCleanupRoot, current: &Metadata, empty: bool) -> (r: Result<
    (),
    ExecutionDomainError,
>)
    ensures
        match r {
            Ok(_) => cleanup_tree::owned_identity(*current) == root.identity && empty,
            Err(e) => !(cleanup_tree::owned_identity(*current) == root.identity && empty) && e
                == cleanup_tree::mismatch(),
        },
{
    match root.verify(current) {
        Ok(_) => {},
        Err(e) => {
            return Err(e);
        },
    }
    if !empty {
        return Err(cleanup::failure(FailureCategory::IdentityMismatch));
    }
    Ok(())
}

/// The exit status of the program where it was started as a cleanup worker, and
/// nothing where it was not.
pub fn internal_exit(
    mode: Option<&[u8]>,
    outcome: Result<(), ExecutionDomainError>,
) -> (r: Option<i32>)
    ensures
        r == (match mode {
            Some(m) if m@ == bytes::encoded("--internal-mapped-cleanup"@) => Some(
                if outcome is Ok {
                    0i32
                } else {
                    78i32
                },
            ),
            _ => None,
        }),
{
    match mode {
        Some(m) => {
            if bytes::are(m, "--internal-mapped-cleanup") {
                match outcome {
                    Ok(_) => Some(0),
                    Err(_) => Some(78),
                }
            } else {
                None
            }
        },
        None => None,
    }
}

/// A packet holds between one and sixty-four bytes and at most eight descriptors.
pub proof fn law_packets_are_small(
    length: usize,
    descriptors: usize,
    r: Result<(), ExecutionDomainError>,
)
    requires
        call_ensures(check_outgoing, (length, descriptors), r),
    ensures
        r is Ok <==> 1 <= length <= 64 && descriptors <= 8,
{
}

/// A packet was sent where all of it was.
pub proof fn law_packets_are_sent_whole(
    sent: i64,
    length: usize,
    errno: Option<i32>,
    r: Result<(), ExecutionDomainError>,
)
    requires
        call_ensures(check_sent, (sent, length, errno), r),
    ensures
        r is Ok <==> sent == length,
        sent < 0 ==> (r matches Err(ExecutionDomainError::Backend { category, errno: n, .. })
            && category == FailureCategory::Io && n == errno),
        sent >= 0 && sent != length ==> (r matches Err(
            ExecutionDomainError::Backend { category, .. },
        ) && category == FailureCategory::Protocol),
{
}

/// A packet was received where it holds something and nothing of it was cut off.
pub proof fn law_packets_are_received_whole(
    count: i64,
    truncated: bool,
    errno: Option<i32>,
    r: Result<(), ExecutionDomainError>,
)
    requires
        call_ensures(check_received, (count, truncated, errno), r),
    ensures
        r is Ok <==> count > 0 && !truncated,
        count < 0 ==> (r matches Err(ExecutionDomainError::Backend { category, errno: n, .. })
            && category == FailureCategory::Io && n == errno),
{
}

/// A packet that comes with one list of descriptors and its sender, in either order, is
/// taken with all of them, up to the limit.
pub proof fn law_descriptors_come_with_their_sender(
    list: &[ControlMessage],
    limit: usize,
    size: usize,
    pid: i32,
    r: Result<Control, ExecutionDomainError>,
)
    requires
        call_ensures(accept_control, (list, limit), r),
        list@ == seq![
            ControlMessage::Rights(Some(size)),
            ControlMessage::Credentials { exact: true, pid },
        ] || list@ == seq![
            ControlMessage::Credentials { exact: true, pid },
            ControlMessage::Rights(Some(size)),
        ],
    ensures
        size % 4 == 0 && size / 4 <= limit ==> (r matches Ok(c) && c.descriptors == size / 4
            && c.sender == Some(pid)),
        size % 4 != 0 || size / 4 > limit ==> r is Err,
{
    let l = list@;
    assert(l.drop_last().drop_last() =~= Seq::empty());
    assert(l.drop_last().last() == l[0]);
    reveal_with_fuel(control_of, 4);
}

/// Descriptors beyond the limit, two senders, or a message of another kind are refused.
pub proof fn law_other_messages_are_refused(
    list: &[ControlMessage],
    limit: usize,
    i: int,
    j: int,
    r: Result<Control, ExecutionDomainError>,
)
    requires
        call_ensures(accept_control, (list, limit), r),
        0 <= i < list@.len(),
    ensures
        list@[i] is Other ==> r is Err,
        list@[i] == ControlMessage::Rights(None) ==> r is Err,
        list@[i] matches ControlMessage::Credentials { exact, .. } ==> (exact || r is Err),
        i < j < list@.len() && list@[i] is Credentials && list@[j] is Credentials ==> r is Err,
        r matches Ok(c) ==> c.descriptors <= limit,
        r matches Ok(c) ==> (list@[i] is Credentials ==> c.sender == Some(list@[i]->pid)),
{
    if r is Ok {
        lemma_control_holds(list@, limit, i);
        lemma_control_bounded(list@, limit);
        if i < j < list@.len() && list@[i] is Credentials && list@[j] is Credentials {
            lemma_control_prefix_holds(list@, limit, j);
            lemma_control_holds(list@.take(j), limit, i);
            assert(list@.take(j)[i] == list@[i]);
            lemma_control_prefix_holds(list@, limit, j + 1);
            assert(list@.take(j + 1).drop_last() =~= list@.take(j));
            assert(list@.take(j + 1).last() == list@[j]);
        }
    }
}

proof fn lemma_control_bounded(list: Seq<ControlMessage>, limit: usize)
    requires
        control_of(list, limit) is Some,
    ensures
        control_of(list, limit) matches Some(c) && c.0 <= limit,
    decreases list.len(),
{
    if list.len() > 0 {
        lemma_control_bounded(list.drop_last(), limit);
    }
}

proof fn lemma_control_prefix_holds(list: Seq<ControlMessage>, limit: usize, n: int)
    requires
        control_of(list, limit) is Some,
        0 <= n <= list.len(),
    ensures
        control_of(list.take(n), limit) is Some,
    decreases list.len(),
{
    if n == list.len() {
        assert(list.take(n) =~= list);
    } else {
        lemma_control_prefix_holds(list.drop_last(), limit, n);
        assert(list.drop_last().take(n) =~= list.take(n));
    }
}

proof fn lemma_control_holds(list: Seq<ControlMessage>, limit: usize, i: int)
    requires
        control_of(list, limit) is Some,
        0 <= i < list.len(),
    ensures
        !(list[i] is Other),
        list[i] != ControlMessage::Rights(None),
        list[i] matches ControlMessage::Credentials { exact, .. } ==> exact,
        list[i] is Credentials ==> (control_of(list, limit) matches Some(c) && c.1 == Some(
            list[i]->pid,
        )),
    decreases list.len(),
{
    if i < list.len() - 1 {
        lemma_control_holds(list.drop_last(), limit, i);
        assert(list.drop_last()[i] == list[i]);
    }
}

/// A packet is the one that is expected where it holds those bytes, no descriptors, and
/// comes from whom it should.
pub proof fn law_expected_packets_pass(
    packet: Packet,
    expected: &[u8],
    sender: Option<i32>,
    r: Result<(), ExecutionDomainError>,
)
    requires
        call_ensures(expect_packet, (&packet, expected, sender), r),
    ensures
        r is Ok <==> packet.bytes@ == expected@ && packet.descriptors == 0 && (sender is None
            || packet.sender == sender),
{
}

/// A wait is as long as what is left, in whole thousandths of a second, and none is begun
/// once nothing is left.
pub proof fn law_waits_end_with_the_deadline(
    deadline: u128,
    now: u128,
    r: Result<i32, ExecutionDomainError>,
)
    requires
        call_ensures(poll_limit, (deadline, now), r),
    ensures
        r is Ok <==> now < deadline,
        r matches Ok(m) ==> m >= 0 && now + m * 1_000_000 <= deadline,
        r matches Ok(m) ==> m == i32::MAX || deadline - now < (m + 1) * 1_000_000,
        r matches Err(e) ==> (e matches ExecutionDomainError::Backend { category, .. } && category
            == FailureCategory::Timeout),
{
}

/// A wait that was interrupted goes on, one that ran out ends with the time, and one that
/// found something says whether it can be read.
pub proof fn law_interrupted_waits_go_on(
    result: i32,
    ready: bool,
    interrupted: bool,
    errno: Option<i32>,
    r: Result<bool, ExecutionDomainError>,
)
    requires
        call_ensures(check_poll, (result, ready, interrupted, errno), r),
    ensures
        result > 0 ==> r == Ok::<bool, ExecutionDomainError>(ready),
        result == 0 ==> (r matches Err(ExecutionDomainError::Backend { category, .. }) && category
            == FailureCategory::Timeout),
        result < 0 && interrupted ==> r == Ok::<bool, ExecutionDomainError>(false),
        result < 0 && !interrupted ==> (r matches Err(
            ExecutionDomainError::Backend { category, errno: n, .. },
        ) && category == FailureCategory::Io && n == errno),
{
}

/// Roots that are announced by their own parent, with their descriptors, are taken in the
/// same order and as the same kinds, with the identities that the descriptors have.
pub proof fn law_announced_roots_are_taken(
    roots: &[PinnedCleanupRoot],
    announced: Vec<u8>,
    packet: Packet,
    parent: i32,
    metadata: &[Metadata],
    r: Result<Vec<PinnedCleanupRoot>, ExecutionDomainError>,
)
    requires
        call_ensures(root_announcement, (roots,), announced),
        call_ensures(accept_roots, (&packet, parent, metadata), r),
        packet.bytes@ == announced@,
        packet.sender == Some(parent),
        packet.descriptors == roots@.len() + 1,
        roots@.len() >= 1,
        metadata@.len() == roots@.len(),
        forall|i: int| 0 <= i < metadata@.len() ==> (#[trigger] metadata@[i]).mode / 4096 == 4,
    ensures
        announced@.len() == roots@.len() + 1 && announced@[0] == 82,
        r is Ok && r->Ok_0@.len() == roots@.len(),
        forall|i: int|
            0 <= i < roots@.len() ==> (#[trigger] r->Ok_0@[i]).kind == roots@[i].kind
                && r->Ok_0@[i].identity.inode == metadata@[i].inode
                && r->Ok_0@[i].identity.mount_id == metadata@[i].mount_id,
{
    assert forall|i: int| 0 <= i < metadata@.len() implies (#[trigger] metadata@[i]).kind()
        == S_IFDIR by {
        lemma_kind_bits(metadata@[i].mode);
    }
    assert forall|i: int| 0 <= i < roots@.len() implies kind_known(
        #[trigger] packet.bytes@[i + 1],
    ) by {
        assert(cleanup::kind_byte(roots@[i].kind) == packet.bytes@[i + 1]);
    }
    if r is Ok {
        assert forall|i: int| 0 <= i < roots@.len() implies (#[trigger] r->Ok_0@[i]).kind
            == roots@[i].kind by {
            assert(cleanup::kind_byte(r->Ok_0@[i].kind) == packet.bytes@[i + 1]);
            cleanup::law_kind_bytes_are_distinct(r->Ok_0@[i].kind, roots@[i].kind);
        }
    } else {
        let i = choose|i: int|
            0 <= i < metadata@.len() && roots_pass(packet.bytes@, metadata@, i) && (if (
            #[trigger] metadata@[i]).kind() != S_IFDIR {
                r->Err_0 == cleanup_tree::mismatch()
            } else {
                !kind_known(packet.bytes@[i + 1]) && r->Err_0 == protocol_error()
            });
        assert(metadata@[i].kind() == S_IFDIR);
        assert(kind_known(packet.bytes@[i + 1]));
    }
}

/// Roots from anyone else, or without a descriptor for each, are refused.
pub proof fn law_other_roots_are_refused(
    packet: Packet,
    parent: i32,
    metadata: &[Metadata],
    r: Result<Vec<PinnedCleanupRoot>, ExecutionDomainError>,
)
    requires
        call_ensures(accept_roots, (&packet, parent, metadata), r),
        packet.sender != Some(parent) || packet.bytes@.len() < 2 || packet.bytes@.len()
            != packet.descriptors || packet.bytes@[0] != 82,
    ensures
        r matches Err(ExecutionDomainError::Backend { category, .. }) && category
            == FailureCategory::Protocol,
{
}

/// A supervisor installs both maps and verifies both before it says so, and hands over the
/// roots only after that.
pub proof fn law_supervisors_go_step_by_step(s: Supervisor, r: SupervisorStep)
    requires
        s.action != SupervisorAction::Finished,
        call_ensures(Supervisor::advance, (s, SupervisorEvent::Done), r),
    ensures
        r matches SupervisorStep::Continue(n) ==> n.worker == s.worker && n.map == s.map && n.roots
            == s.roots && n.entries == s.entries,
        s.action is InstallUserMap ==> (r matches SupervisorStep::Continue(n) && n.action
            is DenySetgroups),
        s.action is DenySetgroups ==> (r matches SupervisorStep::Continue(n) && n.action
            is InstallGroupMap),
        s.action is InstallGroupMap ==> (r matches SupervisorStep::Continue(n) && n.action
            is VerifyUserMap),
        s.action is VerifyUserMap ==> (r matches SupervisorStep::Continue(n) && n.action
            is VerifyGroupMap),
        s.action is VerifyGroupMap ==> (r matches SupervisorStep::Continue(n) && n.action
            is SendMapped),
        s.action is SendMapped ==> (r matches SupervisorStep::Continue(n) && n.action is SendRoots),
        s.action is SendRoots ==> (r matches SupervisorStep::Continue(n) && n.action is AwaitEntry),
        s.action is SendCommit ==> (r matches SupervisorStep::Continue(n) && n.action
            is AwaitRemoved),
        s.action is AwaitUnshared || s.action is AwaitEntry || s.action is AwaitRemoved ==> (
        r matches SupervisorStep::Done(Err(_))),
{
}

/// A supervisor begins by waiting for its worker and has seen no entry; a failure ends it.
pub proof fn law_supervisors_begin_by_waiting(
    worker: i32,
    map: MappedIdRange,
    roots: Vec<PinnedCleanupRoot>,
    s: Supervisor,
    t: Supervisor,
    e: ExecutionDomainError,
    r: SupervisorStep,
)
    requires
        call_ensures(Supervisor::begin, (worker, map, roots), s),
        t.action != SupervisorAction::Finished,
        call_ensures(Supervisor::advance, (t, SupervisorEvent::Failed(e)), r),
    ensures
        s.action is AwaitUnshared && s.entries == 0 && s.worker == worker && s.roots == roots
            && s.map == map,
        r == SupervisorStep::Done(Err(e)),
{
}

/// A supervisor goes on only with what its own worker says: that it is unshared at first,
/// that it removed everything at the end, and that the list is over in between.
pub proof fn law_supervisors_hear_their_worker(s: Supervisor, packet: Packet, r: SupervisorStep)
    requires
        s.action != SupervisorAction::Finished,
        call_ensures(Supervisor::advance, (s, SupervisorEvent::Received(packet)), r),
    ensures
        ({
            let own = packet.sender == Some(s.worker) && packet.descriptors == 0;
            &&& s.action is AwaitUnshared && own && packet.bytes@ == vstd::utf8::encode_utf8("U"@)
                ==> (r matches SupervisorStep::Continue(n) && n.action is InstallUserMap)
            &&& s.action is AwaitEntry && own && packet.bytes@ == vstd::utf8::encode_utf8("D"@)
                ==> (r matches SupervisorStep::Continue(n) && n.action is SendCommit)
            &&& s.action is AwaitRemoved && own && packet.bytes@ == vstd::utf8::encode_utf8("O"@)
                ==> (r matches SupervisorStep::Done(Ok(_)))
            &&& !own ==> (r matches SupervisorStep::Done(Err(_)))
            &&& s.action is AwaitUnshared && packet.bytes@ != vstd::utf8::encode_utf8("U"@) ==> (
            r matches SupervisorStep::Done(Err(_)))
            &&& s.action is AwaitEntry && packet.bytes@ != vstd::utf8::encode_utf8("D"@) ==> (
            r matches SupervisorStep::Done(Err(_)))
            &&& s.action is AwaitRemoved && packet.bytes@ != vstd::utf8::encode_utf8("O"@) ==> (
            r matches SupervisorStep::Done(Err(_)))
            &&& !(s.action is AwaitUnshared || s.action is AwaitEntry || s.action is AwaitRemoved)
                ==> (r matches SupervisorStep::Done(Err(_)))
        }),
{
}

/// An entry counts where it comes from the worker while the list is taken, is named under
/// one of the roots, lies beside that root, belongs to the map, and is of a kind that can
/// be removed.
pub proof fn law_supervisors_count_owned_entries(
    s: Supervisor,
    packet: Packet,
    m: Metadata,
    r: SupervisorStep,
)
    requires
        s.action != SupervisorAction::Finished,
        call_ensures(Supervisor::advance, (s, SupervisorEvent::Entry(packet, m)), r),
        packet.bytes@ != vstd::utf8::encode_utf8("D"@),
    ensures
        ({
            let kind = m.mode / 4096;
            let root = s.roots@[packet.bytes@[1] as int].identity;
            let fine = s.action is AwaitEntry && packet.sender == Some(s.worker)
                && packet.descriptors == 1 && packet.bytes@.len() == 2 && packet.bytes@[0] == 69
                && s.entries < 524_288 && packet.bytes@[1] < s.roots@.len() && m.dev_major
                == root.dev_major && m.dev_minor == root.dev_minor && m.mount_id == root.mount_id
                && s.map.owner(m.uid, m.gid) && (kind == 4 || kind == 8 || kind == 10 || kind
                == 1);
            &&& fine ==> (r matches SupervisorStep::Continue(n) && n.action is AwaitEntry
                && n.entries == s.entries + 1 && n.roots == s.roots && n.worker == s.worker)
            &&& !fine ==> (r matches SupervisorStep::Done(Err(_)))
        }),
{
    lemma_kind_bits(m.mode);
}

/// A worker gives up its groups and its users before it asks for its map, verifies the map
/// before it takes the roots, tells the whole list before it waits to commit, and removes
/// only after that.
pub proof fn law_workers_have_one_order(stage: WorkerStage, r: Option<WorkerStage>)
    requires
        call_ensures(WorkerStage::next, (stage,), r),
    ensures
        stage is CloseDescriptors ==> r == Some(WorkerStage::RequireNoGroups),
        stage is RequireNoGroups ==> r == Some(WorkerStage::UnshareUsers),
        stage is UnshareUsers ==> r == Some(WorkerStage::SendUnshared),
        stage is SendUnshared ==> r == Some(WorkerStage::AwaitMapped),
        stage is AwaitMapped ==> r == Some(WorkerStage::VerifyMaps),
        stage is VerifyMaps ==> r == Some(WorkerStage::AwaitRoots),
        stage is AwaitRoots ==> r == Some(WorkerStage::EnterMounts),
        stage is EnterMounts ==> r == Some(WorkerStage::Inventory),
        stage is Inventory ==> r == Some(WorkerStage::SendDone),
        stage is SendDone ==> r == Some(WorkerStage::AwaitCommit),
        stage is AwaitCommit ==> r == Some(WorkerStage::Remove),
        stage is Remove ==> r == Some(WorkerStage::SendRemoved),
        stage is SendRemoved ==> r is None,
{
}

/// What a worker says at each of its stages is what its supervisor waits for there.
pub proof fn law_workers_say_what_is_awaited(
    stage: WorkerStage,
    message: Option<Vec<u8>>,
    s: Supervisor,
    packet: Packet,
    r: SupervisorStep,
)
    requires
        call_ensures(WorkerStage::message, (stage,), message),
        message is Some,
        packet.bytes@ == message->0@,
        packet.descriptors == 0,
        packet.sender == Some(s.worker),
        call_ensures(Supervisor::advance, (s, SupervisorEvent::Received(packet)), r),
        stage is SendUnshared && s.action is AwaitUnshared || stage is SendDone && s.action
            is AwaitEntry || stage is SendRemoved && s.action is AwaitRemoved,
    ensures
        r matches SupervisorStep::Continue(n) ==> n.action is InstallUserMap || n.action
            is SendCommit,
        r is Continue || r matches SupervisorStep::Done(Ok(_)),
        stage is SendRemoved ==> r is Done,
{
}

/// A worker speaks and listens at its own stages alone.
pub proof fn law_workers_speak_at_their_stages(
    stage: WorkerStage,
    message: Option<Vec<u8>>,
    awaited: Option<Vec<u8>>,
)
    requires
        call_ensures(WorkerStage::message, (stage,), message),
        call_ensures(WorkerStage::awaited, (stage,), awaited),
    ensures
        message is Some <==> stage is SendUnshared || stage is SendDone || stage is SendRemoved,
        awaited is Some <==> stage is AwaitMapped || stage is AwaitCommit,
        stage is AwaitMapped ==> awaited->0@ == vstd::utf8::encode_utf8("M"@),
        stage is AwaitCommit ==> awaited->0@ == vstd::utf8::encode_utf8("C"@),
{
}

/// Inside its map a worker is the first, and its range begins with the second.
pub proof fn law_workers_own_their_range(
    uids: u32,
    gids: u32,
    uid: u32,
    gid: u32,
    r: Result<MappedIdRange, ExecutionDomainError>,
    owned: bool,
)
    requires
        call_ensures(worker_range, (uids, gids), r),
        r is Ok ==> call_ensures(MappedIdRange::owns, (&r->Ok_0, uid, gid), owned),
    ensures
        r is Ok <==> 0 < uids < u32::MAX && 0 < gids < u32::MAX,
        r is Ok ==> (owned <==> uid <= uids && gid <= gids),
{
}

/// A step of a removal is taken where what is named is still what was found, beside its
/// root, and in time; leaving what was entered has no deadline.
pub proof fn law_removals_touch_what_was_found(
    step: OwnedStep,
    root: OwnedIdentity,
    named: Metadata,
    opened: Option<Metadata>,
    now: u128,
    deadline: u128,
    r: Result<(), ExecutionDomainError>,
)
    requires
        call_ensures(check_removal_step, (&step, &root, &named, opened, now, deadline), r),
    ensures
        ({
            let id = match step {
                OwnedStep::Enter { identity, .. } => identity,
                OwnedStep::Unlink { identity, .. } => identity,
                OwnedStep::Leave { identity, .. } => identity,
            };
            let same = named.inode == id.inode && named.dev_major == id.dev_major && named.dev_minor
                == id.dev_minor && named.mount_id == id.mount_id && named.mode == id.mode
                && named.uid == id.uid && named.gid == id.gid;
            let beside = id.dev_major == root.dev_major && id.dev_minor == root.dev_minor
                && id.mount_id == root.mount_id;
            &&& r is Ok ==> same && beside && (now < deadline || step is Leave)
            &&& r is Ok && !(step is Unlink) ==> opened is Some && opened->0.inode == id.inode
                && opened->0.mode / 4096 == 4
            &&& same && beside && now < deadline && step is Unlink ==> r is Ok
            &&& same && beside && opened == Some(named) && id.mode / 4096 == 4 && (now < deadline
                || step is Leave) ==> r is Ok
        }),
{
    lemma_kind_bits(named.mode);
    if opened is Some {
        lemma_kind_bits(opened->0.mode);
    }
}

/// What a walk found in each root is what is removed there, and nothing that the map does
/// not own or that lies elsewhere is.
pub proof fn law_removals_follow_the_walks(
    authority: MappedCleanupAuthority,
    walks: Vec<InventoryWalk>,
    r: Removal,
    i: int,
    j: int,
)
    requires
        call_ensures(Removal::begin, (authority, walks), r),
        walks@.len() == authority.roots@.len(),
        0 <= i < walks@.len(),
        0 <= j < walks@[i].plan@.len(),
    ensures
        r.roots == authority.roots,
        r.plans@.len() == walks@.len(),
        r.plans@[i]@.len() == walks@[i].plan@.len(),
        r.plans@[i]@[j]@ == walks@[i].plan@[j]@,
        ({
            let id = match r.plans@[i]@[j] {
                OwnedStep::Enter { identity, .. } => identity,
                OwnedStep::Unlink { identity, .. } => identity,
                OwnedStep::Leave { identity, .. } => identity,
            };
            authority.map.owner(id.uid, id.gid) && id.mount_id
                == authority.roots@[i].identity.mount_id
        }),
{
    assert(planned(r.plans@).len() == walked(walks@).len());
    assert(planned(r.plans@)[i] == walked(walks@)[i]);
    assert(cleanup_tree::moves(r.plans@[i]@).len() == walks@[i].moves().len());
    assert(cleanup_tree::moves(r.plans@[i]@)[j] == walks@[i].moves()[j]);
    assert(cleanup_tree::move_allowed(
        planned(r.plans@)[i][j],
        authority.roots@[i].identity,
        authority.map,
    ));
}

/// After a failed attach the group for starting is removed only where nothing runs in it;
/// otherwise everything is kept, and why is told beside the first error.
pub proof fn law_failed_attaches_keep_what_runs(
    error: ExecutionDomainError,
    reap: Result<bool, ExecutionDomainError>,
    running: Result<bool, ExecutionDomainError>,
    r: AttachFailure,
)
    requires
        call_ensures(after_failed_attach, (error, reap, running), r),
    ensures
        running == Ok::<bool, ExecutionDomainError>(false) <==> r is RemoveBootstrap,
        running == Ok::<bool, ExecutionDomainError>(false) ==> r == AttachFailure::RemoveBootstrap(
            error,
        ),
        r matches AttachFailure::Retain(e) ==> (
        e matches ExecutionDomainError::LifecycleAndDestroyFailed { lifecycle, destroy }
            && *lifecycle == error && (running is Err ==> *destroy == running->Err_0) && (running
            is Ok && reap is Err ==> *destroy == reap->Err_0)),
{
    if running is Ok {
        assert(running == Ok::<bool, ExecutionDomainError>(running->Ok_0));
    }
}

/// A helper that ended is not kept, and succeeded only where it says so; one whose end is
/// not known is kept unless it is seen not to run.
pub proof fn law_helpers_are_kept_while_they_run(
    status: Result<bool, ExecutionDomainError>,
    running: Result<bool, ExecutionDomainError>,
    r: (bool, Result<(), ExecutionDomainError>),
)
    requires
        call_ensures(helper_outcome, (status, running), r),
    ensures
        r.1 is Ok <==> status == Ok::<bool, ExecutionDomainError>(true),
        status is Ok ==> !r.0,
        status is Err && running is Ok ==> r.0 == running->Ok_0 && r.1->Err_0 == status->Err_0,
        status is Err && running is Err ==> r.0,
{
    if status is Ok {
        assert(status == Ok::<bool, ExecutionDomainError>(status->Ok_0));
    }
}

/// A worker has succeeded where every part of its end has; a process is let go only where
/// it is seen not to run, its group only where it was removed, and the group for starting
/// only after that.
pub proof fn law_workers_end_with_every_part(end: WorkerEnd, r: WorkerReport, removable: bool)
    requires
        call_ensures(worker_report, (end,), r),
        call_ensures(bootstrap_removable, (&end.cgroup,), removable),
    ensures
        r.result is Ok <==> end.exchange is Ok && end.wait is Ok && end.running is Ok && end.cgroup
            is Ok && end.bootstrap is Ok,
        end.exchange is Err ==> r.result->Err_0 == end.exchange->Err_0,
        end.exchange is Ok && end.wait is Err ==> r.result->Err_0 == end.wait->Err_0,
        !r.keep_child ==> end.running is Ok && !end.running->Ok_0,
        end.running is Ok && !end.running->Ok_0 ==> !r.keep_child,
        r.keep_cgroup <==> end.cgroup is Err,
        r.keep_bootstrap <==> end.cgroup is Err || end.bootstrap is Err,
        removable <==> end.cgroup is Ok,
{
    if end.running is Ok {
        assert(end.running == Ok::<bool, ExecutionDomainError>(end.running->Ok_0));
    }
}

/// A root is emptied where it is still the same directory and nothing is in it.
pub proof fn law_emptied_roots_are_the_same(
    root: PinnedCleanupRoot,
    current: Metadata,
    empty: bool,
    r: Result<(), ExecutionDomainError>,
)
    requires
        call_ensures(check_emptied_root, (&root, &current, empty), r),
    ensures
        r is Ok <==> empty && current.inode == root.identity.inode && current.dev_major
            == root.identity.dev_major && current.dev_minor == root.identity.dev_minor
            && current.mount_id == root.identity.mount_id && current.mode == root.identity.mode
            && current.uid == root.identity.uid && current.gid == root.identity.gid,
{
}

/// Only a process that was started to clean up ends with a code of its own: nought where
/// it succeeded, and never nought where it did not.
pub proof fn law_cleaning_processes_end_with_a_code(
    mode: Option<&[u8]>,
    outcome: Result<(), ExecutionDomainError>,
    r: Option<i32>,
)
    requires
        call_ensures(internal_exit, (mode, outcome), r),
    ensures
        r is Some <==> mode is Some && mode->0@ == vstd::utf8::encode_utf8(
            "--internal-mapped-cleanup"@,
        ),
        r matches Some(code) ==> (code == 0 <==> outcome is Ok) && (code == 78 <==> outcome is Err),
{
}

} // verus!
