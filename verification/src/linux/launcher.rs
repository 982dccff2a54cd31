//! How the first process of a domain is started: what it is called with, and what
//! it accepts to be started by.

use vstd::prelude::*;

use crate::bytes;
use crate::contracts::{AttemptIdentity, FailureCategory, Stage};
use crate::error;
use crate::error::ExecutionDomainError;
use crate::filesystem;
use crate::host_path;
use crate::host_path::Parts;
use crate::ids;
use crate::linux::dirfd::Metadata;
use crate::linux::immutable;
use crate::linux::rootfs::{CGROUP2_SUPER_MAGIC, S_IFMT};
use crate::text;

verus! {

/// How long starting a domain may take, in nanoseconds.
pub const STARTUP_TIMEOUT: u128 = 30_000_000_000;

/// The exit status of an internal entry that failed.
pub const INTERNAL_FAILURE: i32 = 78;

/// A regular file.
pub const S_IFREG: u32 = 0o100000;

/// A local connection.
pub const AF_UNIX: i32 = 1;

/// A connection that keeps no boundaries.
pub const SOCK_STREAM: i32 = 1;

/// A failure of the launch.
pub open spec fn launch_error(category: FailureCategory) -> ExecutionDomainError {
    error::backend(Stage::Launch, category)
}

/// Reports a failure of the launch.
pub fn failure(category: FailureCategory) -> (e: ExecutionDomainError)
    ensures
        e == launch_error(category),
{
    error::backend_failure(Stage::Launch, category)
}

/// Reports a failed system call of the launch.
pub fn io_failure(errno: Option<i32>) -> (e: ExecutionDomainError)
    ensures
        e == error::backend_io(Stage::Launch, errno),
{
    error::backend_io_failure(Stage::Launch, errno)
}

/// How a domain reaches the network.
#[derive(Debug, Clone, Copy, PartialEq, Eq, Structural)]
pub enum NetworkLaunch {
    /// It does not.
    Disconnected,
    /// Through a process of the host. No domain is ever started so.
    Slirp,
}

/// The arguments of the launcher.
pub open spec fn launcher_words(attempt: AttemptIdentity, executable: Seq<u8>, state: Seq<u8>) -> Seq<
    Seq<u8>,
> {
    seq![
        bytes::encoded("--state-dir="@) + state,
        bytes::encoded("--subid-source=static"@),
        bytes::encoded("--net=none"@),
        bytes::encoded("--port-driver=none"@),
        bytes::encoded("--pidns"@),
        bytes::encoded("--cgroupns"@),
        bytes::encoded("--ipcns"@),
        bytes::encoded("--utsns"@),
        bytes::encoded("--propagation=rprivate"@),
        bytes::encoded("--evacuate-cgroup2=init"@),
        bytes::encoded("--"@),
        executable,
        bytes::encoded("--internal-domain-bootstrap"@),
        bytes::encoded(ids::simple_text(attempt@)),
    ]
}

fn add_word(list: &mut Vec<Vec<u8>>, word: Vec<u8>)
    ensures
        bytes::views(final(list)@) == bytes::views(old(list)@).push(word@),
{
    let ghost before = list@;
    list.push(word);
    proof {
        assert(bytes::views(list@) =~= bytes::views(before).push(word@));
    }
}

fn append(out: &mut Vec<u8>, more: &[u8])
    ensures
        final(out)@ == old(out)@ + more@,
{
    let ghost before = out@;
    for i in 0..more.len()
        invariant
            out@ == before + more@.take(i as int),
    {
        out.push(more[i]);
        assert(out@ =~= before + more@.take(i + 1));
    }
    assert(more@.take(more@.len() as int) =~= more@);
}

/// The arguments of the launcher: namespaces of every kind, no network and no ports.
pub fn rootlesskit_arguments(
    attempt: &AttemptIdentity,
    executable: &[u8],
    state: &[u8],
    network: NetworkLaunch,
) -> (r: Result<Vec<Vec<u8>>, ExecutionDomainError>)
    ensures
        match r {
            Ok(v) => network == NetworkLaunch::Disconnected && bytes::views(v@) == launcher_words(
                *attempt,
                executable@,
                state@,
            ),
            Err(e) => network == NetworkLaunch::Slirp && e == launch_error(
                FailureCategory::NotReady,
            ),
        },
{
    match network {
        NetworkLaunch::Disconnected => {},
        NetworkLaunch::Slirp => {
            return Err(failure(FailureCategory::NotReady));
        },
    }
    let mut directory: Vec<u8> = bytes::of("--state-dir=");
    append(&mut directory, state);
    let component: String = attempt.component();
    let mut list: Vec<Vec<u8>> = Vec::new();
    add_word(&mut list, directory);
    add_word(&mut list, bytes::of("--subid-source=static"));
    add_word(&mut list, bytes::of("--net=none"));
    add_word(&mut list, bytes::of("--port-driver=none"));
    add_word(&mut list, bytes::of("--pidns"));
    add_word(&mut list, bytes::of("--cgroupns"));
    add_word(&mut list, bytes::of("--ipcns"));
    add_word(&mut list, bytes::of("--utsns"));
    add_word(&mut list, bytes::of("--propagation=rprivate"));
    add_word(&mut list, bytes::of("--evacuate-cgroup2=init"));
    add_word(&mut list, bytes::of("--"));
    add_word(&mut list, vstd::slice::slice_to_vec(executable));
    add_word(&mut list, bytes::of("--internal-domain-bootstrap"));
    add_word(&mut list, bytes::of(component.as_str()));
    proof {
        assert(bytes::views(list@) =~= launcher_words(*attempt, executable@, state@));
    }
    Ok(list)
}

/// The whole environment of the launcher.
pub open spec fn launcher_variables() -> Seq<Seq<u8>> {
    seq![
        bytes::encoded("PATH=/usr/sbin:/usr/bin:/sbin:/bin"@),
        bytes::encoded("LANG=C"@),
    ]
}

/// The whole environment of the launcher: nothing of the service's own.
pub fn launcher_environment() -> (r: Vec<Vec<u8>>)
    ensures
        bytes::views(r@) == launcher_variables(),
{
    let mut list: Vec<Vec<u8>> = Vec::new();
    add_word(&mut list, bytes::of("PATH=/usr/sbin:/usr/bin:/sbin:/bin"));
    add_word(&mut list, bytes::of("LANG=C"));
    proof {
        assert(bytes::views(list@) =~= launcher_variables());
    }
    list
}

/// The arguments with which the program starts itself as a launcher.
pub open spec fn own_words(
    attempt: AttemptIdentity,
    rootlesskit: Seq<u8>,
    executable: Seq<u8>,
    state: Seq<u8>,
) -> Seq<Seq<u8>> {
    seq![
        bytes::encoded("--internal-domain-launch"@),
        bytes::encoded(ids::simple_text(attempt@)),
        rootlesskit,
        executable,
        state,
    ]
}

/// The arguments with which the program starts itself as a launcher.
pub fn own_arguments(
    attempt: &AttemptIdentity,
    rootlesskit: &[u8],
    executable: &[u8],
    state: &[u8],
) -> (r: Vec<Vec<u8>>)
    ensures
        bytes::views(r@) == own_words(*attempt, rootlesskit@, executable@, state@),
{
    let component: String = attempt.component();
    let mut list: Vec<Vec<u8>> = Vec::new();
    add_word(&mut list, bytes::of("--internal-domain-launch"));
    add_word(&mut list, bytes::of(component.as_str()));
    add_word(&mut list, vstd::slice::slice_to_vec(rootlesskit));
    add_word(&mut list, vstd::slice::slice_to_vec(executable));
    add_word(&mut list, vstd::slice::slice_to_vec(state));
    proof {
        assert(bytes::views(list@) =~= own_words(*attempt, rootlesskit@, executable@, state@));
    }
    list
}

/// Whether an argument writes an attempt that is not nil.
pub open spec fn writes_attempt(value: Seq<u8>, id: u128) -> bool {
    id != 0 && value == bytes::encoded(ids::simple_text(id))
}

/// Whether bytes write no attempt's identity.
pub open spec fn writes_none(value: Seq<u8>) -> bool {
    forall|id: u128| !#[trigger] writes_attempt(value, id)
}

/// Reads an attempt: exactly the digits that it is written with. One that is nil has
/// an error of its own.
pub fn parse_attempt(value: &[u8]) -> (r: Result<AttemptIdentity, ExecutionDomainError>)
    ensures
        match r {
            Ok(attempt) => writes_attempt(value@, attempt@),
            Err(e) => writes_none(value@) && e == (
            if vstd::utf8::valid_utf8(value@) && ids::parsed_text(
                vstd::utf8::decode_utf8(value@),
            ) == Some(0u128) {
                ExecutionDomainError::InvalidAttemptIdentity
            } else {
                launch_error(FailureCategory::InvalidInput)
            }),
        },
{
    let text: String = match filesystem::decode_utf8(value) {
        Some(s) => s,
        None => {
            proof {
                assert forall|id: u128| !#[trigger] writes_attempt(value@, id) by {
                    vstd::utf8::encode_utf8_valid_utf8(ids::simple_text(id));
                }
            }
            return Err(failure(FailureCategory::InvalidInput));
        },
    };
    proof {
        vstd::utf8::encode_utf8_decode_utf8(text@);
        assert forall|id: u128| writes_attempt(value@, id) implies text@ == ids::simple_text(
            id,
        ) by {
            vstd::utf8::encode_utf8_decode_utf8(text@);
            vstd::utf8::encode_utf8_decode_utf8(ids::simple_text(id));
        }
    }
    let id: u128 = match ids::parse_id(text.as_str()) {
        Some(id) => id,
        None => {
            return Err(failure(FailureCategory::InvalidInput));
        },
    };
    let attempt: AttemptIdentity = match AttemptIdentity::from_uuid(id) {
        Ok(attempt) => attempt,
        Err(e) => {
            return Err(e);
        },
    };
    let written: String = attempt.component();
    if !text::same_str(written.as_str(), text.as_str()) {
        return Err(failure(FailureCategory::InvalidInput));
    }
    Ok(attempt)
}

/// Whether a path can be handed to the system.
pub open spec fn passable(value: Seq<u8>) -> bool {
    host_path::absolute(value) && !value.contains(0u8)
}

/// Accepts a path before it is resolved.
pub fn check_passable(value: &[u8]) -> (r: Result<(), ExecutionDomainError>)
    ensures
        match r {
            Ok(_) => passable(value@),
            Err(e) => !passable(value@) && e == launch_error(FailureCategory::InvalidInput),
        },
{
    if value.len() == 0 || value[0] != 0x2f || bytes::has(value, 0) {
        return Err(failure(FailureCategory::InvalidInput));
    }
    Ok(())
}

/// Accepts a path only if it is absolute, and written as the host resolves it.
pub fn canonical(value: &[u8], resolved: &[u8]) -> (r: Result<(), ExecutionDomainError>)
    ensures
        r == (if !passable(value@) {
            Err::<(), ExecutionDomainError>(launch_error(FailureCategory::InvalidInput))
        } else if host_path::components(resolved@) != host_path::components(value@) {
            Err(launch_error(FailureCategory::IdentityMismatch))
        } else {
            Ok(())
        }),
{
    match check_passable(value) {
        Ok(_) => {},
        Err(e) => {
            return Err(e);
        },
    }
    let written: Parts = host_path::parts_of(value);
    let actual: Parts = host_path::parts_of(resolved);
    if !actual.same(&written) {
        return Err(failure(FailureCategory::IdentityMismatch));
    }
    Ok(())
}

/// What the program was started as.
pub enum Dispatch {
    /// Not by itself.
    Outside,
    /// By itself, in a way that it does not accept: it ends with this status, and
    /// says nothing.
    Refused(i32),
    Launch { attempt: AttemptIdentity, rootlesskit: Vec<u8>, executable: Vec<u8>, state: Vec<u8> },
    Bootstrap { attempt: AttemptIdentity },
}

/// The dispatch that arguments call for.
pub open spec fn dispatch_fits(arguments: Seq<Seq<u8>>, d: Dispatch) -> bool {
    if arguments.len() == 0 {
        d is Outside
    } else if arguments[0] == bytes::encoded("--internal-domain-launch"@) {
        if arguments.len() == 5 && (exists|id: u128| #[trigger] writes_attempt(arguments[1], id))
            && passable(arguments[2]) && passable(arguments[3]) && passable(arguments[4]) {
            d matches Dispatch::Launch { attempt, rootlesskit, executable, state }
                && writes_attempt(arguments[1], attempt@) && rootlesskit@ == arguments[2]
                && executable@ == arguments[3] && state@ == arguments[4]
        } else {
            d == Dispatch::Refused(INTERNAL_FAILURE)
        }
    } else if arguments[0] == bytes::encoded("--internal-domain-bootstrap"@) {
        if arguments.len() == 2 && (exists|id: u128| #[trigger] writes_attempt(arguments[1], id)) {
            d matches Dispatch::Bootstrap { attempt } && writes_attempt(arguments[1], attempt@)
        } else {
            d == Dispatch::Refused(INTERNAL_FAILURE)
        }
    } else {
        d is Outside
    }
}

/// Decides what the program was started as. Reserved arguments that are not exactly
/// right are refused, and never taken for anything else.
pub fn dispatch_internal(arguments: &[Vec<u8>]) -> (r: Dispatch)
    ensures
        dispatch_fits(bytes::views(arguments@), r),
{
    let ghost all = bytes::views(arguments@);
    if arguments.len() == 0 {
        return Dispatch::Outside;
    }
    assert(all[0] == arguments@[0]@);
    let launch: bool = bytes::are(arguments[0].as_slice(), "--internal-domain-launch");
    let bootstrap: bool = bytes::are(arguments[0].as_slice(), "--internal-domain-bootstrap");
    if !launch && !bootstrap {
        return Dispatch::Outside;
    }
    let wanted: usize = if launch {
        5
    } else {
        2
    };
    if arguments.len() != wanted {
        return Dispatch::Refused(INTERNAL_FAILURE);
    }
    assert(all[1] == arguments@[1]@);
    let attempt: AttemptIdentity = match parse_attempt(arguments[1].as_slice()) {
        Ok(attempt) => attempt,
        Err(_) => {
            return Dispatch::Refused(INTERNAL_FAILURE);
        },
    };
    assert(writes_attempt(all[1], attempt@));
    if !launch {
        return Dispatch::Bootstrap { attempt };
    }
    assert(all[2] == arguments@[2]@ && all[3] == arguments@[3]@ && all[4] == arguments@[4]@);
    if check_passable(arguments[2].as_slice()).is_err() || check_passable(
        arguments[3].as_slice(),
    ).is_err() || check_passable(arguments[4].as_slice()).is_err() {
        return Dispatch::Refused(INTERNAL_FAILURE);
    }
    Dispatch::Launch {
        attempt,
        rootlesskit: vstd::slice::slice_to_vec(arguments[2].as_slice()),
        executable: vstd::slice::slice_to_vec(arguments[3].as_slice()),
        state: vstd::slice::slice_to_vec(arguments[4].as_slice()),
    }
}

/// The exit status of an internal entry.
pub fn exit_status(outcome: Result<i32, ExecutionDomainError>) -> (r: i32)
    ensures
        r == (match outcome {
            Ok(code) => code,
            Err(_) => INTERNAL_FAILURE,
        }),
{
    match outcome {
        Ok(code) => code,
        Err(_) => INTERNAL_FAILURE,
    }
}

/// What the program calls itself with, it accepts as what it meant.
pub proof fn law_own_arguments_are_understood(
    attempt: AttemptIdentity,
    rootlesskit: Seq<u8>,
    executable: Seq<u8>,
    state: Seq<u8>,
    d: Dispatch,
)
    requires
        attempt@ != 0,
        passable(rootlesskit),
        passable(executable),
        passable(state),
        dispatch_fits(own_words(attempt, rootlesskit, executable, state), d),
    ensures
        d matches Dispatch::Launch { attempt: a, rootlesskit: k, executable: e, state: s } && a@
            == attempt@ && k@ == rootlesskit && e@ == executable && s@ == state,
{
    let words = own_words(attempt, rootlesskit, executable, state);
    assert(words[1] == bytes::encoded(ids::simple_text(attempt@)));
    assert(writes_attempt(words[1], attempt@));
    assert(words[0] == bytes::encoded("--internal-domain-launch"@));
    if let Dispatch::Launch { attempt: a, .. } = d {
        assert(writes_attempt(words[1], a@));
        vstd::utf8::encode_utf8_decode_utf8(ids::simple_text(a@));
        vstd::utf8::encode_utf8_decode_utf8(ids::simple_text(attempt@));
        ids::lemma_simple_text_injective(a@, attempt@);
    }
}

/// What is known of the descriptor through which a process joins a group.
pub struct MembershipFacts<'a> {
    pub filesystem: i64,
    pub mode: u32,
    pub links: u64,
    pub flags: i32,
    pub path: &'a [u8],
}

/// Whether the descriptor is the list of the processes of a group, for writing.
pub open spec fn membership_valid(facts: MembershipFacts) -> bool {
    &&& facts.filesystem == CGROUP2_SUPER_MAGIC
    &&& facts.mode & S_IFMT == S_IFREG
    &&& facts.links == 1
    &&& facts.flags & 3 != 0
    &&& host_path::file_name(host_path::components(facts.path@)) == Some(
        bytes::encoded("cgroup.procs"@),
    )
}

/// Accepts the descriptor before anything is written to it.
pub fn join_cgroup(facts: &MembershipFacts) -> (r: Result<(), ExecutionDomainError>)
    ensures
        match r {
            Ok(_) => membership_valid(*facts),
            Err(e) => !membership_valid(*facts) && e == launch_error(
                FailureCategory::IdentityMismatch,
            ),
        },
{
    if facts.filesystem != CGROUP2_SUPER_MAGIC {
        return Err(failure(FailureCategory::IdentityMismatch));
    }
    let path: Parts = host_path::parts_of(facts.path);
    if facts.mode & S_IFMT != S_IFREG || facts.links != 1 || facts.flags & 3 == 0 || !path.named(
        "cgroup.procs",
    ) {
        return Err(failure(FailureCategory::IdentityMismatch));
    }
    Ok(())
}

/// What writing the own process to a group gave: both bytes, or a failure.
pub fn joined(written: i64, errno: Option<i32>) -> (r: Result<(), ExecutionDomainError>)
    ensures
        r == (if written == 2 {
            Ok::<(), ExecutionDomainError>(())
        } else if written < 0 {
            Err(error::backend_io(Stage::Launch, errno))
        } else {
            Err(launch_error(FailureCategory::Io))
        }),
{
    if written == 2 {
        Ok(())
    } else if written < 0 {
        Err(io_failure(errno))
    } else {
        Err(failure(FailureCategory::Io))
    }
}

/// Accepts the control connection only if it is a connected local stream.
pub fn duplicate_control(domain: i32, kind: i32, peer: i32, whole: bool) -> (r: Result<
    (),
    ExecutionDomainError,
>)
    ensures
        ({
            let fine = whole && domain == AF_UNIX && kind == SOCK_STREAM && peer == AF_UNIX;
            match r {
                Ok(_) => fine,
                Err(e) => !fine && e == launch_error(FailureCategory::Protocol),
            }
        }),
{
    if !whole || domain != AF_UNIX || kind != SOCK_STREAM || peer != AF_UNIX {
        return Err(failure(FailureCategory::Protocol));
    }
    Ok(())
}

/// What is asked of a launcher before it is told what to do.
pub fn check_alive(poll: i32, errno: Option<i32>, ended: Result<bool, Option<i32>>) -> (r: Result<
    (),
    ExecutionDomainError,
>)
    ensures
        r == (if poll < 0 {
            Err::<(), ExecutionDomainError>(error::backend_io(Stage::Launch, errno))
        } else if poll > 0 {
            Err(launch_error(FailureCategory::Unavailable))
        } else {
            match ended {
                Err(e) => Err(error::backend_io(Stage::Launch, e)),
                Ok(true) => Err(launch_error(FailureCategory::Unavailable)),
                Ok(false) => Ok(()),
            }
        }),
{
    if poll < 0 {
        return Err(io_failure(errno));
    }
    if poll > 0 {
        return Err(failure(FailureCategory::Unavailable));
    }
    match ended {
        Err(e) => Err(io_failure(e)),
        Ok(over) => {
            if over {
                Err(failure(FailureCategory::Unavailable))
            } else {
                Ok(())
            }
        },
    }
}

/// Accepts the directory of a domain for a launch only if its name still leads to
/// what is held open.
pub fn check_rootfs(named_device: u64, named_inode: u64, held: &Metadata) -> (r: Result<
    (),
    ExecutionDomainError,
>)
    ensures
        ({
            let same = named_device == immutable::made_device(held.dev_major, held.dev_minor)
                && named_inode == held.inode;
            match r {
                Ok(_) => same,
                Err(e) => !same && e == launch_error(FailureCategory::IdentityMismatch),
            }
        }),
{
    if named_device != immutable::device_number(held.dev_major, held.dev_minor) || named_inode
        != held.inode {
        return Err(failure(FailureCategory::IdentityMismatch));
    }
    Ok(())
}

/// A launcher without a network is started with its own directory, every namespace but
/// the network's, no port forwarded, private mounts, and the group that its first process
/// moves to; what it runs comes after the mark, with the attempt.
pub proof fn law_launchers_are_started_apart(
    attempt: AttemptIdentity,
    executable: &[u8],
    state: &[u8],
    network: NetworkLaunch,
    r: Result<Vec<Vec<u8>>, ExecutionDomainError>,
)
    requires
        call_ensures(rootlesskit_arguments, (&attempt, executable, state, network), r),
    ensures
        r is Ok <==> network is Disconnected,
        r matches Err(e) ==> e == (ExecutionDomainError::Backend {
            attempt: None,
            stage: Stage::Launch,
            category: FailureCategory::NotReady,
            errno: None,
        }),
        r matches Ok(v) ==> ({
            &&& v@.len() == 14
            &&& v@[0]@ == vstd::utf8::encode_utf8("--state-dir="@) + state@
            &&& v@[1]@ == vstd::utf8::encode_utf8("--subid-source=static"@)
            &&& v@[2]@ == vstd::utf8::encode_utf8("--net=none"@)
            &&& v@[3]@ == vstd::utf8::encode_utf8("--port-driver=none"@)
            &&& v@[4]@ == vstd::utf8::encode_utf8("--pidns"@)
            &&& v@[5]@ == vstd::utf8::encode_utf8("--cgroupns"@)
            &&& v@[6]@ == vstd::utf8::encode_utf8("--ipcns"@)
            &&& v@[7]@ == vstd::utf8::encode_utf8("--utsns"@)
            &&& v@[8]@ == vstd::utf8::encode_utf8("--propagation=rprivate"@)
            &&& v@[9]@ == vstd::utf8::encode_utf8("--evacuate-cgroup2=init"@)
            &&& v@[10]@ == vstd::utf8::encode_utf8("--"@)
            &&& v@[11]@ == executable@
        }),
{
    if r is Ok {
        let v = r->Ok_0@;
        assert(bytes::views(v).len() == 14);
        assert forall|i: int| 0 <= i < 14 implies bytes::views(v)[i] == (#[trigger] v[i])@ by {}
    }
}

/// What a launcher runs understands the words it is run with: they start the attempt that
/// was launched.
pub proof fn law_launched_programs_know_their_attempt(
    attempt: AttemptIdentity,
    executable: &[u8],
    state: &[u8],
    words: Result<Vec<Vec<u8>>, ExecutionDomainError>,
    arguments: &[Vec<u8>],
    d: Dispatch,
)
    requires
        attempt@ != 0,
        call_ensures(
            rootlesskit_arguments,
            (&attempt, executable, state, NetworkLaunch::Disconnected),
            words,
        ),
        words is Ok ==> arguments@.len() + 12 == words->Ok_0@.len() && forall|i: int|
            0 <= i < arguments@.len() ==> (#[trigger] arguments@[i])@ == words->Ok_0@[i + 12]@,
        call_ensures(dispatch_internal, (arguments,), d),
    ensures
        d matches Dispatch::Bootstrap { attempt: a } && a@ == attempt@,
{
    let v = words->Ok_0@;
    assert(bytes::views(v).len() == 14);
    assert(bytes::views(v)[12] == v[12]@);
    assert(bytes::views(v)[13] == v[13]@);
    let given = bytes::views(arguments@);
    assert(given.len() == 2);
    assert(given[0] == arguments@[0]@);
    assert(given[1] == arguments@[1]@);
    assert(arguments@[0]@ == v[0int + 12]@);
    assert(arguments@[1]@ == v[1int + 12]@);
    assert(writes_attempt(given[1], attempt@));
    lemma_modes_differ();
    if let Dispatch::Bootstrap { attempt: a } = d {
        assert(writes_attempt(given[1], a@));
        lemma_writes_one(given[1], a@, attempt@);
    }
}

proof fn lemma_modes_differ()
    ensures
        bytes::encoded("--internal-domain-launch"@) != bytes::encoded(
            "--internal-domain-bootstrap"@,
        ),
{
    reveal_strlit("--internal-domain-launch");
    reveal_strlit("--internal-domain-bootstrap");
    let a = "--internal-domain-launch"@;
    let b = "--internal-domain-bootstrap"@;
    assert(a.len() != b.len());
    vstd::utf8::encode_utf8_decode_utf8(a);
    vstd::utf8::encode_utf8_decode_utf8(b);
}

proof fn lemma_writes_one(value: Seq<u8>, a: u128, b: u128)
    requires
        writes_attempt(value, a),
        writes_attempt(value, b),
    ensures
        a == b,
{
    vstd::utf8::encode_utf8_decode_utf8(ids::simple_text(a));
    vstd::utf8::encode_utf8_decode_utf8(ids::simple_text(b));
    ids::lemma_simple_text_injective(a, b);
}

/// An attempt is read from the words that write it and from no others.
pub proof fn law_attempts_are_read_back(
    attempt: AttemptIdentity,
    value: &[u8],
    r: Result<AttemptIdentity, ExecutionDomainError>,
)
    requires
        call_ensures(parse_attempt, (value,), r),
    ensures
        attempt@ != 0 && value@ == vstd::utf8::encode_utf8(ids::simple_text(attempt@)) ==> (
        r matches Ok(a) && a@ == attempt@),
        r matches Ok(a) ==> a@ != 0 && value@ == vstd::utf8::encode_utf8(ids::simple_text(a@)),
{
    if attempt@ != 0 && value@ == vstd::utf8::encode_utf8(ids::simple_text(attempt@)) {
        assert(writes_attempt(value@, attempt@));
        if let Ok(a) = r {
            lemma_writes_one(value@, a@, attempt@);
        }
    }
}

/// A launcher sees two variables: where programs are, and a language that is nobody's.
pub proof fn law_launchers_see_two_variables(r: Vec<Vec<u8>>)
    requires
        call_ensures(launcher_environment, (), r),
    ensures
        r@.len() == 2,
        r@[0]@ == vstd::utf8::encode_utf8("PATH=/usr/sbin:/usr/bin:/sbin:/bin"@),
        r@[1]@ == vstd::utf8::encode_utf8("LANG=C"@),
{
    assert(bytes::views(r@).len() == 2);
    assert(bytes::views(r@)[0] == r@[0]@);
    assert(bytes::views(r@)[1] == r@[1]@);
}

/// The words that a supervisor starts its launcher with are understood as they were meant.
pub proof fn law_started_launchers_understand(
    attempt: AttemptIdentity,
    rootlesskit: &[u8],
    executable: &[u8],
    state: &[u8],
    words: Vec<Vec<u8>>,
    arguments: &[Vec<u8>],
    d: Dispatch,
)
    requires
        attempt@ != 0,
        rootlesskit@.len() > 0 && rootlesskit@[0] == 47 && !rootlesskit@.contains(0),
        executable@.len() > 0 && executable@[0] == 47 && !executable@.contains(0),
        state@.len() > 0 && state@[0] == 47 && !state@.contains(0),
        call_ensures(own_arguments, (&attempt, rootlesskit, executable, state), words),
        arguments@ == words@,
        call_ensures(dispatch_internal, (arguments,), d),
    ensures
        d matches Dispatch::Launch { attempt: a, rootlesskit: k, executable: e, state: s } && a@
            == attempt@ && k@ == rootlesskit@ && e@ == executable@ && s@ == state@,
{
    law_own_arguments_are_understood(attempt, rootlesskit@, executable@, state@, d);
}

/// Words for anything else are not the launcher's; words for it that are too few or too
/// many, or that lead nowhere, end it with the code for a failure.
pub proof fn law_other_words_are_left_alone(arguments: &[Vec<u8>], d: Dispatch)
    requires
        call_ensures(dispatch_internal, (arguments,), d),
    ensures
        arguments@.len() == 0 ==> d is Outside,
        arguments@.len() > 0 && arguments@[0]@ != vstd::utf8::encode_utf8(
            "--internal-domain-launch"@,
        ) && arguments@[0]@ != vstd::utf8::encode_utf8("--internal-domain-bootstrap"@) ==> d
            is Outside,
        arguments@.len() > 0 && arguments@[0]@ == vstd::utf8::encode_utf8(
            "--internal-domain-launch"@,
        ) && arguments@.len() != 5 ==> d == Dispatch::Refused(78),
        arguments@.len() == 5 && arguments@[0]@ == vstd::utf8::encode_utf8(
            "--internal-domain-launch"@,
        ) && (arguments@[2]@.len() == 0 || arguments@[2]@[0] != 47 || arguments@[3]@.len() == 0
            || arguments@[3]@[0] != 47 || arguments@[4]@.len() == 0 || arguments@[4]@[0] != 47)
            ==> d == Dispatch::Refused(78),
        arguments@.len() > 0 && arguments@[0]@ == vstd::utf8::encode_utf8(
            "--internal-domain-bootstrap"@,
        ) && arguments@.len() != 2 ==> d == Dispatch::Refused(78),
{
    lemma_modes_differ();
    let given = bytes::views(arguments@);
    assert(given.len() == arguments@.len());
    assert forall|i: int| 0 <= i < given.len() implies given[i] == (#[trigger] arguments@[i])@ by {}
}

/// A path can be handed on where it starts at the root and holds no zero; it is believed
/// where it resolves to itself.
pub proof fn law_handed_paths_resolve_to_themselves(
    value: &[u8],
    resolved: &[u8],
    r: Result<(), ExecutionDomainError>,
    s: Result<(), ExecutionDomainError>,
)
    requires
        call_ensures(check_passable, (value,), r),
        call_ensures(canonical, (value, resolved), s),
    ensures
        r is Ok <==> value@.len() > 0 && value@[0] == 47 && (forall|i: int|
            0 <= i < value@.len() ==> #[trigger] value@[i] != 0),
        s is Ok <==> r is Ok && host_path::components(resolved@) == host_path::components(value@),
        r is Ok && s is Err ==> (s matches Err(ExecutionDomainError::Backend { category, .. })
            && category == FailureCategory::IdentityMismatch),
{
    if value@.contains(0) {
        let i = choose|i: int| 0 <= i < value@.len() && value@[i] == 0;
        assert(value@[i] == 0);
    }
}

/// A launcher ends with the code of what it ran, or with the code for a failure.
pub proof fn law_launchers_end_with_a_code(
    outcome: Result<i32, ExecutionDomainError>,
    r: i32,
)
    requires
        call_ensures(exit_status, (outcome,), r),
    ensures
        outcome matches Ok(code) ==> r == code,
        outcome is Err ==> r == 78,
{
}

/// A group is joined through the file of its members: a plain one of the second hierarchy,
/// with one name, open for writing.
pub proof fn law_groups_are_joined_through_their_members(
    facts: MembershipFacts,
    r: Result<(), ExecutionDomainError>,
)
    requires
        call_ensures(join_cgroup, (&facts,), r),
    ensures
        r is Ok ==> facts.filesystem == 1667723888 && facts.mode / 4096 % 16 == 8 && facts.links
            == 1 && host_path::file_name(host_path::components(facts.path@)) == Some(
            vstd::utf8::encode_utf8("cgroup.procs"@),
        ),
        facts.flags >= 0 ==> (r is Ok <==> facts.filesystem == 1667723888 && facts.mode / 4096 % 16
            == 8 && facts.links == 1 && facts.flags % 4 != 0 && host_path::file_name(
            host_path::components(facts.path@),
        ) == Some(vstd::utf8::encode_utf8("cgroup.procs"@))),
{
    let mode = facts.mode;
    let flags = facts.flags;
    assert(mode & 0o170000 == 0o100000 <==> mode / 4096 % 16 == 8) by (bit_vector);
    assert(flags >= 0 ==> (flags & 3 != 0 <==> flags % 4 != 0)) by (bit_vector);
}

/// Joining a group writes two bytes, and nothing less counts.
pub proof fn law_groups_are_joined_whole(
    written: i64,
    errno: Option<i32>,
    r: Result<(), ExecutionDomainError>,
)
    requires
        call_ensures(joined, (written, errno), r),
    ensures
        r is Ok <==> written == 2,
        r matches Err(e) ==> e == (ExecutionDomainError::Backend {
            attempt: None,
            stage: Stage::Launch,
            category: FailureCategory::Io,
            errno: if written < 0 {
                errno
            } else {
                None
            },
        }),
{
}

/// Control is a stream between two sockets of this machine, and all of it is known.
pub proof fn law_control_stays_on_the_machine(
    domain: i32,
    kind: i32,
    peer: i32,
    whole: bool,
    r: Result<(), ExecutionDomainError>,
)
    requires
        call_ensures(duplicate_control, (domain, kind, peer, whole), r),
    ensures
        r is Ok <==> whole && domain == 1 && kind == 1 && peer == 1,
{
}

/// A launcher is alive where nothing is heard of its end and it has not ended.
pub proof fn law_launchers_are_alive_until_they_end(
    poll: i32,
    errno: Option<i32>,
    ended: Result<bool, Option<i32>>,
    r: Result<(), ExecutionDomainError>,
)
    requires
        call_ensures(check_alive, (poll, errno, ended), r),
    ensures
        r is Ok <==> poll == 0 && ended is Ok && !ended->Ok_0,
        poll < 0 ==> (r matches Err(ExecutionDomainError::Backend { category, errno: n, .. })
            && category == FailureCategory::Io && n == errno),
        poll > 0 || poll == 0 && ended == Ok::<bool, Option<i32>>(true) ==> (r matches Err(
            ExecutionDomainError::Backend { category, .. },
        ) && category == FailureCategory::Unavailable),
{
    if ended is Ok {
        assert(ended == Ok::<bool, Option<i32>>(ended->Ok_0));
    }
}

/// A root is the one that is held where device and inode agree.
pub proof fn law_named_roots_are_the_held_ones(
    device: u64,
    inode: u64,
    held: Metadata,
    r: Result<(), ExecutionDomainError>,
)
    requires
        call_ensures(check_rootfs, (device, inode, &held), r),
    ensures
        inode != held.inode ==> r is Err,
        r is Ok <==> inode == held.inode && device == immutable::made_device(
            held.dev_major,
            held.dev_minor,
        ),
{
}

} // verus!
