//! The values that callers and backends exchange: identities, paths inside the
//! domain, its environment, and commands.

use vstd::prelude::*;

use crate::environment::Environment;
use crate::error::ExecutionDomainError;
use crate::ids;
use crate::text;
use crate::text::Separator;

verus! {

/// The identity of one attempt to run a job. It is never nil.
#[derive(Clone, Copy, Debug, PartialEq, Eq, PartialOrd, Ord, Hash, Structural)]
pub struct AttemptIdentity {
    id: u128,
}

impl View for AttemptIdentity {
    type V = u128;

    closed spec fn view(&self) -> u128 {
        self.id
    }
}

impl AttemptIdentity {
    #[verifier::type_invariant]
    spec fn inv(self) -> bool {
        self.id != 0
    }

    /// A fresh random identity.
    pub fn new() -> (r: AttemptIdentity)
        ensures
            r@ != 0,
            r@ & 0xf000_c000_0000_0000_0000 == 0x4000_8000_0000_0000_0000,
    {
        let id: u128 = ids::random_id();
        proof {
            ids::lemma_random_is_not_nil(id);
        }
        AttemptIdentity { id }
    }

    /// The identity with the given value, which must not be nil.
    pub fn from_uuid(id: u128) -> (r: Result<AttemptIdentity, ExecutionDomainError>)
        ensures
            match r {
                Ok(attempt) => id != 0 && attempt@ == id,
                Err(e) => id == 0 && e == ExecutionDomainError::InvalidAttemptIdentity,
            },
    {
        if id == 0 {
            return Err(ExecutionDomainError::InvalidAttemptIdentity);
        }
        Ok(AttemptIdentity { id })
    }

    /// The value of the identity.
    pub fn uuid(&self) -> (id: u128)
        ensures
            id == self@,
            id != 0,
    {
        proof {
            use_type_invariant(self);
        }
        self.id
    }

    /// The path component of the attempt: its 32 hexadecimal digits.
    pub fn component(&self) -> (out: String)
        ensures
            out@ == ids::simple_text(self@),
    {
        ids::simple_form(self.id)
    }
}

/// Different attempts have different path components.
pub proof fn law_components_tell_attempts_apart(a: AttemptIdentity, b: AttemptIdentity)
    requires
        ids::simple_text(a@) == ids::simple_text(b@),
    ensures
        a@ == b@,
{
    ids::lemma_simple_text_injective(a@, b@);
}

impl Default for AttemptIdentity {
    fn default() -> (r: AttemptIdentity)
        ensures
            r@ != 0,
            r@ & 0xf000_c000_0000_0000_0000 == 0x4000_8000_0000_0000_0000,
    {
        AttemptIdentity::new()
    }
}

/// The identity of the private files of one step. It is never nil.
#[derive(Clone, Copy, Debug, PartialEq, Eq, Structural)]
pub struct StepFilesId {
    id: u128,
}

impl View for StepFilesId {
    type V = u128;

    closed spec fn view(&self) -> u128 {
        self.id
    }
}

impl StepFilesId {
    #[verifier::type_invariant]
    spec fn inv(self) -> bool {
        self.id != 0
    }

    /// A fresh random identity.
    pub fn new() -> (r: StepFilesId)
        ensures
            r@ != 0,
            r@ & 0xf000_c000_0000_0000_0000 == 0x4000_8000_0000_0000_0000,
    {
        let id: u128 = ids::random_id();
        proof {
            ids::lemma_random_is_not_nil(id);
        }
        StepFilesId { id }
    }

    /// The value of the identity.
    pub fn uuid(&self) -> (id: u128)
        ensures
            id == self@,
            id != 0,
    {
        proof {
            use_type_invariant(self);
        }
        self.id
    }

    /// The path component of the step: its 32 hexadecimal digits.
    pub fn component(&self) -> (out: String)
        ensures
            out@ == ids::simple_text(self@),
    {
        ids::simple_form(self.id)
    }

    /// The identity with the given value, which must not be nil.
    pub fn from_uuid(id: u128) -> (r: Result<StepFilesId, ExecutionDomainError>)
        ensures
            match r {
                Ok(step) => id != 0 && step@ == id,
                Err(e) => id == 0 && e == ExecutionDomainError::InvalidStepFilesIdentity,
            },
    {
        if id == 0 {
            return Err(ExecutionDomainError::InvalidStepFilesIdentity);
        }
        Ok(StepFilesId { id })
    }
}

impl Default for StepFilesId {
    fn default() -> (r: StepFilesId)
        ensures
            r@ != 0,
            r@ & 0xf000_c000_0000_0000_0000 == 0x4000_8000_0000_0000_0000,
    {
        StepFilesId::new()
    }
}

/// Whether every component between slashes is a plain name.
pub open spec fn components_valid(s: Seq<char>) -> bool {
    let parts = text::split(s, Separator::Exactly('/'));
    forall|i: int|
        0 <= i < parts.len() ==> (#[trigger] parts[i]).len() > 0 && parts[i] != "."@ && parts[i]
            != ".."@
}

/// Whether the text is an absolute path without empty, `.` or `..` components,
/// without a closing slash and without NUL.
pub open spec fn absolute_valid(s: Seq<char>) -> bool {
    ||| s == "/"@
    ||| {
        &&& s.len() > 0 && s[0] == '/'
        &&& !(s.len() > 1 && s[1] == '/')
        &&& s.last() != '/'
        &&& !s.contains('\0')
        &&& components_valid(s.skip(1))
    }
}

/// Whether the text is a relative path of plain names.
pub open spec fn relative_valid(s: Seq<char>) -> bool {
    &&& s.len() > 0
    &&& s[0] != '/'
    &&& s.last() != '/'
    &&& !s.contains('\0')
    &&& components_valid(s)
}

fn has_nul(s: &[char]) -> (r: bool)
    ensures
        r == s@.contains('\0'),
{
    for i in 0..s.len()
        invariant
            forall|k: int| 0 <= k < i ==> s@[k] != '\0',
    {
        if s[i] == '\0' {
            assert(s@[i as int] == '\0');
            return true;
        }
    }
    false
}

/// Whether every component between slashes is a plain name.
pub fn valid_components(value: &[char]) -> (r: bool)
    ensures
        r == components_valid(value@),
{
    let parts: Vec<Vec<char>> = text::pieces(value, Separator::Exactly('/'));
    let ghost all = text::split(value@, Separator::Exactly('/'));
    for i in 0..parts.len()
        invariant
            all == text::split(value@, Separator::Exactly('/')),
            text::views(parts@) == all,
            forall|k: int|
                0 <= k < i ==> (#[trigger] all[k]).len() > 0 && all[k] != "."@ && all[k] != ".."@,
    {
        assert(all.len() == parts@.len());
        assert(all[i as int] == parts@[i as int]@);
        if parts[i].len() == 0 || text::text_is(parts[i].as_slice(), ".") || text::text_is(
            parts[i].as_slice(),
            "..",
        ) {
            return false;
        }
    }
    assert(text::views(parts@).len() == parts@.len());
    true
}

/// Whether the text can be a path inside the domain.
pub fn valid_absolute_path(value: &str) -> (r: bool)
    ensures
        r == absolute_valid(value@),
{
    let s: Vec<char> = text::chars(value);
    if text::text_is(s.as_slice(), "/") {
        return true;
    }
    let n: usize = s.len();
    if n == 0 || s[0] != '/' || (n > 1 && s[1] == '/') || s[n - 1] == '/' {
        return false;
    }
    let rest: Vec<char> = text::part(s.as_slice(), 1, n);
    assert(rest@ =~= value@.skip(1));
    !has_nul(s.as_slice()) && valid_components(rest.as_slice())
}

/// Whether the text can be appended to a path inside the domain.
pub fn valid_relative_path(value: &str) -> (r: bool)
    ensures
        r == relative_valid(value@),
{
    let s: Vec<char> = text::chars(value);
    let n: usize = s.len();
    if n == 0 || s[0] == '/' || s[n - 1] == '/' {
        return false;
    }
    !has_nul(s.as_slice()) && valid_components(s.as_slice())
}

/// An absolute path inside the domain: no empty, `.` or `..` component, no
/// closing slash, no NUL.
#[derive(Debug, PartialEq, Eq)]
pub struct DomainPath {
    value: String,
}

impl View for DomainPath {
    type V = Seq<char>;

    closed spec fn view(&self) -> Seq<char> {
        self.value@
    }
}

/// The text of `base` with `relative` below it.
pub open spec fn joined_path(base: Seq<char>, relative: Seq<char>) -> Seq<char> {
    if base == "/"@ {
        base + relative
    } else {
        base + "/"@ + relative
    }
}

impl DomainPath {
    #[verifier::type_invariant]
    spec fn inv(self) -> bool {
        absolute_valid(self.value@)
    }

    /// Accepts a valid absolute path and refuses everything else.
    pub fn parse(value: &str) -> (r: Result<DomainPath, ExecutionDomainError>)
        ensures
            match r {
                Ok(path) => absolute_valid(value@) && path@ == value@,
                Err(e) => !absolute_valid(value@) && e == ExecutionDomainError::InvalidDomainPath,
            },
    {
        if !valid_absolute_path(value) {
            return Err(ExecutionDomainError::InvalidDomainPath);
        }
        Ok(DomainPath { value: value.to_owned() })
    }

    /// A path that is known to be valid.
    pub fn known(value: &'static str) -> (r: DomainPath)
        requires
            absolute_valid(value@),
        ensures
            r@ == value@,
    {
        DomainPath { value: value.to_owned() }
    }

    /// The text of the path.
    pub fn as_str(&self) -> (r: &str)
        ensures
            r@ == self@,
            absolute_valid(r@),
    {
        proof {
            use_type_invariant(self);
        }
        self.value.as_str()
    }

    /// The path with a valid relative path below it.
    pub fn join(&self, relative: &str) -> (r: Result<DomainPath, ExecutionDomainError>)
        ensures
            match r {
                Ok(path) => relative_valid(relative@) && path@ == joined_path(self@, relative@),
                Err(e) => !relative_valid(relative@) && e
                    == ExecutionDomainError::InvalidDomainPath,
            },
    {
        if !valid_relative_path(relative) {
            return Err(ExecutionDomainError::InvalidDomainPath);
        }
        proof {
            use_type_invariant(self);
            law_join_stays_valid(self@, relative@);
        }
        let at_root: bool = text::same_str(self.value.as_str(), "/");
        let mut value: String = self.value.clone();
        if !at_root {
            value.append("/");
        }
        value.append(relative);
        DomainPath::parse(value.as_str())
    }
}

impl Clone for DomainPath {
    fn clone(&self) -> (r: DomainPath)
        ensures
            r@ == self@,
    {
        proof {
            use_type_invariant(self);
        }
        DomainPath { value: self.value.clone() }
    }
}

/// The components of two texts with a slash between them are the components of
/// the first and then those of the second.
pub proof fn lemma_components_of_join(a: Seq<char>, b: Seq<char>)
    ensures
        text::split(a.push('/') + b, Separator::Exactly('/')) == text::split(
            a,
            Separator::Exactly('/'),
        ) + text::split(b, Separator::Exactly('/')),
    decreases b.len(),
{
    let by = Separator::Exactly('/');
    let whole = a.push('/') + b;
    if b.len() == 0 {
        assert(whole =~= a.push('/'));
        assert(whole.drop_last() =~= a);
        assert(text::split(b, by) =~= seq![Seq::<char>::empty()]);
        assert(text::split(whole, by) =~= text::split(a, by) + text::split(b, by));
    } else {
        let short = b.drop_last();
        assert(whole.drop_last() =~= a.push('/') + short);
        lemma_components_of_join(a, short);
        text::lemma_split_nonempty(short, by);
        let before = text::split(a, by) + text::split(short, by);
        if by.separates(b.last()) {
            assert(text::split(whole, by) =~= text::split(a, by) + text::split(b, by));
        } else {
            assert(before.drop_last() =~= text::split(a, by) + text::split(short, by).drop_last());
            assert(before.last() == text::split(short, by).last());
            assert(text::split(whole, by) =~= text::split(a, by) + text::split(b, by));
        }
    }
}

/// Appending a valid relative path to a valid absolute path gives a valid
/// absolute path that begins with the first.
pub proof fn law_join_stays_valid(base: Seq<char>, relative: Seq<char>)
    requires
        absolute_valid(base),
        relative_valid(relative),
    ensures
        absolute_valid(joined_path(base, relative)),
        base.is_prefix_of(joined_path(base, relative)),
{
    reveal_strlit("/");
    let by = Separator::Exactly('/');
    let out = joined_path(base, relative);
    assert(out.last() == relative.last());
    assert("/"@ =~= seq!['/']);
    if base == "/"@ {
        assert(out.skip(1) =~= relative);
        assert(out[1] == relative[0]);
        assert forall|i: int| 0 <= i < out.len() implies out[i] != '\0' by {
            if i > 0 {
                assert(out[i] == relative[i - 1]);
                assert(relative.contains(relative[i - 1]));
            }
        }
    } else {
        assert(base.len() > 1);
        assert(out[1] == base[1]);
        assert(out =~= base.push('/') + relative);
        assert(out.skip(1) =~= base.skip(1).push('/') + relative);
        lemma_components_of_join(base.skip(1), relative);
        let parts = text::split(out.skip(1), by);
        let left = text::split(base.skip(1), by);
        let right = text::split(relative, by);
        assert forall|i: int| 0 <= i < parts.len() implies (#[trigger] parts[i]).len() > 0
            && parts[i] != "."@ && parts[i] != ".."@ by {
            if i < left.len() {
                assert(parts[i] == left[i]);
            } else {
                assert(parts[i] == right[i - left.len()]);
            }
        }
        assert forall|i: int| 0 <= i < out.len() implies out[i] != '\0' by {
            if i < base.len() {
                assert(base.contains(base[i]));
            } else if i > base.len() {
                assert(out[i] == relative[i - base.len() - 1]);
                assert(relative.contains(relative[i - base.len() - 1]));
            }
        }
    }
    assert(out.subrange(0, base.len() as int) =~= base);
}

/// What the domain does at the time of a failure.
#[derive(Clone, Copy, Debug, PartialEq, Eq, Structural)]
pub enum Stage {
    Preflight,
    Filesystem,
    Cgroup,
    Launch,
    Rootfs,
    Protocol,
    Command,
    State,
    Destroy,
    Reconcile,
}

impl Stage {
    pub open spec fn label(self) -> Seq<char> {
        match self {
            Stage::Preflight => "Preflight"@,
            Stage::Filesystem => "Filesystem"@,
            Stage::Cgroup => "Cgroup"@,
            Stage::Launch => "Launch"@,
            Stage::Rootfs => "Rootfs"@,
            Stage::Protocol => "Protocol"@,
            Stage::Command => "Command"@,
            Stage::State => "State"@,
            Stage::Destroy => "Destroy"@,
            Stage::Reconcile => "Reconcile"@,
        }
    }

    /// The name of the stage.
    pub fn name(&self) -> (r: &'static str)
        ensures
            r@ == self.label(),
    {
        match self {
            Stage::Preflight => "Preflight",
            Stage::Filesystem => "Filesystem",
            Stage::Cgroup => "Cgroup",
            Stage::Launch => "Launch",
            Stage::Rootfs => "Rootfs",
            Stage::Protocol => "Protocol",
            Stage::Command => "Command",
            Stage::State => "State",
            Stage::Destroy => "Destroy",
            Stage::Reconcile => "Reconcile",
        }
    }
}

/// The kind of a failure.
#[derive(Clone, Copy, Debug, PartialEq, Eq, Structural)]
pub enum FailureCategory {
    Unsupported,
    InvalidInput,
    Unavailable,
    IdentityMismatch,
    Timeout,
    Io,
    Protocol,
    NotReady,
}

impl FailureCategory {
    pub open spec fn label(self) -> Seq<char> {
        match self {
            FailureCategory::Unsupported => "Unsupported"@,
            FailureCategory::InvalidInput => "InvalidInput"@,
            FailureCategory::Unavailable => "Unavailable"@,
            FailureCategory::IdentityMismatch => "IdentityMismatch"@,
            FailureCategory::Timeout => "Timeout"@,
            FailureCategory::Io => "Io"@,
            FailureCategory::Protocol => "Protocol"@,
            FailureCategory::NotReady => "NotReady"@,
        }
    }

    /// The name of the category.
    pub fn name(&self) -> (r: &'static str)
        ensures
            r@ == self.label(),
    {
        match self {
            FailureCategory::Unsupported => "Unsupported",
            FailureCategory::InvalidInput => "InvalidInput",
            FailureCategory::Unavailable => "Unavailable",
            FailureCategory::IdentityMismatch => "IdentityMismatch",
            FailureCategory::Timeout => "Timeout",
            FailureCategory::Io => "Io",
            FailureCategory::Protocol => "Protocol",
            FailureCategory::NotReady => "NotReady",
        }
    }
}

/// The fixed paths inside a sandboxed domain.
#[derive(Debug, PartialEq, Eq)]
pub struct DomainPaths {
    pub work: DomainPath,
    pub tmp: DomainPath,
    pub home: DomainPath,
    pub run: DomainPath,
    pub docker_config: DomainPath,
    pub docker_data: DomainPath,
    pub docker_exec: DomainPath,
    pub docker_socket: DomainPath,
}

impl Clone for DomainPaths {
    fn clone(&self) -> (r: DomainPaths)
        ensures
            r.work@ == self.work@,
            r.tmp@ == self.tmp@,
            r.home@ == self.home@,
            r.run@ == self.run@,
            r.docker_config@ == self.docker_config@,
            r.docker_data@ == self.docker_data@,
            r.docker_exec@ == self.docker_exec@,
            r.docker_socket@ == self.docker_socket@,
    {
        DomainPaths {
            work: self.work.clone(),
            tmp: self.tmp.clone(),
            home: self.home.clone(),
            run: self.run.clone(),
            docker_config: self.docker_config.clone(),
            docker_data: self.docker_data.clone(),
            docker_exec: self.docker_exec.clone(),
            docker_socket: self.docker_socket.clone(),
        }
    }
}

/// A name that can be a component of a path inside the domain.
pub open spec fn plain_name(s: Seq<char>) -> bool {
    s.len() > 0 && s != "."@ && s != ".."@ && !s.contains('/') && !s.contains('\0')
}

/// Plain names with a slash before each make a valid absolute path.
pub proof fn lemma_path_of_names(names: Seq<Seq<char>>)
    requires
        names.len() > 0,
        forall|i: int| 0 <= i < names.len() ==> plain_name(#[trigger] names[i]),
    ensures
        absolute_valid(seq!['/'] + text::joined(names, '/')),
        text::split(text::joined(names, '/'), Separator::Exactly('/')) == names,
    decreases names.len(),
{
    let by = Separator::Exactly('/');
    let last = names.last();
    let body = text::joined(names, '/');
    lemma_split_of_name(last);
    assert(names[names.len() - 1] == last);
    if names.len() == 1 {
        assert(names =~= seq![last]);
        assert(body == last);
    } else {
        let short = names.drop_last();
        lemma_path_of_names(short);
        lemma_components_of_join(text::joined(short, '/'), last);
        assert(text::split(body, by) =~= names);
    }
    let out = seq!['/'] + body;
    assert(out.skip(1) =~= body);
    assert(body.len() > 0 && body.last() == last.last());
    assert(last.contains(last.last()));
    assert(names[0].contains(names[0][0]));
    lemma_joined_start(names);
    assert(out.last() == body.last());
    assert forall|i: int| 0 <= i < out.len() implies out[i] != '\0' by {
        if i > 0 {
            assert(out[i] == body[i - 1]);
            lemma_joined_has_no_nul(names, i - 1);
        }
    }
    assert(out[1] == names[0][0]);
}

proof fn lemma_joined_start(names: Seq<Seq<char>>)
    requires
        names.len() > 0,
        names[0].len() > 0,
    ensures
        text::joined(names, '/').len() > 0,
        text::joined(names, '/')[0] == names[0][0],
    decreases names.len(),
{
    if names.len() > 1 {
        lemma_joined_start(names.drop_last());
    }
}

proof fn lemma_joined_has_no_nul(names: Seq<Seq<char>>, at: int)
    requires
        forall|i: int| 0 <= i < names.len() ==> !(#[trigger] names[i]).contains('\0'),
        0 <= at < text::joined(names, '/').len(),
    ensures
        text::joined(names, '/')[at] != '\0',
    decreases names.len(),
{
    let body = text::joined(names, '/');
    let last = names.last();
    assert(names[names.len() - 1] == last);
    if names.len() == 1 {
        assert(last.contains(body[at]));
    } else {
        let head = text::joined(names.drop_last(), '/');
        if at < head.len() {
            lemma_joined_has_no_nul(names.drop_last(), at);
        } else if at > head.len() {
            assert(body[at] == last[at - head.len() - 1]);
            assert(last.contains(body[at]));
        }
    }
}

proof fn lemma_split_of_name(name: Seq<char>)
    requires
        !name.contains('/'),
    ensures
        text::split(name, Separator::Exactly('/')) == seq![name],
    decreases name.len(),
{
    let by = Separator::Exactly('/');
    if name.len() == 0 {
        assert(name =~= Seq::empty());
        assert(text::split(name, by) =~= seq![name]);
    } else {
        let short = name.drop_last();
        assert(name.contains(name.last()));
        assert forall|c: char| short.contains(c) implies name.contains(c) by {
            let i = choose|i: int| 0 <= i < short.len() && short[i] == c;
            assert(name[i] == c);
        }
        lemma_split_of_name(short);
        let before = text::split(short, by);
        assert(before == seq![short]);
        assert(!by.separates(name.last()));
        assert(short.push(name.last()) =~= name);
        assert(before.drop_last() =~= Seq::empty());
        assert(before.drop_last().push(before.last().push(name.last())) =~= seq![name]);
    }
}

/// The fixed paths of a sandboxed domain are valid.
pub proof fn lemma_sandbox_paths_are_valid()
    ensures
        absolute_valid("/work"@),
        absolute_valid("/tmp"@),
        absolute_valid("/home/chimera"@),
        absolute_valid("/run/chimera"@),
        absolute_valid("/home/chimera/.docker"@),
        absolute_valid("/var/lib/chimera/docker"@),
        absolute_valid("/run/chimera/docker-exec"@),
        absolute_valid("/run/chimera/docker.sock"@),
{
    reveal_strlit(".docker");
    reveal_strlit("chimera");
    reveal_strlit("docker");
    reveal_strlit("docker-exec");
    reveal_strlit("docker.sock");
    reveal_strlit("home");
    reveal_strlit("lib");
    reveal_strlit("run");
    reveal_strlit("tmp");
    reveal_strlit("var");
    reveal_strlit("work");
    reveal_strlit(".");
    reveal_strlit("..");
    reveal_strlit("/work");
    reveal_strlit("/tmp");
    reveal_strlit("/home/chimera");
    reveal_strlit("/run/chimera");
    reveal_strlit("/home/chimera/.docker");
    reveal_strlit("/var/lib/chimera/docker");
    reveal_strlit("/run/chimera/docker-exec");
    reveal_strlit("/run/chimera/docker.sock");
    assert(plain_name(".docker"@));
    assert(plain_name("chimera"@));
    assert(plain_name("docker"@));
    assert(plain_name("docker-exec"@));
    assert(plain_name("docker.sock"@));
    assert(plain_name("home"@));
    assert(plain_name("lib"@));
    assert(plain_name("run"@));
    assert(plain_name("tmp"@));
    assert(plain_name("var"@));
    assert(plain_name("work"@));
    reveal_with_fuel(text::joined, 5);
    assert(absolute_valid("/work"@)) by {
        let names = seq!["work"@];
        assert forall|i: int| 0 <= i < names.len() implies plain_name(#[trigger] names[i]) by {
            assert(i == 0 || i == 1 || i == 2 || i == 3);
        }
        lemma_path_of_names(names);
        assert("/work"@ =~= seq!['/'] + text::joined(names, '/'));
    }
    assert(absolute_valid("/tmp"@)) by {
        let names = seq!["tmp"@];
        assert forall|i: int| 0 <= i < names.len() implies plain_name(#[trigger] names[i]) by {
            assert(i == 0 || i == 1 || i == 2 || i == 3);
        }
        lemma_path_of_names(names);
        assert("/tmp"@ =~= seq!['/'] + text::joined(names, '/'));
    }
    assert(absolute_valid("/home/chimera"@)) by {
        let names = seq!["home"@, "chimera"@];
        assert forall|i: int| 0 <= i < names.len() implies plain_name(#[trigger] names[i]) by {
            assert(i == 0 || i == 1 || i == 2 || i == 3);
        }
        lemma_path_of_names(names);
        assert("/home/chimera"@ =~= seq!['/'] + text::joined(names, '/'));
    }
    assert(absolute_valid("/run/chimera"@)) by {
        let names = seq!["run"@, "chimera"@];
        assert forall|i: int| 0 <= i < names.len() implies plain_name(#[trigger] names[i]) by {
            assert(i == 0 || i == 1 || i == 2 || i == 3);
        }
        lemma_path_of_names(names);
        assert("/run/chimera"@ =~= seq!['/'] + text::joined(names, '/'));
    }
    assert(absolute_valid("/home/chimera/.docker"@)) by {
        let names = seq!["home"@, "chimera"@, ".docker"@];
        assert forall|i: int| 0 <= i < names.len() implies plain_name(#[trigger] names[i]) by {
            assert(i == 0 || i == 1 || i == 2 || i == 3);
        }
        lemma_path_of_names(names);
        assert("/home/chimera/.docker"@ =~= seq!['/'] + text::joined(names, '/'));
    }
    assert(absolute_valid("/var/lib/chimera/docker"@)) by {
        let names = seq!["var"@, "lib"@, "chimera"@, "docker"@];
        assert forall|i: int| 0 <= i < names.len() implies plain_name(#[trigger] names[i]) by {
            assert(i == 0 || i == 1 || i == 2 || i == 3);
        }
        lemma_path_of_names(names);
        assert("/var/lib/chimera/docker"@ =~= seq!['/'] + text::joined(names, '/'));
    }
    assert(absolute_valid("/run/chimera/docker-exec"@)) by {
        let names = seq!["run"@, "chimera"@, "docker-exec"@];
        assert forall|i: int| 0 <= i < names.len() implies plain_name(#[trigger] names[i]) by {
            assert(i == 0 || i == 1 || i == 2 || i == 3);
        }
        lemma_path_of_names(names);
        assert("/run/chimera/docker-exec"@ =~= seq!['/'] + text::joined(names, '/'));
    }
    assert(absolute_valid("/run/chimera/docker.sock"@)) by {
        let names = seq!["run"@, "chimera"@, "docker.sock"@];
        assert forall|i: int| 0 <= i < names.len() implies plain_name(#[trigger] names[i]) by {
            assert(i == 0 || i == 1 || i == 2 || i == 3);
        }
        lemma_path_of_names(names);
        assert("/run/chimera/docker.sock"@ =~= seq!['/'] + text::joined(names, '/'));
    }
}

impl DomainPaths {
    /// The paths that every sandboxed domain has.
    pub fn sandboxed() -> (r: DomainPaths)
        ensures
            r.work@ == "/work"@,
            r.tmp@ == "/tmp"@,
            r.home@ == "/home/chimera"@,
            r.run@ == "/run/chimera"@,
            r.docker_config@ == "/home/chimera/.docker"@,
            r.docker_data@ == "/var/lib/chimera/docker"@,
            r.docker_exec@ == "/run/chimera/docker-exec"@,
            r.docker_socket@ == "/run/chimera/docker.sock"@,
    {
        proof {
            lemma_sandbox_paths_are_valid();
        }
        DomainPaths {
            work: DomainPath::known("/work"),
            tmp: DomainPath::known("/tmp"),
            home: DomainPath::known("/home/chimera"),
            run: DomainPath::known("/run/chimera"),
            docker_config: DomainPath::known("/home/chimera/.docker"),
            docker_data: DomainPath::known("/var/lib/chimera/docker"),
            docker_exec: DomainPath::known("/run/chimera/docker-exec"),
            docker_socket: DomainPath::known("/run/chimera/docker.sock"),
        }
    }

    /// The path of the container service's socket.
    pub fn docker_socket(&self) -> (r: &DomainPath)
        ensures
            r@ == self.docker_socket@,
    {
        &self.docker_socket
    }
}

/// The variables whose values the domain alone decides.
pub open spec fn reserved_variables() -> Map<Seq<char>, Seq<char>> {
    Map::empty().insert("HOME"@, "/home/chimera"@).insert("XDG_RUNTIME_DIR"@, "/run/chimera"@).insert(
        "DOCKER_CONFIG"@,
        "/home/chimera/.docker"@,
    ).insert("DOCKER_HOST"@, "unix://"@ + "/run/chimera/docker.sock"@)
}

/// The environment that a sandboxed domain imposes on every command.
#[derive(PartialEq, Eq)]
pub struct DomainEnvironment {
    values: Environment,
}

impl View for DomainEnvironment {
    type V = Map<Seq<char>, Seq<char>>;

    closed spec fn view(&self) -> Map<Seq<char>, Seq<char>> {
        self.values@
    }
}

impl Clone for DomainEnvironment {
    fn clone(&self) -> (r: DomainEnvironment)
        ensures
            r@ == self@,
    {
        DomainEnvironment { values: self.values.clone() }
    }
}

/// Whether the two maps give some name different values.
pub open spec fn conflicts_at(
    owned: Map<Seq<char>, Seq<char>>,
    supplied: Map<Seq<char>, Seq<char>>,
    name: Seq<char>,
) -> bool {
    owned.contains_key(name) && supplied.contains_key(name) && supplied[name] != owned[name]
}

impl DomainEnvironment {
    /// The reserved variables of a sandboxed domain.
    pub fn sandboxed() -> (r: DomainEnvironment)
        ensures
            r@ == reserved_variables(),
    {
        let paths: DomainPaths = DomainPaths::sandboxed();
        let mut values: Environment = Environment::new();
        values.insert("HOME".to_owned(), paths.home.as_str().to_owned());
        values.insert("XDG_RUNTIME_DIR".to_owned(), paths.run.as_str().to_owned());
        values.insert("DOCKER_CONFIG".to_owned(), paths.docker_config.as_str().to_owned());
        values.insert(
            "DOCKER_HOST".to_owned(),
            text::concat("unix://", paths.docker_socket().as_str()),
        );
        DomainEnvironment { values }
    }

    /// The supplied variables together with the reserved ones. It fails, naming
    /// the variable, where a reserved variable is supplied with another value.
    pub fn merge(&self, supplied: &Environment, source: &'static str) -> (r: Result<
        Environment,
        ExecutionDomainError,
    >)
        ensures
            match r {
                Ok(merged) => (forall|name: Seq<char>| !conflicts_at(self@, supplied@, name))
                    && merged@ == supplied@.union_prefer_right(self@),
                Err(e) => e matches ExecutionDomainError::ReservedDomainEnvironment {
                    key,
                    source: from,
                } && conflicts_at(self@, supplied@, key@) && from == source,
            },
    {
        let owned: &Vec<(String, String)> = self.values.entries();
        proof {
            crate::environment::lemma_entry_map(owned@);
        }
        for i in 0..owned.len()
            invariant
                owned@ == self.values.listing(),
                self@ == crate::environment::entry_map(owned@),
                forall|k: int|
                    0 <= k < owned@.len() ==> self@.contains_key((#[trigger] owned@[k]).0@)
                        && self@[owned@[k].0@] == owned@[k].1@,
                forall|k: int| 0 <= k < i ==> !conflicts_at(self@, supplied@, (#[trigger] owned@[k]).0@),
        {
            match supplied.get(owned[i].0.as_str()) {
                Some(value) => {
                    if !text::same_str(value.as_str(), owned[i].1.as_str()) {
                        return Err(
                            ExecutionDomainError::ReservedDomainEnvironment {
                                key: owned[i].0.clone(),
                                source,
                            },
                        );
                    }
                },
                None => {},
            }
        }
        assert forall|name: Seq<char>| !conflicts_at(self@, supplied@, name) by {
            if self@.contains_key(name) {
                let k = choose|k: int| 0 <= k < owned@.len() && (#[trigger] owned@[k]).0@ == name;
                assert(!conflicts_at(self@, supplied@, owned@[k].0@));
            }
        }
        let mut merged: Environment = supplied.clone();
        assert(owned@.take(0) =~= Seq::empty());
        assert(merged@ =~= supplied@.union_prefer_right(
            crate::environment::entry_map(owned@.take(0)),
        ));
        for i in 0..owned.len()
            invariant
                merged@ == supplied@.union_prefer_right(
                    crate::environment::entry_map(owned@.take(i as int)),
                ),
        {
            merged.insert(owned[i].0.clone(), owned[i].1.clone());
            proof {
                assert(owned@.take(i + 1).drop_last() =~= owned@.take(i as int));
                assert(merged@ =~= supplied@.union_prefer_right(
                    crate::environment::entry_map(owned@.take(i + 1)),
                ));
            }
        }
        assert(owned@.take(owned@.len() as int) =~= owned@);
        Ok(merged)
    }

    /// How the environment shows itself in diagnostics: without its values.
    pub fn debug_text(&self) -> (r: &'static str)
        ensures
            r@ == "DomainEnvironment"@,
    {
        "DomainEnvironment"
    }
}

/// Merging what was merged once changes nothing: reserved variables that are
/// supplied with their own values are accepted.
pub proof fn law_merge_is_idempotent(
    owned: Map<Seq<char>, Seq<char>>,
    supplied: Map<Seq<char>, Seq<char>>,
)
    ensures
        forall|name: Seq<char>|
            !conflicts_at(owned, supplied.union_prefer_right(owned), name),
        supplied.union_prefer_right(owned).union_prefer_right(owned)
            == supplied.union_prefer_right(owned),
{
    assert(supplied.union_prefer_right(owned).union_prefer_right(owned)
        =~= supplied.union_prefer_right(owned));
}

/// A merged environment gives every reserved variable its own value and keeps
/// every other supplied variable.
pub proof fn law_merge_imposes_and_keeps(
    owned: Map<Seq<char>, Seq<char>>,
    supplied: Map<Seq<char>, Seq<char>>,
    name: Seq<char>,
)
    ensures
        owned.contains_key(name) ==> supplied.union_prefer_right(owned).contains_key(name)
            && supplied.union_prefer_right(owned)[name] == owned[name],
        !owned.contains_key(name) && supplied.contains_key(name) ==> supplied.union_prefer_right(
            owned,
        )[name] == supplied[name],
        !owned.contains_key(name) && !supplied.contains_key(name)
            ==> !supplied.union_prefer_right(owned).contains_key(name),
{
}

/// What a step left in its private files.
#[derive(PartialEq, Eq)]
pub struct StepStateSnapshot {
    pub env: String,
    pub path: String,
    pub output: String,
    pub state: String,
    pub summary: String,
}

impl Clone for StepStateSnapshot {
    fn clone(&self) -> (r: StepStateSnapshot)
        ensures
            r == *self,
    {
        StepStateSnapshot {
            env: self.env.clone(),
            path: self.path.clone(),
            output: self.output.clone(),
            state: self.state.clone(),
            summary: self.summary.clone(),
        }
    }
}

impl StepStateSnapshot {
    /// How the snapshot shows itself in diagnostics: without its contents.
    pub fn debug_text(&self) -> (r: &'static str)
        ensures
            r@ == "StepStateSnapshot"@,
    {
        "StepStateSnapshot"
    }
}

/// What a command runs.
#[derive(PartialEq, Eq)]
#[allow(inconsistent_fields)]
pub enum CommandTarget {
    /// A program of the host, named by bytes that need not be text.
    Trusted { program: Vec<u8>, args: Vec<Vec<u8>>, cwd: Vec<u8> },
    /// A program inside the domain.
    Sandboxed { program: DomainPath, args: Vec<String>, cwd: DomainPath },
}

impl CommandTarget {
    /// How the target shows itself in diagnostics: without its arguments.
    pub fn debug_text(&self) -> (r: &'static str)
        ensures
            r@ == "CommandTarget"@,
    {
        "CommandTarget"
    }
}

/// A command and the conditions under which it runs.
#[derive(PartialEq, Eq)]
pub struct CommandSpec {
    pub target: CommandTarget,
    pub env: Environment,
    /// The time limit, in nanoseconds.
    pub timeout: u128,
    pub state: Option<StepFilesId>,
}

impl CommandSpec {
    /// How the command shows itself in diagnostics: without its arguments and
    /// its environment.
    pub fn debug_text(&self) -> (r: &'static str)
        ensures
            r@ == "CommandSpec"@,
    {
        "CommandSpec"
    }
}

/// A stretch of a command's output.
#[derive(PartialEq, Eq)]
pub enum CommandEvent {
    Stdout(Vec<u8>),
    Stderr(Vec<u8>),
}

impl CommandEvent {
    /// How the event shows itself in diagnostics: without the output.
    pub fn debug_text(&self) -> (r: &'static str)
        ensures
            r@ == "CommandEvent"@,
    {
        "CommandEvent"
    }
}

/// How a command ended.
#[derive(Clone, Copy, Debug, PartialEq, Eq, Structural)]
pub enum CommandOutcome {
    Exited(i32),
    Signalled(i32),
    Cancelled,
    TimedOut,
}

/// Why a command is cancelled.
#[derive(Clone, Copy, Debug, PartialEq, Eq, Structural)]
pub enum CancelReason {
    User,
    Timeout,
    Shutdown,
    HandleDropped,
    ProtocolFailure,
}

/// What the destruction of a domain reports.
#[derive(Clone, Copy, Debug, PartialEq, Eq, Structural)]
pub struct DestroyReport {
    pub attempt: AttemptIdentity,
    /// Whether processes had to be killed.
    pub forced_kill: bool,
}

/// A path of plain names with a slash before each is a path of the domain: names that
/// are not empty, do not lead back, and hold neither a slash nor a NUL.
pub proof fn law_paths_of_plain_names_are_accepted(
    names: Seq<Seq<char>>,
    value: &str,
    r: Result<DomainPath, ExecutionDomainError>,
)
    requires
        call_ensures(DomainPath::parse, (value,), r),
        names.len() > 0,
        forall|i: int|
            0 <= i < names.len() ==> (#[trigger] names[i]).len() > 0 && names[i] != "."@ && names[i]
                != ".."@ && !names[i].contains('/') && !names[i].contains('\0'),
        value@ == seq!['/'] + text::joined(names, '/') || value@ == "/"@,
    ensures
        r matches Ok(path) && path@ == value@,
{
    assert forall|i: int| 0 <= i < names.len() implies plain_name(#[trigger] names[i]) by {}
    lemma_path_of_names(names);
}

/// A path is refused where it does not begin at the root, ends with a slash, holds a
/// NUL, or has a component that is empty or leads back.
pub proof fn law_other_paths_are_refused(
    before: Seq<char>,
    component: Seq<char>,
    after: Seq<char>,
    value: &str,
    r: Result<DomainPath, ExecutionDomainError>,
)
    requires
        call_ensures(DomainPath::parse, (value,), r),
        component.len() == 0 || component == "."@ || component == ".."@,
        ({
            ||| value@.len() == 0
            ||| value@[0] != '/'
            ||| value@.len() > 1 && value@.last() == '/'
            ||| value@.contains('\0')
            ||| value@ == before.push('/') + component + seq!['/'] + after
            ||| component.len() > 0 && value@ == before.push('/') + component
        }),
    ensures
        r == Err::<DomainPath, ExecutionDomainError>(ExecutionDomainError::InvalidDomainPath),
{
    reveal_strlit("/");
    reveal_strlit(".");
    reveal_strlit("..");
    assert("/"@ =~= seq!['/']);
    let s = value@;
    if absolute_valid(s) {
        assert(!component.contains('/'));
        lemma_split_of_name(component);
        let by = Separator::Exactly('/');
        let inside = s.skip(1);
        let parts = text::split(inside, by);
        if s == before.push('/') + component + seq!['/'] + after {
            assert(s.len() >= 2);
            lemma_components_of_join(component, after);
            let rest = component.push('/') + after;
            if before.len() == 0 {
                assert(inside =~= rest);
                assert(parts[0] == component);
            } else {
                assert(inside =~= before.skip(1).push('/') + rest);
                lemma_components_of_join(before.skip(1), rest);
                assert(parts[text::split(before.skip(1), by).len() as int] == component);
            }
        } else if component.len() > 0 && s == before.push('/') + component {
            if before.len() == 0 {
                assert(inside =~= component);
                assert(parts[0] == component);
            } else {
                assert(inside =~= before.skip(1).push('/') + component);
                lemma_components_of_join(before.skip(1), component);
                assert(parts[text::split(before.skip(1), by).len() as int] == component);
            }
        } else if s.contains('\0') {
            assert(s == "/"@);
        }
    }
}

/// What is put below a path of the domain stands below it: after a slash, and as it was
/// given. Plain names with slashes between them can be put below.
pub proof fn law_paths_below_stay_below(
    base: DomainPath,
    names: Seq<Seq<char>>,
    relative: &str,
    r: Result<DomainPath, ExecutionDomainError>,
)
    requires
        call_ensures(DomainPath::join, (&base, relative), r),
    ensures
        r matches Ok(path) ==> (if base@ == "/"@ {
            path@ == seq!['/'] + relative@
        } else {
            path@ == base@.push('/') + relative@
        }),
        names.len() > 0 && (forall|i: int|
            0 <= i < names.len() ==> (#[trigger] names[i]).len() > 0 && names[i] != "."@ && names[i]
                != ".."@ && !names[i].contains('/') && !names[i].contains('\0')) && relative@
            == text::joined(names, '/') ==> r is Ok,
        relative@.len() == 0 || relative@[0] == '/' || relative@.last() == '/' || relative@.contains(
            '\0',
        ) ==> r is Err,
{
    reveal_strlit("/");
    assert("/"@ =~= seq!['/']);
    if r is Ok {
        assert(base@ + "/"@ + relative@ =~= base@.push('/') + relative@);
    }
    if names.len() > 0 && (forall|i: int|
        0 <= i < names.len() ==> (#[trigger] names[i]).len() > 0 && names[i] != "."@ && names[i]
            != ".."@ && !names[i].contains('/') && !names[i].contains('\0')) && relative@
        == text::joined(names, '/') {
        assert forall|i: int| 0 <= i < names.len() implies plain_name(#[trigger] names[i]) by {}
        lemma_path_of_names(names);
        lemma_joined_start(names);
        assert(names[0].contains(names[0][0]));
        let out = seq!['/'] + relative@;
        assert(out.last() == relative@.last());
        assert forall|i: int| 0 <= i < relative@.len() implies relative@[i] != '\0' by {
            lemma_joined_has_no_nul(names, i);
        }
        assert(out.skip(1) =~= relative@);
        assert(out.len() > 1);
    }
}

/// What leads back, or has an empty component, cannot be put below a path.
pub proof fn law_nothing_leads_back_out(
    base: DomainPath,
    before: Seq<char>,
    component: Seq<char>,
    after: Seq<char>,
    relative: &str,
    r: Result<DomainPath, ExecutionDomainError>,
)
    requires
        call_ensures(DomainPath::join, (&base, relative), r),
        component.len() == 0 || component == "."@ || component == ".."@,
        relative@ == component || relative@ == component + seq!['/'] + after || relative@
            == before.push('/') + component || relative@ == before.push('/') + component + seq!['/']
            + after,
    ensures
        r == Err::<DomainPath, ExecutionDomainError>(ExecutionDomainError::InvalidDomainPath),
{
    reveal_strlit(".");
    reveal_strlit("..");
    let by = Separator::Exactly('/');
    let s = relative@;
    let parts = text::split(s, by);
    assert(!component.contains('/'));
    lemma_split_of_name(component);
    lemma_components_of_join(component, after);
    if relative_valid(s) {
        if s == component {
            assert(parts[0] == component);
        } else if s == component + seq!['/'] + after {
            assert(s =~= component.push('/') + after);
            assert(parts[0] == component);
        } else if s == before.push('/') + component {
            lemma_components_of_join(before, component);
            assert(parts[text::split(before, by).len() as int] == component);
        } else {
            assert(s =~= before.push('/') + (component.push('/') + after));
            lemma_components_of_join(before, component.push('/') + after);
            assert(parts[text::split(before, by).len() as int] == component);
        }
    }
}

/// A domain imposes where its home, its run directory, the settings and the socket of
/// its container service are, and nothing else.
pub proof fn law_domains_impose_four_variables(r: DomainEnvironment, name: Seq<char>)
    requires
        call_ensures(DomainEnvironment::sandboxed, (), r),
    ensures
        r@.contains_key(name) <==> name == "HOME"@ || name == "XDG_RUNTIME_DIR"@ || name
            == "DOCKER_CONFIG"@ || name == "DOCKER_HOST"@,
        r@["HOME"@] == "/home/chimera"@,
        r@["XDG_RUNTIME_DIR"@] == "/run/chimera"@,
        r@["DOCKER_CONFIG"@] == "/home/chimera/.docker"@,
        r@["DOCKER_HOST"@] == "unix:///run/chimera/docker.sock"@,
{
    reveal_strlit("HOME");
    reveal_strlit("XDG_RUNTIME_DIR");
    reveal_strlit("DOCKER_CONFIG");
    reveal_strlit("DOCKER_HOST");
    reveal_strlit("unix://");
    reveal_strlit("/run/chimera/docker.sock");
    reveal_strlit("unix:///run/chimera/docker.sock");
    assert("HOME"@.len() != "XDG_RUNTIME_DIR"@.len());
    assert("HOME"@.len() != "DOCKER_CONFIG"@.len());
    assert("HOME"@.len() != "DOCKER_HOST"@.len());
    assert("XDG_RUNTIME_DIR"@.len() != "DOCKER_CONFIG"@.len());
    assert("XDG_RUNTIME_DIR"@.len() != "DOCKER_HOST"@.len());
    assert("DOCKER_CONFIG"@.len() != "DOCKER_HOST"@.len());
    assert("unix://"@ + "/run/chimera/docker.sock"@ =~= "unix:///run/chimera/docker.sock"@);
}

/// Variables that do not touch what is imposed are taken with it, each with its own
/// value. A variable that would change what is imposed is refused by its name.
pub proof fn law_supplied_variables_are_taken(
    owned: DomainEnvironment,
    supplied: Environment,
    source: &'static str,
    r: Result<Environment, ExecutionDomainError>,
    name: Seq<char>,
)
    requires
        call_ensures(DomainEnvironment::merge, (&owned, &supplied, source), r),
    ensures
        (forall|n: Seq<char>|
            owned@.contains_key(n) && #[trigger] supplied@.contains_key(n) ==> supplied@[n]
                == owned@[n]) ==> r is Ok,
        owned@.contains_key(name) && supplied@.contains_key(name) && supplied@[name] != owned@[name]
            ==> r is Err,
        r matches Ok(merged) ==> {
            &&& merged@.contains_key(name) <==> owned@.contains_key(name) || supplied@.contains_key(
                name,
            )
            &&& owned@.contains_key(name) ==> merged@[name] == owned@[name]
            &&& supplied@.contains_key(name) ==> merged@[name] == supplied@[name]
        },
        r matches Err(e) ==> (e matches ExecutionDomainError::ReservedDomainEnvironment {
            key,
            source: from,
        } && from == source && owned@.contains_key(key@) && supplied@.contains_key(key@)
            && supplied@[key@] != owned@[key@]),
{
    if r is Ok {
        assert(!conflicts_at(owned@, supplied@, name));
    }
}

/// Every identifier but the nil one names an attempt, and a step.
pub proof fn law_only_the_nil_identity_is_refused(
    id: u128,
    a: Result<AttemptIdentity, ExecutionDomainError>,
    b: Result<StepFilesId, ExecutionDomainError>,
)
    requires
        call_ensures(AttemptIdentity::from_uuid, (id,), a),
        call_ensures(StepFilesId::from_uuid, (id,), b),
    ensures
        id == 0 ==> a == Err::<AttemptIdentity, ExecutionDomainError>(
            ExecutionDomainError::InvalidAttemptIdentity,
        ) && b == Err::<StepFilesId, ExecutionDomainError>(
            ExecutionDomainError::InvalidStepFilesIdentity,
        ),
        id != 0 ==> (a matches Ok(attempt) && attempt@ == id) && (b matches Ok(step) && step@ == id),
{
}

/// No two stages share a name.
pub proof fn law_stages_have_their_own_names(
    a: Stage,
    b: Stage,
    left: &'static str,
    right: &'static str,
)
    requires
        call_ensures(Stage::name, (&a,), left),
        call_ensures(Stage::name, (&b,), right),
    ensures
        left@ == right@ <==> a == b,
{
    reveal_strlit("Preflight");
    reveal_strlit("Filesystem");
    reveal_strlit("Cgroup");
    reveal_strlit("Launch");
    reveal_strlit("Rootfs");
    reveal_strlit("Protocol");
    reveal_strlit("Command");
    reveal_strlit("State");
    reveal_strlit("Destroy");
    reveal_strlit("Reconcile");
    assert(a != b && left@.len() == right@.len() ==> left@[0] != right@[0]);
}

/// No two kinds of failure share a name.
pub proof fn law_failures_have_their_own_names(
    a: FailureCategory,
    b: FailureCategory,
    left: &'static str,
    right: &'static str,
)
    requires
        call_ensures(FailureCategory::name, (&a,), left),
        call_ensures(FailureCategory::name, (&b,), right),
    ensures
        left@ == right@ <==> a == b,
{
    reveal_strlit("Unsupported");
    reveal_strlit("InvalidInput");
    reveal_strlit("Unavailable");
    reveal_strlit("IdentityMismatch");
    reveal_strlit("Timeout");
    reveal_strlit("Io");
    reveal_strlit("Protocol");
    reveal_strlit("NotReady");
    assert(a != b && left@.len() == right@.len() ==> left@[0] != right@[0] || left@[2] != right@[2]);
}

/// An identity is never nought, and its component is the text that it is read back from.
pub proof fn law_identities_are_written_as_components(
    fresh: AttemptIdentity,
    attempt: AttemptIdentity,
    id: u128,
    component: String,
    step: StepFilesId,
    step_id: u128,
    step_component: String,
)
    requires
        call_ensures(AttemptIdentity::new, (), fresh),
        call_ensures(AttemptIdentity::uuid, (&attempt,), id),
        call_ensures(AttemptIdentity::component, (&attempt,), component),
        call_ensures(StepFilesId::uuid, (&step,), step_id),
        call_ensures(StepFilesId::component, (&step,), step_component),
    ensures
        fresh@ != 0 && id != 0 && step_id != 0,
        id == attempt@ && step_id == step@,
        component@.len() == 32 && component@ == ids::simple_text(id),
        step_component@.len() == 32 && step_component@ == ids::simple_text(step_id),
        component@ == step_component@ ==> id == step_id,
{
    ids::law_identifiers_are_written_in_base_sixteen(id, 0);
    ids::law_identifiers_are_written_in_base_sixteen(step_id, 0);
    if component@ == step_component@ {
        ids::lemma_simple_text_injective(id, step_id);
    }
}

/// The paths of a domain are fixed, and its socket stands in the directory for what runs.
pub proof fn law_domains_have_fixed_paths(paths: DomainPaths, socket: &DomainPath)
    requires
        call_ensures(DomainPaths::sandboxed, (), paths),
        call_ensures(DomainPaths::docker_socket, (&paths,), socket),
    ensures
        paths.work@ == "/work"@ && paths.tmp@ == "/tmp"@ && paths.home@ == "/home/chimera"@,
        paths.run@ == "/run/chimera"@ && socket@ == paths.run@ + "/docker.sock"@,
        paths.docker_config@ == paths.home@ + "/.docker"@,
        paths.docker_exec@ == paths.run@ + "/docker-exec"@,
        paths.docker_data@ == "/var/lib/chimera/docker"@,
{
    reveal_strlit("/run/chimera");
    reveal_strlit("/docker.sock");
    reveal_strlit("/run/chimera/docker.sock");
    reveal_strlit("/home/chimera");
    reveal_strlit("/.docker");
    reveal_strlit("/home/chimera/.docker");
    reveal_strlit("/docker-exec");
    reveal_strlit("/run/chimera/docker-exec");
    assert(socket@ =~= paths.run@ + "/docker.sock"@);
    assert(paths.docker_config@ =~= paths.home@ + "/.docker"@);
    assert(paths.docker_exec@ =~= paths.run@ + "/docker-exec"@);
}

} // verus!
