//! The private files of a step: through them a command hands its results on, and
//! nobody else can.

use std::collections::HashSet;

use vstd::prelude::*;

use crate::contracts::{
    DomainEnvironment, FailureCategory, Stage, StepFilesId, StepStateSnapshot,
};
use crate::environment::Environment;
use crate::error;
use crate::error::ExecutionDomainError;
use crate::filesystem;
use crate::ids;
use crate::linux::dirfd::Metadata;
use crate::text;

verus! {

broadcast use vstd::std_specs::hash::group_hash_axioms;

/// The largest event of a step.
pub const EVENT_LIMIT: usize = 4_194_304;

/// The largest file that a command may leave.
pub const FIELD_LIMIT: usize = 1_048_576;

/// A failure of the state of steps.
pub open spec fn state_error(category: FailureCategory) -> ExecutionDomainError {
    error::backend(Stage::State, category)
}

/// Reports a failure of the state of steps.
pub fn state_failure(category: FailureCategory) -> (e: ExecutionDomainError)
    ensures
        e == state_error(category),
{
    error::backend_failure(Stage::State, category)
}

/// A file of a step, and the variable that names it to the command.
pub struct StepFile {
    pub name: &'static str,
    pub variable: &'static str,
}

/// The files of a step, in order.
pub open spec fn step_files() -> Seq<(Seq<char>, Seq<char>)> {
    seq![
        ("env"@, "GITHUB_ENV"@),
        ("path"@, "GITHUB_PATH"@),
        ("output"@, "GITHUB_OUTPUT"@),
        ("state"@, "GITHUB_STATE"@),
        ("summary"@, "GITHUB_STEP_SUMMARY"@),
        ("event.json"@, "GITHUB_EVENT_PATH"@),
    ]
}

/// The names and variables of a list.
pub open spec fn listed(v: Seq<StepFile>) -> Seq<(Seq<char>, Seq<char>)> {
    Seq::new(v.len(), |i: int| (v[i].name@, v[i].variable@))
}

/// Lists the files of a step. The event is the last.
pub fn step_file_list() -> (r: Vec<StepFile>)
    ensures
        listed(r@) == step_files(),
{
    let mut list: Vec<StepFile> = Vec::new();
    list.push(StepFile { name: "env", variable: "GITHUB_ENV" });
    list.push(StepFile { name: "path", variable: "GITHUB_PATH" });
    list.push(StepFile { name: "output", variable: "GITHUB_OUTPUT" });
    list.push(StepFile { name: "state", variable: "GITHUB_STATE" });
    list.push(StepFile { name: "summary", variable: "GITHUB_STEP_SUMMARY" });
    list.push(StepFile { name: "event.json", variable: "GITHUB_EVENT_PATH" });
    proof {
        assert(listed(list@) =~= step_files());
    }
    list
}

/// The path of a file of a step, as the command sees it.
pub open spec fn step_path(id: u128, name: Seq<char>) -> Seq<char> {
    "/run/chimera/steps/"@ + ids::simple_text(id) + "/"@ + name
}

fn path_of(id: &StepFilesId, name: &str) -> (r: String)
    ensures
        r@ == step_path(id@, name@),
{
    let component: String = id.component();
    let mut out: String = text::concat("/run/chimera/steps/", component.as_str());
    out = text::concat(out.as_str(), "/");
    text::concat(out.as_str(), name)
}

/// The variables that name the first `n` files of a step.
pub open spec fn step_variables(id: u128, n: int) -> Map<Seq<char>, Seq<char>>
    decreases n,
{
    if n <= 0 {
        Map::empty()
    } else {
        step_variables(id, n - 1).insert(step_files()[n - 1].1, step_path(id, step_files()[n - 1].0))
    }
}

/// Whether a command was supplied with another file of the step than its own.
pub open spec fn overrides(
    supplied: Map<Seq<char>, Seq<char>>,
    id: u128,
    i: int,
) -> bool {
    let variable = step_files()[i].1;
    supplied.contains_key(variable) && supplied[variable] != step_path(id, step_files()[i].0)
}

/// Whether this is the first file that a command was supplied with another one for.
pub open spec fn first_override(
    supplied: Map<Seq<char>, Seq<char>>,
    id: u128,
    i: int,
) -> bool {
    &&& 0 <= i < 6
    &&& overrides(supplied, id, i)
    &&& forall|k: int| 0 <= k < i ==> !#[trigger] overrides(supplied, id, k)
}

/// Whether what is supplied replaces neither what the domain imposes nor the files of
/// a step.
pub open spec fn replaces_nothing(supplied: Map<Seq<char>, Seq<char>>, id: u128) -> bool {
    &&& forall|name: Seq<char>|
        !crate::contracts::conflicts_at(crate::contracts::reserved_variables(), supplied, name)
    &&& forall|i: int| 0 <= i < 6 ==> !#[trigger] overrides(supplied, id, i)
}

/// Whether the error names what is replaced: a variable that the domain imposes, or
/// else the first file of the step.
pub open spec fn replacement_refused(
    supplied: Map<Seq<char>, Seq<char>>,
    id: u128,
    e: ExecutionDomainError,
) -> bool {
    e matches ExecutionDomainError::ReservedDomainEnvironment { key, source } && source@
        == "command"@ && {
        let reserved = crate::contracts::reserved_variables();
        if exists|name: Seq<char>| crate::contracts::conflicts_at(reserved, supplied, name) {
            crate::contracts::conflicts_at(reserved, supplied, key@)
        } else {
            exists|i: int| first_override(supplied, id, i) && key@ == step_files()[i].1
        }
    }
}

/// The steps that have their files.
pub struct StepFiles {
    pub steps: HashSet<u128>,
}

impl View for StepFiles {
    type V = Set<u128>;

    open spec fn view(&self) -> Set<u128> {
        self.steps@
    }
}

impl StepFiles {
    /// No steps yet.
    pub fn create() -> (r: StepFiles)
        ensures
            r@ == Set::<u128>::empty(),
    {
        StepFiles { steps: HashSet::new() }
    }

    /// Whether a step has its files.
    pub fn contains(&self, id: &StepFilesId) -> (r: bool)
        ensures
            r == self@.contains(id@),
    {
        self.steps.contains(&id.uuid())
    }

    /// Accepts a new step with its event, before any file is made.
    pub fn check_prepare(&self, id: &StepFilesId, event_length: usize) -> (r: Result<
        (),
        ExecutionDomainError,
    >)
        ensures
            ({
                let fine = event_length <= EVENT_LIMIT && !self@.contains(id@);
                match r {
                    Ok(_) => fine,
                    Err(e) => !fine && e == state_error(FailureCategory::InvalidInput),
                }
            }),
    {
        if event_length > EVENT_LIMIT || self.contains(id) {
            return Err(state_failure(FailureCategory::InvalidInput));
        }
        Ok(())
    }

    /// Notes a step, where its event was accepted and its files could be made.
    pub fn prepare(
        &mut self,
        id: &StepFilesId,
        event_length: usize,
        made: Result<(), ExecutionDomainError>,
    ) -> (r: Result<(), ExecutionDomainError>)
        ensures
            if event_length > EVENT_LIMIT || old(self)@.contains(id@) {
                final(self)@ == old(self)@ && r == Err::<(), ExecutionDomainError>(
                    state_error(FailureCategory::InvalidInput),
                )
            } else {
                match made {
                    Err(e) => final(self)@ == old(self)@ && r == Err::<(), ExecutionDomainError>(e),
                    Ok(_) => final(self)@ == old(self)@.insert(id@) && r is Ok,
                }
            },
    {
        match self.check_prepare(id, event_length) {
            Ok(_) => {},
            Err(e) => {
                return Err(e);
            },
        }
        match made {
            Err(e) => Err(e),
            Ok(_) => {
                let _ = self.steps.insert(id.uuid());
                Ok(())
            },
        }
    }

    /// Forgets a step.
    pub fn discard(&mut self, id: &StepFilesId)
        ensures
            final(self)@ == old(self)@.remove(id@),
    {
        let _ = self.steps.remove(&id.uuid());
    }

    /// The environment of a command of a step: what was supplied, what the domain
    /// imposes, and the files of the step, which nothing supplied may replace.
    pub fn environment(
        &self,
        id: &StepFilesId,
        verified: Result<(), ExecutionDomainError>,
        supplied: &Environment,
    ) -> (r: Result<Environment, ExecutionDomainError>)
        ensures
            if !self@.contains(id@) {
                r matches Err(e) && e == state_error(FailureCategory::InvalidInput)
            } else if verified is Err {
                r matches Err(e) && verified == Err::<(), ExecutionDomainError>(e)
            } else {
                match r {
                    Ok(env) => replaces_nothing(supplied@, id@) && env@
                        == supplied@.union_prefer_right(
                        crate::contracts::reserved_variables(),
                    ).union_prefer_right(step_variables(id@, 6)),
                    Err(e) => !replaces_nothing(supplied@, id@) && replacement_refused(
                        supplied@,
                        id@,
                        e,
                    ),
                }
            },
    {
        if !self.contains(id) {
            return Err(state_failure(FailureCategory::InvalidInput));
        }
        match verified {
            Err(e) => {
                return Err(e);
            },
            Ok(_) => {},
        }
        let mut env: Environment = match DomainEnvironment::sandboxed().merge(supplied, "command") {
            Ok(env) => env,
            Err(e) => {
                return Err(e);
            },
        };
        let ghost base = env@;
        let files: Vec<StepFile> = step_file_list();
        proof {
            assert(listed(files@).len() == files@.len());
            assert(base.union_prefer_right(step_variables(id@, 0)) =~= base);
        }
        for i in 0..files.len()
            invariant
                listed(files@) == step_files(),
                files@.len() == 6,
                self@.contains(id@),
                verified is Ok,
                base == supplied@.union_prefer_right(crate::contracts::reserved_variables()),
                env@ == base.union_prefer_right(step_variables(id@, i as int)),
                forall|k: int| 0 <= k < i ==> !#[trigger] overrides(supplied@, id@, k),
                forall|name: Seq<char>|
                    !crate::contracts::conflicts_at(
                        crate::contracts::reserved_variables(),
                        supplied@,
                        name,
                    ),
        {
            let file: &StepFile = &files[i];
            assert(step_files()[i as int] == (file.name@, file.variable@));
            let value: String = path_of(id, file.name);
            match supplied.get(file.variable) {
                Some(given) => {
                    if !text::same_str(given.as_str(), value.as_str()) {
                        assert(first_override(supplied@, id@, i as int));
                        return Err(
                            ExecutionDomainError::ReservedDomainEnvironment {
                                key: file.variable.to_owned(),
                                source: "command",
                            },
                        );
                    }
                },
                None => {},
            }
            let ghost before = env@;
            env.insert(file.variable.to_owned(), value);
            proof {
                assert(env@ =~= base.union_prefer_right(step_variables(id@, i + 1)));
                assert(!overrides(supplied@, id@, i as int));
            }
        }
        Ok(env)
    }

    /// What a step left in its files: all of them text, none of them replaced before
    /// or while they were read. What it set as variables is left to
    /// `check_step_variables`.
    pub fn read(
        &self,
        id: &StepFilesId,
        before: Result<(), ExecutionDomainError>,
        fields: StepFields,
        after: Result<(), ExecutionDomainError>,
    ) -> (r: Result<StepStateSnapshot, ExecutionDomainError>)
        ensures
            if !self@.contains(id@) {
                r matches Err(e) && e == state_error(FailureCategory::InvalidInput)
            } else if before is Err {
                r matches Err(e) && before == Err::<(), ExecutionDomainError>(e)
            } else {
                match first_field_error(fields) {
                    Some(problem) => r matches Err(e) && e == problem,
                    None => if after is Err {
                        r matches Err(e) && after == Err::<(), ExecutionDomainError>(e)
                    } else {
                        r matches Ok(s) && field_is(fields.env, s.env@) && field_is(
                            fields.path,
                            s.path@,
                        ) && field_is(fields.output, s.output@) && field_is(fields.state, s.state@)
                            && field_is(fields.summary, s.summary@)
                    },
                }
            },
    {
        if !self.contains(id) {
            return Err(state_failure(FailureCategory::InvalidInput));
        }
        match before {
            Err(e) => {
                return Err(e);
            },
            Ok(_) => {},
        }
        let StepFields { env, path, output, state, summary } = fields;
        let env: String = match read_field(env) {
            Ok(s) => s,
            Err(e) => {
                return Err(e);
            },
        };
        let path: String = match read_field(path) {
            Ok(s) => s,
            Err(e) => {
                return Err(e);
            },
        };
        let output: String = match read_field(output) {
            Ok(s) => s,
            Err(e) => {
                return Err(e);
            },
        };
        let state: String = match read_field(state) {
            Ok(s) => s,
            Err(e) => {
                return Err(e);
            },
        };
        let summary: String = match read_field(summary) {
            Ok(s) => s,
            Err(e) => {
                return Err(e);
            },
        };
        match after {
            Err(e) => {
                return Err(e);
            },
            Ok(_) => {},
        }
        Ok(StepStateSnapshot { env, path, output, state, summary })
    }
}

/// What reading each file of a step gave.
pub struct StepFields {
    pub env: Result<Vec<u8>, ExecutionDomainError>,
    pub path: Result<Vec<u8>, ExecutionDomainError>,
    pub output: Result<Vec<u8>, ExecutionDomainError>,
    pub state: Result<Vec<u8>, ExecutionDomainError>,
    pub summary: Result<Vec<u8>, ExecutionDomainError>,
}

/// Whether a file was read, and holds a text.
pub open spec fn field_is(field: Result<Vec<u8>, ExecutionDomainError>, text: Seq<char>) -> bool {
    field matches Ok(raw) && vstd::utf8::valid_utf8(raw@) && vstd::utf8::encode_utf8(text) == raw@
}

/// Why a file gives no text.
pub open spec fn field_error(field: Result<Vec<u8>, ExecutionDomainError>) -> Option<
    ExecutionDomainError,
> {
    match field {
        Err(e) => Some(e),
        Ok(raw) => if vstd::utf8::valid_utf8(raw@) {
            None
        } else {
            Some(state_error(FailureCategory::InvalidInput))
        },
    }
}

/// Why the first file that gives no text does not.
pub open spec fn first_field_error(f: StepFields) -> Option<ExecutionDomainError> {
    if field_error(f.env) is Some {
        field_error(f.env)
    } else if field_error(f.path) is Some {
        field_error(f.path)
    } else if field_error(f.output) is Some {
        field_error(f.output)
    } else if field_error(f.state) is Some {
        field_error(f.state)
    } else {
        field_error(f.summary)
    }
}

fn read_field(field: Result<Vec<u8>, ExecutionDomainError>) -> (r: Result<
    String,
    ExecutionDomainError,
>)
    ensures
        match r {
            Ok(s) => field_is(field, s@) && field_error(field) is None,
            Err(e) => field_error(field) == Some(e),
        },
{
    match field {
        Err(e) => Err(e),
        Ok(raw) => match filesystem::decode_utf8(raw.as_slice()) {
            Some(s) => Ok(s),
            None => Err(state_failure(FailureCategory::InvalidInput)),
        },
    }
}

/// Whether variables leave what the domain imposes as it is.
pub open spec fn changes_nothing(values: Map<Seq<char>, Seq<char>>) -> bool {
    forall|name: Seq<char>|
        !crate::contracts::conflicts_at(crate::contracts::reserved_variables(), values, name)
}

/// Accepts what a step set as variables only if none of them is the domain's own with
/// another value.
pub fn check_step_variables(parsed: &Environment) -> (r: Result<(), ExecutionDomainError>)
    ensures
        match r {
            Ok(_) => changes_nothing(parsed@),
            Err(e) => e matches ExecutionDomainError::ReservedDomainEnvironment { key, source }
                && source@ == "GITHUB_ENV"@ && crate::contracts::conflicts_at(
                crate::contracts::reserved_variables(),
                parsed@,
                key@,
            ),
        },
{
    match DomainEnvironment::sandboxed().merge(parsed, "GITHUB_ENV") {
        Ok(_) => Ok(()),
        Err(e) => Err(e),
    }
}

/// Accepts a file of a step only if nobody else has a name for it or may use it.
pub fn check_step_file(m: &Metadata) -> (r: Result<(), ExecutionDomainError>)
    ensures
        ({
            let fine = m.nlink == 1 && m.mode & 0o777 == 0o600;
            match r {
                Ok(_) => fine,
                Err(e) => !fine && e == state_error(FailureCategory::IdentityMismatch),
            }
        }),
{
    if m.nlink != 1 || m.mode & 0o777 != 0o600 {
        return Err(state_failure(FailureCategory::IdentityMismatch));
    }
    Ok(())
}

/// The files of different steps have different paths, so no command is given the
/// files of another step.
pub proof fn law_steps_share_no_file(a: u128, b: u128, i: int, j: int)
    requires
        a != b,
        0 <= i < 6,
        0 <= j < 6,
    ensures
        step_path(a, step_files()[i].0) != step_path(b, step_files()[j].0),
{
    let x = step_path(a, step_files()[i].0);
    let y = step_path(b, step_files()[j].0);
    let start = "/run/chimera/steps/"@.len() as int;
    ids::lemma_hex_len(a as nat, 32);
    ids::lemma_hex_len(b as nat, 32);
    assert(x.subrange(start, start + 32) =~= ids::simple_text(a));
    assert(y.subrange(start, start + 32) =~= ids::simple_text(b));
    if x == y {
        ids::lemma_simple_text_injective(a, b);
    }
}

/// The files of a step stand in a directory of its own below that of all steps.
pub proof fn law_steps_have_their_own_directory(id: u128, name: Seq<char>)
    ensures
        step_path(id, name) == "/run/chimera/steps/"@ + ids::simple_text(id) + "/"@ + name,
        step_files().len() == 6,
        step_files()[0] == ("env"@, "GITHUB_ENV"@),
        step_files()[1] == ("path"@, "GITHUB_PATH"@),
        step_files()[2] == ("output"@, "GITHUB_OUTPUT"@),
        step_files()[3] == ("state"@, "GITHUB_STATE"@),
        step_files()[4] == ("summary"@, "GITHUB_STEP_SUMMARY"@),
        step_files()[5] == ("event.json"@, "GITHUB_EVENT_PATH"@),
{
}

/// A command of a step that is there and untouched gets what was supplied, what the
/// domain imposes, and the six files of the step, as long as nothing that was supplied
/// would replace any of these.
pub proof fn law_steps_get_their_files(
    steps: StepFiles,
    id: StepFilesId,
    verified: Result<(), ExecutionDomainError>,
    supplied: Environment,
    name: Seq<char>,
    r: Result<Environment, ExecutionDomainError>,
)
    requires
        call_ensures(StepFiles::environment, (&steps, &id, verified, &supplied), r),
        steps@.contains(id@),
        verified is Ok,
        !supplied@.contains_key("GITHUB_ENV"@),
        !supplied@.contains_key("GITHUB_PATH"@),
        !supplied@.contains_key("GITHUB_OUTPUT"@),
        !supplied@.contains_key("GITHUB_STATE"@),
        !supplied@.contains_key("GITHUB_STEP_SUMMARY"@),
        !supplied@.contains_key("GITHUB_EVENT_PATH"@),
        !supplied@.contains_key("HOME"@),
        !supplied@.contains_key("XDG_RUNTIME_DIR"@),
        !supplied@.contains_key("DOCKER_CONFIG"@),
        !supplied@.contains_key("DOCKER_HOST"@),
    ensures
        r matches Ok(env) && {
            let base = "/run/chimera/steps/"@ + ids::simple_text(id@) + "/"@;
            &&& env@.contains_key("GITHUB_ENV"@) && env@["GITHUB_ENV"@] == base + "env"@
            &&& env@.contains_key("GITHUB_PATH"@) && env@["GITHUB_PATH"@] == base + "path"@
            &&& env@.contains_key("GITHUB_OUTPUT"@) && env@["GITHUB_OUTPUT"@] == base + "output"@
            &&& env@.contains_key("GITHUB_STATE"@) && env@["GITHUB_STATE"@] == base + "state"@
            &&& env@.contains_key("GITHUB_STEP_SUMMARY"@) && env@["GITHUB_STEP_SUMMARY"@] == base + "summary"@
            &&& env@.contains_key("GITHUB_EVENT_PATH"@) && env@["GITHUB_EVENT_PATH"@] == base + "event.json"@
            &&& supplied@.contains_key(name) ==> env@.contains_key(name) && env@[name]
                == supplied@[name]
            &&& env@.contains_key("HOME"@) && env@["HOME"@] == "/home/chimera"@
            &&& env@.contains_key("DOCKER_CONFIG"@) && env@["DOCKER_CONFIG"@]
                == "/home/chimera/.docker"@
        },
{
    let reserved = crate::contracts::reserved_variables();
    let all = step_variables(id@, 6);
    lemma_variables_are_distinct();
    assert forall|n: Seq<char>| !crate::contracts::conflicts_at(reserved, supplied@, n) by {
        if reserved.contains_key(n) {
            assert(n == "HOME"@ || n == "XDG_RUNTIME_DIR"@ || n == "DOCKER_CONFIG"@ || n
                == "DOCKER_HOST"@);
        }
    }
    assert forall|k: int| 0 <= k < 6 implies !#[trigger] overrides(supplied@, id@, k) by {
        law_steps_have_their_own_directory(id@, seq![]);
    }
    assert(replaces_nothing(supplied@, id@));
    reveal_with_fuel(step_variables, 7);
    law_steps_have_their_own_directory(id@, seq![]);
    let base = "/run/chimera/steps/"@ + ids::simple_text(id@) + "/"@;
    assert(all["GITHUB_ENV"@] == base + "env"@);
    assert(all["GITHUB_PATH"@] == base + "path"@);
    assert(all["GITHUB_OUTPUT"@] == base + "output"@);
    assert(all["GITHUB_STATE"@] == base + "state"@);
    assert(all["GITHUB_STEP_SUMMARY"@] == base + "summary"@);
    assert(all["GITHUB_EVENT_PATH"@] == base + "event.json"@);
    assert(!all.contains_key("HOME"@));
    assert(!all.contains_key("DOCKER_CONFIG"@));
    if supplied@.contains_key(name) {
        assert(!all.contains_key(name));
        assert(!reserved.contains_key(name));
    }
}

proof fn lemma_variables_are_distinct()
    ensures
        "GITHUB_ENV"@ != "GITHUB_PATH"@,
        "GITHUB_ENV"@ != "GITHUB_OUTPUT"@,
        "GITHUB_ENV"@ != "GITHUB_STATE"@,
        "GITHUB_ENV"@ != "GITHUB_STEP_SUMMARY"@,
        "GITHUB_ENV"@ != "GITHUB_EVENT_PATH"@,
        "GITHUB_PATH"@ != "GITHUB_OUTPUT"@,
        "GITHUB_PATH"@ != "GITHUB_STATE"@,
        "GITHUB_PATH"@ != "GITHUB_STEP_SUMMARY"@,
        "GITHUB_PATH"@ != "GITHUB_EVENT_PATH"@,
        "GITHUB_OUTPUT"@ != "GITHUB_STATE"@,
        "GITHUB_OUTPUT"@ != "GITHUB_STEP_SUMMARY"@,
        "GITHUB_OUTPUT"@ != "GITHUB_EVENT_PATH"@,
        "GITHUB_STATE"@ != "GITHUB_STEP_SUMMARY"@,
        "GITHUB_STATE"@ != "GITHUB_EVENT_PATH"@,
        "GITHUB_STEP_SUMMARY"@ != "GITHUB_EVENT_PATH"@,
        "HOME"@ != "XDG_RUNTIME_DIR"@,
        "HOME"@ != "DOCKER_CONFIG"@,
        "HOME"@ != "DOCKER_HOST"@,
        "XDG_RUNTIME_DIR"@ != "DOCKER_CONFIG"@,
        "XDG_RUNTIME_DIR"@ != "DOCKER_HOST"@,
        "DOCKER_CONFIG"@ != "DOCKER_HOST"@,
        forall|i: int|
            0 <= i < 6 ==> (#[trigger] step_files()[i]).1 != "HOME"@ && step_files()[i].1
                != "DOCKER_CONFIG"@ && step_files()[i].1 != "XDG_RUNTIME_DIR"@ && step_files()[i].1
                != "DOCKER_HOST"@,
{
    reveal_strlit("GITHUB_ENV");
    reveal_strlit("GITHUB_PATH");
    reveal_strlit("GITHUB_OUTPUT");
    reveal_strlit("GITHUB_STATE");
    reveal_strlit("GITHUB_STEP_SUMMARY");
    reveal_strlit("GITHUB_EVENT_PATH");
    reveal_strlit("HOME");
    reveal_strlit("XDG_RUNTIME_DIR");
    reveal_strlit("DOCKER_CONFIG");
    reveal_strlit("DOCKER_HOST");
    assert("GITHUB_ENV"@.len() == 10 && "GITHUB_PATH"@.len() == 11 && "GITHUB_OUTPUT"@.len() == 13
        && "GITHUB_STATE"@.len() == 12 && "GITHUB_STEP_SUMMARY"@.len() == 19
        && "GITHUB_EVENT_PATH"@.len() == 17);
    assert("HOME"@.len() == 4 && "XDG_RUNTIME_DIR"@.len() == 15 && "DOCKER_CONFIG"@.len() == 13
        && "DOCKER_HOST"@.len() == 11);
    assert("GITHUB_OUTPUT"@[0] == 'G' && "DOCKER_CONFIG"@[0] == 'D');
    assert("GITHUB_PATH"@[0] == 'G' && "DOCKER_HOST"@[0] == 'D');
    assert forall|i: int| 0 <= i < 6 implies (#[trigger] step_files()[i]).1 != "HOME"@
        && step_files()[i].1 != "DOCKER_CONFIG"@ && step_files()[i].1 != "XDG_RUNTIME_DIR"@
        && step_files()[i].1 != "DOCKER_HOST"@ by {
        law_steps_have_their_own_directory(0, seq![]);
        if i == 0 {
        } else if i == 1 {
        } else if i == 2 {
        } else if i == 3 {
        } else if i == 4 {
        } else {
        }
    }
}

/// A command of a step that is not there, or was touched, gets nothing, and neither does
/// one that would replace a file of its step.
pub proof fn law_replaced_files_are_refused(
    steps: StepFiles,
    id: StepFilesId,
    verified: Result<(), ExecutionDomainError>,
    supplied: Environment,
    i: int,
    r: Result<Environment, ExecutionDomainError>,
)
    requires
        call_ensures(StepFiles::environment, (&steps, &id, verified, &supplied), r),
        0 <= i < 6,
    ensures
        !steps@.contains(id@) ==> r is Err,
        steps@.contains(id@) && verified is Err ==> r is Err && r->Err_0 == verified->Err_0,
        supplied@.contains_key(step_files()[i].1) && supplied@[step_files()[i].1]
            != "/run/chimera/steps/"@ + ids::simple_text(id@) + "/"@ + step_files()[i].0 ==> r
            is Err,
{
    if supplied@.contains_key(step_files()[i].1) && supplied@[step_files()[i].1]
        != "/run/chimera/steps/"@ + ids::simple_text(id@) + "/"@ + step_files()[i].0 {
        assert(overrides(supplied@, id@, i));
    }
}

/// A step is there once its files were made, and until it is discarded. Its event may
/// have four mebibytes, and no step is made twice.
pub proof fn law_steps_are_made_once(
    steps: &mut StepFiles,
    id: StepFilesId,
    event_length: usize,
    made: Result<(), ExecutionDomainError>,
    other: u128,
    r: Result<(), ExecutionDomainError>,
)
    requires
        call_ensures(StepFiles::prepare, (steps, &id, event_length, made), r),
    ensures
        r is Ok <==> event_length <= 4_194_304 && !old(steps)@.contains(id@) && made is Ok,
        r is Ok ==> final(steps)@.contains(id@),
        r is Err ==> final(steps)@ == old(steps)@,
        other != id@ ==> (final(steps)@.contains(other) <==> old(steps)@.contains(other)),
        event_length <= 4_194_304 && !old(steps)@.contains(id@) && made is Err ==> r == made,
{
}

/// A discarded step is gone, and no other.
pub proof fn law_discarded_steps_are_gone(steps: &mut StepFiles, id: StepFilesId, other: u128)
    requires
        call_ensures(StepFiles::discard, (steps, &id), ()),
    ensures
        !final(steps)@.contains(id@),
        other != id@ ==> (final(steps)@.contains(other) <==> old(steps)@.contains(other)),
{
}

/// What a step left is read as it stands in its files, each in its own place; one file
/// that is no text spoils it, and so does a file that was replaced meanwhile.
pub proof fn law_results_are_read_as_written(
    steps: StepFiles,
    id: StepFilesId,
    before: Result<(), ExecutionDomainError>,
    fields: StepFields,
    after: Result<(), ExecutionDomainError>,
    r: Result<StepStateSnapshot, ExecutionDomainError>,
)
    requires
        call_ensures(StepFiles::read, (&steps, &id, before, fields, after), r),
    ensures
        r matches Ok(s) ==> steps@.contains(id@) && before is Ok && after is Ok && fields.env is Ok
            && fields.path is Ok && fields.output is Ok && fields.state is Ok && fields.summary is Ok
            && vstd::utf8::encode_utf8(s.env@) == fields.env->Ok_0@ && vstd::utf8::encode_utf8(
            s.path@,
        ) == fields.path->Ok_0@ && vstd::utf8::encode_utf8(s.output@) == fields.output->Ok_0@
            && vstd::utf8::encode_utf8(s.state@) == fields.state->Ok_0@ && vstd::utf8::encode_utf8(
            s.summary@,
        ) == fields.summary->Ok_0@,
        steps@.contains(id@) && before is Ok && after is Ok && fields.env is Ok && fields.path is Ok
            && fields.output is Ok && fields.state is Ok && fields.summary is Ok
            && vstd::utf8::valid_utf8(fields.env->Ok_0@) && vstd::utf8::valid_utf8(
            fields.path->Ok_0@,
        ) && vstd::utf8::valid_utf8(fields.output->Ok_0@) && vstd::utf8::valid_utf8(
            fields.state->Ok_0@,
        ) && vstd::utf8::valid_utf8(fields.summary->Ok_0@) ==> r is Ok,
{
}

/// Files of a step have one name, and only their owner may read and write them.
pub proof fn law_step_files_are_private(m: Metadata, r: Result<(), ExecutionDomainError>)
    requires
        call_ensures(check_step_file, (&m,), r),
    ensures
        r is Ok <==> m.nlink == 1 && m.mode & 0o777 == 0o600,
{
}

/// A step cannot set what the domain imposes, and can set everything else.
pub proof fn law_steps_cannot_set_what_is_imposed(
    parsed: Environment,
    name: Seq<char>,
    r: Result<(), ExecutionDomainError>,
)
    requires
        call_ensures(check_step_variables, (&parsed,), r),
    ensures
        name == "HOME"@ && parsed@.contains_key(name) && parsed@[name] != "/home/chimera"@ ==> r
            is Err,
        name == "DOCKER_CONFIG"@ && parsed@.contains_key(name) && parsed@[name]
            != "/home/chimera/.docker"@ ==> r is Err,
        name == "XDG_RUNTIME_DIR"@ && parsed@.contains_key(name) && parsed@[name] != "/run/chimera"@
            ==> r is Err,
        !parsed@.contains_key("HOME"@) && !parsed@.contains_key("DOCKER_CONFIG"@)
            && !parsed@.contains_key("XDG_RUNTIME_DIR"@) && !parsed@.contains_key("DOCKER_HOST"@)
            ==> r is Ok,
{
    lemma_variables_are_distinct();
    let reserved = crate::contracts::reserved_variables();
    assert(reserved["HOME"@] == "/home/chimera"@);
    assert(reserved["DOCKER_CONFIG"@] == "/home/chimera/.docker"@);
    assert(reserved["XDG_RUNTIME_DIR"@] == "/run/chimera"@);
    assert(r is Ok ==> !crate::contracts::conflicts_at(reserved, parsed@, name));
}

/// A step may be prepared once, with an event of at most four mebibytes.
pub proof fn law_steps_are_prepared_once(
    fresh: StepFiles,
    steps: StepFiles,
    id: StepFilesId,
    length: usize,
    known: bool,
    r: Result<(), ExecutionDomainError>,
)
    requires
        call_ensures(StepFiles::create, (), fresh),
        call_ensures(StepFiles::contains, (&steps, &id), known),
        call_ensures(StepFiles::check_prepare, (&steps, &id, length), r),
    ensures
        fresh@ == Set::<u128>::empty(),
        known <==> steps@.contains(id@),
        r is Ok <==> !known && length <= 4_194_304,
{
}

/// A step has six files, each under a name and a variable of its own.
pub proof fn law_steps_have_six_files(r: Vec<StepFile>)
    requires
        call_ensures(step_file_list, (), r),
    ensures
        r@.len() == 6,
        r@[0].name@ == "env"@ && r@[0].variable@ == "GITHUB_ENV"@,
        r@[1].name@ == "path"@ && r@[1].variable@ == "GITHUB_PATH"@,
        r@[2].name@ == "output"@ && r@[2].variable@ == "GITHUB_OUTPUT"@,
        r@[3].name@ == "state"@ && r@[3].variable@ == "GITHUB_STATE"@,
        r@[4].name@ == "summary"@ && r@[4].variable@ == "GITHUB_STEP_SUMMARY"@,
        r@[5].name@ == "event.json"@ && r@[5].variable@ == "GITHUB_EVENT_PATH"@,
{
    assert(listed(r@).len() == 6);
    assert forall|i: int| 0 <= i < 6 implies listed(r@)[i] == (
        (#[trigger] r@[i]).name@,
        r@[i].variable@,
    ) by {}
}

} // verus!
