use execution_domain::contracts::{
    AttemptIdentity, CancelReason, CommandEvent, CommandOutcome, CommandSpec, CommandTarget,
    DomainPath, FailureCategory, StepFilesId,
};
use execution_domain::environment::Environment;
use execution_domain::error::ExecutionDomainError;
use execution_domain::linux::command::{
    decode_wait_status, group_exists, grouped, signal_sent, DueSignal, Opened, OutputRead, PreparedCommand,
    RunningCommand, DRAIN_GRACE, TERM_GRACE,
};
use execution_domain::linux::init::{
    accept_bootstrap, reap_next, CancelDisposition, Incoming, InitAction, InitRuntime, InitWait,
    InitWaitStep, ReapNext, RunStage, Startup, StartupAction, StateAction,
};
use execution_domain::linux::step_files::{
    check_step_variables, state_failure, StepFields, StepFiles, EVENT_LIMIT,
};

const SECOND: u128 = 1_000_000_000;

const OPENED: Opened = Opened { program: Some(0o100755), cwd: true, errno: None };

#[test]
fn init_exit_status_preserves_signal_vs_exit_code() {
    assert_eq!(decode_wait_status(7 << 8), CommandOutcome::Exited(7));
    assert_eq!(decode_wait_status(libc::SIGTERM), CommandOutcome::Signalled(libc::SIGTERM));
}

fn spec(args: &[&str], env: &[(&str, &str)], state: Option<StepFilesId>) -> CommandSpec {
    let mut variables = Environment::new();
    for (name, value) in env {
        variables.insert((*name).to_owned(), (*value).to_owned());
    }
    CommandSpec {
        target: CommandTarget::Sandboxed {
            program: DomainPath::parse("/bin/sh").unwrap(),
            args: args.iter().map(|a| (*a).to_owned()).collect(),
            cwd: DomainPath::parse("/").unwrap(),
        },
        env: variables,
        timeout: SECOND,
        state,
    }
}

#[test]
fn command_preparation_clears_inherited_environment_and_rejects_reserved_overrides() {
    let base = || spec(&["-c", "exit 7"], &[("SAFE", "value")], None);
    let prepared = PreparedCommand::new(base(), 0, &OPENED).unwrap();
    assert_eq!(prepared.args, ["/bin/sh", "-c", "exit 7"]);
    let values: Vec<&str> = prepared.env.iter().map(|value| value.as_str()).collect();
    assert!(values.contains(&"SAFE=value"));
    assert!(values.contains(&"HOME=/home/chimera"));
    assert!(values.contains(&"DOCKER_HOST=unix:///run/chimera/docker.sock"));
    assert_eq!(values.len(), 5);
    let mut bad = base();
    bad.env.insert("DOCKER_HOST".into(), "CANARY_SECRET".into());
    assert!(PreparedCommand::new(bad, 0, &OPENED).is_err());
    let mut bad = base();
    bad.env.insert("BAD=KEY".into(), "value".into());
    assert!(PreparedCommand::new(bad, 0, &OPENED).is_err());
    let mut bad = base();
    bad.timeout = std::time::Duration::MAX.as_nanos();
    assert!(PreparedCommand::new(bad, 0, &OPENED).is_err());
}

#[test]
fn command_state_binding_injects_private_files_and_rejects_any_override() {
    let mut steps = StepFiles::create();
    let id = StepFilesId::new();
    steps.prepare(&id, b"{}".len(), Ok(())).unwrap();
    let base = || spec(&[], &[], Some(id));
    let prepared = PreparedCommand::with_state(base(), 0, &OPENED, &steps, Ok(())).unwrap();
    let env: Vec<&str> = prepared.env.iter().map(|value| value.as_str()).collect();
    assert!(env.contains(
        &format!("GITHUB_EVENT_PATH=/run/chimera/steps/{}/event.json", id.component()).as_str()
    ));
    assert!(env
        .contains(&format!("GITHUB_STATE=/run/chimera/steps/{}/state", id.component()).as_str()));
    for key in [
        "GITHUB_ENV",
        "GITHUB_PATH",
        "GITHUB_OUTPUT",
        "GITHUB_STATE",
        "GITHUB_STEP_SUMMARY",
        "GITHUB_EVENT_PATH",
    ] {
        let mut bad = base();
        bad.env.insert(key.into(), "/CANARY".into());
        let error =
            PreparedCommand::with_state(bad, 0, &OPENED, &steps, Ok(())).err().unwrap();
        assert!(!format!("{error:?}").contains("CANARY"));
    }
    let mut unknown = base();
    unknown.state = Some(StepFilesId::new());
    assert!(PreparedCommand::with_state(unknown, 0, &OPENED, &steps, Ok(())).is_err());
}

#[test]
fn event_limit_is_four_mib_and_failure_creates_no_step() {
    let mut files = StepFiles::create();
    let id = StepFilesId::new();
    assert!(files.prepare(&id, 4 * 1024 * 1024 + 1, Ok(())).is_err());
    assert!(!files.contains(&id));
    files.prepare(&id, 4 * 1024 * 1024, Ok(())).unwrap();
    assert!(files.contains(&id));
    assert_eq!(EVENT_LIMIT, 4 * 1024 * 1024);
}

fn fields(env: &[u8]) -> StepFields {
    StepFields {
        env: Ok(env.to_vec()),
        path: Ok(Vec::new()),
        output: Ok(b"a=1\n".to_vec()),
        state: Ok(Vec::new()),
        summary: Ok(Vec::new()),
    }
}

#[test]
fn steps_are_fresh_and_their_files_are_read_whole() {
    let mut files = StepFiles::create();
    let id = StepFilesId::new();
    files.prepare(&id, 2, Ok(())).unwrap();
    assert!(files.prepare(&id, 2, Ok(())).is_err());
    let snapshot = files.read(&id, Ok(()), fields(b"TOKEN=one\n"), Ok(())).unwrap();
    assert_eq!(snapshot.env, "TOKEN=one\n");
    assert_eq!(snapshot.output, "a=1\n");
    assert!(files.read(&StepFilesId::new(), Ok(()), fields(b""), Ok(())).is_err());
    assert!(files.read(&id, Ok(()), fields(b"\xff\xfe"), Ok(())).is_err());
    assert!(files
        .read(&id, Ok(()), fields(b""), Err(state_failure(FailureCategory::IdentityMismatch)))
        .is_err());
    files.discard(&id);
    assert!(!files.contains(&id));
    let next = StepFilesId::new();
    assert!(files.prepare(&next, 2, Err(state_failure(FailureCategory::Io))).is_err());
    assert!(!files.contains(&next));
}

#[test]
fn steps_cannot_set_the_variables_of_the_domain() {
    let mut parsed = Environment::new();
    parsed.insert("TOKEN".to_owned(), "one".to_owned());
    assert!(check_step_variables(&parsed).is_ok());
    parsed.insert("HOME".to_owned(), "/work".to_owned());
    assert!(check_step_variables(&parsed).is_err());
}

#[test]
fn a_command_that_cannot_be_opened_is_refused() {
    let closed = Opened { program: None, cwd: true, errno: Some(libc::ENOENT) };
    assert!(PreparedCommand::new(spec(&[], &[], None), 0, &closed).is_err());
    let plain = Opened { program: Some(0o100644), cwd: true, errno: None };
    assert!(PreparedCommand::new(spec(&[], &[], None), 0, &plain).is_err());
    let trusted = CommandSpec {
        target: CommandTarget::Trusted { program: vec![b'a'], args: vec![], cwd: vec![b'/'] },
        env: Environment::new(),
        timeout: 1,
        state: None,
    };
    assert!(PreparedCommand::new(trusted, 0, &OPENED).is_err());
}

#[test]
fn a_timed_out_command_is_asked_and_made_to_end() {
    let mut command = RunningCommand::started(1, 70, 10);
    assert_eq!(command.due_signal(9), DueSignal::Nothing);
    assert_eq!(command.due_signal(10), DueSignal::Term);
    assert!(command.tick(10, Ok(()), Ok(true)).unwrap().is_none());
    assert_eq!(command.due_signal(11), DueSignal::Nothing);
    assert_eq!(command.due_signal(10 + TERM_GRACE), DueSignal::Kill);
    command.exited(libc::SIGKILL, 12);
    command.output(false, OutputRead::Closed).unwrap();
    command.output(true, OutputRead::Closed).unwrap();
    assert_eq!(
        command.tick(12, Ok(()), Ok(false)).unwrap(),
        Some(CommandOutcome::TimedOut)
    );
}

#[test]
fn a_cancelled_command_stays_cancelled_however_it_ends() {
    let mut command = RunningCommand::started(1, 70, 1_000);
    assert!(command.cancel_signals());
    command.cancel(CancelReason::User, 5, Ok(())).unwrap();
    command.exited(0, 6);
    command.output(false, OutputRead::Closed).unwrap();
    command.output(true, OutputRead::Closed).unwrap();
    assert_eq!(
        command.tick(7, Ok(()), Ok(false)).unwrap(),
        Some(CommandOutcome::Cancelled)
    );
}

#[test]
fn output_cannot_hold_an_ended_command() {
    let mut command = RunningCommand::started(1, 70, 1_000);
    let event = command.output(false, OutputRead::Bytes(b"hello".to_vec())).unwrap().unwrap();
    assert!(event == CommandEvent::Stdout(b"hello".to_vec()));
    command.exited(3 << 8, 6);
    assert!(command.tick(7, Ok(()), Ok(false)).unwrap().is_none());
    assert_eq!(
        command.tick(7 + DRAIN_GRACE, Ok(()), Ok(false)).unwrap(),
        Some(CommandOutcome::Exited(3))
    );
}

#[test]
fn signals_to_nobody_are_no_failure() {
    assert!(signal_sent(0, None).is_ok());
    assert!(signal_sent(-1, Some(libc::ESRCH)).is_ok());
    assert!(signal_sent(-1, Some(libc::EPERM)).is_err());
    assert!(group_exists(0, None).unwrap());
    assert!(!group_exists(-1, Some(libc::ESRCH)).unwrap());
    assert!(group_exists(-1, Some(libc::EIO)).is_err());
}

#[test]
fn one_command_runs_at_a_time_with_rising_numbers() {
    let mut runtime = InitRuntime::new();
    assert!(runtime.check_run(0).is_err());
    assert!(runtime.check_run(4).is_ok());
    runtime.command_started(RunningCommand::started(4, 70, 1_000));
    assert!(matches!(runtime.check_run(5), Err(FailureCategory::Unavailable)));
    assert!(matches!(runtime.cancel_command(4), CancelDisposition::Applied));
    assert!(matches!(runtime.cancel_command(3), CancelDisposition::NotRunning));
    runtime.active = None;
    assert!(runtime.check_run(4).is_err());
    assert!(runtime.check_run(5).is_ok());
    assert_eq!(runtime.request(Incoming::Shutdown), InitAction::ShutDown);
    assert!(runtime.stopping);
}

#[test]
fn the_first_message_must_describe_this_attempt() {
    let own = AttemptIdentity::from_uuid(3).unwrap();
    let other = AttemptIdentity::from_uuid(4).unwrap();
    assert!(accept_bootstrap(Incoming::Bootstrap, &own, &own, "host-1").is_ok());
    assert!(accept_bootstrap(Incoming::Bootstrap, &own, &other, "host-1").is_err());
    assert!(accept_bootstrap(Incoming::Run, &own, &own, "host-1").is_err());
    assert!(accept_bootstrap(Incoming::Bootstrap, &own, &own, "bad name").is_err());
    let mut startup = Startup::begin();
    assert_eq!(startup.respond(Incoming::Hello), StartupAction::Assemble);
    assert!(matches!(startup.respond(Incoming::Hello), StartupAction::Reject(_)));
    assert_eq!(startup.respond(Incoming::Shutdown), StartupAction::ShutDown);
}

#[test]
fn steps_are_prepared_and_read_while_nothing_runs() {
    let mut runtime = InitRuntime::new();
    assert_eq!(runtime.state_request(Incoming::PrepareStep), StateAction::Prepare);
    assert_eq!(runtime.state_request(Incoming::ReadStep), StateAction::Read);
    runtime.command_started(RunningCommand::started(1, 70, 1_000));
    assert!(matches!(runtime.state_request(Incoming::ReadStep), StateAction::Reject(_)));
}

#[test]
fn a_lost_connection_ends_the_runtime_with_its_error() {
    let mut runtime = InitRuntime::new();
    assert!(runtime.finished().is_none());
    runtime.disconnect(state_failure(FailureCategory::Protocol));
    assert!(!runtime.connected);
    assert!(matches!(
        runtime.finished(),
        Some(Err(ExecutionDomainError::Backend { category: FailureCategory::Protocol, .. }))
    ));
    assert!(runtime.terminal_error.is_none());
}

#[test]
fn children_are_reaped_until_none_is_left() {
    assert_eq!(reap_next(70, None, false), ReapNext::Reaped);
    assert_eq!(reap_next(0, None, false), ReapNext::Finished);
    assert_eq!(reap_next(-1, Some(libc::ECHILD), false), ReapNext::Finished);
    assert_eq!(reap_next(-1, Some(libc::EINTR), true), ReapNext::Again);
    assert_eq!(reap_next(-1, Some(libc::EPERM), false), ReapNext::Failed);
}

#[test]
fn the_first_process_is_asked_before_it_is_killed() {
    let wait = InitWait::begin();
    let wait = match wait.looked(9, 0, 0, false, None, true, 100) {
        InitWaitStep::Term(next) => next,
        _ => panic!("the process was not asked to end"),
    };
    let at = wait.kill_at.unwrap();
    assert!(matches!(wait.looked(9, 0, 0, false, None, true, 101), InitWaitStep::Pause(_)));
    assert!(matches!(wait.looked(9, 0, 0, false, None, true, at), InitWaitStep::Kill(_)));
    assert!(matches!(wait.looked(9, 9, 7 << 8, false, None, true, 101), InitWaitStep::Ended(7)));
    assert!(matches!(
        wait.looked(9, -1, 0, false, Some(libc::EPERM), true, 101),
        InitWaitStep::Failed(_)
    ));
}

#[test]
fn a_command_without_a_step_gets_files_of_its_own() {
    let mut runtime = InitRuntime::new();
    assert_eq!(runtime.begin_run(1, true), Ok(RunStage::PrepareCommand));
    assert_eq!(runtime.begin_run(1, false), Ok(RunStage::PrepareStep));
    assert_eq!(runtime.begin_run(0, false), Err(FailureCategory::Protocol));
    assert_eq!(runtime.step_prepared(None), Err(FailureCategory::InvalidInput));
    let step = StepFilesId::new();
    assert_eq!(runtime.step_prepared(Some(step)), Ok(RunStage::PrepareCommand));
    assert_eq!(
        runtime.command_prepared(false),
        (Some(step), Err(FailureCategory::InvalidInput))
    );
    assert!(runtime.ephemeral_step.is_none());
    assert_eq!(runtime.step_prepared(Some(step)), Ok(RunStage::PrepareCommand));
    assert_eq!(runtime.command_prepared(true), (None, Ok(RunStage::Spawn)));
    assert_eq!(
        runtime.command_spawned(1, None),
        (Some(step), Err(FailureCategory::Unavailable))
    );
    assert_eq!(runtime.last_command_id, 0);
    assert_eq!(runtime.begin_run(1, true), Ok(RunStage::PrepareCommand));
    assert_eq!(runtime.command_spawned(1, Some((7, SECOND))), (None, Ok(())));
    assert_eq!(runtime.active, Some(RunningCommand::started(1, 7, SECOND)));
    assert_eq!(runtime.last_command_id, 1);
    assert_eq!(runtime.begin_run(2, true), Err(FailureCategory::Unavailable));
}

#[test]
fn a_process_that_runs_has_grouped_itself() {
    assert!(grouped(0, None));
    assert!(grouped(-1, Some(libc::EACCES)));
    assert!(grouped(-1, Some(libc::ESRCH)));
    assert!(!grouped(-1, Some(libc::EPERM)));
    assert!(!grouped(-1, None));
}
