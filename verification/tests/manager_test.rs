use execution_domain::admission::{ExecutionDomainRoot, Waited};
use execution_domain::contracts::{
    AttemptIdentity, CancelReason, CommandOutcome, CommandSpec, CommandTarget, DestroyReport,
    DomainPath, FailureCategory, StepFilesId,
};
use execution_domain::environment::Environment;
use execution_domain::error::ExecutionDomainError;
use execution_domain::manager::{
    after_run, backend_failure, destroy_in_spite, destroy_result, domain_layout, idle_destroyed,
    step_reply, while_running, AfterRun, CommandExchange, CommandNumbers, CommandResponse, Ending,
    ManagerCancellation, ManagerRequest, ManagerState, ResponseAction, RetainedCleanupRegistry,
    StepReply, Turn, WhileRunning, COMMAND_GRACE, CONTROL_CANCEL_TIMEOUT,
};

fn spec(timeout: u128) -> CommandSpec {
    CommandSpec {
        target: CommandTarget::Sandboxed {
            program: DomainPath::parse("/bin/true").unwrap(),
            args: vec![],
            cwd: DomainPath::parse("/work").unwrap(),
        },
        env: Environment::new(),
        timeout,
        state: None,
    }
}

fn exchange() -> CommandExchange {
    CommandExchange::begin(&mut CommandNumbers::begin(), &spec(100), 1_000).unwrap()
}

#[test]
fn the_first_cancellation_gives_the_reason() {
    let mut cancellation = ManagerCancellation::new();
    assert_eq!(cancellation.reason(), CancelReason::Shutdown);
    cancellation.cancel(CancelReason::Timeout);
    cancellation.cancel(CancelReason::User);
    assert!(cancellation.cancelled);
    assert_eq!(cancellation.reason(), CancelReason::Timeout);
}

#[test]
fn commands_are_numbered_from_one_and_never_wrap() {
    let mut numbers = CommandNumbers::begin();
    assert_eq!(numbers.next_command_id().unwrap(), 1);
    assert_eq!(numbers.next_command_id().unwrap(), 2);
    for stuck in [0, u64::MAX] {
        let mut numbers = CommandNumbers { next: stuck };
        assert!(numbers.next_command_id().is_err());
        assert_eq!(numbers.next, stuck);
    }
}

#[test]
fn an_exchange_begins_only_for_a_command_of_the_domain() {
    let mut numbers = CommandNumbers::begin();
    let begun = CommandExchange::begin(&mut numbers, &spec(100), 1_000).unwrap();
    assert_eq!(begun.command_id, 1);
    assert_eq!(begun.deadline, 1_100 + COMMAND_GRACE);
    let trusted = CommandSpec {
        target: CommandTarget::Trusted { program: vec![], args: vec![], cwd: vec![] },
        ..spec(1)
    };
    assert!(CommandExchange::begin(&mut numbers, &trusted, 0).is_err());
    assert_eq!(numbers.next, 2);
    assert!(matches!(
        CommandExchange::begin(&mut numbers, &spec(u128::MAX), 0),
        Err(ExecutionDomainError::Backend { category: FailureCategory::InvalidInput, .. })
    ));
}

#[test]
fn a_command_runs_to_its_outcome() {
    let mut run = exchange();
    run.flushed(1_001);
    assert_eq!(run.respond(CommandResponse::Started(1)), ResponseAction::Continue);
    assert_eq!(run.respond(CommandResponse::Output(1)), ResponseAction::Deliver);
    let outcome = CommandOutcome::Exited(7);
    assert_eq!(run.respond(CommandResponse::Finished(1, outcome)), ResponseAction::Continue);
    assert!(matches!(run.turn(1_002), Turn::Done(Ok(CommandOutcome::Exited(7)))));
}

#[test]
fn answers_about_other_commands_break_the_exchange() {
    for response in [
        CommandResponse::Started(2),
        CommandResponse::Finished(1, CommandOutcome::Exited(0)),
        CommandResponse::Output(1),
        CommandResponse::CancelAcknowledged(1),
        CommandResponse::Other,
    ] {
        assert_eq!(
            exchange().respond(response),
            ResponseAction::Break(FailureCategory::Protocol),
            "{response:?}"
        );
    }
    let mut run = exchange();
    run.respond(CommandResponse::Started(1));
    assert_eq!(
        run.respond(CommandResponse::Started(1)),
        ResponseAction::Break(FailureCategory::Protocol)
    );
}

#[test]
fn a_cancellation_follows_the_request_and_is_awaited() {
    let mut run = exchange();
    let mut manager = ManagerCancellation::new();
    manager.cancel(CancelReason::Timeout);
    run.observe(true, &manager, true, 1_000);
    run.observe(false, &manager, false, 1_001);
    assert_eq!(run.cancel_reason, Some(CancelReason::User));
    assert_eq!(run.cancel_due(), None);
    run.flushed(1_002);
    assert_eq!(run.cancel_due(), Some(CancelReason::User));
    run.cancel_sent();
    assert_eq!(run.cancel_due(), None);
    run.flushed(1_003);
    run.respond(CommandResponse::Started(1));
    assert_eq!(run.respond(CommandResponse::Output(1)), ResponseAction::Continue);
    run.respond(CommandResponse::Finished(1, CommandOutcome::Cancelled));
    assert!(matches!(run.turn(1_004), Turn::Continue));
    assert!(!run.only_sending());
    run.respond(CommandResponse::CancelAcknowledged(1));
    assert!(matches!(run.turn(1_005), Turn::Done(Ok(CommandOutcome::Cancelled))));
}

#[test]
fn silence_is_bounded_by_every_limit() {
    let run = exchange();
    assert!(matches!(run.turn(run.deadline), Turn::Break(FailureCategory::Timeout)));
    let mut run = exchange();
    run.request_cancel(CancelReason::User, 1_000);
    assert!(matches!(run.turn(1_000), Turn::Continue));
    assert!(matches!(
        run.turn(1_000 + CONTROL_CANCEL_TIMEOUT),
        Turn::Break(FailureCategory::Unavailable)
    ));
    run.flushed(1_000);
    run.cancel_sent();
    run.flushed(1_001);
    assert!(matches!(
        run.turn(1_001 + CONTROL_CANCEL_TIMEOUT),
        Turn::Break(FailureCategory::Timeout)
    ));
}

#[test]
fn a_rejected_command_reports_its_category() {
    let mut run = exchange();
    run.respond(CommandResponse::Rejected(1, FailureCategory::NotReady));
    assert!(matches!(run.settled(), Turn::Continue));
    assert!(run.only_sending());
    run.flushed(1_001);
    assert!(matches!(
        run.settled(),
        Turn::Done(Err(ExecutionDomainError::Backend {
            category: FailureCategory::NotReady,
            ..
        }))
    ));
}

#[test]
fn replies_about_steps_must_name_the_step() {
    let id = StepFilesId::new();
    assert!(step_reply(StepReply::Of(id), &id).is_ok());
    assert!(step_reply(StepReply::Of(StepFilesId::new()), &id).is_err());
    assert!(matches!(
        step_reply(StepReply::Rejected(FailureCategory::Io), &id),
        Err(ExecutionDomainError::Backend { category: FailureCategory::Io, .. })
    ));
    assert!(step_reply(StepReply::Other, &id).is_err());
}

#[test]
fn a_running_command_leaves_room_for_its_end_only() {
    assert_eq!(while_running(ManagerRequest::Cancel, false), WhileRunning::Cancel);
    assert_eq!(while_running(ManagerRequest::Destroy, false), WhileRunning::Destroy);
    let refused = WhileRunning::Reject(FailureCategory::Unavailable);
    assert_eq!(while_running(ManagerRequest::Destroy, true), refused);
    for request in [
        ManagerRequest::BindWorkspace,
        ManagerRequest::MarkRunning,
        ManagerRequest::MarkCleaning,
        ManagerRequest::Run,
        ManagerRequest::PrepareStep,
        ManagerRequest::ReadStep,
        ManagerRequest::AuthorizeExternalRevocation,
    ] {
        assert_eq!(while_running(request, false), refused);
    }
}

#[test]
fn readers_that_stay_keep_a_trusted_domain() {
    let busy = || Err(backend_failure(FailureCategory::Timeout));
    assert!(!destroy_in_spite(&busy(), false));
    assert!(destroy_in_spite(&busy(), true));
    assert!(destroy_in_spite(&Ok(()), false));
    let attempt = AttemptIdentity::from_uuid(3).unwrap();
    let report = DestroyReport { attempt, forced_kill: false };
    assert!(destroy_result(busy(), Ok(report)).is_err());
    assert_eq!(destroy_result(Ok(()), Ok(report)).unwrap(), report);
}

#[test]
fn capacity_comes_back_only_with_nothing_left() {
    let mut state = ManagerState::begin();
    state.provisioned();
    state.destroyed(false);
    assert!(state.backend && !state.released);
    assert_eq!(state.finish(), Ending::RetainBackend);
    assert!(state.poisoned);

    let mut state = ManagerState::begin();
    state.provisioned();
    assert!(idle_destroyed(&mut state, true));
    assert_eq!(state.finish(), Ending::Nothing);
    assert!(!state.poisoned && state.released);

    let mut state = ManagerState::begin();
    state.provision_failed(false, true);
    assert_eq!(state.finish(), Ending::RetainPartial);
    assert!(state.poisoned);

    let mut state = ManagerState::begin();
    state.provision_failed(false, false);
    assert!(state.released && !state.poisoned);

    let mut state = ManagerState::begin();
    state.provision_lost();
    assert_eq!(state.finish(), Ending::Nothing);
    assert!(state.poisoned);
}

#[test]
fn a_broken_exchange_ends_the_domain() {
    let mut state = ManagerState::begin();
    state.provisioned();
    assert_eq!(after_run(&mut state, false, false), AfterRun::Continue);
    assert!(!state.poisoned);
    assert_eq!(after_run(&mut state, false, true), AfterRun::DestroyAndReply);
    assert_eq!(after_run(&mut state, true, false), AfterRun::Destroy);
    assert!(state.poisoned);
    assert!(!idle_destroyed(&mut state, false));
}

#[test]
fn every_place_of_a_domain_is_mapped() {
    let path = |p: &&str| DomainPath::parse(p).unwrap();
    let all = [
        "/work",
        "/tmp",
        "/home/chimera",
        "/run/chimera",
        "/home/chimera/.docker",
        "/var/lib/chimera/docker",
        "/run/chimera/docker-exec",
    ];
    let targets: Vec<DomainPath> = all.iter().map(path).collect();
    let (paths, _) = domain_layout(&targets).unwrap_or_else(|e| panic!("{e:?}"));
    assert_eq!(paths.docker_socket().as_str(), "/run/chimera/docker.sock");
    for missing in 0..all.len() {
        let targets: Vec<DomainPath> =
            all.iter().enumerate().filter(|(i, _)| *i != missing).map(|(_, p)| path(p)).collect();
        assert!(domain_layout(&targets).is_err());
    }
}

#[test]
fn kept_domains_are_forgotten_once_they_are_gone() {
    let mut registry = RetainedCleanupRegistry::new();
    for entry in [5, 6, 7] {
        registry.retain(entry);
    }
    registry.retry_all(&[false, true, false]);
    assert_eq!(registry.entries, [5, 7]);
    assert_eq!(registry.len(), 2);
    registry.retry_all(&[true, true]);
    assert_eq!(registry.len(), 0);
}

#[test]
fn a_lost_domain_closes_its_root() {
    let root = ExecutionDomainRoot::prepare("/srv/active");
    let permit = root.reserve(Waited::Acquired, &root).unwrap_or_else(|e| panic!("{e:?}"));
    let attempt = permit.provision(&root).unwrap();
    assert_ne!(attempt.uuid(), 0);
    assert!(matches!(
        root.reserve(Waited::Closed, &root),
        Err(ExecutionDomainError::AdmissionClosed { path }) if path == "/srv/active"
    ));
    assert!(matches!(
        root.reserve(Waited::Poisoned, &root),
        Err(ExecutionDomainError::PoisonedRoot { .. })
    ));
    let held = root.reserve(Waited::Acquired, &root).unwrap_or_else(|e| panic!("{e:?}"));
    let mut lost = ExecutionDomainRoot::prepare("/srv/active");
    lost.poison();
    assert!(matches!(
        root.reserve(Waited::Acquired, &lost),
        Err(ExecutionDomainError::PoisonedRoot { .. })
    ));
    assert!(lost.reserve(Waited::Acquired, &lost).is_err());
    assert!(matches!(held.provision(&lost), Err(ExecutionDomainError::PoisonedRoot { .. })));
    assert_eq!(lost.path(), "/srv/active");
}
