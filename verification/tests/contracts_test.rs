use execution_domain::contracts::{
    AttemptIdentity, CancelReason, CommandEvent, CommandOutcome, CommandSpec, CommandTarget,
    DestroyReport, DomainEnvironment, DomainPath, DomainPaths, FailureCategory, Stage, StepFilesId,
    StepStateSnapshot,
};
use execution_domain::environment::Environment;
use execution_domain::error::ExecutionDomainError;
use uuid::Uuid;

fn environment_of(pairs: &[(&str, &str)]) -> Environment {
    let mut result = Environment::new();
    for (name, value) in pairs {
        result.insert((*name).to_owned(), (*value).to_owned());
    }
    result
}

#[test]
fn contract_paths_and_identity_are_unambiguous() {
    assert!(AttemptIdentity::from_uuid(Uuid::nil().as_u128()).is_err());
    let id = AttemptIdentity::from_uuid(Uuid::from_u128(7).as_u128()).unwrap();
    assert_eq!(id.component(), "00000000000000000000000000000007");

    for invalid in [
        "relative",
        "//work",
        "/work/../run",
        "/work//x",
        "/work/./x",
        "/work/",
        "/x\0y",
    ] {
        assert!(DomainPath::parse(invalid).is_err(), "{invalid:?}");
    }

    assert_eq!(
        DomainPath::parse("/work").unwrap().join("a/b").unwrap().as_str(),
        "/work/a/b"
    );
    for invalid in ["", "/run", "a//b", "a/./b", "a/../b", "a/b/", "a\0b"] {
        assert!(DomainPath::parse("/work").unwrap().join(invalid).is_err(), "{invalid:?}");
    }
}

#[test]
fn sandbox_paths_are_deterministic_and_keep_socket_separate_from_run_directory() {
    let paths = DomainPaths::sandboxed();

    assert_eq!(paths.work.as_str(), "/work");
    assert_eq!(paths.tmp.as_str(), "/tmp");
    assert_eq!(paths.home.as_str(), "/home/chimera");
    assert_eq!(paths.run.as_str(), "/run/chimera");
    assert_eq!(paths.docker_config.as_str(), "/home/chimera/.docker");
    assert_eq!(paths.docker_data.as_str(), "/var/lib/chimera/docker");
    assert_eq!(paths.docker_exec.as_str(), "/run/chimera/docker-exec");
    assert_eq!(paths.docker_socket().as_str(), "/run/chimera/docker.sock");
    assert_ne!(paths.docker_socket(), &paths.run);
    assert_eq!(paths, DomainPaths::sandboxed());
}

#[test]
fn sandbox_environment_owns_reserved_values_and_never_prints_secrets() {
    let environment = DomainEnvironment::sandboxed();
    let supplied = environment_of(&[("PATH", "/usr/bin")]);

    let merged = environment.merge(&supplied, "GITHUB_ENV").unwrap_or_else(|e| panic!("{e:?}"));
    assert_eq!(merged.get("PATH").unwrap(), "/usr/bin");
    assert_eq!(merged.get("HOME").unwrap(), "/home/chimera");
    assert_eq!(merged.get("XDG_RUNTIME_DIR").unwrap(), "/run/chimera");
    assert_eq!(merged.get("DOCKER_CONFIG").unwrap(), "/home/chimera/.docker");
    assert_eq!(merged.get("DOCKER_HOST").unwrap(), "unix:///run/chimera/docker.sock");

    for expected_key in ["DOCKER_HOST", "DOCKER_CONFIG", "HOME", "XDG_RUNTIME_DIR"] {
        let supplied = environment_of(&[(expected_key, "CANARY_SECRET")]);
        let error = match environment.merge(&supplied, "GITHUB_ENV") {
            Ok(_) => panic!("a reserved value was replaced"),
            Err(error) => error,
        };
        assert!(matches!(
            error,
            ExecutionDomainError::ReservedDomainEnvironment {
                ref key,
                source: "GITHUB_ENV"
            } if key == expected_key
        ));
        assert!(!format!("{error:?} {}", error.message()).contains("CANARY_SECRET"));
    }
    assert!(!environment.debug_text().contains("unix:///run/chimera/docker.sock"));
}

#[test]
fn matching_reserved_environment_values_are_idempotent() {
    let environment = DomainEnvironment::sandboxed();
    let supplied = environment_of(&[
        ("HOME", "/home/chimera"),
        ("DOCKER_HOST", "unix:///run/chimera/docker.sock"),
    ]);

    let merged = environment.merge(&supplied, "base env").unwrap_or_else(|e| panic!("{e:?}"));
    assert_eq!(merged.get("HOME").unwrap(), "/home/chimera");
    let again = environment.merge(&merged, "base env").unwrap_or_else(|e| panic!("{e:?}"));
    assert!(again.same(&merged));
}

#[test]
fn backend_error_reports_only_structured_safe_fields() {
    let attempt = Uuid::from_u128(11);
    let error = ExecutionDomainError::Backend {
        attempt: Some(attempt.as_u128()),
        stage: Stage::Launch,
        category: FailureCategory::Unavailable,
        errno: Some(libc::EAGAIN),
    };

    let rendered = error.message();
    assert!(rendered.contains(&attempt.to_string()));
    assert!(rendered.contains("Launch"));
    assert!(rendered.contains("Unavailable"));
    assert!(rendered.contains(&libc::EAGAIN.to_string()));
}

#[test]
fn trusted_command_target_preserves_native_values_without_debug_leaks() {
    let program = b"/opt/CANARY_PROGRAM\xff".to_vec();
    let argument = b"CANARY_ARGUMENT\xfe".to_vec();
    let cwd = b"/work/CANARY_CWD\xfd".to_vec();
    let target = CommandTarget::Trusted {
        program: program.clone(),
        args: vec![argument.clone()],
        cwd: cwd.clone(),
    };

    assert_eq!(target.debug_text(), "CommandTarget");
    match target {
        CommandTarget::Trusted { program: actual_program, args, cwd: actual_cwd } => {
            assert_eq!(actual_program, program);
            assert_eq!(args[0], argument);
            assert_eq!(actual_cwd, cwd);
        }
        CommandTarget::Sandboxed { .. } => panic!("trusted target changed variant"),
    }
}

#[test]
fn sandboxed_command_target_retains_validated_paths_and_utf8_arguments() {
    let program = DomainPath::parse("/usr/bin/sh").unwrap();
    let cwd = DomainPath::parse("/work/project").unwrap();
    let target = CommandTarget::Sandboxed {
        program: program.clone(),
        args: vec!["-c".to_owned(), "printf CANARY_ARGUMENT".to_owned()],
        cwd: cwd.clone(),
    };

    assert_eq!(target.debug_text(), "CommandTarget");
    assert!(
        target
            == CommandTarget::Sandboxed {
                program,
                args: vec!["-c".to_owned(), "printf CANARY_ARGUMENT".to_owned()],
                cwd,
            }
    );
}

#[test]
fn command_spec_debug_redacts_target_arguments_and_environment() {
    let spec = CommandSpec {
        target: CommandTarget::Sandboxed {
            program: DomainPath::parse("/opt/CANARY_PROGRAM").unwrap(),
            args: vec!["CANARY_ARGUMENT".to_owned()],
            cwd: DomainPath::parse("/work").unwrap(),
        },
        env: environment_of(&[("TOKEN", "CANARY_SECRET")]),
        timeout: 7_000_000_000,
        state: Some(StepFilesId::new()),
    };

    assert_eq!(spec.debug_text(), "CommandSpec");
}

#[test]
fn command_events_redact_raw_output_while_outcomes_remain_comparable() {
    let event = CommandEvent::Stdout(b"CANARY_SECRET".to_vec());

    assert_eq!(event.debug_text(), "CommandEvent");
    assert!(event == CommandEvent::Stdout(b"CANARY_SECRET".to_vec()));
    assert!(event != CommandEvent::Stderr(b"CANARY_SECRET".to_vec()));
    assert_eq!(CommandOutcome::Exited(7), CommandOutcome::Exited(7));
    assert_eq!(CommandOutcome::Signalled(9), CommandOutcome::Signalled(9));
    assert_ne!(CommandOutcome::Cancelled, CommandOutcome::TimedOut);
}

#[test]
fn cancellation_and_destroy_reports_are_typed_values() {
    let reasons = [
        CancelReason::User,
        CancelReason::Timeout,
        CancelReason::Shutdown,
        CancelReason::HandleDropped,
        CancelReason::ProtocolFailure,
    ];
    assert_eq!(reasons[0], CancelReason::User);

    let attempt = AttemptIdentity::from_uuid(Uuid::from_u128(19).as_u128()).unwrap();
    let report = DestroyReport { attempt, forced_kill: true };
    assert_eq!(report.attempt, attempt);
    assert!(report.forced_kill);
}

#[test]
fn snapshots_show_none_of_their_contents() {
    let snapshot = StepStateSnapshot {
        env: "TOKEN=CANARY_SECRET".to_owned(),
        path: "/secret/bin".to_owned(),
        output: "token=CANARY_SECRET".to_owned(),
        state: "secret=CANARY_SECRET".to_owned(),
        summary: "CANARY_SECRET".to_owned(),
    };
    assert_eq!(snapshot.debug_text(), "StepStateSnapshot");
}

#[test]
fn fresh_identities_are_random_and_never_nil() {
    let first = AttemptIdentity::new();
    let second = AttemptIdentity::new();
    assert_ne!(first.uuid(), 0);
    assert_ne!(first, second);
    assert_ne!(first.component(), second.component());
    // Version 4, variant 1.
    assert_eq!(Uuid::from_u128(first.uuid()).get_version_num(), 4);
    let step = StepFilesId::new();
    assert_ne!(step.uuid(), 0);
    assert_eq!(step.component(), Uuid::from_u128(step.uuid()).simple().to_string());
    assert!(matches!(
        StepFilesId::from_uuid(0),
        Err(ExecutionDomainError::InvalidStepFilesIdentity)
    ));
    assert!(matches!(
        AttemptIdentity::from_uuid(0),
        Err(ExecutionDomainError::InvalidAttemptIdentity)
    ));
}

#[test]
fn joining_below_the_root_adds_one_separator() {
    let root = DomainPath::parse("/").unwrap();
    assert_eq!(root.join("work").unwrap().as_str(), "/work");
    assert_eq!(root.join("a/b").unwrap().as_str(), "/a/b");
    assert!(matches!(root.join("/a"), Err(ExecutionDomainError::InvalidDomainPath)));
    assert!(matches!(DomainPath::parse(""), Err(ExecutionDomainError::InvalidDomainPath)));
}

#[test]
fn merging_keeps_what_is_not_reserved() {
    let environment = DomainEnvironment::sandboxed();
    let merged = environment
        .merge(&environment_of(&[("A", "1"), ("B", "2")]), "job")
        .unwrap_or_else(|e| panic!("{e:?}"));
    assert_eq!(merged.len(), 6);
    assert_eq!(merged.get("A").unwrap(), "1");
    assert_eq!(merged.get("B").unwrap(), "2");
    assert!(merged.get("C").is_none());
}

#[test]
fn clones_hold_the_same() {
    let paths = DomainPaths::sandboxed();
    assert_eq!(paths.clone(), paths);
    let environment = DomainEnvironment::sandboxed();
    assert!(environment.clone() == environment);
    let snapshot = StepStateSnapshot {
        env: "A=1".to_owned(),
        path: "/bin".to_owned(),
        output: "b=2".to_owned(),
        state: "c=3".to_owned(),
        summary: "done".to_owned(),
    };
    assert!(snapshot.clone() == snapshot);
}
