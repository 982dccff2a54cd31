use execution_domain::contracts::{AttemptIdentity, FailureCategory};
use execution_domain::linux::mounts::failure;
use execution_domain::linux::probe::{
    group_directory, prepared, writable_directories, LeftBehind, PrepareResult, PrepareStep,
};
use execution_domain::linux::rootfs::{MountInput, RootfsPlan};

fn attempt() -> AttemptIdentity {
    AttemptIdentity::from_uuid(0xab).unwrap_or_else(|e| panic!("{e:?}"))
}

fn order() -> Vec<PrepareStep> {
    let mut order = vec![PrepareStep::CheckHost];
    while let Some(next) = order[order.len() - 1].next() {
        order.push(next);
    }
    order
}

#[test]
fn writable_directories_lie_in_the_attempt() {
    let planned: Vec<(String, String)> = writable_directories(b"/srv/active/one")
        .into_iter()
        .map(|input| (String::from_utf8(input.source).unwrap(), input.target))
        .collect();
    let expected = [
        ("/srv/active/one/work", "/work"),
        ("/srv/active/one/tmp", "/tmp"),
        ("/srv/active/one/home", "/home/chimera"),
        ("/srv/active/one/run", "/run/chimera"),
        ("/srv/active/one/docker", "/home/chimera/.docker"),
        ("/srv/active/one/docker-data", "/var/lib/chimera/docker"),
        ("/srv/active/one/docker-exec", "/run/chimera/docker-exec"),
    ];
    assert_eq!(planned.len(), expected.len());
    for (source, target) in expected {
        assert!(planned.contains(&(source.to_owned(), target.to_owned())), "{source}");
    }
}

#[test]
fn the_group_is_that_of_the_attempt() {
    let planned = group_directory(b"/sys/fs/cgroup/chimera.slice", &attempt());
    assert_eq!(
        planned.source,
        b"/sys/fs/cgroup/chimera.slice/attempt-000000000000000000000000000000ab/domain"
    );
    assert_eq!(planned.target, "/sys/fs/cgroup");
}

#[test]
fn a_prepared_domain_has_an_accepted_layout() {
    let own = format!("/srv/active/{}", attempt().component());
    let mut planned = writable_directories(own.as_bytes());
    planned.push(group_directory(b"/sys/fs/cgroup/chimera.slice", &attempt()));
    let mut inputs: Vec<MountInput> = planned
        .into_iter()
        .map(|input| {
            MountInput::capture(input.source, &input.target, false, 1, 2)
                .unwrap_or_else(|e| panic!("{e:?}"))
        })
        .collect();
    for (source, target) in [
        ("/usr/bin", "/usr/bin"),
        ("/usr/lib", "/usr/lib"),
        ("/srv/tools", "/opt/hostedtoolcache"),
        ("/srv/actions", "/opt/chimera-actions"),
    ] {
        let input = MountInput::capture(source.into(), target, true, 1, 2);
        inputs.push(input.unwrap_or_else(|e| panic!("{e:?}")));
    }
    let plan = RootfsPlan { inputs, staging_root: format!("{own}/rootfs").into_bytes() };
    let layout = plan.validate_layout();
    assert!(layout.is_ok(), "{layout:?}");
}

#[test]
fn preparation_has_a_fixed_order() {
    let order = order();
    assert_eq!(order.len(), 18);
    let at = |step| order.iter().position(|s| *s == step).unwrap();
    assert!(at(PrepareStep::Lock) < at(PrepareStep::OpenRoot));
    assert!(at(PrepareStep::CheckActive) < at(PrepareStep::CreateDirectories));
    assert!(at(PrepareStep::CreateGroup) < at(PrepareStep::Build));
    for (index, step) in order.iter().enumerate() {
        match prepared(*step, Ok(()), LeftBehind::Nothing) {
            PrepareResult::Continue(next) => assert_eq!(next, order[index + 1]),
            PrepareResult::Ready => assert_eq!(*step, PrepareStep::OpenGroup),
            PrepareResult::Failed { .. } => panic!("{step:?} failed"),
        }
    }
}

#[test]
fn a_failed_preparation_keeps_what_it_made() {
    let result = |step, built| {
        match prepared(step, Err(failure(FailureCategory::Io)), built) {
            PrepareResult::Failed { error: _, keep_lock, left } => (keep_lock, left),
            _ => panic!("{step:?} went on"),
        }
    };
    for step in order() {
        let (keep_lock, left) = result(step, LeftBehind::Record);
        if left != LeftBehind::Nothing {
            assert!(keep_lock, "{step:?}");
        }
    }
    assert_eq!(result(PrepareStep::CheckHost, LeftBehind::Record).1, LeftBehind::Nothing);
    assert_eq!(result(PrepareStep::CaptureGroup, LeftBehind::Nothing).1, LeftBehind::Group);
    assert_eq!(result(PrepareStep::Build, LeftBehind::Group).1, LeftBehind::Group);
    assert_eq!(result(PrepareStep::OpenGroup, LeftBehind::Nothing).1, LeftBehind::Record);
}
