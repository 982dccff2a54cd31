use std::path::Path;

use execution_domain::docker_paths::DockerPaths;

fn same(actual: &str, expected: std::path::PathBuf) -> bool {
    Path::new(actual) == expected
}

#[test]
fn docker_paths_are_deterministic_and_disjoint() {
    let left = DockerPaths::for_attempt("/attempts/00000000000000000000000000000001");
    let right = DockerPaths::for_attempt("/attempts/00000000000000000000000000000002");
    let base = Path::new("/attempts/00000000000000000000000000000001");

    assert!(same(left.config_dir(), base.join("docker")));
    assert!(same(left.run_dir(), base.join("run")));
    assert!(same(left.socket_path(), base.join("run/docker.sock")));
    assert!(same(left.data_root(), base.join("docker-data")));
    assert!(same(left.exec_root(), base.join("docker-exec")));
    assert_ne!(left.socket_path(), right.socket_path());
    assert_ne!(left.config_dir(), right.config_dir());
    assert_ne!(left.data_root(), right.data_root());
    assert_ne!(left.exec_root(), right.exec_root());
    assert_eq!(left, DockerPaths::for_attempt(base.to_str().unwrap()));
}

#[test]
fn docker_paths_of_the_root_have_one_separator() {
    let paths = DockerPaths::for_attempt("/");
    assert_eq!(paths.config_dir(), "/docker");
    assert_eq!(paths.socket_path(), "/run/docker.sock");
}

#[test]
fn attempts_of_any_length_share_no_path() {
    let all = |dir: &str| {
        let paths = DockerPaths::for_attempt(dir);
        [
            paths.config_dir().to_owned(),
            paths.run_dir().to_owned(),
            paths.data_root().to_owned(),
            paths.exec_root().to_owned(),
            paths.socket_path().to_owned(),
        ]
    };
    for (left, right) in [("/a", "/a/run"), ("/a/", "/a/run/"), ("", "run"), ("/", "/docker")] {
        for path in all(left) {
            assert!(!all(right).contains(&path), "{path}");
        }
    }
    assert_eq!(all("/a"), all("/a/"));
}
