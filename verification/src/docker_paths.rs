//! Where the container service of an attempt keeps its files on the host.

use vstd::prelude::*;

use crate::text;

verus! {

/// The directories and the socket of an attempt's container service.
#[derive(Debug, PartialEq, Eq)]
pub struct DockerPaths {
    config_dir: String,
    run_dir: String,
    data_root: String,
    exec_root: String,
    socket_path: String,
}

impl DockerPaths {
    /// The paths, in the order configuration, run, data, exec, socket.
    pub closed spec fn paths(self) -> Seq<Seq<char>> {
        seq![
            self.config_dir@,
            self.run_dir@,
            self.data_root@,
            self.exec_root@,
            self.socket_path@,
        ]
    }

    /// The paths below the directory of the attempt.
    pub fn for_attempt(attempt_dir: &str) -> (r: DockerPaths)
        ensures
            r.paths() == attempt_paths(attempt_dir@),
    {
        let r = DockerPaths {
            config_dir: text::join_below(attempt_dir, "docker"),
            run_dir: text::join_below(attempt_dir, "run"),
            data_root: text::join_below(attempt_dir, "docker-data"),
            exec_root: text::join_below(attempt_dir, "docker-exec"),
            socket_path: text::join_below(attempt_dir, "run/docker.sock"),
        };
        assert(r.paths() =~= attempt_paths(attempt_dir@));
        r
    }

    /// The directory of the client configuration.
    pub fn config_dir(&self) -> (r: &str)
        ensures
            r@ == self.paths()[0],
    {
        self.config_dir.as_str()
    }

    /// The directory of run-time state.
    pub fn run_dir(&self) -> (r: &str)
        ensures
            r@ == self.paths()[1],
    {
        self.run_dir.as_str()
    }

    /// The directory of images and volumes.
    pub fn data_root(&self) -> (r: &str)
        ensures
            r@ == self.paths()[2],
    {
        self.data_root.as_str()
    }

    /// The directory of execution state.
    pub fn exec_root(&self) -> (r: &str)
        ensures
            r@ == self.paths()[3],
    {
        self.exec_root.as_str()
    }

    /// The socket of the service.
    pub fn socket_path(&self) -> (r: &str)
        ensures
            r@ == self.paths()[4],
    {
        self.socket_path.as_str()
    }
}

impl Clone for DockerPaths {
    fn clone(&self) -> (r: DockerPaths)
        ensures
            r.paths() == self.paths(),
    {
        DockerPaths {
            config_dir: self.config_dir.clone(),
            run_dir: self.run_dir.clone(),
            data_root: self.data_root.clone(),
            exec_root: self.exec_root.clone(),
            socket_path: self.socket_path.clone(),
        }
    }
}

/// The paths of the service below an attempt directory.
pub open spec fn attempt_paths(attempt_dir: Seq<char>) -> Seq<Seq<char>> {
    seq![
        text::below(attempt_dir, "docker"@),
        text::below(attempt_dir, "run"@),
        text::below(attempt_dir, "docker-data"@),
        text::below(attempt_dir, "docker-exec"@),
        text::below(attempt_dir, "run/docker.sock"@),
    ]
}

/// What stands before a name below a directory: its path, and a slash unless it is
/// empty or has one.
pub open spec fn directory_prefix(dir: Seq<char>) -> Seq<char> {
    if dir.len() == 0 || dir.last() == '/' {
        dir
    } else {
        dir + "/"@
    }
}

/// The names of the paths of the service below an attempt directory.
pub open spec fn service_names() -> Seq<Seq<char>> {
    seq!["docker"@, "run"@, "docker-data"@, "docker-exec"@, "run/docker.sock"@]
}

proof fn lemma_path_parts(dir: Seq<char>, i: int)
    requires
        0 <= i < 5,
    ensures
        attempt_paths(dir)[i] == directory_prefix(dir) + service_names()[i],
{
}

/// A longer prefix cannot make up for a shorter name.
proof fn lemma_longer_prefix_differs(left: Seq<char>, right: Seq<char>, i: int, j: int)
    requires
        directory_prefix(left).len() < directory_prefix(right).len(),
        0 <= i < 5,
        0 <= j < 5,
    ensures
        attempt_paths(left)[i] != attempt_paths(right)[j],
{
    lemma_path_parts(left, i);
    lemma_path_parts(right, j);
    reveal_strlit("docker");
    reveal_strlit("run");
    reveal_strlit("docker-data");
    reveal_strlit("docker-exec");
    reveal_strlit("run/docker.sock");
    reveal_strlit("/");
    let a = attempt_paths(left)[i];
    let b = attempt_paths(right)[j];
    if a == b {
        let p = directory_prefix(left);
        let q = directory_prefix(right);
        let m = service_names()[i];
        let n = service_names()[j];
        let gap = q.len() - p.len();
        assert(a == p + m);
        assert(b == q + n);
        assert((p + m).len() == (q + n).len());
        assert(m.len() == gap + n.len());
        assert(n.len() > 0);
        assert(q.last() == '/');
        assert((q + n)[q.len() - 1] == '/');
        assert((p + m)[q.len() - 1] == m[gap - 1]);
        assert(m[gap - 1] == '/');
        assert(i == 4 && gap == 4);
        assert(n.len() == 11);
        assert(a[q.len() as int + 6] == m[gap + 6]);
        assert(b[q.len() as int + 6] == n[6]);
        assert(m[10] == '.');
        assert(n[6] == '-');
    }
}

/// Attempts with different directories share no path: neither the same kind of path nor
/// one of another kind. A closing slash makes no other directory.
pub proof fn law_attempts_share_no_path(left: Seq<char>, right: Seq<char>, i: int, j: int)
    requires
        directory_prefix(left) != directory_prefix(right),
        0 <= i < 5,
        0 <= j < 5,
    ensures
        attempt_paths(left)[i] != attempt_paths(right)[j],
{
    let p = directory_prefix(left);
    let q = directory_prefix(right);
    if p.len() < q.len() {
        lemma_longer_prefix_differs(left, right, i, j);
    } else if q.len() < p.len() {
        lemma_longer_prefix_differs(right, left, j, i);
    } else {
        lemma_path_parts(left, i);
        lemma_path_parts(right, j);
        let a = attempt_paths(left)[i];
        let b = attempt_paths(right)[j];
        if a == b {
            assert(a.subrange(0, p.len() as int) =~= p);
            assert(b.subrange(0, q.len() as int) =~= q);
        }
    }
}

/// The paths of one attempt are all different.
pub proof fn law_paths_are_disjoint(attempt_dir: Seq<char>, i: int, j: int)
    requires
        0 <= i < j < 5,
    ensures
        attempt_paths(attempt_dir)[i] != attempt_paths(attempt_dir)[j],
{
    reveal_strlit("docker");
    reveal_strlit("run");
    reveal_strlit("docker-data");
    reveal_strlit("docker-exec");
    reveal_strlit("run/docker.sock");
    reveal_strlit("/");
    lemma_path_parts(attempt_dir, i);
    lemma_path_parts(attempt_dir, j);
    let names = service_names();
    let base = directory_prefix(attempt_dir);
    let a = attempt_paths(attempt_dir)[i];
    let b = attempt_paths(attempt_dir)[j];
    if a == b {
        assert(a.subrange(base.len() as int, a.len() as int) =~= names[i]);
        assert(b.subrange(base.len() as int, b.len() as int) =~= names[j]);
        assert(names[i] == names[j]);
        assert(names[i].len() == names[j].len());
        assert(names[i][7] == names[j][7]);
    }
}

/// Every path of an attempt's own service stands below the attempt's directory, and the
/// socket stands in the directory for what runs.
pub proof fn law_paths_stand_below_the_attempt(
    attempt_dir: &str,
    paths: DockerPaths,
    config: &str,
    run: &str,
    data: &str,
    exec: &str,
    socket: &str,
)
    requires
        call_ensures(DockerPaths::for_attempt, (attempt_dir,), paths),
        call_ensures(DockerPaths::config_dir, (&paths,), config),
        call_ensures(DockerPaths::run_dir, (&paths,), run),
        call_ensures(DockerPaths::data_root, (&paths,), data),
        call_ensures(DockerPaths::exec_root, (&paths,), exec),
        call_ensures(DockerPaths::socket_path, (&paths,), socket),
        attempt_dir@.len() > 0,
        attempt_dir@.last() != '/',
    ensures
        config@ == attempt_dir@ + "/docker"@,
        run@ == attempt_dir@ + "/run"@,
        data@ == attempt_dir@ + "/docker-data"@,
        exec@ == attempt_dir@ + "/docker-exec"@,
        socket@ == run@ + "/docker.sock"@,
{
    reveal_strlit("/");
    reveal_strlit("docker");
    reveal_strlit("/docker");
    reveal_strlit("run");
    reveal_strlit("/run");
    reveal_strlit("docker-data");
    reveal_strlit("/docker-data");
    reveal_strlit("docker-exec");
    reveal_strlit("/docker-exec");
    reveal_strlit("run/docker.sock");
    reveal_strlit("/docker.sock");
    assert(config@ =~= attempt_dir@ + "/docker"@);
    assert(run@ =~= attempt_dir@ + "/run"@);
    assert(data@ =~= attempt_dir@ + "/docker-data"@);
    assert(exec@ =~= attempt_dir@ + "/docker-exec"@);
    assert(socket@ =~= run@ + "/docker.sock"@);
}

/// A copy holds the same paths.
pub proof fn law_copies_hold_the_same_paths(paths: DockerPaths, copy: DockerPaths)
    requires
        call_ensures(DockerPaths::clone, (&paths,), copy),
    ensures
        copy.paths() == paths.paths(),
{
}

} // verus!
