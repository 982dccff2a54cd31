# execution_domain

The rules by which a continuous-integration service runs untrusted jobs in execution
domains of their own: what a domain may be made of, in which order it comes about, what
happens to the commands that run in it, and what has to be proven before anything of it
is removed or its capacity is given to somebody else.

The rules are written and proved in Verus. System calls, files and messages are not part
of them: a function of the library takes what was observed and says what follows.

- `src/` holds the rules.
  - `contracts`, `error`, `environment`, `ids`, `attempts`, `clock`: identities, paths, commands,
    errors and deadlines that everything else speaks of.
  - `admission`, `manager`: capacity, and the life of a domain around it.
  - `journal`, `filesystem`, `docker_paths`: what is written down about a domain.
  - `linux`: sandboxed domains. `rootfs`, `mounts` and `immutable` say what a domain
    sees, `launcher`, `init`, `command`, `step_files` and `hardening` what runs in it,
    `strict`, `destroy`, `cleanup`, `cleanup_tree`, `cleanup_protocol` and `reap` how it
    is taken down, `cgroup` and `dirfd` what it is held by, `reconcile` what is done about
    domains of an earlier run, `native` and `probe` what is expected of the host.
  - `bytes`, `text`, `host_path`: sequences of bytes and characters.
- `tests/` runs the rules on values.
- `app/` makes the system calls around them.
