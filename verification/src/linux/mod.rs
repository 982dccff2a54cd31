//! The sandboxed backend.

pub mod cgroup;
pub mod dirfd;
pub mod destroy;
pub mod reconcile;
pub mod cleanup;
pub mod cleanup_tree;
pub mod reap;
pub mod cleanup_protocol;
pub mod strict;
pub mod hardening;
pub mod mounts;
pub mod rootfs;
pub mod immutable;
pub mod launcher;
pub mod step_files;
pub mod command;
pub mod init;
pub mod native;
pub mod probe;
