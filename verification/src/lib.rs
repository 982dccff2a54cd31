//! The rules of an isolated execution domain.

pub mod admission;
pub mod attempts;
pub mod bytes;
pub mod clock;
pub mod contracts;
pub mod docker_paths;
pub mod environment;
pub mod error;
pub mod filesystem;
pub mod host_path;
pub mod ids;
pub mod journal;
pub mod linux;
pub mod manager;
pub mod text;
