//! Verified core logic of a pod-level OCI container runtime monitor.
//!
//! The modules hold the decisions and data formats of the monitor: how
//! container output becomes log records, how attach packets are framed,
//! which arguments go to the OCI runtime, and so on. Apart from reading the
//! clocks, everything that touches the operating system is left to the
//! caller, which performs the actions that the functions here compute.

pub mod attach;
pub mod bounded_hashmap;
pub mod child;
pub mod clock;
pub mod config;
pub mod console;
pub mod container_io;
pub mod container_log;
pub mod cri_log;
pub mod fd_mapping;
pub mod fd_socket;
pub mod inactivity;
pub mod init;
pub mod journal;
pub mod json_log;
pub mod lines;
pub mod listener;
pub mod oom;
pub mod parse;
pub mod paths;
pub mod pause;
pub mod pidwatch;
pub mod runtime_args;
pub mod server;
pub mod streaming;
pub mod text;
pub mod version;
