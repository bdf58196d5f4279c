//! A remote-deployment orchestration library.
//!
//! The library holds the verified logic of a small deployment tool: packaging
//! local directory trees into compressed archives, gating remote command
//! execution on exit status, splitting interleaved remote output into lines
//! for a live sink, ordering the deploy and restart workflows, and detecting
//! which local files changed since the last run.  All I/O (the SSH transport,
//! the filesystem walk, configuration loading) lives outside the library and
//! hands it plain values.

pub mod archive;
pub mod changes;
pub mod config;
pub mod errors;
pub mod pipeline;
pub mod remote;
pub mod restart;
pub mod stream;
pub mod text;
