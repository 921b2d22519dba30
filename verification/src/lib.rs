//! Core of an SFTP file-transfer agent: jobs submitted against a remote file
//! server are queued, executed by a pool of workers over pooled sessions, and
//! their terminal outcomes kept in a time-boxed record store.
//!
//! This crate holds the verified logic of the agent: the job data model and
//! worker state machine, the record-store envelope codec and TTL semantics,
//! the session-pool accounting, and the streaming-transfer model. The
//! asynchronous plumbing (HTTP handlers, SSH sessions, worker tasks) lives
//! outside and drives these functions.

pub mod codec;
pub mod config;
pub mod pool;
pub mod request;
pub mod store;
pub mod task;
pub mod transfer;
