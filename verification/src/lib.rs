//! The native-side logic of a desktop shell around the `zeroclaw` command
//! line agent: well-known paths under the user's home directory, idempotent
//! installation of the bundled agent binary and its resources, the gateway
//! patch of the agent's configuration file, and the decisions around the
//! agent's background gateway service.
//!
//! All file contents and listings are plain bytes and `FileMap` listings;
//! the application around this library performs the actual reads, writes and
//! process spawns and hands the observations in.

pub mod bytes;
pub mod config;
pub mod fsmodel;
pub mod gateway;
pub mod init;
pub mod paths;
