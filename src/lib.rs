//! Remote server management: deployment of a local source tree to a remote
//! host, cache clearing, and backups of remote directories and databases.
//!
//! The library decides what is to be done (which files move where, which
//! commands run on the remote host, in which order, and when a session is
//! opened and closed); the program around it performs those steps.

pub mod text;
pub mod connect_info;
pub mod ssh_config;
pub mod generate;
pub mod clock;
pub mod paths;
pub mod transfer;
pub mod backup;
pub mod sync;
