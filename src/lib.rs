//! Verified core of a multi-session terminal host: the session registry,
//! shell and environment resolution for child processes, the decisions of
//! the output relay and exit monitor, `.env` / `.envrc` parsing, password
//! based encryption of text, and pruning of workspace snapshots.

pub mod crypto;
pub mod envfile;
pub mod relay;
pub mod session;
pub mod shell;
pub mod text;
pub mod workspace;
