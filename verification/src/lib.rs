//! A verified core for a single-namespace, per-session, in-memory FTP server:
//! the file store behind each session, the user table that logins are checked
//! against, and the `SITE SEND` command that publishes stored files to Kafka.

pub mod auth;
pub mod diagnostics;
pub mod kafka;
pub mod keyed;
pub mod storage;
