//! A pre-execution authorization gate for shell command lines.
//!
//! Given a raw command string, the library decides Allow / Ask / Deny before
//! the command is run: it tokenizes the line into simple commands (a small
//! grammar, intentionally far narrower than bash — no expansion, no
//! substitution), sees through wrapper commands (privilege elevation, remote
//! shells, environment wrappers, pod execution, inline shells) to the
//! command actually being executed, auto-allows destructive file commands
//! whose every path argument is proven confined to a trusted root, and
//! combines per-command verdicts by taking the most restrictive one.

pub mod advice;
pub mod analyze;
pub mod command;
pub mod permission;
pub mod policy;
pub mod resolve;
pub mod rm;
pub mod strutil;
pub mod tee;
pub mod tokenize;
pub mod wrapper;
pub mod wrappers;
