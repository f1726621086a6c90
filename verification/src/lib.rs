//! CommandGuard: a semantic paste firewall for shell commands.
//!
//! The library analyzes pasted shell text for risky effects (remote download,
//! dynamic execution, concealed payloads, credential reads, persistence,
//! privilege escalation, destructive filesystem operations and external
//! transmission) and decides what a guarded terminal does with a paste.

pub mod model;
pub mod text;
pub mod shell;
pub mod rules;
pub mod builder;
pub mod decoder;
pub mod syntax;
pub mod semantics;
pub mod analyzer;
pub mod warning;
pub mod guard;
pub mod bench;
pub mod cli;
pub mod invariants;
