//! Core of a desktop build orchestrator: a security-policy engine that
//! validates build commands and materializes sandboxes, a toolchain resolver,
//! a build-execution state machine that streams output to an observer, and a
//! registry of local virtualized build nodes with capability detection,
//! lifecycle verbs and discovery.

pub mod cicd;
pub mod config;
pub mod engine;
pub mod nodes;
pub mod packaging;
pub mod plugin;
pub mod project;
pub mod remotenode;
pub mod security;
pub mod strutil;
pub mod toolchain;
