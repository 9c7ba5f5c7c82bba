//! Certificate lifecycle orchestration: the domain registry and its single
//! acquisition lock, command templating and log redaction, the protocol that
//! watches an issuance subprocess, expiry evaluation and the startup and
//! renewal schedules.

pub mod certs;
pub mod config;
pub mod expiry;
pub mod logging;
pub mod orchestrator;
pub mod process;
pub mod redact;
pub mod registry;
pub mod schedule;
pub mod service;
pub mod template;
pub mod text;
