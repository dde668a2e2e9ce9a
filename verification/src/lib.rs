//! Core of an interactive command-line client for a hosted
//! question-answering service.
//!
//! A session accumulates conversation history and attached file contents,
//! assembles them deterministically into one outbound query string, parses
//! terminal commands, and records answers. Everything here is pure state and
//! string logic; transport, persistence and terminal integration live with
//! the caller, which hands their results in as plain values.

pub mod assemble;
pub mod citations;
pub mod command;
pub mod config;
pub mod files;
pub mod history;
pub mod session;
pub mod text;
