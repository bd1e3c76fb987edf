//! The rules of codemcp, a gateway that joins many upstream MCP servers behind
//! one `execute_python` tool.
//!
//! Everything here is a decision or a computation on plain values. Sockets,
//! files, child processes and HTTP are driven from outside: the state machines
//! in this crate say what to do next and are told what came of it.

pub mod admin;
pub mod cli;
pub mod config;
pub mod error;
pub mod file_format;
pub mod gateway;
pub mod installer;
pub mod json;
pub mod login;
pub mod names;
pub mod reload;
pub mod runtime;
pub mod settings;
pub mod text;
pub mod update;
pub mod upstream;
