//! Pipeline execution and job-control core of an interactive command interpreter.
//!
//! The library holds the decisions; the program around it performs the
//! process, terminal and signal work that those decisions call for.

pub mod text;
pub mod parser;
pub mod resolver;
pub mod pipeline;
pub mod job;
pub mod session;
pub mod command;
pub mod config;
pub mod layout;
