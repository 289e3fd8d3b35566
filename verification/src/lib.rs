//! The decisions of the Hermes desktop shell.
//!
//! The shell starts and watches a Hermes backend, installs one on first launch,
//! and answers the renderer. This crate holds everything about that which can be
//! decided from plain values: what to start and with which environment, what an
//! output means, what to report and what to do next. Touching the machine is
//! left to the program around it.
pub mod backend;
pub mod boot;
pub mod bootstrap;
mod clock;
pub mod commands;
pub mod duplicate;
pub mod json;
pub mod logging;
pub mod paths;
pub mod probe;
pub mod terminal;
pub mod text;
pub mod token;
