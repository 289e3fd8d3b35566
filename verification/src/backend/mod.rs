//! The Hermes backend process: how it is found, started, watched and spoken to.
pub mod command;
pub mod env;
pub mod manager;
pub mod ready;
