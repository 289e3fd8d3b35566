//! What the shell decides when the renderer asks for something.
pub mod backend;
pub mod boot;
pub mod fs;
pub mod platform;
pub mod system;
pub mod terminal;
pub mod window;
