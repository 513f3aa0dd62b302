//! Locating and validating an Android NDK toolchain, and rendering the cargo
//! configuration that binds each Android target to its archiver and linker.
//!
//! The crate performs no input or output. Everything that touches the
//! environment, the file system, the terminal or the network is asked of the
//! caller as a request and handed back as a plain value.

pub mod command;
pub mod downloader;
pub mod platform;
pub mod resolver;
pub mod text;
pub mod unarchiver;
pub mod world;
