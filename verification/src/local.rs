//! The desktop client's local mode: projects served from a Unity build
//! directory, bundle synchronisation, the local file server and the commands
//! that tie them together.
pub mod config;
pub mod sync;
pub mod server;
pub mod commands;
