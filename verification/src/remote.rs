//! The remote resource server: projects with project versions, per-platform
//! access switches and active bundles, the storage layout under the resources
//! directory, authentication, uploads and resource routing.
pub mod config;
pub mod auth;
pub mod storage;
pub mod api;
pub mod upload;
pub mod serve;
pub mod ws;
pub mod laws;
