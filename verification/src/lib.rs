//! Resource-hosting logic for Unity hot-update bundles: the remote server's
//! project model, storage layout, upload sessions and resource routing, and the
//! desktop client's bundle synchronisation and local file server.
pub mod text;
pub mod paths;
pub mod digest;
pub mod ids;
pub mod order;
pub mod lookup;
pub mod remote;
pub mod local;
