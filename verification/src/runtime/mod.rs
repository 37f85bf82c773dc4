//! The plugin runtime: the data it exchanges and the rules of its server.
pub mod client;
pub mod model;
pub mod server;
