//! Components that run as processes in containers of their own.
pub mod broker;
pub mod configuration;
pub mod instance;
pub mod model;
pub mod supervision;
