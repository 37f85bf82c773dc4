//! Components: plugins published as whole bundles, installed for each tenant.
pub mod catalog;
pub mod controller;
pub mod frontend;
pub mod keyring;
pub mod lifecycle;
pub mod model;
pub mod process;
pub mod services;
pub mod store;
