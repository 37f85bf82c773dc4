//! The rules by which the server accepts, activates and serves plugins.
pub mod activation_lock;
pub mod activation_store;
pub mod bootstrap;
pub mod bootstrap_document;
pub mod components;
pub mod delivery;
pub mod frontend_access;
pub mod frontend_delivery;
pub mod frontend_document;
pub mod frontend_model;
pub mod frontend_package;
pub mod frontend_routes;
pub mod git_proof;
pub mod http_error;
pub mod installation;
pub mod lifecycle;
pub mod manifest;
pub mod marketplace_store;
pub mod marketplace_sync;
pub mod package_repository;
pub mod package_store;
pub mod page_state;
pub mod process;
pub mod publication;
pub mod publication_validation;
pub mod publish_job;
pub mod reconciliation;
