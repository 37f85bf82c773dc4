//! The verified core of a plugin workspace: manifests, revision proofs, activation,
//! publication, delivery, embedded front ends, components and the workspace itself.
pub mod html;
pub mod json;
pub mod outside;
pub mod pages;
pub mod runtime;
pub mod steps;
pub mod text;
pub mod workspace;
