//! Pages that the workspace itself contributes.
pub mod home;
