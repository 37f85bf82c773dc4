//! Delivery: finding repositories, building their commits and rolling the builds out.
pub mod controller;
pub mod discovery;
pub mod documents;
pub mod rollout;
pub mod store;
