//! Request and reply models of the simulation service.
pub mod models;
