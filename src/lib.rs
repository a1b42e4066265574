//! A fuzzy-logic navigation controller: the rule engine of a Mamdani fuzzy
//! system, the controller's rule base, and the decisions of the simulation
//! stepper that drives a vehicle to its target.
pub mod api;
pub mod fuzzy_system;
pub mod navigation;
pub mod simulation;
pub mod vehicle;
