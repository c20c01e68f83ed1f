//! Langton's ant on a bounded grid: the simulation, the stored start
//! configurations and the decisions of the control panel around them.

pub mod ant;
pub mod config;
pub mod input;
pub mod session;
