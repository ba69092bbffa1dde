//! Local path planning for an explorer agent on a partially observed grid:
//! a genetic search over short action sequences, the frontier dispatcher
//! around it, and the energy-gated controller that executes its plans.

pub mod action;
mod rng;
pub mod grid;
pub mod fitness;
pub mod seed;
pub mod population;
pub mod search;
pub mod frontier;
pub mod controller;
pub mod deposit;
