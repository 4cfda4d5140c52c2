//! Round-robin tournament of the iterated prisoner's dilemma.

pub mod action;
pub mod strategy;
pub mod catalogue;
pub mod engine;
pub mod tournament;
