//! The node behaviors.

pub mod broadcast;
pub mod echo;
pub mod generate;
