//! A single-process node that answers line-delimited JSON requests: the
//! message model, the handshake, the dispatch rules and three node behaviors.

pub mod codec;
pub mod handler;
pub mod json;
pub mod nodes;
pub mod topology;
pub mod types;
pub mod utils;
