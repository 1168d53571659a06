//! An on-demand exporter of chat-server metrics: resolves a target address,
//! drives one line-oriented session against it and turns what the session
//! learned into a fixed, ordered set of samples.

pub mod engine;
pub mod extract;
pub mod laws;
pub mod metrics;
pub mod nick;
pub mod number;
pub mod outcome;
pub mod render;
pub mod reply;
pub mod session;
pub mod target;
pub mod wire;
