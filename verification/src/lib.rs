//! Autonomous driver loop: a control core that directs an agent conversation
//! under the supervision of a driver language model.
//!
//! The crate holds the verified logic of the loop: template substitution,
//! approval parsing, the token-budgeted context manager, the agent event
//! demultiplexer, the supervisor tools, and the iteration controller's
//! bookkeeping. All I/O (files, network, the agent runtime itself) stays
//! outside; the functions here work on plain values and state machines.

use vstd::prelude::*;

pub mod approval;
pub mod controller;
pub mod demux;
pub mod driver;
pub mod log;
pub mod persist;
pub mod render;
pub mod template;
pub mod text;
pub mod tokens;
pub mod tools;

verus! {

/// Upper bound of the driver model's context window, in tokens.
pub const MAX_TOKENS: usize = 200_000;

/// Safety margin kept free below `MAX_TOKENS`.
pub const TOKEN_BUFFER: usize = 500;

} // verus!
