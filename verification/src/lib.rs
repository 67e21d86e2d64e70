//! Verified core of a bounded agent-loop runner.
//!
//! The library holds the logic of the loop: building agent invocations,
//! capping captured output, extracting a goal proposal from model output,
//! assembling repository context, the negotiation protocol, and the
//! iteration controller with its stop conditions.  Process spawning,
//! file and network I/O live outside the library and hand it plain values.

pub mod bytes;
pub mod config;
pub mod context;
pub mod controller;
pub mod fmt;
pub mod inference;
pub mod invoker;
pub mod json;
pub mod negotiate;
pub mod runner;
pub mod template;
pub mod text;
