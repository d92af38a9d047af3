//! Core logic of an interactive terminal chat client.
//!
//! The client shows a splash screen, then a scrolling transcript with a
//! text-entry line, and forwards user input to an external line-oriented
//! assistant process. This crate holds the verified heart of that program:
//! the application state machine (screen mode, transcript, input buffer,
//! awaiting-reply flag), the keyboard transition function, the submission
//! protocol, the line-break escape codec used on the wire, and the draining
//! of the inbound reply queue. Terminal rendering, process spawning and the
//! asynchronous plumbing around the event loop live outside this crate and
//! drive it through the functions defined here.

use vstd::prelude::*;

pub mod codec;
pub mod inbound;
pub mod keys;
pub mod state;
pub mod text;

verus! {

/// Capacity of each of the two bounded channels (outbound prompts and
/// inbound replies) connecting the event loop to the worker bridge tasks.
pub const CHANNEL_CAPACITY: usize = 100;

} // verus!
