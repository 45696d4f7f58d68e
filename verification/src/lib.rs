//! A verified core for a command-line chat client that talks to a hosted
//! completion endpoint.
//!
//! The library owns everything that can be stated and proved: the message
//! model and its wire JSON encoding, the parser for the endpoint's reply,
//! the classification of a completed HTTP exchange into a reply or an error,
//! the credential shape check, and the append-only conversation state.
//! Terminal and network plumbing live outside, in the accompanying binary,
//! and hand this library plain values.

pub mod client;
pub mod convo;
pub mod credential;
pub mod decode;
pub mod encode;
pub mod laws;
pub mod message;
