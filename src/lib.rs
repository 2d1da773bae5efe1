//! Length-prefixed message framing over a byte stream, and the decision
//! logic of an echo server's connection handler and of a client that sends
//! frames of escalating size.

pub mod client;
pub mod dispatcher;
pub mod exchange;
pub mod frame;
pub mod handler;
