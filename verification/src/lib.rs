//! The core of an IRC server: the connection state machine of a client,
//! capability negotiation, channels with their modes, and the parser that
//! turns mode strings into typed mode changes.

pub mod channel;
pub mod client;
pub mod message;
pub mod modes;
pub mod text;
