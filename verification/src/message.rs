//! The command tokens and reply codes that the core works with.

use vstd::prelude::*;

pub mod rpl;

verus! {

/// A reply code, as the numeric that is sent to the client.
pub type Reply = u16;

/// The command of an incoming message.
#[derive(Clone, Copy, Debug, PartialEq, Eq, Structural)]
pub enum Command {
    Cap,
    Join,
    Mode,
    Nick,
    Notice,
    Part,
    Pass,
    Ping,
    Pong,
    PrivMsg,
    Quit,
    Topic,
    User,
}

} // verus!
