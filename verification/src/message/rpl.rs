//! Numeric reply codes.

use vstd::prelude::*;

use crate::message::Reply;

verus! {

/// The named member is not on the channel.
pub const ERR_USERNOTINCHANNEL: Reply = 441;

/// The channel key is already set.
pub const ERR_KEYSET: Reply = 467;

} // verus!
