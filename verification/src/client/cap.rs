//! The capabilities that a client can negotiate.

use vstd::prelude::*;

use crate::client::{cap_query, cap_tokens};
use crate::text::{chars_of, vec_eq};

verus! {

pub const CAP_NOTIFY: &'static str = "cap-notify";

pub const ECHO_MESSAGE: &'static str = "echo-message";

pub const MESSAGE_TAGS: &'static str = "message-tags";

/// The capabilities that the server offers, as a `CAP LS` reply lists them.
pub const LS: &'static str = "cap-notify echo-message message-tags";

/// Whether `name` is the name of a capability that the server offers.
pub open spec fn is_known(name: Seq<char>) -> bool {
    name == CAP_NOTIFY@ || name == ECHO_MESSAGE@ || name == MESSAGE_TAGS@
}

/// Whether every capability that the list `capabilities` names, to enable
/// it or with a leading `-` to disable it, is one that the server offers.
pub fn are_supported(capabilities: &str) -> (supported: bool)
    ensures
        supported == forall|i: int|
            0 <= i < cap_tokens(capabilities@).len() ==> is_known(
                (#[trigger] cap_tokens(capabilities@)[i]).0,
            ),
{
    let tokens = cap_query(capabilities);
    let cap_notify = chars_of(CAP_NOTIFY);
    let echo_message = chars_of(ECHO_MESSAGE);
    let message_tags = chars_of(MESSAGE_TAGS);
    let mut i: usize = 0;
    while i < tokens.len()
        invariant
            i <= tokens.len(),
            tokens.len() == cap_tokens(capabilities@).len(),
            forall|j: int|
                0 <= j < tokens.len() ==> (#[trigger] tokens[j]).0@ == cap_tokens(
                    capabilities@,
                )[j].0,
            cap_notify@ == CAP_NOTIFY@,
            echo_message@ == ECHO_MESSAGE@,
            message_tags@ == MESSAGE_TAGS@,
            forall|j: int|
                0 <= j < i ==> is_known((#[trigger] cap_tokens(capabilities@)[j]).0),
        decreases tokens.len() - i,
    {
        let name = &tokens[i].0;
        if !(vec_eq(name, &cap_notify) || vec_eq(name, &echo_message) || vec_eq(
            name,
            &message_tags,
        )) {
            return false;
        }
        i += 1;
    }
    true
}

} // verus!
