//! The assistant-command interface: the response record those commands hand
//! back, and the rule that picks the system-role text they send.
use vstd::prelude::*;

verus! {

/// The single text field extracted from a chat-completion reply.
#[derive(Debug, Clone)]
pub struct OpenAIResponse {
    pub result: String,
}

/// Picks the system-role text for an assistant command: the configured
/// override when one is supplied, the command's literal default otherwise.
pub fn resolve_system_role(configured: Option<String>, fallback: String) -> (r: String)
    ensures
        r@ == match configured {
            Option::Some(s) => s@,
            Option::None => fallback@,
        },
{
    match configured {
        Option::Some(s) => s,
        Option::None => fallback,
    }
}

} // verus!
