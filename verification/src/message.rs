//! The conversation entry shape exchanged with the remote endpoint.

use vstd::prelude::*;

verus! {

/// The author of one conversation turn. The wire encoding writes the
/// lower-case variant name.
#[derive(Clone, Copy, Debug, PartialEq, Eq, Structural)]
pub enum GptRole {
    User,
    Assistant,
    System,
}

/// One turn in the conversation: a role tag and free-form text content.
/// Immutable once created; a conversation only ever appends such values.
#[derive(Debug, PartialEq)]
pub struct GptMessage {
    pub role: GptRole,
    pub content: String,
}

/// The mathematical value of a [`GptMessage`]: the role and the content as a
/// sequence of characters.
pub struct MessageView {
    pub role: GptRole,
    pub content: Seq<char>,
}

impl View for GptMessage {
    type V = MessageView;

    open spec fn view(&self) -> MessageView {
        MessageView { role: self.role, content: self.content@ }
    }
}

impl GptMessage {
    /// Builds the message with the given role and content.
    pub fn new(role: GptRole, content: String) -> (r: GptMessage)
        ensures
            r@.role == role,
            r@.content == content@,
    {
        GptMessage { role, content }
    }
}

} // verus!
