//! The conversation: the append-only ordered sequence of messages that is
//! sent whole on every completion request.
//!
//! The loop around it alternates between two states. With an even number of
//! messages the conversation awaits the user; appending the user's line
//! makes the count odd and the conversation awaits the endpoint; appending
//! the endpoint's reply completes the turn. Roles therefore strictly
//! alternate, user first, and each completed turn adds exactly two messages.

use vstd::prelude::*;
use crate::message::{GptMessage, GptRole, MessageView};

verus! {

/// Roles strictly alternate, the user's first.
pub open spec fn alternating(ms: Seq<MessageView>) -> bool {
    forall|i: int|
        0 <= i < ms.len() ==> ms[i].role == (if i % 2 == 0 {
            GptRole::User
        } else {
            GptRole::Assistant
        })
}

/// The accumulated context window: every message of the run so far, in
/// order, only ever appended to.
pub struct Conversation {
    messages: Vec<GptMessage>,
}

impl View for Conversation {
    type V = Seq<MessageView>;

    closed spec fn view(&self) -> Seq<MessageView> {
        self.messages@.map_values(|m: GptMessage| m@)
    }
}

impl Conversation {
    /// A conversation is well-formed when its roles strictly alternate
    /// starting with the user.
    pub open spec fn wf(&self) -> bool {
        alternating(self@)
    }

    /// The empty conversation, awaiting the first user message.
    pub fn new() -> (c: Conversation)
        ensures
            c@ == Seq::<MessageView>::empty(),
            c.wf(),
    {
        let c = Conversation { messages: Vec::new() };
        proof {
            assert(c@ =~= Seq::<MessageView>::empty());
        }
        c
    }

    /// How many messages have accumulated.
    pub fn len(&self) -> (n: usize)
        ensures
            n == self@.len(),
    {
        self.messages.len()
    }

    /// The messages, for building a request from the full conversation.
    pub fn messages(&self) -> (ms: &Vec<GptMessage>)
        ensures
            ms@.map_values(|m: GptMessage| m@) == self@,
    {
        &self.messages
    }

    /// Appends the user's next line. Only a conversation awaiting the user
    /// (an even count of messages) accepts one.
    pub fn push_user(&mut self, content: String)
        requires
            old(self).wf(),
            old(self)@.len() % 2 == 0,
        ensures
            final(self)@ == old(self)@.push(
                MessageView { role: GptRole::User, content: content@ },
            ),
            final(self).wf(),
    {
        let ghost pre: Seq<MessageView> = self@;
        self.messages.push(GptMessage { role: GptRole::User, content });
        proof {
            assert(final(self)@ =~= pre.push(
                MessageView { role: GptRole::User, content: content@ },
            ));
        }
    }

    /// Appends the endpoint's reply, completing a turn. Only a conversation
    /// awaiting the endpoint (an odd count of messages) accepts one, and
    /// only an assistant message.
    pub fn push_assistant(&mut self, m: GptMessage)
        requires
            old(self).wf(),
            old(self)@.len() % 2 == 1,
            m@.role == GptRole::Assistant,
        ensures
            final(self)@ == old(self)@.push(m@),
            final(self).wf(),
    {
        let ghost pre: Seq<MessageView> = self@;
        let ghost mv: MessageView = m@;
        self.messages.push(m);
        proof {
            assert(final(self)@ =~= pre.push(mv));
        }
    }
}

/// One turn: the user's line and the content the endpoint answered with.
pub struct Turn {
    pub user: Seq<char>,
    pub assistant: Seq<char>,
}

/// The conversation a run of successive successful turns accumulates: for
/// each turn, the user message and then the assistant message.
pub open spec fn after_turns(turns: Seq<Turn>) -> Seq<MessageView>
    decreases turns.len(),
{
    if turns.len() == 0 {
        Seq::empty()
    } else {
        after_turns(turns.drop_last()) + seq![
            MessageView { role: GptRole::User, content: turns.last().user },
            MessageView { role: GptRole::Assistant, content: turns.last().assistant },
        ]
    }
}

/// After any number of successive successful turns the conversation holds
/// exactly two messages per turn — the user's then the assistant's — so its
/// length is twice the number of turns and its roles strictly alternate
/// starting with the user.
pub proof fn lemma_after_turns_shape(turns: Seq<Turn>)
    ensures
        after_turns(turns).len() == 2 * turns.len(),
        alternating(after_turns(turns)),
    decreases turns.len(),
{
    if turns.len() > 0 {
        lemma_after_turns_shape(turns.drop_last());
    }
}

} // verus!
