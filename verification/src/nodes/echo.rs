//! The node that sends back what it is sent.

use vstd::prelude::*;
use crate::handler::{outcome_view, Machine, State};
use crate::types::{
    reply_to, BodyView, Message, MessageView, RequestBody, RequestView, ResponseBody,
    ResponseView,
};
use crate::utils::Failure;

verus! {

/// A node that answers `echo` requests and no others.
#[derive(Debug)]
pub struct EchoNode {
    node_name: Option<String>,
}

/// What an echo node makes of a message: the text of an `echo` request goes
/// back as it came, a request of another kind is not supported, and a
/// response cannot be answered.
pub open spec fn echo_outcome(input: MessageView) -> Result<MessageView, Failure> {
    match input.body {
        BodyView::Request { body: RequestView::Echo { echo }, .. } => Ok(
            reply_to(input, ResponseView::EchoOk { echo }),
        ),
        BodyView::Request { .. } => Err(Failure::Unsupported),
        BodyView::Response { .. } => Err(Failure::NotARequest),
    }
}

/// The answer to a request: its text for an `echo`, a failure for any
/// other kind.
pub fn echo_back(_msg_id: usize, body: RequestBody) -> (answer: Result<ResponseBody, Failure>)
    ensures
        match body@ {
            RequestView::Echo { echo } => answer matches Ok(made) && made@
                == (ResponseView::EchoOk { echo }),
            _ => answer matches Err(Failure::Unsupported),
        },
{
    match body {
        RequestBody::Echo { echo } => Ok(ResponseBody::EchoOk { echo }),
        _ => Err(Failure::Unsupported),
    }
}

impl Default for EchoNode {
    fn default() -> (node: EchoNode)
        ensures
            node.name() is None,
    {
        EchoNode { node_name: None }
    }
}

impl EchoNode {
    /// Answers one message, and stays as it is.
    pub fn step(&mut self, input: Message) -> (result: Result<Message, Failure>)
        ensures
            outcome_view(result) == echo_outcome(input@),
            *final(self) == *old(self),
    {
        input.respond(echo_back)
    }
}

impl Machine for EchoNode {
    closed spec fn name(&self) -> Option<Seq<char>> {
        match self.node_name {
            Some(name) => Some(name@),
            None => None,
        }
    }

    open spec fn renamed(&self, name: Seq<char>, after: &Self) -> bool {
        after.name() == Some(name)
    }

    open spec fn steps(
        &self,
        input: MessageView,
        after: &Self,
        outcome: Result<MessageView, Failure>,
    ) -> bool {
        *after == *self && outcome == echo_outcome(input)
    }

    fn set_state(&mut self, state: State) {
        match state {
            State::Id { id } => {
                self.node_name = Some(id);
            },
        }
    }

    fn step(&mut self, input: Message) -> (result: Result<Message, Failure>) {
        EchoNode::step(self, input)
    }
}

} // verus!
