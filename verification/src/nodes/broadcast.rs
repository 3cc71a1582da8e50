//! The node that keeps what it is told.

use vstd::prelude::*;
use crate::handler::{outcome_view, Machine, State};
use crate::topology::{neighbors_in, texts};
use crate::types::{
    reply_to, Body, BodyView, Message, MessageView, RequestBody, RequestView, ResponseBody,
    ResponseView,
};
use crate::utils::Failure;

verus! {

/// A node that keeps the values it is sent, in the order in which they
/// come, and the neighbors that a topology assigns to it.
#[derive(Debug)]
pub struct BroadcastNode {
    node_name: Option<String>,
    store: Vec<usize>,
    neighbors: Vec<String>,
}

impl Default for BroadcastNode {
    fn default() -> (node: BroadcastNode)
        ensures
            node.name() is None,
            node.stored() == Seq::<usize>::empty(),
            node.neighbor_names() == Seq::<Seq<char>>::empty(),
    {
        let node = BroadcastNode { node_name: None, store: Vec::new(), neighbors: Vec::new() };
        assert(texts(node.neighbors@) =~= Seq::<Seq<char>>::empty());
        node
    }
}

/// What a broadcast node that holds `stored` answers to a request, if it
/// answers it.
pub open spec fn broadcast_answer(stored: Seq<usize>, request: RequestView) -> Result<
    ResponseView,
    Failure,
> {
    match request {
        RequestView::Broadcast { .. } => Ok(ResponseView::BroadcastOk),
        RequestView::Topology { .. } => Ok(ResponseView::TopologyOk),
        RequestView::Read => Ok(ResponseView::ReadOk { messages: stored }),
        _ => Err(Failure::Unsupported),
    }
}

/// What a broadcast node that holds `stored` makes of a message.
pub open spec fn broadcast_outcome(stored: Seq<usize>, input: MessageView) -> Result<
    MessageView,
    Failure,
> {
    match input.body {
        BodyView::Request { body, .. } => match broadcast_answer(stored, body) {
            Ok(answer) => Ok(reply_to(input, answer)),
            Err(failure) => Err(failure),
        },
        BodyView::Response { .. } => Err(Failure::NotARequest),
    }
}

/// The values that a node holds after a message, where it held `stored`
/// before: a `broadcast` request adds its value at the end, and nothing
/// else changes them.
pub open spec fn stored_after(stored: Seq<usize>, input: MessageView) -> Seq<usize> {
    match input.body {
        BodyView::Request { body: RequestView::Broadcast { message }, .. } => stored.push(message),
        _ => stored,
    }
}

/// The neighbors of a node after a message: a `topology` request gives the
/// node the neighbors that it assigns to the node's name, none where it
/// assigns none or the node has no name, and nothing else changes them.
pub open spec fn neighbors_after(
    name: Option<Seq<char>>,
    neighbors: Seq<Seq<char>>,
    input: MessageView,
) -> Seq<Seq<char>> {
    match input.body {
        BodyView::Request { body: RequestView::Topology { topology }, .. } => match name {
            Some(name) => neighbors_in(topology, name),
            None => Seq::empty(),
        },
        _ => neighbors,
    }
}

impl BroadcastNode {
    /// The values that the node holds, in the order in which they came.
    pub closed spec fn stored(&self) -> Seq<usize> {
        self.store@
    }

    /// The neighbors that the node has been assigned.
    pub closed spec fn neighbor_names(&self) -> Seq<Seq<char>> {
        texts(self.neighbors@)
    }

    /// The values that the node holds, in the order in which they came.
    pub fn messages(&self) -> (values: &Vec<usize>)
        ensures
            values@ == self.stored(),
    {
        &self.store
    }

    /// The neighbors that the node has been assigned.
    pub fn neighbors(&self) -> (names: &Vec<String>)
        ensures
            texts(names@) == self.neighbor_names(),
    {
        &self.neighbors
    }

    /// Takes a request in, and says what is to be answered.
    fn apply(&mut self, request: &RequestBody) -> (answer: Result<ResponseBody, Failure>)
        ensures
            match broadcast_answer(old(self).stored(), request@) {
                Ok(expected) => answer matches Ok(made) && made@ == expected,
                Err(failure) => answer matches Err(other) && other == failure,
            },
            final(self).name() == old(self).name(),
            final(self).stored() == (match request@ {
                RequestView::Broadcast { message } => old(self).stored().push(message),
                _ => old(self).stored(),
            }),
            final(self).neighbor_names() == (match request@ {
                RequestView::Topology { topology } => match old(self).name() {
                    Some(name) => neighbors_in(topology, name),
                    None => Seq::empty(),
                },
                _ => old(self).neighbor_names(),
            }),
    {
        match request {
            RequestBody::Broadcast { message } => {
                self.store.push(*message);
                Ok(ResponseBody::BroadcastOk {  })
            },
            RequestBody::Topology { topology } => {
                self.neighbors = match &self.node_name {
                    Some(name) => topology.neighbors_of(name),
                    None => Vec::new(),
                };
                assert(self.node_name is None ==> texts(self.neighbors@) =~= Seq::<
                    Seq<char>,
                >::empty());
                Ok(ResponseBody::TopologyOk {  })
            },
            RequestBody::Read {  } => {
                let mut messages: Vec<usize> = Vec::new();
                let mut i: usize = 0;
                while i < self.store.len()
                    invariant
                        i <= self.store.len(),
                        messages@ == self.store@.subrange(0, i as int),
                    decreases self.store.len() - i,
                {
                    messages.push(self.store[i]);
                    assert(messages@ =~= self.store@.subrange(0, i as int + 1));
                    i += 1;
                }
                assert(self.store@.subrange(0, self.store.len() as int) =~= self.store@);
                Ok(ResponseBody::ReadOk { messages })
            },
            _ => Err(Failure::Unsupported),
        }
    }

    /// Answers one message and keeps what it tells.
    pub fn step(&mut self, input: Message) -> (result: Result<Message, Failure>)
        ensures
            outcome_view(result) == broadcast_outcome(old(self).stored(), input@),
            final(self).name() == old(self).name(),
            final(self).stored() == stored_after(old(self).stored(), input@),
            final(self).neighbor_names() == neighbors_after(
                old(self).name(),
                old(self).neighbor_names(),
                input@,
            ),
    {
        let answer = match &input.body {
            Body::Request { body, .. } => self.apply(body),
            Body::Response { .. } => Err(Failure::NotARequest),
        };
        let reply = move |_msg_id: usize, _body: RequestBody| -> (made: Result<
            ResponseBody,
            Failure,
        >)
            ensures
                made == answer,
            { answer };
        input.respond(reply)
    }
}

impl Machine for BroadcastNode {
    closed spec fn name(&self) -> Option<Seq<char>> {
        match self.node_name {
            Some(name) => Some(name@),
            None => None,
        }
    }

    open spec fn renamed(&self, name: Seq<char>, after: &Self) -> bool {
        &&& after.name() == Some(name)
        &&& after.stored() == self.stored()
        &&& after.neighbor_names() == self.neighbor_names()
    }

    open spec fn steps(
        &self,
        input: MessageView,
        after: &Self,
        outcome: Result<MessageView, Failure>,
    ) -> bool {
        &&& outcome == broadcast_outcome(self.stored(), input)
        &&& after.name() == self.name()
        &&& after.stored() == stored_after(self.stored(), input)
        &&& after.neighbor_names() == neighbors_after(self.name(), self.neighbor_names(), input)
    }

    fn set_state(&mut self, state: State) {
        match state {
            State::Id { id } => {
                self.node_name = Some(id);
            },
        }
    }

    fn step(&mut self, input: Message) -> (result: Result<Message, Failure>) {
        BroadcastNode::step(self, input)
    }
}

} // verus!
