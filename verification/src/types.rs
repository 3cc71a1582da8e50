//! The message model: envelope, bodies and the closed set of error codes.

use vstd::prelude::*;
use crate::topology::{texts, Topology, TopologyView};
use crate::utils::Failure;

verus! {

/// What a request asks for, as a mathematical value.
pub enum RequestView {
    Init { node_id: Seq<char>, node_ids: Seq<Seq<char>> },
    Echo { echo: Seq<char> },
    Generate,
    Broadcast { message: usize },
    Topology { topology: TopologyView },
    Read,
}

/// What a response answers, as a mathematical value.
pub enum ResponseView {
    InitOk,
    Error { code: ErrorCode, text: Seq<char> },
    EchoOk { echo: Seq<char> },
    GenerateOk { id: Seq<char> },
    BroadcastOk,
    TopologyOk,
    ReadOk { messages: Seq<usize> },
}

/// A body as a mathematical value.
#[allow(inconsistent_fields)]
pub enum BodyView {
    Request { msg_id: usize, body: RequestView },
    Response { in_reply_to: usize, body: ResponseView },
}

/// An envelope as a mathematical value.
pub struct MessageView {
    pub src: Seq<char>,
    pub dst: Seq<char>,
    pub body: BodyView,
}

/// The envelope: who sent the message, whom it is for, and its body.
#[derive(Clone, Debug, PartialEq, Eq)]
pub struct Message {
    pub src: String,
    pub dst: String,
    pub body: Body,
}

/// A body is a request, which carries the sender's `msg_id`, or a response,
/// which carries the `msg_id` of the request that it answers.
#[derive(Clone, Debug, PartialEq, Eq)]
#[allow(inconsistent_fields)]
pub enum Body {
    Request { msg_id: usize, body: RequestBody },
    Response { in_reply_to: usize, body: ResponseBody },
}

#[derive(Clone, Debug, PartialEq, Eq)]
pub enum RequestBody {
    Init { node_id: String, node_ids: Vec<String> },
    Echo { echo: String },
    Generate {},
    Broadcast { message: usize },
    Topology { topology: Topology },
    Read {},
}

#[derive(Clone, Debug, PartialEq, Eq)]
pub enum ResponseBody {
    InitOk {},
    Error { code: ErrorCode, text: String },
    EchoOk { echo: String },
    GenerateOk { id: String },
    BroadcastOk {},
    TopologyOk {},
    ReadOk { messages: Vec<usize> },
}

impl View for RequestBody {
    type V = RequestView;

    open spec fn view(&self) -> RequestView {
        match self {
            RequestBody::Init { node_id, node_ids } => RequestView::Init {
                node_id: node_id@,
                node_ids: texts(node_ids@),
            },
            RequestBody::Echo { echo } => RequestView::Echo { echo: echo@ },
            RequestBody::Generate {  } => RequestView::Generate,
            RequestBody::Broadcast { message } => RequestView::Broadcast { message: *message },
            RequestBody::Topology { topology } => RequestView::Topology { topology: topology@ },
            RequestBody::Read {  } => RequestView::Read,
        }
    }
}

impl View for ResponseBody {
    type V = ResponseView;

    open spec fn view(&self) -> ResponseView {
        match self {
            ResponseBody::InitOk {  } => ResponseView::InitOk,
            ResponseBody::Error { code, text } => ResponseView::Error { code: *code, text: text@ },
            ResponseBody::EchoOk { echo } => ResponseView::EchoOk { echo: echo@ },
            ResponseBody::GenerateOk { id } => ResponseView::GenerateOk { id: id@ },
            ResponseBody::BroadcastOk {  } => ResponseView::BroadcastOk,
            ResponseBody::TopologyOk {  } => ResponseView::TopologyOk,
            ResponseBody::ReadOk { messages } => ResponseView::ReadOk { messages: messages@ },
        }
    }
}

impl View for Body {
    type V = BodyView;

    open spec fn view(&self) -> BodyView {
        match self {
            Body::Request { msg_id, body } => BodyView::Request { msg_id: *msg_id, body: body@ },
            Body::Response { in_reply_to, body } => BodyView::Response {
                in_reply_to: *in_reply_to,
                body: body@,
            },
        }
    }
}

impl View for Message {
    type V = MessageView;

    open spec fn view(&self) -> MessageView {
        MessageView { src: self.src@, dst: self.dst@, body: self.body@ }
    }
}

/// The envelope that answers `request` with the payload `answer`: sender and
/// receiver change places, and the response names the request's `msg_id`.
pub open spec fn reply_to(request: MessageView, answer: ResponseView) -> MessageView
    recommends
        request.body is Request,
{
    MessageView {
        src: request.dst,
        dst: request.src,
        body: BodyView::Response { in_reply_to: request.body->msg_id, body: answer },
    }
}

/// `response` answers `request`: it goes back to the sender and names the
/// request's `msg_id`.
pub open spec fn answers(response: MessageView, request: MessageView) -> bool {
    &&& request.body is Request
    &&& response.body is Response
    &&& response.src == request.dst
    &&& response.dst == request.src
    &&& response.body->in_reply_to == request.body->msg_id
}

impl Message {
    /// Answers a request with what `callback` makes of its `msg_id` and
    /// payload. A failure of the callback is handed on, and no envelope is
    /// made. An envelope whose body is a response cannot be answered: the
    /// result is `Failure::NotARequest`, and the callback is not called.
    pub fn respond<F>(self, callback: F) -> (result: Result<Message, Failure>) where
        F: FnOnce(usize, RequestBody) -> Result<ResponseBody, Failure>,

        requires
            self.body matches Body::Request { msg_id, body } ==> callback.requires((msg_id, body)),
        ensures
            match self.body {
                Body::Request { msg_id, body } => match result {
                    Ok(response) => {
                        &&& response.src == self.dst
                        &&& response.dst == self.src
                        &&& response.body matches Body::Response { in_reply_to, body: answer }
                        &&& in_reply_to == msg_id
                        &&& callback.ensures((msg_id, body), Ok(answer))
                        &&& response@ == reply_to(self@, answer@)
                    },
                    Err(failure) => callback.ensures((msg_id, body), Err(failure)),
                },
                Body::Response { .. } => result == Err::<Message, Failure>(Failure::NotARequest),
            },
    {
        match self.body {
            Body::Request { msg_id, body } => {
                match callback(msg_id, body) {
                    Ok(answer) => Ok(
                        Message {
                            src: self.dst,
                            dst: self.src,
                            body: Body::Response { in_reply_to: msg_id, body: answer },
                        },
                    ),
                    Err(failure) => Err(failure),
                }
            },
            Body::Response { .. } => Err(Failure::NotARequest),
        }
    }
}

/// The closed set of error codes that an `error` response can carry.
#[derive(Clone, Copy, Debug, PartialEq, Eq, Structural)]
pub enum ErrorCode {
    Timeout,
    NodeNotFound,
    NotSupported,
    TemporarilyUnavailable,
    MalformedRequest,
    Crash,
    Abort,
    KeyDoesNotExist,
    KeyAlreadyExist,
    PreconditionFailed,
    TxnConflict,
}

impl ErrorCode {
    /// The number that stands for this code on the wire.
    pub open spec fn number(self) -> u8 {
        match self {
            ErrorCode::Timeout => 0,
            ErrorCode::NodeNotFound => 1,
            ErrorCode::NotSupported => 10,
            ErrorCode::TemporarilyUnavailable => 11,
            ErrorCode::MalformedRequest => 12,
            ErrorCode::Crash => 13,
            ErrorCode::Abort => 14,
            ErrorCode::KeyDoesNotExist => 20,
            ErrorCode::KeyAlreadyExist => 21,
            ErrorCode::PreconditionFailed => 22,
            ErrorCode::TxnConflict => 30,
        }
    }

    /// The code that a wire number stands for, if it stands for any.
    pub open spec fn of_number(value: u8) -> Option<ErrorCode> {
        if value == 0 {
            Some(ErrorCode::Timeout)
        } else if value == 1 {
            Some(ErrorCode::NodeNotFound)
        } else if value == 10 {
            Some(ErrorCode::NotSupported)
        } else if value == 11 {
            Some(ErrorCode::TemporarilyUnavailable)
        } else if value == 12 {
            Some(ErrorCode::MalformedRequest)
        } else if value == 13 {
            Some(ErrorCode::Crash)
        } else if value == 14 {
            Some(ErrorCode::Abort)
        } else if value == 20 {
            Some(ErrorCode::KeyDoesNotExist)
        } else if value == 21 {
            Some(ErrorCode::KeyAlreadyExist)
        } else if value == 22 {
            Some(ErrorCode::PreconditionFailed)
        } else if value == 30 {
            Some(ErrorCode::TxnConflict)
        } else {
            None
        }
    }

    pub fn into(self) -> (value: u8)
        ensures
            value == self.number(),
    {
        match self {
            ErrorCode::Timeout => 0,
            ErrorCode::NodeNotFound => 1,
            ErrorCode::NotSupported => 10,
            ErrorCode::TemporarilyUnavailable => 11,
            ErrorCode::MalformedRequest => 12,
            ErrorCode::Crash => 13,
            ErrorCode::Abort => 14,
            ErrorCode::KeyDoesNotExist => 20,
            ErrorCode::KeyAlreadyExist => 21,
            ErrorCode::PreconditionFailed => 22,
            ErrorCode::TxnConflict => 30,
        }
    }

    pub fn from(value: u8) -> (code: Option<ErrorCode>)
        ensures
            code == ErrorCode::of_number(value),
    {
        match value {
            0 => Some(ErrorCode::Timeout),
            1 => Some(ErrorCode::NodeNotFound),
            10 => Some(ErrorCode::NotSupported),
            11 => Some(ErrorCode::TemporarilyUnavailable),
            12 => Some(ErrorCode::MalformedRequest),
            13 => Some(ErrorCode::Crash),
            14 => Some(ErrorCode::Abort),
            20 => Some(ErrorCode::KeyDoesNotExist),
            21 => Some(ErrorCode::KeyAlreadyExist),
            22 => Some(ErrorCode::PreconditionFailed),
            30 => Some(ErrorCode::TxnConflict),
            _ => None,
        }
    }

    /// Every code is found again from its number, and a number that stands
    /// for a code is the number of that code.
    pub proof fn lemma_number_round_trip(code: ErrorCode, value: u8)
        ensures
            ErrorCode::of_number(code.number()) == Some(code),
            ErrorCode::of_number(value) == Some(code) ==> code.number() == value,
    {
    }
}

} // verus!
