//! The node that hands out identifiers.

use vstd::prelude::*;
use vstd::string::StringExecFns;
use std::time::{Duration, SystemTimeError};
use crate::handler::{outcome_view, Machine, State};
use crate::types::{
    reply_to, Body, BodyView, Message, MessageView, RequestBody, RequestView, ResponseBody,
    ResponseView,
};
use crate::utils::Failure;

verus! {

#[verifier::external_type_specification]
#[verifier::external_body]
pub struct ExSystemTimeError(SystemTimeError);

/// The SHA-256 digest of the UTF-8 bytes of a text, as `sha256::digest`
/// writes it: in lower-case hexadecimal digits.
pub uninterp spec fn sha256_hex(text: Seq<char>) -> Seq<char>;

/// Calls `sha256::digest` on a text.
#[verifier::external_body]
fn digest(input: String) -> (hex: String)
    ensures
        hex@ == sha256_hex(input@),
{
    sha256::digest(input)
}

/// Calls `SystemTime::elapsed` on `UNIX_EPOCH`: the time since the start of
/// the Unix epoch, or an error where the clock stands before it. Nothing is
/// stated of the result, which is another at every call.
#[verifier::external_body]
fn since_epoch() -> Result<Duration, SystemTimeError> {
    std::time::UNIX_EPOCH.elapsed()
}

/// Calls `Duration::as_millis`.
#[verifier::external_body]
fn whole_millis(span: Duration) -> u128 {
    span.as_millis()
}

/// The character that stands for a digit.
pub open spec fn digit(value: nat) -> char
    recommends
        value < 10,
{
    if value == 0 {
        '0'
    } else if value == 1 {
        '1'
    } else if value == 2 {
        '2'
    } else if value == 3 {
        '3'
    } else if value == 4 {
        '4'
    } else if value == 5 {
        '5'
    } else if value == 6 {
        '6'
    } else if value == 7 {
        '7'
    } else if value == 8 {
        '8'
    } else {
        '9'
    }
}

/// A number in decimal digits, without leading zeros.
pub open spec fn decimal(number: nat) -> Seq<char>
    decreases number,
{
    if number < 10 {
        seq![digit(number)]
    } else {
        decimal(number / 10).push(digit(number % 10))
    }
}

/// The text that is hashed for a request: its `msg_id` and the time in
/// milliseconds, with a space between them.
pub open spec fn seed(msg_id: usize, millis: u128) -> Seq<char> {
    decimal(msg_id as nat) + seq![' '] + decimal(millis as nat)
}

/// An identifier: the node's name, or `0` for a node without one, then a
/// hyphen and the hash.
pub open spec fn labelled(name: Option<Seq<char>>, hash: Seq<char>) -> Seq<char> {
    (match name {
        Some(name) => name,
        None => seq!['0'],
    }) + seq!['-'] + hash
}

/// The identifier that a node of the given name hands out for a request at
/// a time.
pub open spec fn generated_id(name: Option<Seq<char>>, msg_id: usize, millis: u128) -> Seq<char> {
    labelled(name, sha256_hex(seed(msg_id, millis)))
}

/// The text of one digit.
fn digit_text(value: u8) -> (text: &'static str)
    requires
        value < 10,
    ensures
        text@ == seq![digit(value as nat)],
{
    proof {
        reveal_strlit("0");
        reveal_strlit("1");
        reveal_strlit("2");
        reveal_strlit("3");
        reveal_strlit("4");
        reveal_strlit("5");
        reveal_strlit("6");
        reveal_strlit("7");
        reveal_strlit("8");
        reveal_strlit("9");
    }
    let text = match value {
        0 => "0",
        1 => "1",
        2 => "2",
        3 => "3",
        4 => "4",
        5 => "5",
        6 => "6",
        7 => "7",
        8 => "8",
        _ => "9",
    };
    assert(text@ =~= seq![digit(value as nat)]);
    text
}

/// Appends a number in decimal digits.
pub fn write_decimal(number: u128, text: &mut String)
    ensures
        final(text)@ == old(text)@ + decimal(number as nat),
    decreases number,
{
    if number >= 10 {
        write_decimal(number / 10, text);
    }
    let ghost before = text@;
    text.append(digit_text((number % 10) as u8));
    proof {
        if number >= 10 {
            assert(text@ =~= old(text)@ + decimal(number as nat));
        } else {
            assert(text@ =~= old(text)@ + decimal(number as nat));
        }
    }
}

/// The text that is hashed for a request.
pub fn seed_text(msg_id: usize, millis: u128) -> (text: String)
    ensures
        text@ == seed(msg_id, millis),
{
    proof {
        reveal_strlit(" ");
    }
    let mut text = String::new();
    write_decimal(msg_id as u128, &mut text);
    text.append(" ");
    write_decimal(millis, &mut text);
    assert(text@ =~= seed(msg_id, millis));
    text
}

/// Puts the node's name, or `0` for a node without one, and a hyphen before
/// a hash.
pub fn label(node_name: &Option<String>, hash: &str) -> (id: String)
    ensures
        id@ == labelled(
            match *node_name {
                Some(name) => Some(name@),
                None => None,
            },
            hash@,
        ),
{
    proof {
        reveal_strlit("0");
        reveal_strlit("-");
    }
    let mut id = match node_name {
        Some(name) => name.clone(),
        None => String::from_str("0"),
    };
    id.append("-");
    id.append(hash);
    assert(id@ =~= labelled(
        match *node_name {
            Some(name) => Some(name@),
            None => None,
        },
        hash@,
    ));
    id
}

/// The identifier for a request that came at the given time.
pub fn generate_id(node_name: &Option<String>, msg_id: usize, millis: u128) -> (id: String)
    ensures
        id@ == generated_id(
            match *node_name {
                Some(name) => Some(name@),
                None => None,
            },
            msg_id,
            millis,
        ),
{
    let hash = digest(seed_text(msg_id, millis));
    label(node_name, hash.as_str())
}

/// A node that answers `generate` requests and no others.
#[derive(Debug)]
pub struct GenerateNode {
    node_name: Option<String>,
}

impl Default for GenerateNode {
    fn default() -> (node: GenerateNode)
        ensures
            node.name() is None,
    {
        GenerateNode { node_name: None }
    }
}

/// What a generate node of the given name may make of a message. A
/// `generate` request is answered with the identifier for some time, or it
/// fails on the clock. A request of another kind is not supported, and a
/// response cannot be answered.
pub open spec fn generate_outcome(
    name: Option<Seq<char>>,
    input: MessageView,
    outcome: Result<MessageView, Failure>,
) -> bool {
    match input.body {
        BodyView::Request { msg_id, body: RequestView::Generate } => match outcome {
            Ok(response) => exists|millis: u128|
                response == reply_to(
                    input,
                    ResponseView::GenerateOk { id: #[trigger] generated_id(name, msg_id, millis) },
                ),
            Err(failure) => failure == Failure::Clock,
        },
        BodyView::Request { .. } => outcome == Err::<MessageView, Failure>(Failure::Unsupported),
        BodyView::Response { .. } => outcome == Err::<MessageView, Failure>(Failure::NotARequest),
    }
}

/// What a generate node makes of a `generate` request once the clock has
/// been read: the identifier for the time that it gave, or
/// `Failure::Clock` where it gave none.
pub fn generated(node_name: &Option<String>, msg_id: usize, time: Option<u128>) -> (answer: Result<
    ResponseBody,
    Failure,
>)
    ensures
        match time {
            Some(millis) => answer matches Ok(made) && made@ == (ResponseView::GenerateOk {
                id: generated_id(
                    match *node_name {
                        Some(name) => Some(name@),
                        None => None,
                    },
                    msg_id,
                    millis,
                ),
            }),
            None => answer matches Err(Failure::Clock),
        },
{
    match time {
        Some(millis) => Ok(ResponseBody::GenerateOk { id: generate_id(node_name, msg_id, millis) }),
        None => Err(Failure::Clock),
    }
}

/// The time since the start of the Unix epoch in milliseconds, where the
/// clock gives one.
pub fn now() -> (time: Option<u128>) {
    match since_epoch() {
        Ok(span) => Some(whole_millis(span)),
        Err(_) => None,
    }
}

impl GenerateNode {
    /// Answers one message, and stays as it is.
    pub fn step(&mut self, input: Message) -> (result: Result<Message, Failure>)
        ensures
            generate_outcome(old(self).name(), input@, outcome_view(result)),
            *final(self) == *old(self),
    {
        let answer = match &input.body {
            Body::Request { msg_id, body: RequestBody::Generate {  } } => generated(
                &self.node_name,
                *msg_id,
                now(),
            ),
            _ => Err(Failure::Unsupported),
        };
        let reply = move |_msg_id: usize, _body: RequestBody| -> (made: Result<
            ResponseBody,
            Failure,
        >)
            ensures
                made == answer,
            { answer };
        input.respond(reply)
    }
}

impl Machine for GenerateNode {
    closed spec fn name(&self) -> Option<Seq<char>> {
        match self.node_name {
            Some(name) => Some(name@),
            None => None,
        }
    }

    open spec fn renamed(&self, name: Seq<char>, after: &Self) -> bool {
        after.name() == Some(name)
    }

    open spec fn steps(
        &self,
        input: MessageView,
        after: &Self,
        outcome: Result<MessageView, Failure>,
    ) -> bool {
        *after == *self && generate_outcome(self.name(), input, outcome)
    }

    fn set_state(&mut self, state: State) {
        match state {
            State::Id { id } => {
                self.node_name = Some(id);
            },
        }
    }

    fn step(&mut self, input: Message) -> (result: Result<Message, Failure>) {
        GenerateNode::step(self, input)
    }
}

} // verus!
