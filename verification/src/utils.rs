//! Failures, and how a recoverable one is taken out of the way.

use vstd::prelude::*;
use vstd::string::StringExecFns;
use crate::codec::{encode, message_tree};
use crate::json::rendered;
use crate::types::Message;

verus! {

/// Why a line of input is no message.
#[derive(Clone, Copy, Debug, PartialEq, Eq, Structural)]
pub enum DecodeError {
    /// The line is not one well-formed JSON document.
    Syntax,
    /// The document is well formed, but it is no envelope with a known body.
    Shape,
}

/// Why no response was produced.
#[derive(Clone, Copy, Debug, PartialEq, Eq, Structural)]
pub enum Failure {
    /// The input ended before the first message.
    NoHandshake,
    /// The first message is a request of another kind than `init`.
    NotInit,
    /// An input line could not be decoded.
    Decode(DecodeError),
    /// A reply was asked of an envelope whose body is already a response.
    NotARequest,
    /// The node's behavior does not answer requests of this kind.
    Unsupported,
    /// The system clock stands before the start of the Unix epoch.
    Clock,
}

/// Turns a result into an option and keeps the failure for the record.
pub trait Consume<T> {
    /// `Ok` becomes `Some` and leaves the record as it is; `Err` becomes
    /// `None` and its failure is appended to the record.
    fn consume(self, record: &mut Vec<Failure>) -> (kept: Option<T>);
}

impl<T> Consume<T> for Result<T, Failure> {
    fn consume(self, record: &mut Vec<Failure>) -> (kept: Option<T>)
        ensures
            match self {
                Ok(item) => kept == Some(item) && final(record)@ == old(record)@,
                Err(failure) => kept is None && final(record)@ == old(record)@.push(failure),
            },
    {
        match self {
            Ok(item) => Some(item),
            Err(failure) => {
                record.push(failure);
                None
            },
        }
    }
}

/// Writes a value as one line of JSON.
pub trait JsonWrite {
    /// Appends to `writer` the line that stands for the value, and the
    /// newline that ends it.
    fn write_to_writer(&self, writer: &mut String);
}

impl JsonWrite for Message {
    fn write_to_writer(&self, writer: &mut String)
        ensures
            final(writer)@ == old(writer)@ + rendered(message_tree(self@)) + seq!['\n'],
    {
        proof {
            reveal_strlit("\n");
        }
        let line = encode(self);
        writer.append(line.as_str());
        writer.append("\n");
        assert("\n"@ =~= seq!['\n']);
    }
}

} // verus!
