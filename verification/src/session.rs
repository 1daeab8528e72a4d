//! The decisions of a client session.
//!
//! A session owns one end of a bounded in-memory transport. The caller
//! writes inline commands into it and polls it for replies; nothing moves
//! between the two but on an explicit step of the server. This module says
//! what is written for a command and what a poll answers for each thing that
//! a decode step can find. It moves no bytes itself.

use crate::marshal::{convertible, marshaled, try_convert, JsRespValue, Marshaled};
use crate::value::{RespValue, ValueModel};
use vstd::prelude::*;
use vstd::slice::slice_to_vec;
use vstd::utf8::encode_utf8;

verus! {

/// The number of bytes that the transport between a session and the server
/// holds before a writer has to wait for the reader.
pub const TRANSPORT_CAPACITY: usize = 100000;

/// What one non-blocking decode step on the replies of the server found.
#[derive(Debug, PartialEq, Eq)]
pub enum Decoded {
    /// No complete value has arrived yet.
    Pending,
    /// One complete value.
    Value(RespValue),
    /// The bytes that arrived are no reply of the protocol.
    Failed,
    /// The stream has ended.
    Closed,
}

/// What a poll answers.
#[derive(Debug, PartialEq, Eq)]
pub enum Polled {
    /// Nothing yet: the stream is open and may still give a value.
    Pending,
    /// The next reply.
    Value(JsRespValue),
    /// The stream has ended: no value will come.
    Closed,
}

/// Why a session cannot go on.
#[derive(Clone, Copy, Debug, PartialEq, Eq, Structural)]
pub enum SessionError {
    /// The replies could not be decoded. The framing is lost for good.
    Desync,
    /// A reply holds a big number or a verbatim text that is no text.
    InvalidText,
}

/// The mathematical content of a [`Decoded`].
pub enum DecodedModel {
    Pending,
    Value(ValueModel),
    Failed,
    Closed,
}

/// The mathematical content of a [`Polled`].
pub enum PolledModel {
    Pending,
    Value(Marshaled),
    Closed,
}

impl View for Decoded {
    type V = DecodedModel;

    open spec fn view(&self) -> DecodedModel {
        match self {
            Decoded::Pending => DecodedModel::Pending,
            Decoded::Value(value) => DecodedModel::Value(value@),
            Decoded::Failed => DecodedModel::Failed,
            Decoded::Closed => DecodedModel::Closed,
        }
    }
}

impl View for Polled {
    type V = PolledModel;

    open spec fn view(&self) -> PolledModel {
        match self {
            Polled::Pending => PolledModel::Pending,
            Polled::Value(value) => PolledModel::Value(value@),
            Polled::Closed => PolledModel::Closed,
        }
    }
}

/// What a poll answers to what the decode step found: nothing yet while the
/// stream is open and silent, the marshaled value when one has arrived, the
/// end when the stream has ended. A decode failure and a value that cannot
/// be marshaled end the session.
pub open spec fn polled(step: DecodedModel) -> Result<PolledModel, SessionError> {
    match step {
        DecodedModel::Pending => Ok(PolledModel::Pending),
        DecodedModel::Value(value) => if convertible(value) {
            Ok(PolledModel::Value(marshaled(value)))
        } else {
            Err(SessionError::InvalidText)
        },
        DecodedModel::Failed => Err(SessionError::Desync),
        DecodedModel::Closed => Ok(PolledModel::Closed),
    }
}

/// The answer of a poll with "nothing yet" and "ended" taken as one.
pub open spec fn collapsed(answer: PolledModel) -> Option<Marshaled> {
    match answer {
        PolledModel::Value(value) => Some(value),
        _ => None,
    }
}

/// The bytes written to the transport for an inline command: the text as
/// it is, in UTF-8, with nothing added.
pub open spec fn inline_bytes(command: Seq<char>) -> Seq<u8> {
    encode_utf8(command)
}

/// Encodes an inline command for the transport.
pub fn inline_command(command: &str) -> (bytes: Vec<u8>)
    ensures
        bytes@ == inline_bytes(command@),
{
    slice_to_vec(command.as_bytes())
}

/// Answers a poll from what the decode step found, telling "nothing yet"
/// from "ended".
pub fn poll_decoded(step: Decoded) -> (answer: Result<Polled, SessionError>)
    ensures
        match answer {
            Ok(found) => polled(step@) == Ok::<PolledModel, SessionError>(found@),
            Err(error) => polled(step@) == Err::<PolledModel, SessionError>(error),
        },
        answer matches Ok(Polled::Value(value)) ==> value@.well_formed(),
{
    match step {
        Decoded::Pending => Ok(Polled::Pending),
        Decoded::Value(value) => match try_convert(value) {
            Ok(marshaled_value) => Ok(Polled::Value(marshaled_value)),
            Err(_) => Err(SessionError::InvalidText),
        },
        Decoded::Failed => Err(SessionError::Desync),
        Decoded::Closed => Ok(Polled::Closed),
    }
}

impl Polled {
    /// The value, if the poll gave one: "nothing yet" and "ended" both come
    /// out as `None`.
    pub fn into_value(self) -> (value: Option<JsRespValue>)
        ensures
            match value {
                Some(found) => collapsed(self@) == Some(found@),
                None => collapsed(self@) is None,
            },
    {
        match self {
            Polled::Value(value) => Some(value),
            _ => None,
        }
    }
}

/// Answers a poll from what the decode step found: the marshaled value if
/// one has arrived, `None` if there is nothing yet or the stream has ended.
///
/// The step must be one that a session can go on from: no decode failure,
/// and no value that cannot be marshaled.
pub fn poll(step: Decoded) -> (value: Option<JsRespValue>)
    requires
        polled(step@) is Ok,
    ensures
        match value {
            Some(found) => collapsed(polled(step@)->Ok_0) == Some(found@),
            None => collapsed(polled(step@)->Ok_0) is None,
        },
{
    match poll_decoded(step) {
        Ok(answer) => answer.into_value(),
        Err(_) => None,
    }
}

/// While nothing has arrived a poll answers "nothing yet", never "ended";
/// once a value has arrived a poll answers that value, marshaled, whatever
/// was answered before.
pub proof fn lemma_pending_then_value(value: ValueModel)
    requires
        convertible(value),
    ensures
        polled(DecodedModel::Pending) == Ok::<PolledModel, SessionError>(PolledModel::Pending),
        polled(DecodedModel::Pending) != Ok::<PolledModel, SessionError>(PolledModel::Closed),
        polled(DecodedModel::Value(value)) == Ok::<PolledModel, SessionError>(
            PolledModel::Value(marshaled(value)),
        ),
        collapsed(polled(DecodedModel::Pending)->Ok_0) is None,
        collapsed(polled(DecodedModel::Value(value))->Ok_0) == Some(marshaled(value)),
{
}

} // verus!
