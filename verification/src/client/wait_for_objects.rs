//! The start-up barrier: a client asks for a list of objects until the
//! broker knows them all.

use crate::client::connector::{Received, ReceivedView};
use crate::client::error::Error;
use crate::client::message::{
    encoded, incoming_of, strings_view, Envelope, IncomingMessage, ListObjects, OutgoingMessage,
};
use crate::value::ElemTree;
use vstd::prelude::*;

verus! {

/// What a waiting client does after one read.
#[derive(Debug, PartialEq, Eq, Clone, Copy)]
pub enum Wait {
    /// The objects are there: go on.
    Done,
    /// They are not there yet: ask again.
    Retry,
    /// Nothing more can be read: give up.
    Closed,
}

/// What a waiting client does with a message: it goes on where the message
/// is a list that is not empty, and asks again in every other case.
pub open spec fn wait_answer(message: Envelope) -> Wait {
    match message {
        Envelope::ListObjects { list } => if list.len() > 0 {
            Wait::Done
        } else {
            Wait::Retry
        },
        _ => Wait::Retry,
    }
}

/// What a waiting client does after one read: what the message says where
/// one came; it gives up where no bytes came, and asks again where the
/// bytes are no message.
pub open spec fn wait_step(received: ReceivedView) -> Wait {
    match received {
        ReceivedView::Frame(bytes) => if bytes.len() == 0 {
            Wait::Closed
        } else {
            match incoming_of(bytes) {
                Ok(message) => wait_answer(message),
                Err(_) => Wait::Retry,
            }
        },
        ReceivedView::Eof => Wait::Closed,
        ReceivedView::Failed(_) => Wait::Closed,
    }
}

/// The bytes that ask the broker whether the objects of `list` are there.
pub fn wait_for_objects(list: Vec<String>) -> (r: Result<Vec<u8>, Error>)
    ensures
        encoded(Envelope::ListObjects { list: strings_view(list@) }) == match r {
            Ok(bytes) => Ok::<Seq<u8>, ElemTree>(bytes@),
            Err(e) => Err(e.error@),
        },
{
    OutgoingMessage::WaitForObjects(ListObjects::new(list)).serialize()
}

/// What a waiting client does with a message from the broker.
pub fn wait_for_objects_answer(message: &IncomingMessage) -> (step: Wait)
    ensures
        step == wait_answer(message@),
{
    match message {
        IncomingMessage::WaitForObjects(v) => {
            assert(strings_view(v.list@).len() == v.list@.len());
            if v.list.len() == 0 {
                Wait::Retry
            } else {
                Wait::Done
            }
        },
        _ => Wait::Retry,
    }
}

/// What a waiting client does after it read the broker's answer.
pub fn wait_for_objects_reply(received: Received) -> (step: Wait)
    ensures
        step == wait_step(received@),
{
    match received {
        Received::Frame(bytes) => {
            if bytes.len() == 0 {
                return Wait::Closed;
            }
            match IncomingMessage::parse(bytes.as_slice()) {
                Ok(message) => wait_for_objects_answer(&message),
                Err(_) => Wait::Retry,
            }
        },
        Received::Eof => Wait::Closed,
        Received::Failed(_) => Wait::Closed,
    }
}

} // verus!
