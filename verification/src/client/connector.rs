//! The caller: how a message is cut out of a stream of chunked reads, what a
//! caller writes, and what it makes of the frames it reads.

use crate::client::error::Error;
use crate::client::message::{
    doc_event, encoded, incoming_of, param_view, CallObjectRequest, Envelope, Event,
    IncomingMessage, StaticReplies, SubscribeToEvent,
};
use crate::json::{json_parse, DocTree, JsonDoc};
use crate::value::{ElemTree, JsonElem};
use crate::CHUNK_SIZE;
use vstd::prelude::*;

verus! {

/// Where a message stands after one chunked read.
#[derive(Debug, PartialEq, Eq, Clone, Copy)]
pub enum ReadStep {
    /// The read gave no byte: the stream is at its end.
    Eof,
    /// The read gave less than a full chunk: the message is complete, and
    /// this long.
    Complete(usize),
    /// The read gave a full chunk: the message goes on.
    More,
}

/// What one chunked read makes of the bytes gathered so far: nothing where
/// the read gave no byte, else the bytes with the chunk behind them.
pub open spec fn gathered(data: Seq<u8>, chunk: Seq<u8>) -> Seq<u8> {
    if chunk.len() == 0 {
        data
    } else {
        data + chunk
    }
}

/// Where a message stands after one chunked read of a given chunk size.
pub open spec fn read_step(data: Seq<u8>, chunk: Seq<u8>, chunk_size: nat) -> ReadStep {
    if chunk.len() == 0 {
        ReadStep::Eof
    } else if chunk.len() < chunk_size {
        ReadStep::Complete((data.len() + chunk.len()) as usize)
    } else {
        ReadStep::More
    }
}

/// A read that fills its chunk never ends a message: a message whose length
/// is a multiple of the chunk size is not seen to end with its last byte.
pub proof fn lemma_full_chunk_goes_on(data: Seq<u8>, chunk: Seq<u8>, chunk_size: nat)
    requires
        chunk_size > 0,
        chunk.len() == chunk_size,
    ensures
        read_step(data, chunk, chunk_size) == ReadStep::More,
{
}

/// Adds the bytes of one read to the bytes of a message.
pub fn gather(data: &mut Vec<u8>, chunk: &[u8])
    ensures
        final(data)@ == old(data)@ + chunk@,
{
    let mut i: usize = 0;
    while i < chunk.len()
        invariant
            i <= chunk@.len(),
            data@ == old(data)@ + chunk@.take(i as int),
        decreases chunk@.len() - i,
    {
        data.push(chunk[i]);
        assert(chunk@.take(i + 1) =~= chunk@.take(i as int).push(chunk@[i as int]));
        assert(data@ =~= old(data)@ + chunk@.take(i + 1));
        i += 1;
    }
    assert(chunk@.take(i as int) =~= chunk@);
}

/// Takes in what one read into a buffer of `CHUNK_SIZE` bytes gave. A read of
/// no byte is the end of the stream; any other read adds its bytes to the
/// message, and a read of less than `CHUNK_SIZE` bytes ends the message.
///
/// A message whose length is a multiple of `CHUNK_SIZE` is therefore never
/// seen to end: after its last byte the reader waits for more.
pub fn read(data: &mut Vec<u8>, chunk: &[u8]) -> (step: ReadStep)
    ensures
        final(data)@ == gathered(old(data)@, chunk@),
        step == read_step(old(data)@, chunk@, CHUNK_SIZE as nat),
{
    if chunk.len() == 0 {
        return ReadStep::Eof;
    }
    gather(data, chunk);
    if chunk.len() < CHUNK_SIZE {
        ReadStep::Complete(data.len())
    } else {
        ReadStep::More
    }
}

/// How the reading of one message from a socket ended.
#[derive(Debug)]
pub enum Received {
    /// The bytes of the message.
    Frame(Vec<u8>),
    /// The stream was at its end.
    Eof,
    /// The socket could not be read; the message says why.
    Failed(String),
}

/// The model of how the reading of one message ended.
pub ghost enum ReceivedView {
    Frame(Seq<u8>),
    Eof,
    Failed(Seq<char>),
}

impl Received {
    pub open spec fn view(&self) -> ReceivedView {
        match self {
            Received::Frame(bytes) => ReceivedView::Frame(bytes@),
            Received::Eof => ReceivedView::Eof,
            Received::Failed(message) => ReceivedView::Failed(message@),
        }
    }
}

/// What a caller makes of a message that answers a call: the value of a
/// response, the error of an error record, and the error of
/// `StaticReplies::InvalidResponseData` for any other message.
pub open spec fn call_answer(message: Envelope) -> Result<ElemTree, ElemTree> {
    match message {
        Envelope::CallObjectResponse { response } => Ok(response),
        Envelope::Error { error } => Err(error),
        _ => Err(ElemTree::String(StaticReplies::InvalidResponseData.text())),
    }
}

/// What a caller makes of the answer to a call: what the message says where
/// one came; and an error of its own where the stream ended, the read
/// failed or the bytes are no message.
pub open spec fn call_result(received: ReceivedView) -> Result<ElemTree, ElemTree> {
    match received {
        ReceivedView::Frame(bytes) => if bytes.len() == 0 {
            Err(ElemTree::String(StaticReplies::RemoteConnectionError.text()))
        } else {
            match incoming_of(bytes) {
                Ok(message) => call_answer(message),
                Err(error) => Err(error),
            }
        },
        ReceivedView::Eof => Err(ElemTree::String(StaticReplies::RemoteConnectionError.text())),
        ReceivedView::Failed(message) => Err(ElemTree::String(message)),
    }
}

/// What a listener makes of one read.
#[derive(Debug)]
pub enum Listen {
    /// An event came: hand its value to the callback.
    Deliver(JsonElem),
    /// The bytes are no event: read on.
    Skip,
    /// Nothing more can be read: stop.
    Stop,
}

/// The model of what a listener makes of one read.
pub ghost enum ListenView {
    Deliver(ElemTree),
    Skip,
    Stop,
}

impl Listen {
    pub open spec fn view(&self) -> ListenView {
        match self {
            Listen::Deliver(result) => ListenView::Deliver(result@),
            Listen::Skip => ListenView::Skip,
            Listen::Stop => ListenView::Stop,
        }
    }
}

/// What a listener makes of a document: the value of an event record, and a
/// skip where the document is no event record.
pub open spec fn listen_doc(doc: DocTree) -> ListenView {
    match doc_event(doc) {
        Some(Envelope::Event { result, .. }) => ListenView::Deliver(result),
        _ => ListenView::Skip,
    }
}

/// What a listener makes of one read: what the document says where the
/// bytes are one; a skip where they are not; a stop where no bytes came.
pub open spec fn listen_step(received: ReceivedView) -> ListenView {
    match received {
        ReceivedView::Frame(bytes) => match json_parse(bytes) {
            Ok(doc) => listen_doc(doc),
            Err(_) => ListenView::Skip,
        },
        ReceivedView::Eof => ListenView::Stop,
        ReceivedView::Failed(_) => ListenView::Stop,
    }
}

/// The caller's side of the protocol: what it writes to the broker, and what
/// it makes of what it reads.
pub struct Connector;

impl Connector {
    /// The bytes of a call of `method` on `object`.
    pub fn remote_call(object: &str, method: &str, param: Option<JsonElem>) -> (r: Result<
        Vec<u8>,
        Error,
    >)
        ensures
            encoded(
                Envelope::CallObjectRequest {
                    object: object@,
                    method: method@,
                    param: param_view(param),
                },
            ) == match r {
                Ok(bytes) => Ok::<Seq<u8>, ElemTree>(bytes@),
                Err(e) => Err(e.error@),
            },
    {
        CallObjectRequest::new(object, method, param).serialize()
    }

    /// What a message that answers a call says: the value that the call
    /// returned, or the error that it ended in.
    pub fn remote_call_answer(message: IncomingMessage) -> (r: Result<JsonElem, Error>)
        ensures
            call_answer(message@) == match r {
                Ok(value) => Ok::<ElemTree, ElemTree>(value@),
                Err(e) => Err(e.error@),
            },
    {
        match message {
            IncomingMessage::CallResponse(response) => Ok(response.response),
            IncomingMessage::Error(err) => Err(err),
            _ => Err(StaticReplies::InvalidResponseData.error()),
        }
    }

    /// What the answer to a call says, from how the reading of it ended: the
    /// value that the call returned, or the error that it ended in.
    pub fn remote_call_reply(received: Received) -> (r: Result<JsonElem, Error>)
        ensures
            call_result(received@) == match r {
                Ok(value) => Ok::<ElemTree, ElemTree>(value@),
                Err(e) => Err(e.error@),
            },
    {
        match received {
            Received::Frame(bytes) => {
                if bytes.len() == 0 {
                    return Err(StaticReplies::RemoteConnectionError.error());
                }
                match IncomingMessage::parse(bytes.as_slice()) {
                    Ok(message) => Connector::remote_call_answer(message),
                    Err(e) => Err(e),
                }
            },
            Received::Eof => Err(StaticReplies::RemoteConnectionError.error()),
            Received::Failed(message) => Err(Error::new(JsonElem::String(message))),
        }
    }

    /// The bytes that send the event `event` with the value `result`.
    pub fn send_event(event: &str, result: JsonElem) -> (r: Result<Vec<u8>, Error>)
        ensures
            encoded(Envelope::Event { event: event@, result: result@ }) == match r {
                Ok(bytes) => Ok::<Seq<u8>, ElemTree>(bytes@),
                Err(e) => Err(e.error@),
            },
    {
        Event::new(event, result).serialize()
    }

    /// The bytes that subscribe to the event `event_name`.
    pub fn listen_for_event(event_name: &str) -> (r: Result<Vec<u8>, Error>)
        ensures
            encoded(Envelope::SubscribeToEvent { event_name: event_name@ }) == match r {
                Ok(bytes) => Ok::<Seq<u8>, ElemTree>(bytes@),
                Err(e) => Err(e.error@),
            },
    {
        SubscribeToEvent::new(event_name).serialize()
    }

    /// What a listener does with a document that it read: it hands the
    /// value of an event to its callback, and reads on where the document
    /// is no event.
    pub fn listen_to(doc: &JsonDoc) -> (step: Listen)
        ensures
            step@ == listen_doc(doc@),
    {
        match Event::from_doc(doc) {
            Some(event) => Listen::Deliver(event.result),
            None => Listen::Skip,
        }
    }

    /// What a listener does with one read: it hands the value of an event to
    /// its callback, reads on where the bytes are no event, and stops where
    /// nothing could be read.
    pub fn listen(received: Received) -> (step: Listen)
        ensures
            step@ == listen_step(received@),
    {
        match received {
            Received::Frame(bytes) => match JsonDoc::parse(bytes.as_slice()) {
                Ok(doc) => Connector::listen_to(&doc),
                Err(_) => Listen::Skip,
            },
            Received::Eof => Listen::Stop,
            Received::Failed(_) => Listen::Stop,
        }
    }
}

} // verus!
