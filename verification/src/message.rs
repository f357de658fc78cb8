//! What the broker reads from a peer, and the work items that its
//! connections hand to the task manager.

use crate::client::error::Error;
use crate::client::message::{
    doc_call_request, doc_event, doc_list_objects, doc_register_object, doc_subscribe,
    doc_success, envelope_canonical, envelope_doc, lemma_envelope_round_trip, CallObjectRequest,
    Envelope, Event, ListObjects, RegisterObject, StaticReplies, SubscribeToEvent, Success,
};
use crate::json::{json_parse, DocTree, JsonDoc};
use crate::value::{ElemTree, JsonElem};
use vstd::prelude::*;

verus! {

/// A message that the broker may read. `Empty` and `Success` are read and
/// then dropped.
#[derive(Debug)]
pub enum IpcMessage {
    Empty,
    Register(RegisterObject),
    Call(CallObjectRequest),
    Success(Success),
    WaitForObjects(ListObjects),
    AddToEventList(SubscribeToEvent),
    BroadCastEvent(Event),
}

/// A document read as a message to the broker: `null` is the empty message;
/// else the first fit, in the order registration, call, success, list,
/// subscription, event.
pub open spec fn doc_ipc(doc: DocTree) -> Option<Envelope> {
    if doc is Null {
        Some(Envelope::Empty)
    } else if doc_register_object(doc) is Some {
        doc_register_object(doc)
    } else if doc_call_request(doc) is Some {
        doc_call_request(doc)
    } else if doc_success(doc) is Some {
        doc_success(doc)
    } else if doc_list_objects(doc) is Some {
        doc_list_objects(doc)
    } else if doc_subscribe(doc) is Some {
        doc_subscribe(doc)
    } else {
        doc_event(doc)
    }
}

/// The message to the broker that a byte string holds. Bytes that are no
/// JSON give the parser's message as a string value; JSON that fits no
/// message gives the text of `StaticReplies::SerdeParseError`.
pub open spec fn ipc_of(bytes: Seq<u8>) -> Result<Envelope, ElemTree> {
    match json_parse(bytes) {
        Ok(doc) => match doc_ipc(doc) {
            Some(e) => Ok(e),
            None => Err(ElemTree::String(StaticReplies::SerdeParseError.text())),
        },
        Err(message) => Err(ElemTree::String(message)),
    }
}

impl IpcMessage {
    pub open spec fn view(&self) -> Envelope {
        match self {
            IpcMessage::Empty => Envelope::Empty,
            IpcMessage::Register(m) => m@,
            IpcMessage::Call(m) => m@,
            IpcMessage::Success(m) => m@,
            IpcMessage::WaitForObjects(m) => m@,
            IpcMessage::AddToEventList(m) => m@,
            IpcMessage::BroadCastEvent(m) => m@,
        }
    }

    /// This message as a JSON document.
    pub fn to_doc(&self) -> (doc: JsonDoc)
        ensures
            doc@ == envelope_doc(self@),
    {
        match self {
            IpcMessage::Empty => JsonDoc::Null,
            IpcMessage::Register(m) => m.to_doc(),
            IpcMessage::Call(m) => m.to_doc(),
            IpcMessage::Success(m) => m.to_doc(),
            IpcMessage::WaitForObjects(m) => m.to_doc(),
            IpcMessage::AddToEventList(m) => m.to_doc(),
            IpcMessage::BroadCastEvent(m) => m.to_doc(),
        }
    }

    /// The message that a document is read as.
    pub fn from_doc(doc: &JsonDoc) -> (r: Option<Self>)
        ensures
            r is Some <==> doc_ipc(doc@) is Some,
            r matches Some(m) ==> doc_ipc(doc@) == Some(m@),
    {
        if let JsonDoc::Null = doc {
            return Some(IpcMessage::Empty);
        }
        if let Some(m) = RegisterObject::from_doc(doc) {
            return Some(IpcMessage::Register(m));
        }
        if let Some(m) = CallObjectRequest::from_doc(doc) {
            return Some(IpcMessage::Call(m));
        }
        if let Some(m) = Success::from_doc(doc) {
            return Some(IpcMessage::Success(m));
        }
        if let Some(m) = ListObjects::from_doc(doc) {
            return Some(IpcMessage::WaitForObjects(m));
        }
        if let Some(m) = SubscribeToEvent::from_doc(doc) {
            return Some(IpcMessage::AddToEventList(m));
        }
        match Event::from_doc(doc) {
            Some(m) => Some(IpcMessage::BroadCastEvent(m)),
            None => None,
        }
    }

    /// The message that a byte string holds. Bytes that are no JSON give an
    /// error with the parser's message; JSON that fits no message gives the
    /// error of `StaticReplies::SerdeParseError`.
    pub fn parse(bytes: &[u8]) -> (r: Result<Self, Error>)
        ensures
            r matches Ok(m) ==> ipc_of(bytes@) == Ok::<_, ElemTree>(m@),
            r matches Err(e) ==> ipc_of(bytes@) == Err::<Envelope, _>(e.error@),
    {
        match JsonDoc::parse(bytes) {
            Ok(doc) => match IpcMessage::from_doc(&doc) {
                Some(m) => Ok(m),
                None => Err(StaticReplies::SerdeParseError.error()),
            },
            Err(message) => Err(Error::new(JsonElem::String(message))),
        }
    }
}

/// Reading back what a message to the broker is written as gives the message
/// again, where the value trees it carries are canonical.
pub proof fn lemma_ipc_round_trip(e: Envelope)
    requires
        envelope_canonical(e),
        !(e is Error),
        !(e is CallObjectResponse),
    ensures
        doc_ipc(envelope_doc(e)) == Some(e),
{
    lemma_envelope_round_trip(e);
}

/// A peer, known by the address of its socket.
#[derive(Debug)]
pub struct SocketHolder {
    pub name: String,
}

impl SocketHolder {
    /// The peer's address.
    pub open spec fn view(&self) -> Seq<char> {
        self.name@
    }
}

impl Clone for SocketHolder {
    fn clone(&self) -> (copy: Self)
        ensures
            copy@ == self@,
    {
        Self { name: self.name.clone() }
    }
}

/// A message together with the peer it came from.
#[derive(Debug)]
pub struct Session {
    pub msg: IpcMessage,
    pub socket_holder: SocketHolder,
}

impl Session {
    /// The message `msg` from the peer at `ipaddress`.
    pub fn new(msg: IpcMessage, ipaddress: String) -> (r: Self)
        ensures
            r.msg == msg,
            r.socket_holder.name == ipaddress,
    {
        Self { msg, socket_holder: SocketHolder { name: ipaddress } }
    }
}

/// A work item for the task manager.
#[derive(Debug)]
pub enum Message {
    /// A message that a peer sent.
    ProcessInput(Session),
    /// The peer of this session is gone.
    RemoveRegistered(Session),
}

} // verus!
