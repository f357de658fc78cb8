//! The provider: the objects it shares, what it writes to register one, and
//! what it does with each message it reads.

use crate::client::connector::{Received, ReceivedView};
use crate::client::error::Error;
use crate::client::message::{
    encoded, incoming_of, strings_view, CallObjectRequest, CallObjectResponse, Envelope,
    IncomingMessage, OutgoingMessage, RegisterObject, StaticReplies,
};
use crate::value::{elem_text, ElemTree, JsonElem};
use vstd::prelude::*;

verus! {

/// What a provider does with one read.
#[derive(Debug)]
pub enum Dispatch {
    /// Nothing more can be read: stop.
    Stop,
    /// A call of an object that is shared here: run it, then answer with
    /// what `ObjectDispatcher::respond` makes of the outcome.
    Invoke(CallObjectRequest),
    /// Answer with this message.
    Write(OutgoingMessage),
    /// A message that asks nothing of a provider: read on.
    Ignore,
}

/// The model of what a provider does with one read.
pub ghost enum DispatchView {
    Stop,
    Invoke(Envelope),
    Write(Envelope),
    Ignore,
}

impl Dispatch {
    pub open spec fn view(&self) -> DispatchView {
        match self {
            Dispatch::Stop => DispatchView::Stop,
            Dispatch::Invoke(request) => DispatchView::Invoke(request@),
            Dispatch::Write(message) => DispatchView::Write(message@),
            Dispatch::Ignore => DispatchView::Ignore,
        }
    }
}

/// The record `{"error": text}`.
pub open spec fn error_record(text: Seq<char>) -> Envelope {
    Envelope::Error { error: ElemTree::String(text) }
}

/// What a provider that shares the objects `shared` does with a message:
/// it runs a call of an object it shares; it answers a call of any other
/// object with the error of `StaticReplies::ObjectNotFound`; any other
/// message it lets pass.
pub open spec fn dispatch_message(shared: Set<Seq<char>>, message: Envelope) -> DispatchView {
    match message {
        Envelope::CallObjectRequest { object, .. } => if shared.contains(object) {
            DispatchView::Invoke(message)
        } else {
            DispatchView::Write(error_record(StaticReplies::ObjectNotFound.text()))
        },
        _ => DispatchView::Ignore,
    }
}

/// What a provider that shares the objects `shared` does with one read: it
/// stops where no bytes came; it does what the message asks where one came;
/// and it answers bytes that are no message with the error of
/// `StaticReplies::SerdeParseError`.
pub open spec fn dispatch_step(shared: Set<Seq<char>>, received: ReceivedView) -> DispatchView {
    match received {
        ReceivedView::Frame(bytes) => if bytes.len() == 0 {
            DispatchView::Stop
        } else {
            match incoming_of(bytes) {
                Ok(message) => dispatch_message(shared, message),
                Err(_) => DispatchView::Write(error_record(StaticReplies::SerdeParseError.text())),
            }
        },
        ReceivedView::Eof => DispatchView::Stop,
        ReceivedView::Failed(_) => DispatchView::Stop,
    }
}

/// What a message that answers a registration says: the text of an error
/// record as an error, and for any other message that the broker took the
/// registration.
pub open spec fn register_answer(message: Envelope) -> Result<(), ElemTree> {
    match message {
        Envelope::Error { error } => Err(ElemTree::String(elem_text(error))),
        _ => Ok(()),
    }
}

/// What the answer to a registration says: what the message says where one
/// came; and an error of the provider's own where the stream ended, the
/// read failed or the bytes are no message.
pub open spec fn register_result(received: ReceivedView) -> Result<(), ElemTree> {
    match received {
        ReceivedView::Frame(bytes) => if bytes.len() == 0 {
            Err(ElemTree::String(StaticReplies::ServerConnectionError.text()))
        } else {
            match incoming_of(bytes) {
                Ok(message) => register_answer(message),
                Err(error) => Err(error),
            }
        },
        ReceivedView::Eof => Err(ElemTree::String(StaticReplies::ServerConnectionError.text())),
        ReceivedView::Failed(message) => Err(ElemTree::String(message)),
    }
}

/// The provider's side of the protocol: the names of the objects it shares.
pub struct ObjectDispatcher {
    list: Vec<String>,
}

impl ObjectDispatcher {
    /// The names of the objects that are shared.
    pub closed spec fn view(&self) -> Set<Seq<char>> {
        Set::new(|name: Seq<char>| strings_view(self.list@).contains(name))
    }

    /// A provider that shares nothing yet.
    pub fn new() -> (r: Self)
        ensures
            r@ == Set::<Seq<char>>::empty(),
    {
        let r = Self { list: Vec::new() };
        assert(r@ =~= Set::<Seq<char>>::empty());
        r
    }

    /// Whether an object of this name is shared.
    pub fn shares(&self, object: &str) -> (r: bool)
        ensures
            r == self@.contains(object@),
    {
        let wanted: String = object.to_owned();
        let mut i: usize = 0;
        while i < self.list.len()
            invariant
                i <= self.list.len(),
                wanted@ == object@,
                forall|j: int| 0 <= j < i ==> strings_view(self.list@)[j] != object@,
            decreases self.list.len() - i,
        {
            if self.list[i] == wanted {
                assert(strings_view(self.list@)[i as int] == object@);
                return true;
            }
            i += 1;
        }
        false
    }

    /// Takes the object `object` among the shared ones, and gives the bytes
    /// that register it with the broker.
    pub fn register_object(&mut self, object: &str) -> (r: Result<Vec<u8>, Error>)
        ensures
            final(self)@ == old(self)@.insert(object@),
            encoded(Envelope::RegisterObject { reg_object: object@ }) == match r {
                Ok(bytes) => Ok::<Seq<u8>, ElemTree>(bytes@),
                Err(e) => Err(e.error@),
            },
    {
        if !self.shares(object) {
            let ghost before = strings_view(self.list@);
            self.list.push(object.to_owned());
            assert(strings_view(self.list@) =~= before.push(object@));
            assert forall|name: Seq<char>| self@.contains(name) <==> old(self)@.insert(
                object@,
            ).contains(name) by {
                if before.contains(name) {
                    let j = choose|j: int| 0 <= j < before.len() && before[j] == name;
                    assert(strings_view(self.list@)[j] == name);
                }
                if name == object@ {
                    assert(strings_view(self.list@)[before.len() as int] == name);
                }
                if strings_view(self.list@).contains(name) {
                    let j = choose|j: int|
                        0 <= j < strings_view(self.list@).len() && strings_view(self.list@)[j]
                            == name;
                    if j < before.len() {
                        assert(before[j] == name);
                    }
                }
            }
        }
        assert(self@ =~= old(self)@.insert(object@));
        RegisterObject::new(object).serialize()
    }

    /// What a message that answers a registration says.
    pub fn register_object_answer(message: IncomingMessage) -> (r: Result<(), Error>)
        ensures
            register_answer(message@) == match r {
                Ok(_) => Ok::<(), ElemTree>(()),
                Err(e) => Err(e.error@),
            },
    {
        match message {
            IncomingMessage::Error(msg) => Err(Error::new(JsonElem::String(msg.to_string()))),
            _ => Ok(()),
        }
    }

    /// What the broker's answer to a registration says, from how the reading
    /// of it ended.
    pub fn register_object_reply(received: Received) -> (r: Result<(), Error>)
        ensures
            register_result(received@) == match r {
                Ok(_) => Ok::<(), ElemTree>(()),
                Err(e) => Err(e.error@),
            },
    {
        match received {
            Received::Frame(bytes) => {
                if bytes.len() == 0 {
                    return Err(StaticReplies::ServerConnectionError.error());
                }
                match IncomingMessage::parse(bytes.as_slice()) {
                    Ok(message) => ObjectDispatcher::register_object_answer(message),
                    Err(e) => Err(e),
                }
            },
            Received::Eof => Err(StaticReplies::ServerConnectionError.error()),
            Received::Failed(message) => Err(Error::new(JsonElem::String(message))),
        }
    }

    /// What the provider does with a message.
    pub fn dispatch_message(&self, message: IncomingMessage) -> (step: Dispatch)
        ensures
            step@ == dispatch_message(self@, message@),
    {
        match message {
            IncomingMessage::CallRequest(request) => {
                if self.shares(request.object.as_str()) {
                    Dispatch::Invoke(request)
                } else {
                    Dispatch::Write(OutgoingMessage::Error(StaticReplies::ObjectNotFound.error()))
                }
            },
            _ => Dispatch::Ignore,
        }
    }

    /// What the provider does with one read.
    pub fn dispatch(&self, received: Received) -> (step: Dispatch)
        ensures
            step@ == dispatch_step(self@, received@),
    {
        match received {
            Received::Frame(bytes) => {
                if bytes.len() == 0 {
                    return Dispatch::Stop;
                }
                match IncomingMessage::parse(bytes.as_slice()) {
                    Ok(message) => self.dispatch_message(message),
                    Err(_) => Dispatch::Write(
                        OutgoingMessage::Error(StaticReplies::SerdeParseError.error()),
                    ),
                }
            },
            Received::Eof => Dispatch::Stop,
            Received::Failed(_) => Dispatch::Stop,
        }
    }

    /// The answer to a call that was run: a response with the value that it
    /// returned, or the error that it ended in, as it is.
    pub fn respond(outcome: Result<JsonElem, Error>) -> (message: OutgoingMessage)
        ensures
            message@ == match outcome {
                Ok(response) => Envelope::CallObjectResponse { response: response@ },
                Err(e) => Envelope::Error { error: e.error@ },
            },
    {
        match outcome {
            Ok(response) => OutgoingMessage::CallResponse(CallObjectResponse::new(response)),
            Err(err) => OutgoingMessage::Error(err),
        }
    }
}

} // verus!
