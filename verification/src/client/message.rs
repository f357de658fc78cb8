//! The message records, and how each is written as and read from a JSON
//! document.

use crate::client::error::Error;
use crate::json::{
    doc_bytes, docs_view, field, json_parse, json_text, lemma_array_view, member, members_view,
    push_member, unique_keys, DocTree, JsonDoc,
};
use crate::table::distinct;
use crate::value::{
    canonical, doc_elem, elem_doc, lemma_canonical_unique_keys, lemma_elem_round_trip, ElemTree,
    JsonElem,
};
use vstd::prelude::*;

verus! {

broadcast use {vstd::std_specs::vec::group_vec_axioms, vstd::seq::group_seq_axioms};

/// The mathematical model of a message record.
pub ghost enum Envelope {
    /// The empty message, written as `null`.
    Empty,
    RegisterObject { reg_object: Seq<char> },
    Success { success: Seq<char> },
    Error { error: ElemTree },
    CallObjectRequest { object: Seq<char>, method: Seq<char>, param: Option<ElemTree> },
    CallObjectResponse { response: ElemTree },
    SubscribeToEvent { event_name: Seq<char> },
    Event { event: Seq<char>, result: ElemTree },
    ListObjects { list: Seq<Seq<char>> },
}

/// The JSON document that a record is written as: an object of the record's
/// fields in their order, without `param` where a call has none.
pub open spec fn envelope_doc(e: Envelope) -> DocTree {
    match e {
        Envelope::Empty => DocTree::Null,
        Envelope::RegisterObject { reg_object } => DocTree::Object(
            seq![("reg_object"@, DocTree::Text(reg_object))],
        ),
        Envelope::Success { success } => DocTree::Object(
            seq![("success"@, DocTree::Text(success))],
        ),
        Envelope::Error { error } => DocTree::Object(seq![("error"@, elem_doc(error))]),
        Envelope::CallObjectRequest { object, method, param } => match param {
            Some(p) => DocTree::Object(
                seq![
                    ("object"@, DocTree::Text(object)),
                    ("method"@, DocTree::Text(method)),
                    ("param"@, elem_doc(p)),
                ],
            ),
            None => DocTree::Object(
                seq![("object"@, DocTree::Text(object)), ("method"@, DocTree::Text(method))],
            ),
        },
        Envelope::CallObjectResponse { response } => DocTree::Object(
            seq![("response"@, elem_doc(response))],
        ),
        Envelope::SubscribeToEvent { event_name } => DocTree::Object(
            seq![("event_name"@, DocTree::Text(event_name))],
        ),
        Envelope::Event { event, result } => DocTree::Object(
            seq![("event"@, DocTree::Text(event)), ("result"@, elem_doc(result))],
        ),
        Envelope::ListObjects { list } => DocTree::Object(
            seq![("list"@, DocTree::Array(Seq::new(list.len(), |i: int| DocTree::Text(list[i]))))],
        ),
    }
}

/// The string that a document holds under a key.
pub open spec fn text_field(doc: DocTree, key: Seq<char>) -> Option<Seq<char>> {
    match field(doc, key) {
        Some(DocTree::Text(s)) => Some(s),
        _ => None,
    }
}

/// The value tree that a document holds under a key.
pub open spec fn value_field(doc: DocTree, key: Seq<char>) -> Option<ElemTree> {
    match field(doc, key) {
        Some(d) => doc_elem(d),
        None => None,
    }
}

/// The list of strings that a document holds under a key.
pub open spec fn list_field(doc: DocTree, key: Seq<char>) -> Option<Seq<Seq<char>>> {
    match field(doc, key) {
        Some(DocTree::Array(items)) => if forall|i: int|
            0 <= i < items.len() ==> (#[trigger] items[i]) is Text {
            Some(Seq::new(items.len(), |i: int| items[i]->Text_0))
        } else {
            None
        },
        _ => None,
    }
}

/// A document read as a registration: it holds a string under `reg_object`.
pub open spec fn doc_register_object(doc: DocTree) -> Option<Envelope> {
    match text_field(doc, "reg_object"@) {
        Some(reg_object) => Some(Envelope::RegisterObject { reg_object }),
        None => None,
    }
}

/// A document read as a success: it holds a string under `success`.
pub open spec fn doc_success(doc: DocTree) -> Option<Envelope> {
    match text_field(doc, "success"@) {
        Some(success) => Some(Envelope::Success { success }),
        None => None,
    }
}

/// A document read as an error: it holds a value tree under `error`.
pub open spec fn doc_error(doc: DocTree) -> Option<Envelope> {
    match value_field(doc, "error"@) {
        Some(error) => Some(Envelope::Error { error }),
        None => None,
    }
}

/// The optional parameter of a call: none where the document has no `param`
/// or a `null` there, else the value tree under `param`. The outer `None`
/// says that something is there and is no value tree.
pub open spec fn param_field(doc: DocTree) -> Option<Option<ElemTree>> {
    match field(doc, "param"@) {
        None => Some(None),
        Some(DocTree::Null) => Some(None),
        Some(d) => match doc_elem(d) {
            Some(p) => Some(Some(p)),
            None => None,
        },
    }
}

/// A document read as a call: it holds strings under `object` and `method`,
/// and an optional parameter.
pub open spec fn doc_call_request(doc: DocTree) -> Option<Envelope> {
    match (text_field(doc, "object"@), text_field(doc, "method"@), param_field(doc)) {
        (Some(object), Some(method), Some(param)) => Some(
            Envelope::CallObjectRequest { object, method, param },
        ),
        _ => None,
    }
}

/// A document read as a call's response: it holds a value tree under
/// `response`.
pub open spec fn doc_call_response(doc: DocTree) -> Option<Envelope> {
    match value_field(doc, "response"@) {
        Some(response) => Some(Envelope::CallObjectResponse { response }),
        None => None,
    }
}

/// A document read as a subscription: it holds a string under `event_name`.
pub open spec fn doc_subscribe(doc: DocTree) -> Option<Envelope> {
    match text_field(doc, "event_name"@) {
        Some(event_name) => Some(Envelope::SubscribeToEvent { event_name }),
        None => None,
    }
}

/// A document read as an event: it holds a string under `event` and a value
/// tree under `result`.
pub open spec fn doc_event(doc: DocTree) -> Option<Envelope> {
    match (text_field(doc, "event"@), value_field(doc, "result"@)) {
        (Some(event), Some(result)) => Some(Envelope::Event { event, result }),
        _ => None,
    }
}

/// A document read as a list of objects: it holds a list of strings under
/// `list`.
pub open spec fn doc_list_objects(doc: DocTree) -> Option<Envelope> {
    match list_field(doc, "list"@) {
        Some(list) => Some(Envelope::ListObjects { list }),
        None => None,
    }
}

/// The string under `key`, where the document holds one there.
pub fn text_of(doc: &JsonDoc, key: &str) -> (r: Option<String>)
    ensures
        r is Some <==> text_field(doc@, key@) is Some,
        r matches Some(s) ==> text_field(doc@, key@) == Some(s@),
{
    match doc.get(key) {
        Some(value) => match value.as_text() {
            Some(s) => Some(s.clone()),
            None => None,
        },
        None => None,
    }
}

/// The value tree under `key`, where the document holds one there.
pub fn value_of(doc: &JsonDoc, key: &str) -> (r: Option<JsonElem>)
    ensures
        r is Some <==> value_field(doc@, key@) is Some,
        r matches Some(v) ==> value_field(doc@, key@) == Some(v@),
{
    match doc.get(key) {
        Some(value) => JsonElem::from_doc(value),
        None => None,
    }
}

/// The list of strings under `key`, where the document holds one there.
pub fn list_of(doc: &JsonDoc, key: &str) -> (r: Option<Vec<String>>)
    ensures
        r is Some <==> list_field(doc@, key@) is Some,
        r matches Some(list) ==> list_field(doc@, key@) == Some(strings_view(list@)),
{
    match doc.get(key) {
        Some(JsonDoc::Array(items)) => {
            proof {
                lemma_array_view(*items);
            }
            let ghost trees = docs_view(items@);
            let mut list: Vec<String> = Vec::new();
            let mut i: usize = 0;
            while i < items.len()
                invariant
                    i <= items.len(),
                    list.len() == i,
                    trees == docs_view(items@),
                    field(doc@, key@) == Some(DocTree::Array(trees)),
                    forall|j: int| 0 <= j < i ==> (#[trigger] trees[j]) == DocTree::Text(list@[j]@),
                decreases items.len() - i,
            {
                match items[i].as_text() {
                    Some(s) => {
                        list.push(s.clone());
                    },
                    None => {
                        assert(!(trees[i as int] is Text));
                        return None;
                    },
                }
                i += 1;
            }
            assert(list_field(doc@, key@) is Some);
            assert(strings_view(list@) =~= list_field(doc@, key@)->Some_0);
            Some(list)
        },
        _ => None,
    }
}

/// The views of a sequence of strings, item by item.
pub open spec fn strings_view(list: Seq<String>) -> Seq<Seq<char>> {
    Seq::new(list.len(), |i: int| list[i]@)
}

/// An array of the given strings.
pub fn list_doc(list: &Vec<String>) -> (doc: JsonDoc)
    ensures
        doc@ == DocTree::Array(
            Seq::new(list@.len(), |i: int| DocTree::Text(strings_view(list@)[i])),
        ),
{
    let mut items: Vec<JsonDoc> = Vec::new();
    let mut i: usize = 0;
    while i < list.len()
        invariant
            i <= list.len(),
            items.len() == i,
            forall|j: int| 0 <= j < i ==> items@[j]@ == DocTree::Text(list@[j]@),
        decreases list.len() - i,
    {
        items.push(JsonDoc::Text(list[i].clone()));
        i += 1;
    }
    proof {
        lemma_array_view(items);
        assert(docs_view(items@) =~= Seq::new(
            list@.len(),
            |i: int| DocTree::Text(strings_view(list@)[i]),
        ));
    }
    JsonDoc::Array(items)
}

/// The bytes that a document is written as, or, where it is not written,
/// the message that says why, as a string value.
pub open spec fn written(doc: DocTree) -> Result<Seq<u8>, ElemTree> {
    match doc_bytes(doc) {
        Ok(bytes) => Ok(bytes),
        Err(message) => Err(ElemTree::String(message)),
    }
}

/// The bytes that a record is written as, or, where it is not written, the
/// message that says why, as a string value.
pub open spec fn encoded(e: Envelope) -> Result<Seq<u8>, ElemTree> {
    written(envelope_doc(e))
}

/// The compact JSON text of a document; where the document is not written
/// the error carries the message that says why, as a string.
pub fn encode(doc: &JsonDoc) -> (r: Result<Vec<u8>, Error>)
    ensures
        r matches Ok(bytes) ==> written(doc@) == Ok::<_, ElemTree>(bytes@),
        r matches Err(e) ==> written(doc@) == Err::<Seq<u8>, _>(e.error@),
{
    match doc.to_vec() {
        Ok(bytes) => Ok(bytes),
        Err(message) => Err(Error::new(JsonElem::String(message))),
    }
}

/// Asks the broker to list an object under a name.
#[derive(Debug)]
pub struct RegisterObject {
    pub reg_object: String,
}

impl RegisterObject {
    pub open spec fn view(&self) -> Envelope {
        Envelope::RegisterObject { reg_object: self.reg_object@ }
    }

    /// A registration of the object `name`.
    pub fn new(name: &str) -> (r: Self)
        ensures
            r@ == (Envelope::RegisterObject { reg_object: name@ }),
    {
        Self { reg_object: name.to_owned() }
    }

    /// This record as a JSON document.
    pub fn to_doc(&self) -> (doc: JsonDoc)
        ensures
            doc@ == envelope_doc(self@),
    {
        let mut members: Vec<(String, JsonDoc)> = Vec::new();
        push_member(&mut members, "reg_object", JsonDoc::Text(self.reg_object.clone()));
        assert(members_view(members@) =~= seq![("reg_object"@, DocTree::Text(self.reg_object@))]);
        JsonDoc::object(members)
    }

    /// The registration that a document is read as.
    pub fn from_doc(doc: &JsonDoc) -> (r: Option<Self>)
        ensures
            r is Some <==> doc_register_object(doc@) is Some,
            r matches Some(m) ==> doc_register_object(doc@) == Some(m@),
    {
        match text_of(doc, "reg_object") {
            Some(reg_object) => Some(Self { reg_object }),
            None => None,
        }
    }

    /// The JSON text of this record.
    pub fn serialize(self) -> (r: Result<Vec<u8>, Error>)
        ensures
            r matches Ok(bytes) ==> encoded(self@) == Ok::<_, ElemTree>(bytes@),
            r matches Err(e) ==> encoded(self@) == Err::<Seq<u8>, _>(e.error@),
    {
        encode(&self.to_doc())
    }
}

/// The broker's answer to a registration or a subscription that it took.
#[derive(Debug)]
pub struct Success {
    pub success: String,
}

impl Success {
    pub open spec fn view(&self) -> Envelope {
        Envelope::Success { success: self.success@ }
    }

    /// A success with the given text.
    pub fn new(success: &str) -> (r: Self)
        ensures
            r@ == (Envelope::Success { success: success@ }),
    {
        Self { success: success.to_owned() }
    }

    /// This record as a JSON document.
    pub fn to_doc(&self) -> (doc: JsonDoc)
        ensures
            doc@ == envelope_doc(self@),
    {
        let mut members: Vec<(String, JsonDoc)> = Vec::new();
        push_member(&mut members, "success", JsonDoc::Text(self.success.clone()));
        assert(members_view(members@) =~= seq![("success"@, DocTree::Text(self.success@))]);
        JsonDoc::object(members)
    }

    /// The success that a document is read as.
    pub fn from_doc(doc: &JsonDoc) -> (r: Option<Self>)
        ensures
            r is Some <==> doc_success(doc@) is Some,
            r matches Some(m) ==> doc_success(doc@) == Some(m@),
    {
        match text_of(doc, "success") {
            Some(success) => Some(Self { success }),
            None => None,
        }
    }

    /// The JSON text of this record.
    pub fn serialize(self) -> (r: Result<Vec<u8>, Error>)
        ensures
            r matches Ok(bytes) ==> encoded(self@) == Ok::<_, ElemTree>(bytes@),
            r matches Err(e) ==> encoded(self@) == Err::<Seq<u8>, _>(e.error@),
    {
        encode(&self.to_doc())
    }
}

/// Asks for a method of a shared object to be run.
#[derive(Debug)]
pub struct CallObjectRequest {
    pub object: String,
    pub method: String,
    pub param: Option<JsonElem>,
}

/// The model of an optional value tree.
pub open spec fn param_view(param: Option<JsonElem>) -> Option<ElemTree> {
    match param {
        Some(p) => Some(p@),
        None => None,
    }
}

impl CallObjectRequest {
    pub open spec fn view(&self) -> Envelope {
        Envelope::CallObjectRequest {
            object: self.object@,
            method: self.method@,
            param: param_view(self.param),
        }
    }

    /// A call of `method` on `object`, with or without a parameter.
    pub fn new(object: &str, method: &str, param: Option<JsonElem>) -> (r: Self)
        ensures
            r@ == (Envelope::CallObjectRequest {
                object: object@,
                method: method@,
                param: param_view(param),
            }),
    {
        Self { object: object.to_owned(), method: method.to_owned(), param }
    }

    /// This record as a JSON document.
    pub fn to_doc(&self) -> (doc: JsonDoc)
        ensures
            doc@ == envelope_doc(self@),
    {
        let mut members: Vec<(String, JsonDoc)> = Vec::new();
        push_member(&mut members, "object", JsonDoc::Text(self.object.clone()));
        push_member(&mut members, "method", JsonDoc::Text(self.method.clone()));
        match &self.param {
            Some(p) => {
                push_member(&mut members, "param", p.to_doc());
                assert(members_view(members@) =~= seq![
                    ("object"@, DocTree::Text(self.object@)),
                    ("method"@, DocTree::Text(self.method@)),
                    ("param"@, elem_doc(p@)),
                ]);
            },
            None => {
                assert(members_view(members@) =~= seq![
                    ("object"@, DocTree::Text(self.object@)),
                    ("method"@, DocTree::Text(self.method@)),
                ]);
            },
        }
        JsonDoc::object(members)
    }

    /// The call that a document is read as.
    pub fn from_doc(doc: &JsonDoc) -> (r: Option<Self>)
        ensures
            r is Some <==> doc_call_request(doc@) is Some,
            r matches Some(m) ==> doc_call_request(doc@) == Some(m@),
    {
        let object = match text_of(doc, "object") {
            Some(object) => object,
            None => {
                return None;
            },
        };
        let method = match text_of(doc, "method") {
            Some(method) => method,
            None => {
                return None;
            },
        };
        let param = match doc.get("param") {
            None => None,
            Some(JsonDoc::Null) => None,
            Some(value) => match JsonElem::from_doc(value) {
                Some(p) => Some(p),
                None => {
                    return None;
                },
            },
        };
        Some(Self { object, method, param })
    }

    /// The JSON text of this record.
    pub fn serialize(self) -> (r: Result<Vec<u8>, Error>)
        ensures
            r matches Ok(bytes) ==> encoded(self@) == Ok::<_, ElemTree>(bytes@),
            r matches Err(e) ==> encoded(self@) == Err::<Seq<u8>, _>(e.error@),
    {
        encode(&self.to_doc())
    }
}

impl Clone for CallObjectRequest {
    fn clone(&self) -> (copy: Self)
        ensures
            copy@ == self@,
    {
        let param = match &self.param {
            Some(p) => Some(p.clone()),
            None => None,
        };
        Self { object: self.object.clone(), method: self.method.clone(), param }
    }
}

/// What a call returned.
#[derive(Debug)]
pub struct CallObjectResponse {
    pub response: JsonElem,
}

impl CallObjectResponse {
    pub open spec fn view(&self) -> Envelope {
        Envelope::CallObjectResponse { response: self.response@ }
    }

    /// A response that carries `response`.
    pub fn new(response: JsonElem) -> (r: Self)
        ensures
            r.response == response,
    {
        Self { response }
    }

    /// This record as a JSON document.
    pub fn to_doc(&self) -> (doc: JsonDoc)
        ensures
            doc@ == envelope_doc(self@),
    {
        let mut members: Vec<(String, JsonDoc)> = Vec::new();
        push_member(&mut members, "response", self.response.to_doc());
        assert(members_view(members@) =~= seq![("response"@, elem_doc(self.response@))]);
        JsonDoc::object(members)
    }

    /// The response that a document is read as.
    pub fn from_doc(doc: &JsonDoc) -> (r: Option<Self>)
        ensures
            r is Some <==> doc_call_response(doc@) is Some,
            r matches Some(m) ==> doc_call_response(doc@) == Some(m@),
    {
        match value_of(doc, "response") {
            Some(response) => Some(Self { response }),
            None => None,
        }
    }

    /// The JSON text of this record.
    pub fn serialize(self) -> (r: Result<Vec<u8>, Error>)
        ensures
            r matches Ok(bytes) ==> encoded(self@) == Ok::<_, ElemTree>(bytes@),
            r matches Err(e) ==> encoded(self@) == Err::<Seq<u8>, _>(e.error@),
    {
        encode(&self.to_doc())
    }
}

/// An event and what it carries.
#[derive(Debug)]
pub struct Event {
    pub event: String,
    pub result: JsonElem,
}

impl Event {
    pub open spec fn view(&self) -> Envelope {
        Envelope::Event { event: self.event@, result: self.result@ }
    }

    /// The event `event`, carrying `result`.
    pub fn new(event: &str, result: JsonElem) -> (r: Self)
        ensures
            r.event@ == event@,
            r.result == result,
    {
        Self { event: event.to_owned(), result }
    }

    /// This record as a JSON document.
    pub fn to_doc(&self) -> (doc: JsonDoc)
        ensures
            doc@ == envelope_doc(self@),
    {
        let mut members: Vec<(String, JsonDoc)> = Vec::new();
        push_member(&mut members, "event", JsonDoc::Text(self.event.clone()));
        push_member(&mut members, "result", self.result.to_doc());
        assert(members_view(members@) =~= seq![
            ("event"@, DocTree::Text(self.event@)),
            ("result"@, elem_doc(self.result@)),
        ]);
        JsonDoc::object(members)
    }

    /// The event that a document is read as.
    pub fn from_doc(doc: &JsonDoc) -> (r: Option<Self>)
        ensures
            r is Some <==> doc_event(doc@) is Some,
            r matches Some(m) ==> doc_event(doc@) == Some(m@),
    {
        let event = match text_of(doc, "event") {
            Some(event) => event,
            None => {
                return None;
            },
        };
        match value_of(doc, "result") {
            Some(result) => Some(Self { event, result }),
            None => None,
        }
    }

    /// The JSON text of this record.
    pub fn serialize(self) -> (r: Result<Vec<u8>, Error>)
        ensures
            r matches Ok(bytes) ==> encoded(self@) == Ok::<_, ElemTree>(bytes@),
            r matches Err(e) ==> encoded(self@) == Err::<Seq<u8>, _>(e.error@),
    {
        encode(&self.to_doc())
    }
}

impl Clone for Event {
    fn clone(&self) -> (copy: Self)
        ensures
            copy@ == self@,
    {
        Self { event: self.event.clone(), result: self.result.clone() }
    }
}

/// Asks the broker for the events of a name.
#[derive(Debug)]
pub struct SubscribeToEvent {
    pub event_name: String,
}

impl SubscribeToEvent {
    pub open spec fn view(&self) -> Envelope {
        Envelope::SubscribeToEvent { event_name: self.event_name@ }
    }

    /// A subscription to the event `event_name`.
    pub fn new(event_name: &str) -> (r: Self)
        ensures
            r@ == (Envelope::SubscribeToEvent { event_name: event_name@ }),
    {
        Self { event_name: event_name.to_owned() }
    }

    /// This record as a JSON document.
    pub fn to_doc(&self) -> (doc: JsonDoc)
        ensures
            doc@ == envelope_doc(self@),
    {
        let mut members: Vec<(String, JsonDoc)> = Vec::new();
        push_member(&mut members, "event_name", JsonDoc::Text(self.event_name.clone()));
        assert(members_view(members@) =~= seq![("event_name"@, DocTree::Text(self.event_name@))]);
        JsonDoc::object(members)
    }

    /// The subscription that a document is read as.
    pub fn from_doc(doc: &JsonDoc) -> (r: Option<Self>)
        ensures
            r is Some <==> doc_subscribe(doc@) is Some,
            r matches Some(m) ==> doc_subscribe(doc@) == Some(m@),
    {
        match text_of(doc, "event_name") {
            Some(event_name) => Some(Self { event_name }),
            None => None,
        }
    }

    /// The JSON text of this record.
    pub fn serialize(self) -> (r: Result<Vec<u8>, Error>)
        ensures
            r matches Ok(bytes) ==> encoded(self@) == Ok::<_, ElemTree>(bytes@),
            r matches Err(e) ==> encoded(self@) == Err::<Seq<u8>, _>(e.error@),
    {
        encode(&self.to_doc())
    }
}

/// A list of object names: the names a client waits for, and the broker's
/// answer to it.
#[derive(Debug, PartialEq)]
pub struct ListObjects {
    pub list: Vec<String>,
}

impl ListObjects {
    pub open spec fn view(&self) -> Envelope {
        Envelope::ListObjects { list: strings_view(self.list@) }
    }

    /// The list of the given names.
    pub fn new(list: Vec<String>) -> (r: Self)
        ensures
            r.list == list,
    {
        Self { list }
    }

    /// This record as a JSON document.
    pub fn to_doc(&self) -> (doc: JsonDoc)
        ensures
            doc@ == envelope_doc(self@),
    {
        let mut members: Vec<(String, JsonDoc)> = Vec::new();
        let names = list_doc(&self.list);
        push_member(&mut members, "list", names);
        assert(members_view(members@) =~= seq![("list"@, names@)]);
        JsonDoc::object(members)
    }

    /// The list that a document is read as.
    pub fn from_doc(doc: &JsonDoc) -> (r: Option<Self>)
        ensures
            r is Some <==> doc_list_objects(doc@) is Some,
            r matches Some(m) ==> doc_list_objects(doc@) == Some(m@),
    {
        match list_of(doc, "list") {
            Some(list) => Some(Self { list }),
            None => None,
        }
    }

    /// The JSON text of this record.
    pub fn serialize(self) -> (r: Result<Vec<u8>, Error>)
        ensures
            r matches Ok(bytes) ==> encoded(self@) == Ok::<_, ElemTree>(bytes@),
            r matches Err(e) ==> encoded(self@) == Err::<Seq<u8>, _>(e.error@),
    {
        encode(&self.to_doc())
    }
}

/// The texts that the broker and the clients put into their answers.
#[derive(Debug)]
pub enum StaticReplies {
    Okay,
    ObjectNotFound,
    ClientConnectionError,
    ServerConnectionError,
    SerdeParseError,
    RemoteConnectionError,
    InvalidResponseData,
}

impl StaticReplies {
    /// The text of this reply.
    pub open spec fn text(self) -> Seq<char> {
        match self {
            StaticReplies::Okay => "OK"@,
            StaticReplies::ObjectNotFound => "Object not found"@,
            StaticReplies::ClientConnectionError => "client connection error"@,
            StaticReplies::ServerConnectionError => "server connection error"@,
            StaticReplies::SerdeParseError => "serde parsing error"@,
            StaticReplies::RemoteConnectionError => "remote connection error"@,
            StaticReplies::InvalidResponseData => "invalid response data"@,
        }
    }

    /// The text of this reply.
    pub fn as_ref(&self) -> (text: &'static str)
        ensures
            text@ == self.text(),
    {
        match self {
            StaticReplies::Okay => "OK",
            StaticReplies::ObjectNotFound => "Object not found",
            StaticReplies::ClientConnectionError => "client connection error",
            StaticReplies::ServerConnectionError => "server connection error",
            StaticReplies::SerdeParseError => "serde parsing error",
            StaticReplies::RemoteConnectionError => "remote connection error",
            StaticReplies::InvalidResponseData => "invalid response data",
        }
    }

    /// The text of this reply, as a string of its own.
    pub fn to_string(&self) -> (text: String)
        ensures
            text@ == self.text(),
    {
        self.as_ref().to_owned()
    }

    /// The reply that has the given text.
    pub fn from_str(text: &str) -> (r: Option<StaticReplies>)
        ensures
            r matches Some(reply) ==> reply.text() == text@,
            r is None ==> forall|reply: StaticReplies| reply.text() != text@,
    {
        let wanted: String = text.to_owned();
        if wanted == StaticReplies::Okay.to_string() {
            Some(StaticReplies::Okay)
        } else if wanted == StaticReplies::ObjectNotFound.to_string() {
            Some(StaticReplies::ObjectNotFound)
        } else if wanted == StaticReplies::ClientConnectionError.to_string() {
            Some(StaticReplies::ClientConnectionError)
        } else if wanted == StaticReplies::ServerConnectionError.to_string() {
            Some(StaticReplies::ServerConnectionError)
        } else if wanted == StaticReplies::SerdeParseError.to_string() {
            Some(StaticReplies::SerdeParseError)
        } else if wanted == StaticReplies::RemoteConnectionError.to_string() {
            Some(StaticReplies::RemoteConnectionError)
        } else if wanted == StaticReplies::InvalidResponseData.to_string() {
            Some(StaticReplies::InvalidResponseData)
        } else {
            None
        }
    }

    /// An error that carries the text of this reply.
    pub fn error(&self) -> (e: Error)
        ensures
            e.error@ == ElemTree::String(self.text()),
    {
        Error::new(JsonElem::String(self.to_string()))
    }
}

/// No two replies have the same text.
pub proof fn lemma_static_replies_distinct(a: StaticReplies, b: StaticReplies)
    requires
        a.text() == b.text(),
    ensures
        a == b,
{
    reveal_strlit("OK");
    reveal_strlit("Object not found");
    reveal_strlit("client connection error");
    reveal_strlit("server connection error");
    reveal_strlit("serde parsing error");
    reveal_strlit("remote connection error");
    reveal_strlit("invalid response data");
    let sa = a.text();
    let sb = b.text();
    assert(sa.len() == sb.len());
    assert(sa[0] == sb[0]);
    assert(sa[1] == sb[1]);
}

/// Whether the value trees that a record carries are canonical.
pub open spec fn envelope_canonical(e: Envelope) -> bool {
    match e {
        Envelope::Error { error } => canonical(error),
        Envelope::CallObjectRequest { param, .. } => param matches Some(p) ==> canonical(p),
        Envelope::CallObjectResponse { response } => canonical(response),
        Envelope::Event { result, .. } => canonical(result),
        _ => true,
    }
}

/// The keys of the records' fields are all different.
proof fn lemma_keys_distinct()
    ensures
        "reg_object"@ != "success"@,
        "reg_object"@ != "error"@,
        "reg_object"@ != "object"@,
        "reg_object"@ != "method"@,
        "reg_object"@ != "param"@,
        "reg_object"@ != "response"@,
        "reg_object"@ != "event_name"@,
        "reg_object"@ != "event"@,
        "reg_object"@ != "result"@,
        "reg_object"@ != "list"@,
        "success"@ != "error"@,
        "success"@ != "object"@,
        "success"@ != "method"@,
        "success"@ != "param"@,
        "success"@ != "response"@,
        "success"@ != "event_name"@,
        "success"@ != "event"@,
        "success"@ != "result"@,
        "success"@ != "list"@,
        "error"@ != "object"@,
        "error"@ != "method"@,
        "error"@ != "param"@,
        "error"@ != "response"@,
        "error"@ != "event_name"@,
        "error"@ != "event"@,
        "error"@ != "result"@,
        "error"@ != "list"@,
        "object"@ != "method"@,
        "object"@ != "param"@,
        "object"@ != "response"@,
        "object"@ != "event_name"@,
        "object"@ != "event"@,
        "object"@ != "result"@,
        "object"@ != "list"@,
        "method"@ != "param"@,
        "method"@ != "response"@,
        "method"@ != "event_name"@,
        "method"@ != "event"@,
        "method"@ != "result"@,
        "method"@ != "list"@,
        "param"@ != "response"@,
        "param"@ != "event_name"@,
        "param"@ != "event"@,
        "param"@ != "result"@,
        "param"@ != "list"@,
        "response"@ != "event_name"@,
        "response"@ != "event"@,
        "response"@ != "result"@,
        "response"@ != "list"@,
        "event_name"@ != "event"@,
        "event_name"@ != "result"@,
        "event_name"@ != "list"@,
        "event"@ != "result"@,
        "event"@ != "list"@,
        "result"@ != "list"@,
{
    reveal_strlit("reg_object");
    reveal_strlit("success");
    reveal_strlit("error");
    reveal_strlit("object");
    reveal_strlit("method");
    reveal_strlit("param");
    reveal_strlit("response");
    reveal_strlit("event_name");
    reveal_strlit("event");
    reveal_strlit("result");
    reveal_strlit("list");
    assert("reg_object"@.len() == 10 && "reg_object"@[0] == 'r' && "reg_object"@[1] == 'e');
    assert("success"@.len() == 7 && "success"@[0] == 's' && "success"@[1] == 'u');
    assert("error"@.len() == 5 && "error"@[0] == 'e' && "error"@[1] == 'r');
    assert("object"@.len() == 6 && "object"@[0] == 'o' && "object"@[1] == 'b');
    assert("method"@.len() == 6 && "method"@[0] == 'm' && "method"@[1] == 'e');
    assert("param"@.len() == 5 && "param"@[0] == 'p' && "param"@[1] == 'a');
    assert("response"@.len() == 8 && "response"@[0] == 'r' && "response"@[1] == 'e');
    assert("event_name"@.len() == 10 && "event_name"@[0] == 'e' && "event_name"@[1] == 'v');
    assert("event"@.len() == 5 && "event"@[0] == 'e' && "event"@[1] == 'v');
    assert("result"@.len() == 6 && "result"@[0] == 'r' && "result"@[1] == 'e');
    assert("list"@.len() == 4 && "list"@[0] == 'l' && "list"@[1] == 'i');
}

/// `member` on one member.
proof fn lemma_member_1(k0: Seq<char>, v0: DocTree, key: Seq<char>)
    ensures
        member(seq![(k0, v0)], key) == if k0 == key {
            Some(v0)
        } else {
            None
        },
{
    let s = seq![(k0, v0)];
    assert(s.len() == 1 && s[0] == (k0, v0));
    assert(s.skip(1).len() == 0);
    reveal_with_fuel(member, 2);
}

/// `member` on two members.
proof fn lemma_member_2(
    k0: Seq<char>,
    v0: DocTree,
    k1: Seq<char>,
    v1: DocTree,
    key: Seq<char>,
)
    ensures
        member(seq![(k0, v0), (k1, v1)], key) == if k0 == key {
            Some(v0)
        } else if k1 == key {
            Some(v1)
        } else {
            None
        },
{
    let s = seq![(k0, v0), (k1, v1)];
    assert(s.len() == 2 && s[0] == (k0, v0));
    assert(s.skip(1) =~= seq![(k1, v1)]);
    lemma_member_1(k1, v1, key);
}

/// `member` on three members.
proof fn lemma_member_3(
    k0: Seq<char>,
    v0: DocTree,
    k1: Seq<char>,
    v1: DocTree,
    k2: Seq<char>,
    v2: DocTree,
    key: Seq<char>,
)
    ensures
        member(seq![(k0, v0), (k1, v1), (k2, v2)], key) == if k0 == key {
            Some(v0)
        } else if k1 == key {
            Some(v1)
        } else if k2 == key {
            Some(v2)
        } else {
            None
        },
{
    let s = seq![(k0, v0), (k1, v1), (k2, v2)];
    assert(s.len() == 3 && s[0] == (k0, v0));
    assert(s.skip(1) =~= seq![(k1, v1), (k2, v2)]);
    lemma_member_2(k1, v1, k2, v2, key);
}

/// What a document that stands for a value tree is not: a `null`.
proof fn lemma_elem_doc_not_null(t: ElemTree)
    ensures
        !(elem_doc(t) is Null),
{
}

/// `member` on one member, for each key of a record.
proof fn lemma_fields_1(s: Seq<(Seq<char>, DocTree)>, k0: Seq<char>, v0: DocTree)
    requires
        s == seq![(k0, v0)],
    ensures
        forall|key: Seq<char>| #[trigger]
            member(s, key) == if k0 == key {
                Some(v0)
            } else {
                None
            },
{
    assert forall|key: Seq<char>| #[trigger]
        member(s, key) == if k0 == key {
            Some(v0)
        } else {
            None
        } by {
        lemma_member_1(k0, v0, key);
    }
}

/// `member` on two members, for each key of a record.
proof fn lemma_fields_2(
    s: Seq<(Seq<char>, DocTree)>,
    k0: Seq<char>,
    v0: DocTree,
    k1: Seq<char>,
    v1: DocTree,
)
    requires
        s == seq![(k0, v0), (k1, v1)],
    ensures
        forall|key: Seq<char>| #[trigger]
            member(s, key) == if k0 == key {
                Some(v0)
            } else if k1 == key {
                Some(v1)
            } else {
                None
            },
{
    assert forall|key: Seq<char>| #[trigger]
        member(s, key) == if k0 == key {
            Some(v0)
        } else if k1 == key {
            Some(v1)
        } else {
            None
        } by {
        lemma_member_2(k0, v0, k1, v1, key);
    }
}

/// `member` on three members, for each key of a record.
proof fn lemma_fields_3(
    s: Seq<(Seq<char>, DocTree)>,
    k0: Seq<char>,
    v0: DocTree,
    k1: Seq<char>,
    v1: DocTree,
    k2: Seq<char>,
    v2: DocTree,
)
    requires
        s == seq![(k0, v0), (k1, v1), (k2, v2)],
    ensures
        forall|key: Seq<char>| #[trigger]
            member(s, key) == if k0 == key {
                Some(v0)
            } else if k1 == key {
                Some(v1)
            } else if k2 == key {
                Some(v2)
            } else {
                None
            },
{
    assert forall|key: Seq<char>| #[trigger]
        member(s, key) == if k0 == key {
            Some(v0)
        } else if k1 == key {
            Some(v1)
        } else if k2 == key {
            Some(v2)
        } else {
            None
        } by {
        lemma_member_3(k0, v0, k1, v1, k2, v2, key);
    }
}

/// A record whose value trees are canonical stands for a document in which
/// no object has a key twice: it is written.
pub proof fn lemma_envelope_is_written(e: Envelope)
    requires
        envelope_canonical(e),
    ensures
        unique_keys(envelope_doc(e)),
        doc_bytes(envelope_doc(e)) == json_text(envelope_doc(e)),
{
    lemma_keys_distinct();
    let doc = envelope_doc(e);
    match e {
        Envelope::Error { error } => {
            lemma_canonical_unique_keys(error);
        },
        Envelope::CallObjectRequest { object, method, param } => {
            match param {
                Some(p) => {
                    lemma_canonical_unique_keys(p);
                },
                None => {},
            }
        },
        Envelope::CallObjectResponse { response } => {
            lemma_canonical_unique_keys(response);
        },
        Envelope::Event { event, result } => {
            lemma_canonical_unique_keys(result);
        },
        Envelope::ListObjects { list } => {
            let items = doc->Object_0[0].1->Array_0;
            assert forall|i: int| 0 <= i < items.len() implies unique_keys(
                #[trigger] items[i],
            ) by {}
            assert(unique_keys(doc->Object_0[0].1));
        },
        _ => {},
    }
    match doc {
        DocTree::Object(members) => {
            assert(distinct(members));
            assert forall|i: int| 0 <= i < members.len() implies unique_keys(
                (#[trigger] members[i]).1,
            ) by {}
        },
        _ => {},
    }
}

/// What each way of reading makes of the document that a record is written
/// as: the record itself for the record's own kind, and nothing for every
/// other kind.
pub proof fn lemma_envelope_round_trip(e: Envelope)
    requires
        envelope_canonical(e),
    ensures
        envelope_doc(e) is Null <==> e is Empty,
        doc_register_object(envelope_doc(e)) == if e is RegisterObject {
            Some(e)
        } else {
            None
        },
        doc_success(envelope_doc(e)) == if e is Success {
            Some(e)
        } else {
            None
        },
        doc_error(envelope_doc(e)) == if e is Error {
            Some(e)
        } else {
            None
        },
        doc_call_request(envelope_doc(e)) == if e is CallObjectRequest {
            Some(e)
        } else {
            None
        },
        doc_call_response(envelope_doc(e)) == if e is CallObjectResponse {
            Some(e)
        } else {
            None
        },
        doc_subscribe(envelope_doc(e)) == if e is SubscribeToEvent {
            Some(e)
        } else {
            None
        },
        doc_event(envelope_doc(e)) == if e is Event {
            Some(e)
        } else {
            None
        },
        doc_list_objects(envelope_doc(e)) == if e is ListObjects {
            Some(e)
        } else {
            None
        },
{
    lemma_keys_distinct();
    let doc = envelope_doc(e);
    match e {
        Envelope::Empty => {},
        Envelope::RegisterObject { reg_object } => {
            lemma_fields_1(doc->Object_0, "reg_object"@, DocTree::Text(reg_object));
        },
        Envelope::Success { success } => {
            lemma_fields_1(doc->Object_0, "success"@, DocTree::Text(success));
        },
        Envelope::Error { error } => {
            lemma_elem_round_trip(error);
            lemma_fields_1(doc->Object_0, "error"@, elem_doc(error));
        },
        Envelope::CallObjectRequest { object, method, param } => {
            match param {
                Some(p) => {
                    lemma_elem_round_trip(p);
                    lemma_elem_doc_not_null(p);
                    lemma_fields_3(
                        doc->Object_0,
                        "object"@,
                        DocTree::Text(object),
                        "method"@,
                        DocTree::Text(method),
                        "param"@,
                        elem_doc(p),
                    );
                },
                None => {
                    lemma_fields_2(
                        doc->Object_0,
                        "object"@,
                        DocTree::Text(object),
                        "method"@,
                        DocTree::Text(method),
                    );
                },
            }
        },
        Envelope::CallObjectResponse { response } => {
            lemma_elem_round_trip(response);
            lemma_fields_1(doc->Object_0, "response"@, elem_doc(response));
        },
        Envelope::SubscribeToEvent { event_name } => {
            lemma_fields_1(doc->Object_0, "event_name"@, DocTree::Text(event_name));
        },
        Envelope::Event { event, result } => {
            lemma_elem_round_trip(result);
            lemma_fields_2(doc->Object_0, "event"@, DocTree::Text(event), "result"@, elem_doc(result));
        },
        Envelope::ListObjects { list } => {
            let items = Seq::new(list.len(), |i: int| DocTree::Text(list[i]));
            lemma_fields_1(doc->Object_0, "list"@, DocTree::Array(items));
            assert(list_field(doc, "list"@) is Some);
            assert(list_field(doc, "list"@)->Some_0 =~= list);
        },
    }
}

/// A message that a client may read.
#[derive(Debug)]
pub enum IncomingMessage {
    Register(Success),
    Error(Error),
    CallRequest(CallObjectRequest),
    CallResponse(CallObjectResponse),
    WaitForObjects(ListObjects),
}

/// A document read as a message to a client: the first fit, in the order
/// success, error, call, response, list.
pub open spec fn doc_incoming(doc: DocTree) -> Option<Envelope> {
    if doc_success(doc) is Some {
        doc_success(doc)
    } else if doc_error(doc) is Some {
        doc_error(doc)
    } else if doc_call_request(doc) is Some {
        doc_call_request(doc)
    } else if doc_call_response(doc) is Some {
        doc_call_response(doc)
    } else {
        doc_list_objects(doc)
    }
}

/// The message to a client that a byte string holds. Bytes that are no JSON
/// give the parser's message as a string value; JSON that fits no message
/// gives the text of `StaticReplies::SerdeParseError`.
pub open spec fn incoming_of(bytes: Seq<u8>) -> Result<Envelope, ElemTree> {
    match json_parse(bytes) {
        Ok(doc) => match doc_incoming(doc) {
            Some(e) => Ok(e),
            None => Err(ElemTree::String(StaticReplies::SerdeParseError.text())),
        },
        Err(message) => Err(ElemTree::String(message)),
    }
}

impl IncomingMessage {
    pub open spec fn view(&self) -> Envelope {
        match self {
            IncomingMessage::Register(m) => m@,
            IncomingMessage::Error(m) => m@,
            IncomingMessage::CallRequest(m) => m@,
            IncomingMessage::CallResponse(m) => m@,
            IncomingMessage::WaitForObjects(m) => m@,
        }
    }

    /// This message as a JSON document.
    pub fn to_doc(&self) -> (doc: JsonDoc)
        ensures
            doc@ == envelope_doc(self@),
    {
        match self {
            IncomingMessage::Register(m) => m.to_doc(),
            IncomingMessage::Error(m) => m.to_doc(),
            IncomingMessage::CallRequest(m) => m.to_doc(),
            IncomingMessage::CallResponse(m) => m.to_doc(),
            IncomingMessage::WaitForObjects(m) => m.to_doc(),
        }
    }

    /// The message that a document is read as.
    pub fn from_doc(doc: &JsonDoc) -> (r: Option<Self>)
        ensures
            r is Some <==> doc_incoming(doc@) is Some,
            r matches Some(m) ==> doc_incoming(doc@) == Some(m@),
    {
        if let Some(m) = Success::from_doc(doc) {
            return Some(IncomingMessage::Register(m));
        }
        if let Some(m) = Error::from_doc(doc) {
            return Some(IncomingMessage::Error(m));
        }
        if let Some(m) = CallObjectRequest::from_doc(doc) {
            return Some(IncomingMessage::CallRequest(m));
        }
        if let Some(m) = CallObjectResponse::from_doc(doc) {
            return Some(IncomingMessage::CallResponse(m));
        }
        match ListObjects::from_doc(doc) {
            Some(m) => Some(IncomingMessage::WaitForObjects(m)),
            None => None,
        }
    }

    /// The message that a byte string holds. Bytes that are no JSON give an
    /// error with the parser's message; JSON that fits no message gives the
    /// error of `StaticReplies::SerdeParseError`.
    pub fn parse(bytes: &[u8]) -> (r: Result<Self, Error>)
        ensures
            r matches Ok(m) ==> incoming_of(bytes@) == Ok::<_, ElemTree>(m@),
            r matches Err(e) ==> incoming_of(bytes@) == Err::<Envelope, _>(e.error@),
    {
        match JsonDoc::parse(bytes) {
            Ok(doc) => match IncomingMessage::from_doc(&doc) {
                Some(m) => Ok(m),
                None => Err(StaticReplies::SerdeParseError.error()),
            },
            Err(message) => Err(Error::new(JsonElem::String(message))),
        }
    }
}

/// A message that a client may write, beside a call and a registration.
#[derive(Debug)]
pub enum OutgoingMessage {
    Error(Error),
    CallResponse(CallObjectResponse),
    WaitForObjects(ListObjects),
    SendEvent(Event),
    SubscribeEvent(SubscribeToEvent),
}

/// A document read as a message from a client: the first fit, in the order
/// error, response, list, event, subscription.
pub open spec fn doc_outgoing(doc: DocTree) -> Option<Envelope> {
    if doc_error(doc) is Some {
        doc_error(doc)
    } else if doc_call_response(doc) is Some {
        doc_call_response(doc)
    } else if doc_list_objects(doc) is Some {
        doc_list_objects(doc)
    } else if doc_event(doc) is Some {
        doc_event(doc)
    } else {
        doc_subscribe(doc)
    }
}

impl OutgoingMessage {
    /// The message that a document is read as.
    pub fn from_doc(doc: &JsonDoc) -> (r: Option<Self>)
        ensures
            r is Some <==> doc_outgoing(doc@) is Some,
            r matches Some(m) ==> doc_outgoing(doc@) == Some(m@),
    {
        if let Some(m) = Error::from_doc(doc) {
            return Some(OutgoingMessage::Error(m));
        }
        if let Some(m) = CallObjectResponse::from_doc(doc) {
            return Some(OutgoingMessage::CallResponse(m));
        }
        if let Some(m) = ListObjects::from_doc(doc) {
            return Some(OutgoingMessage::WaitForObjects(m));
        }
        if let Some(m) = Event::from_doc(doc) {
            return Some(OutgoingMessage::SendEvent(m));
        }
        match SubscribeToEvent::from_doc(doc) {
            Some(m) => Some(OutgoingMessage::SubscribeEvent(m)),
            None => None,
        }
    }

    pub open spec fn view(&self) -> Envelope {
        match self {
            OutgoingMessage::Error(m) => m@,
            OutgoingMessage::CallResponse(m) => m@,
            OutgoingMessage::WaitForObjects(m) => m@,
            OutgoingMessage::SendEvent(m) => m@,
            OutgoingMessage::SubscribeEvent(m) => m@,
        }
    }

    /// This message as a JSON document.
    pub fn to_doc(&self) -> (doc: JsonDoc)
        ensures
            doc@ == envelope_doc(self@),
    {
        match self {
            OutgoingMessage::Error(m) => m.to_doc(),
            OutgoingMessage::CallResponse(m) => m.to_doc(),
            OutgoingMessage::WaitForObjects(m) => m.to_doc(),
            OutgoingMessage::SendEvent(m) => m.to_doc(),
            OutgoingMessage::SubscribeEvent(m) => m.to_doc(),
        }
    }

    /// The JSON text of this message.
    pub fn serialize(self) -> (r: Result<Vec<u8>, Error>)
        ensures
            r matches Ok(bytes) ==> encoded(self@) == Ok::<_, ElemTree>(bytes@),
            r matches Err(e) ==> encoded(self@) == Err::<Seq<u8>, _>(e.error@),
    {
        encode(&self.to_doc())
    }
}

/// Reading back what a message from a client is written as gives the message
/// again, where the value trees it carries are canonical.
pub proof fn lemma_outgoing_round_trip(e: Envelope)
    requires
        envelope_canonical(e),
        e is Error || e is CallObjectResponse || e is ListObjects || e is Event
            || e is SubscribeToEvent,
    ensures
        doc_outgoing(envelope_doc(e)) == Some(e),
{
    lemma_envelope_round_trip(e);
}

/// Reading back what a message to a client is written as gives the message
/// again, where the value trees it carries are canonical.
pub proof fn lemma_incoming_round_trip(e: Envelope)
    requires
        envelope_canonical(e),
        e is Success || e is Error || e is CallObjectRequest || e is CallObjectResponse
            || e is ListObjects,
    ensures
        doc_incoming(envelope_doc(e)) == Some(e),
{
    lemma_envelope_round_trip(e);
}

} // verus!
