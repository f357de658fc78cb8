//! JSON documents: the tree that the JSON parser produces and the JSON writer
//! consumes, and the calls into `serde_json` that turn bytes into trees and
//! back. Nothing is proved of those calls; what is believed of them stands
//! in their contracts.

use crate::table::distinct;
use serde_json::Value;
use vstd::prelude::*;

verus! {

broadcast use {vstd::std_specs::vec::group_vec_axioms, vstd::seq::group_seq_axioms};

/// The message for a document that is not written because one of its
/// objects has a key twice.
pub const KEY_TWICE: &'static str = "a key occurs twice";

/// A JSON document held as plain values.
///
/// A number is one of three forms: a non-negative integer, a signed integer,
/// or, where it is neither, a float held as its JSON text. An object is the
/// list of its members in their order; a document is written only where no
/// object of it has a key twice (`unique_keys`).
#[derive(Debug, PartialEq)]
pub enum JsonDoc {
    Null,
    Bool(bool),
    PosInt(u64),
    NegInt(i64),
    Float(String),
    Text(String),
    Array(Vec<JsonDoc>),
    Object(Vec<(String, JsonDoc)>),
}

/// The mathematical model of a JSON document.
///
/// Integers are unbounded here; an object is the sequence of its members in
/// document order.
pub ghost enum DocTree {
    Null,
    Bool(bool),
    Int(int),
    Float(Seq<char>),
    Text(Seq<char>),
    Array(Seq<DocTree>),
    Object(Seq<(Seq<char>, DocTree)>),
}

impl JsonDoc {
    /// The model of this document.
    pub open spec fn view(&self) -> DocTree
        decreases self,
    {
        match self {
            JsonDoc::Null => DocTree::Null,
            JsonDoc::Bool(b) => DocTree::Bool(*b),
            JsonDoc::PosInt(n) => DocTree::Int(*n as int),
            JsonDoc::NegInt(n) => DocTree::Int(*n as int),
            JsonDoc::Float(text) => DocTree::Float(text@),
            JsonDoc::Text(s) => DocTree::Text(s@),
            JsonDoc::Array(items) => DocTree::Array(
                Seq::new(
                    items@.len(),
                    |i: int|
                        if 0 <= i < items@.len() {
                            items@[i].view()
                        } else {
                            DocTree::Null
                        },
                ),
            ),
            JsonDoc::Object(members) => DocTree::Object(
                Seq::new(
                    members@.len(),
                    |i: int|
                        if 0 <= i < members@.len() {
                            (members@[i].0@, members@[i].1.view())
                        } else {
                            (Seq::empty(), DocTree::Null)
                        },
                ),
            ),
        }
    }
}

/// The models of a sequence of documents, item by item.
pub open spec fn docs_view(items: Seq<JsonDoc>) -> Seq<DocTree> {
    Seq::new(items.len(), |i: int| items[i]@)
}

/// The models of a sequence of object members, member by member.
pub open spec fn members_view(members: Seq<(String, JsonDoc)>) -> Seq<(Seq<char>, DocTree)> {
    Seq::new(members.len(), |i: int| (members[i].0@, members[i].1@))
}

/// The view of an array is the view of its items.
pub proof fn lemma_array_view(items: Vec<JsonDoc>)
    ensures
        JsonDoc::Array(items)@ == DocTree::Array(docs_view(items@)),
{
    assert(JsonDoc::Array(items)@->Array_0 =~= docs_view(items@));
}

/// The view of an object is the view of its members.
pub proof fn lemma_object_view(members: Vec<(String, JsonDoc)>)
    ensures
        JsonDoc::Object(members)@ == DocTree::Object(members_view(members@)),
{
    assert(JsonDoc::Object(members)@->Object_0 =~= members_view(members@));
}

/// Whether no object of the document, at any depth, has a key twice.
pub open spec fn unique_keys(doc: DocTree) -> bool
    decreases doc,
{
    match doc {
        DocTree::Array(items) => forall|i: int|
            0 <= i < items.len() ==> unique_keys(#[trigger] items[i]),
        DocTree::Object(members) => distinct(members) && forall|i: int|
            0 <= i < members.len() ==> unique_keys((#[trigger] members[i]).1),
        _ => true,
    }
}

/// What is written for a document: its compact JSON text, unless an object
/// of it has a key twice; such a document is not written, and the message
/// is `KEY_TWICE`.
pub open spec fn doc_bytes(doc: DocTree) -> Result<Seq<u8>, Seq<char>> {
    if unique_keys(doc) {
        json_text(doc)
    } else {
        Err(KEY_TWICE@)
    }
}

/// What is written for a document as a string: its compact JSON text,
/// unless an object of it has a key twice; such a document is not written,
/// and the message is `KEY_TWICE`.
pub open spec fn doc_string(doc: DocTree) -> Result<Seq<char>, Seq<char>> {
    if unique_keys(doc) {
        json_string(doc)
    } else {
        Err(KEY_TWICE@)
    }
}

/// Whether no two members of the list have the same key.
pub fn members_distinct(members: &Vec<(String, JsonDoc)>) -> (r: bool)
    ensures
        r == distinct(members_view(members@)),
{
    let mut j: usize = 0;
    while j < members.len()
        invariant
            j <= members.len(),
            forall|a: int, b: int|
                0 <= a < b < j ==> (#[trigger] members_view(members@)[a]).0 != (
                #[trigger] members_view(members@)[b]).0,
        decreases members.len() - j,
    {
        let mut i: usize = 0;
        while i < j
            invariant
                i <= j < members.len(),
                forall|a: int|
                    0 <= a < i ==> (#[trigger] members_view(members@)[a]).0 != members_view(
                        members@,
                    )[j as int].0,
            decreases j - i,
        {
            if members[i].0 == members[j].0 {
                assert(members_view(members@)[i as int].0 == members_view(members@)[j as int].0);
                return false;
            }
            i += 1;
        }
        j += 1;
    }
    true
}

/// The value of the first member of an object that has the given key.
pub open spec fn member(members: Seq<(Seq<char>, DocTree)>, key: Seq<char>) -> Option<DocTree>
    decreases members.len(),
{
    if members.len() == 0 {
        None
    } else if members[0].0 == key {
        Some(members[0].1)
    } else {
        member(members.skip(1), key)
    }
}

/// The value that a document holds under a key: that of its first member
/// with the key where it is an object, else `None`.
pub open spec fn field(doc: DocTree, key: Seq<char>) -> Option<DocTree> {
    match doc {
        DocTree::Object(members) => member(members, key),
        _ => None,
    }
}

/// `member` finds the member at `i` where no earlier member has the key.
pub proof fn lemma_member_at(members: Seq<(Seq<char>, DocTree)>, key: Seq<char>, i: int)
    requires
        0 <= i < members.len(),
        members[i].0 == key,
        forall|j: int| 0 <= j < i ==> members[j].0 != key,
    ensures
        member(members, key) == Some(members[i].1),
    decreases i,
{
    if i > 0 {
        lemma_member_at(members.skip(1), key, i - 1);
    }
}

/// `member` finds nothing where no member has the key.
pub proof fn lemma_member_none(members: Seq<(Seq<char>, DocTree)>, key: Seq<char>)
    requires
        forall|j: int| 0 <= j < members.len() ==> members[j].0 != key,
    ensures
        member(members, key) is None,
    decreases members.len(),
{
    if members.len() > 0 {
        lemma_member_none(members.skip(1), key);
    }
}

impl JsonDoc {
    /// The document that a byte string holds, or the parser's message.
    pub fn parse(bytes: &[u8]) -> (r: Result<JsonDoc, String>)
        ensures
            json_parse(bytes@) == match r {
                Ok(doc) => Ok::<DocTree, Seq<char>>(doc@),
                Err(message) => Err(message@),
            },
    {
        parse_document(bytes)
    }

    /// Whether no object of this document, at any depth, has a key twice.
    pub fn has_unique_keys(&self) -> (r: bool)
        ensures
            r == unique_keys(self@),
        decreases self,
    {
        match self {
            JsonDoc::Array(items) => {
                proof {
                    lemma_array_view(*items);
                }
                let mut i: usize = 0;
                while i < items.len()
                    invariant
                        i <= items.len(),
                        *self == JsonDoc::Array(*items),
                        self@ == DocTree::Array(docs_view(items@)),
                        forall|j: int| 0 <= j < i ==> unique_keys(#[trigger] docs_view(items@)[j]),
                    decreases items.len() - i,
                {
                    assert(decreases_to!(self => self->Array_0));
                    if !items[i].has_unique_keys() {
                        assert(self@->Array_0 == docs_view(items@));
                        assert(!unique_keys(docs_view(items@)[i as int]));
                        return false;
                    }
                    i += 1;
                }
                true
            },
            JsonDoc::Object(members) => {
                proof {
                    lemma_object_view(*members);
                }
                if !members_distinct(members) {
                    return false;
                }
                let mut i: usize = 0;
                while i < members.len()
                    invariant
                        i <= members.len(),
                        *self == JsonDoc::Object(*members),
                        self@ == DocTree::Object(members_view(members@)),
                        distinct(members_view(members@)),
                        forall|j: int|
                            0 <= j < i ==> unique_keys((#[trigger] members_view(members@)[j]).1),
                    decreases members.len() - i,
                {
                    assert(decreases_to!(self => self->Object_0));
                    if !members[i].1.has_unique_keys() {
                        assert(!unique_keys(members_view(members@)[i as int].1));
                        return false;
                    }
                    i += 1;
                }
                true
            },
            _ => true,
        }
    }

    /// The compact JSON text of this document. A document in which an
    /// object has a key twice is not written: the message is `KEY_TWICE`.
    /// Any other failure comes with the writer's message.
    pub fn to_vec(&self) -> (r: Result<Vec<u8>, String>)
        ensures
            doc_bytes(self@) == match r {
                Ok(bytes) => Ok::<Seq<u8>, Seq<char>>(bytes@),
                Err(message) => Err(message@),
            },
    {
        if self.has_unique_keys() {
            write_document(self)
        } else {
            Err(KEY_TWICE.to_owned())
        }
    }

    /// The compact JSON text of this document as a string. A document in
    /// which an object has a key twice is not written: the message is
    /// `KEY_TWICE`. Any other failure comes with the writer's message.
    pub fn to_string(&self) -> (r: Result<String, String>)
        ensures
            doc_string(self@) == match r {
                Ok(text) => Ok::<Seq<char>, Seq<char>>(text@),
                Err(message) => Err(message@),
            },
    {
        if self.has_unique_keys() {
            write_document_string(self)
        } else {
            Err(KEY_TWICE.to_owned())
        }
    }

    /// An object of the given members, in their order.
    pub fn object(members: Vec<(String, JsonDoc)>) -> (doc: JsonDoc)
        ensures
            doc@ == DocTree::Object(members_view(members@)),
    {
        proof {
            lemma_object_view(members);
        }
        JsonDoc::Object(members)
    }

    /// A string.
    pub fn text(s: &str) -> (doc: JsonDoc)
        ensures
            doc@ == DocTree::Text(s@),
    {
        JsonDoc::Text(s.to_owned())
    }

    /// The string that this document is, or `None` where it is no string.
    pub fn as_text(&self) -> (r: Option<&String>)
        ensures
            r is Some <==> self@ is Text,
            r matches Some(s) ==> self@ == DocTree::Text(s@),
    {
        match self {
            JsonDoc::Text(s) => Some(s),
            _ => None,
        }
    }

    /// The value that this document holds under `key`: that of its first
    /// member with the key where it is an object, else `None`.
    pub fn get(&self, key: &str) -> (r: Option<&JsonDoc>)
        ensures
            r is Some <==> field(self@, key@) is Some,
            r matches Some(value) ==> field(self@, key@) == Some(value@),
    {
        match self {
            JsonDoc::Object(members) => {
                proof {
                    lemma_object_view(*members);
                }
                let wanted: String = key.to_owned();
                let mut i: usize = 0;
                while i < members.len()
                    invariant
                        i <= members.len(),
                        wanted@ == key@,
                        self@ == DocTree::Object(members_view(members@)),
                        forall|j: int| 0 <= j < i ==> members@[j].0@ != key@,
                    decreases members.len() - i,
                {
                    if members[i].0 == wanted {
                        proof {
                            lemma_member_at(members_view(members@), key@, i as int);
                        }
                        return Some(&members[i].1);
                    }
                    i += 1;
                }
                proof {
                    lemma_member_none(members_view(members@), key@);
                }
                None
            },
            _ => None,
        }
    }
}

/// Adds a member to the end of a list of members.
pub fn push_member(members: &mut Vec<(String, JsonDoc)>, key: &str, value: JsonDoc)
    ensures
        members_view(final(members)@) == members_view(old(members)@).push((key@, value@)),
{
    members.push((key.to_owned(), value));
    assert(members_view(members@) =~= members_view(old(members)@).push((key@, value@)));
}

#[verifier::external_type_specification]
#[verifier::external_body]
pub struct ExJsonValue(serde_json::Value);

/// What the JSON parser makes of a byte string: the document, or the
/// parser's message where the bytes are not one JSON document.
pub uninterp spec fn json_parse(bytes: Seq<u8>) -> Result<DocTree, Seq<char>>;

/// The compact JSON text of a document, or the writer's message where the
/// writer fails; it fails where the text of a float is no number.
pub uninterp spec fn json_text(doc: DocTree) -> Result<Seq<u8>, Seq<char>>;

/// The compact JSON text of a document as a string, or the writer's message
/// where the writer fails.
pub uninterp spec fn json_string(doc: DocTree) -> Result<Seq<char>, Seq<char>>;

/// Moves a `serde_json::Value` into a `JsonDoc`, variant by variant. A number
/// goes by `Number::as_u64`, then `as_i64`, and is else held as the text that
/// its `Display` gives.
#[verifier::external_body]
fn doc_from_value(value: Value) -> JsonDoc {
    match value {
        Value::Null => JsonDoc::Null,
        Value::Bool(b) => JsonDoc::Bool(b),
        Value::Number(n) => match (n.as_u64(), n.as_i64()) {
            (Some(u), _) => JsonDoc::PosInt(u),
            (_, Some(i)) => JsonDoc::NegInt(i),
            (_, _) => JsonDoc::Float(n.to_string()),
        },
        Value::String(s) => JsonDoc::Text(s),
        Value::Array(a) => JsonDoc::Array(a.into_iter().map(doc_from_value).collect()),
        Value::Object(m) => JsonDoc::Object(
            m.into_iter().map(|(k, v)| (k, doc_from_value(v))).collect(),
        ),
    }
}

/// `serde_json::from_str`, read as a `serde_json::Number`: the number that a
/// float's text stands for, as a `Value`, or the message of the call's error
/// where the text is no number.
#[verifier::external_body]
fn float_value(text: &str) -> Result<Value, String> {
    serde_json::from_str(text).map(Value::Number).map_err(|e| e.to_string())
}

/// Moves a `JsonDoc` into a `serde_json::Value`, variant by variant, and
/// hands on the first failure of `float_value`.
#[verifier::external_body]
fn value_from_doc(doc: &JsonDoc) -> Result<Value, String> {
    Ok(match doc {
        JsonDoc::Null => Value::Null,
        JsonDoc::Bool(b) => Value::Bool(*b),
        JsonDoc::PosInt(u) => Value::from(*u),
        JsonDoc::NegInt(i) => Value::from(*i),
        JsonDoc::Float(t) => float_value(t)?,
        JsonDoc::Text(s) => Value::String(s.clone()),
        JsonDoc::Array(a) => Value::Array(a.iter().map(value_from_doc).collect::<Result<_, _>>()?),
        JsonDoc::Object(m) => Value::Object(
            m.iter().map(|(k, v)| Ok((k.clone(), value_from_doc(v)?))).collect::<Result<_, String>>()?,
        ),
    })
}

/// `serde_json::from_slice`, read as a `serde_json::Value`. The call hands
/// over what `json_parse` names: the document, or, where it fails, the
/// message that the `Display` of the `serde_json::Error` gives.
#[verifier::external_body]
fn parse_document(bytes: &[u8]) -> (r: Result<JsonDoc, String>)
    ensures
        json_parse(bytes@) == match r {
            Ok(doc) => Ok::<DocTree, Seq<char>>(doc@),
            Err(message) => Err(message@),
        },
{
    serde_json::from_slice::<Value>(bytes).map(doc_from_value).map_err(|e| e.to_string())
}

/// `serde_json::to_vec` on the document as a `serde_json::Value`. The call
/// hands over what `json_text` names: the bytes, or, where it or the
/// conversion of a float's text fails, the message that the `Display` of
/// the `serde_json::Error` gives.
#[verifier::external_body]
fn write_document(doc: &JsonDoc) -> (r: Result<Vec<u8>, String>)
    ensures
        json_text(doc@) == match r {
            Ok(bytes) => Ok::<Seq<u8>, Seq<char>>(bytes@),
            Err(message) => Err(message@),
        },
{
    serde_json::to_vec(&value_from_doc(doc)?).map_err(|e| e.to_string())
}

/// `serde_json::to_string` on the document as a `serde_json::Value`. The
/// call hands over what `json_string` names: the string, or, where it or the
/// conversion of a float's text fails, the message that the `Display` of
/// the `serde_json::Error` gives.
#[verifier::external_body]
fn write_document_string(doc: &JsonDoc) -> (r: Result<String, String>)
    ensures
        json_string(doc@) == match r {
            Ok(text) => Ok::<Seq<char>, Seq<char>>(text@),
            Err(message) => Err(message@),
        },
{
    serde_json::to_string(&value_from_doc(doc)?).map_err(|e| e.to_string())
}

} // verus!
