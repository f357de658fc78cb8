//! The error record.

use crate::client::message::{doc_error, encode, encoded, envelope_doc, value_of, Envelope};
use crate::json::{members_view, push_member, JsonDoc};
use crate::value::{elem_doc, elem_text, ElemTree, JsonElem};
use vstd::prelude::*;

verus! {

/// An error, carried as a value tree. On the wire it is the record
/// `{"error": ...}`.
#[derive(Debug, PartialEq)]
pub struct Error {
    pub error: JsonElem,
}

impl Error {
    pub open spec fn view(&self) -> Envelope {
        Envelope::Error { error: self.error@ }
    }

    /// An error that carries `error`.
    pub fn new(error: JsonElem) -> (r: Self)
        ensures
            r.error == error,
    {
        Self { error }
    }

    /// The text of this error: that of the value it carries.
    pub fn to_string(&self) -> (text: String)
        ensures
            text@ == elem_text(self.error@),
    {
        self.error.to_string()
    }
}

impl Error {
    /// This record as a JSON document.
    pub fn to_doc(&self) -> (doc: JsonDoc)
        ensures
            doc@ == envelope_doc(self@),
    {
        let mut members: Vec<(String, JsonDoc)> = Vec::new();
        push_member(&mut members, "error", self.error.to_doc());
        assert(members_view(members@) =~= seq![("error"@, elem_doc(self.error@))]);
        JsonDoc::object(members)
    }

    /// The error that a document is read as.
    pub fn from_doc(doc: &JsonDoc) -> (r: Option<Self>)
        ensures
            r is Some <==> doc_error(doc@) is Some,
            r matches Some(m) ==> doc_error(doc@) == Some(m@),
    {
        match value_of(doc, "error") {
            Some(error) => Some(Self { error }),
            None => None,
        }
    }

    /// The JSON text of this record.
    pub fn serialize(self) -> (r: Result<Vec<u8>, Error>)
        ensures
            r matches Ok(bytes) ==> encoded(self@) == Ok::<_, ElemTree>(bytes@),
            r matches Err(e) ==> encoded(self@) == Err::<Seq<u8>, _>(e.error@),
    {
        encode(&self.to_doc())
    }
}

impl Clone for Error {
    fn clone(&self) -> (copy: Self)
        ensures
            copy.error@ == self.error@,
    {
        Self { error: self.error.clone() }
    }
}

} // verus!
