//! The value tree: the payload type of every message.

use crate::json::{
    doc_bytes, doc_string, docs_view, json_parse, json_text, lemma_array_view, lemma_object_view,
    members_distinct, members_view, unique_keys, DocTree, JsonDoc,
};
use crate::table::distinct;
use vstd::prelude::*;

verus! {

broadcast use {vstd::std_specs::vec::group_vec_axioms, vstd::seq::group_seq_axioms};

/// A value tree. It is written as plain JSON, with no mark of the variant.
///
/// `Float` holds the JSON text of a number that is no 64-bit integer;
/// `HashMap` holds the members of an object in the order they are written.
/// A map holds each key once: a value in which a map has a key twice is not
/// written, and no document is read as one.
#[derive(Debug, PartialEq)]
pub enum JsonElem {
    Int32(i32),
    Uint32(u32),
    Int64(i64),
    Uint64(u64),
    Float(String),
    Bool(bool),
    String(String),
    Vec(Vec<JsonElem>),
    HashMap(Vec<(String, JsonElem)>),
}

/// The mathematical model of a value tree.
pub ghost enum ElemTree {
    Int32(int),
    Uint32(int),
    Int64(int),
    Uint64(int),
    Float(Seq<char>),
    Bool(bool),
    String(Seq<char>),
    Vec(Seq<ElemTree>),
    HashMap(Seq<(Seq<char>, ElemTree)>),
}

impl JsonElem {
    /// The model of this value.
    pub open spec fn view(&self) -> ElemTree
        decreases self,
    {
        match self {
            JsonElem::Int32(n) => ElemTree::Int32(*n as int),
            JsonElem::Uint32(n) => ElemTree::Uint32(*n as int),
            JsonElem::Int64(n) => ElemTree::Int64(*n as int),
            JsonElem::Uint64(n) => ElemTree::Uint64(*n as int),
            JsonElem::Float(text) => ElemTree::Float(text@),
            JsonElem::Bool(b) => ElemTree::Bool(*b),
            JsonElem::String(s) => ElemTree::String(s@),
            JsonElem::Vec(items) => ElemTree::Vec(
                Seq::new(
                    items@.len(),
                    |i: int|
                        if 0 <= i < items@.len() {
                            items@[i].view()
                        } else {
                            ElemTree::Bool(false)
                        },
                ),
            ),
            JsonElem::HashMap(members) => ElemTree::HashMap(
                Seq::new(
                    members@.len(),
                    |i: int|
                        if 0 <= i < members@.len() {
                            (members@[i].0@, members@[i].1.view())
                        } else {
                            (Seq::empty(), ElemTree::Bool(false))
                        },
                ),
            ),
        }
    }
}

impl Clone for JsonElem {
    fn clone(&self) -> (copy: Self)
        ensures
            copy@ == self@,
    {
        self.duplicate()
    }
}

impl JsonElem {
    /// A copy of this value.
    fn duplicate(&self) -> (copy: Self)
        ensures
            copy@ == self@,
        decreases self,
    {
        match self {
            JsonElem::Int32(n) => JsonElem::Int32(*n),
            JsonElem::Uint32(n) => JsonElem::Uint32(*n),
            JsonElem::Int64(n) => JsonElem::Int64(*n),
            JsonElem::Uint64(n) => JsonElem::Uint64(*n),
            JsonElem::Float(text) => JsonElem::Float(text.clone()),
            JsonElem::Bool(b) => JsonElem::Bool(*b),
            JsonElem::String(s) => JsonElem::String(s.clone()),
            JsonElem::Vec(items) => {
                let mut copies: Vec<JsonElem> = Vec::new();
                let mut i: usize = 0;
                while i < items.len()
                    invariant
                        i <= items.len(),
                        copies.len() == i,
                        *self == JsonElem::Vec(*items),
                        forall|j: int| 0 <= j < i ==> copies@[j]@ == items@[j]@,
                    decreases items.len() - i,
                {
                    assert(decreases_to!(self => self->Vec_0));
                    copies.push(items[i].duplicate());
                    i += 1;
                }
                proof {
                    lemma_vec_view(*items);
                    lemma_vec_view(copies);
                    assert(elems_view(copies@) =~= elems_view(items@));
                }
                JsonElem::Vec(copies)
            },
            JsonElem::HashMap(members) => {
                let mut copies: Vec<(String, JsonElem)> = Vec::new();
                let mut i: usize = 0;
                while i < members.len()
                    invariant
                        i <= members.len(),
                        copies.len() == i,
                        *self == JsonElem::HashMap(*members),
                        forall|j: int|
                            0 <= j < i ==> copies@[j].0@ == members@[j].0@ && copies@[j].1@
                                == members@[j].1@,
                    decreases members.len() - i,
                {
                    assert(decreases_to!(self => self->HashMap_0));
                    copies.push((members[i].0.clone(), members[i].1.duplicate()));
                    i += 1;
                }
                proof {
                    lemma_hashmap_view(*members);
                    lemma_hashmap_view(copies);
                    assert(elem_members_view(copies@) =~= elem_members_view(members@));
                }
                JsonElem::HashMap(copies)
            },
        }
    }
}

/// The value that a byte string holds, if it holds one.
pub open spec fn elem_of(bytes: Seq<u8>) -> Option<ElemTree> {
    match json_parse(bytes) {
        Ok(doc) => doc_elem(doc),
        Err(_) => None,
    }
}

impl JsonElem {
    /// The value that a byte string holds: `None` where the bytes are no
    /// JSON, and where the JSON is no value tree.
    pub fn parse(bytes: &[u8]) -> (r: Option<JsonElem>)
        ensures
            r is Some <==> elem_of(bytes@) is Some,
            r matches Some(value) ==> elem_of(bytes@) == Some(value@),
    {
        match JsonDoc::parse(bytes) {
            Ok(doc) => JsonElem::from_doc(&doc),
            Err(_) => None,
        }
    }

    /// The compact JSON text of this value. A value in which a map has a key
    /// twice is not written: the message is `KEY_TWICE`. Any other failure
    /// comes with the writer's message.
    pub fn serialize(&self) -> (r: Result<Vec<u8>, String>)
        ensures
            doc_bytes(elem_doc(self@)) == match r {
                Ok(bytes) => Ok::<Seq<u8>, Seq<char>>(bytes@),
                Err(message) => Err(message@),
            },
    {
        self.to_doc().to_vec()
    }

    /// The text of this value: a string as it is, any other value as its
    /// compact JSON text, and the empty string where the value is not
    /// written.
    pub fn to_string(&self) -> (text: String)
        ensures
            text@ == elem_text(self@),
    {
        match self {
            JsonElem::String(s) => s.clone(),
            _ => match self.to_doc().to_string() {
                Ok(text) => text,
                Err(_) => String::new(),
            },
        }
    }

    /// This value as a JSON document.
    pub fn to_doc(&self) -> (doc: JsonDoc)
        ensures
            doc@ == elem_doc(self@),
        decreases self,
    {
        match self {
            JsonElem::Int32(n) => if *n >= 0 {
                JsonDoc::PosInt(*n as u64)
            } else {
                JsonDoc::NegInt(*n as i64)
            },
            JsonElem::Uint32(n) => JsonDoc::PosInt(*n as u64),
            JsonElem::Int64(n) => if *n >= 0 {
                JsonDoc::PosInt(*n as u64)
            } else {
                JsonDoc::NegInt(*n)
            },
            JsonElem::Uint64(n) => JsonDoc::PosInt(*n),
            JsonElem::Float(text) => JsonDoc::Float(text.clone()),
            JsonElem::Bool(b) => JsonDoc::Bool(*b),
            JsonElem::String(s) => JsonDoc::Text(s.clone()),
            JsonElem::Vec(items) => {
                let mut docs: Vec<JsonDoc> = Vec::new();
                let mut i: usize = 0;
                while i < items.len()
                    invariant
                        i <= items.len(),
                        docs.len() == i,
                        *self == JsonElem::Vec(*items),
                        forall|j: int| 0 <= j < i ==> docs@[j]@ == elem_doc(items@[j]@),
                    decreases items.len() - i,
                {
                    assert(decreases_to!(self => self->Vec_0));
                    docs.push(items[i].to_doc());
                    i += 1;
                }
                proof {
                    lemma_vec_view(*items);
                    lemma_array_view(docs);
                    assert(docs_view(docs@) =~= elem_doc(self@)->Array_0);
                }
                JsonDoc::Array(docs)
            },
            JsonElem::HashMap(members) => {
                let mut docs: Vec<(String, JsonDoc)> = Vec::new();
                let mut i: usize = 0;
                while i < members.len()
                    invariant
                        i <= members.len(),
                        docs.len() == i,
                        *self == JsonElem::HashMap(*members),
                        forall|j: int|
                            0 <= j < i ==> docs@[j].0@ == members@[j].0@ && docs@[j].1@
                                == elem_doc(members@[j].1@),
                    decreases members.len() - i,
                {
                    assert(decreases_to!(self => self->HashMap_0));
                    docs.push((members[i].0.clone(), members[i].1.to_doc()));
                    i += 1;
                }
                proof {
                    lemma_hashmap_view(*members);
                    lemma_object_view(docs);
                    assert(members_view(docs@) =~= elem_doc(self@)->Object_0);
                }
                JsonDoc::Object(docs)
            },
        }
    }

    /// The value that a JSON document is read as. An integer goes to the
    /// first of `Int32`, `Uint32`, `Int64`, `Uint64` that holds it; a
    /// document with a `null` in it, or with an object that has a key
    /// twice, is no value.
    pub fn from_doc(doc: &JsonDoc) -> (r: Option<JsonElem>)
        ensures
            r is Some <==> doc_elem(doc@) is Some,
            r matches Some(elem) ==> doc_elem(doc@) == Some(elem@),
        decreases doc,
    {
        match doc {
            JsonDoc::Null => None,
            JsonDoc::Bool(b) => Some(JsonElem::Bool(*b)),
            JsonDoc::PosInt(n) => if *n <= 0x7fff_ffff {
                Some(JsonElem::Int32(*n as i32))
            } else if *n <= 0xffff_ffff {
                Some(JsonElem::Uint32(*n as u32))
            } else if *n <= 0x7fff_ffff_ffff_ffff {
                Some(JsonElem::Int64(*n as i64))
            } else {
                Some(JsonElem::Uint64(*n))
            },
            JsonDoc::NegInt(n) => if -0x8000_0000 <= *n && *n <= 0x7fff_ffff {
                Some(JsonElem::Int32(*n as i32))
            } else if 0 <= *n && *n <= 0xffff_ffff {
                Some(JsonElem::Uint32(*n as u32))
            } else {
                Some(JsonElem::Int64(*n))
            },
            JsonDoc::Float(text) => Some(JsonElem::Float(text.clone())),
            JsonDoc::Text(s) => Some(JsonElem::String(s.clone())),
            JsonDoc::Array(docs) => {
                proof {
                    lemma_array_view(*docs);
                }
                let mut items: Vec<JsonElem> = Vec::new();
                let mut i: usize = 0;
                while i < docs.len()
                    invariant
                        i <= docs.len(),
                        items.len() == i,
                        *doc == JsonDoc::Array(*docs),
                        doc@ == DocTree::Array(docs_view(docs@)),
                        forall|j: int|
                            0 <= j < i ==> doc_elem(#[trigger] docs_view(docs@)[j]) == Some(
                                items@[j]@,
                            ),
                    decreases docs.len() - i,
                {
                    assert(decreases_to!(doc => doc->Array_0));
                    match JsonElem::from_doc(&docs[i]) {
                        Some(item) => {
                            items.push(item);
                        },
                        None => {
                            assert(doc_elem(docs_view(docs@)[i as int]) is None);
                            return None;
                        },
                    }
                    i += 1;
                }
                proof {
                    lemma_vec_view(items);
                    assert(doc_elem(doc@) is Some);
                    assert(elems_view(items@) =~= doc_elem(doc@)->Some_0->Vec_0);
                }
                Some(JsonElem::Vec(items))
            },
            JsonDoc::Object(docs) => {
                proof {
                    lemma_object_view(*docs);
                }
                if !members_distinct(docs) {
                    return None;
                }
                let mut members: Vec<(String, JsonElem)> = Vec::new();
                let mut i: usize = 0;
                while i < docs.len()
                    invariant
                        i <= docs.len(),
                        members.len() == i,
                        *doc == JsonDoc::Object(*docs),
                        doc@ == DocTree::Object(members_view(docs@)),
                        distinct(members_view(docs@)),
                        forall|j: int|
                            0 <= j < i ==> doc_elem((#[trigger] members_view(docs@)[j]).1) == Some(
                                members@[j].1@,
                            ) && members@[j].0@ == docs@[j].0@,
                    decreases docs.len() - i,
                {
                    assert(decreases_to!(doc => doc->Object_0));
                    match JsonElem::from_doc(&docs[i].1) {
                        Some(item) => {
                            members.push((docs[i].0.clone(), item));
                        },
                        None => {
                            assert(doc_elem(members_view(docs@)[i as int].1) is None);
                            return None;
                        },
                    }
                    i += 1;
                }
                proof {
                    lemma_hashmap_view(members);
                    assert(doc_elem(doc@) is Some);
                    assert(elem_members_view(members@) =~= doc_elem(doc@)->Some_0->HashMap_0);
                }
                Some(JsonElem::HashMap(members))
            },
        }
    }
}

/// The text of a value: a string as it is, any other value as its compact
/// JSON text, and the empty string where the value is not written.
pub open spec fn elem_text(t: ElemTree) -> Seq<char> {
    match t {
        ElemTree::String(s) => s,
        _ => match doc_string(elem_doc(t)) {
            Ok(s) => s,
            Err(_) => Seq::empty(),
        },
    }
}

/// The models of a sequence of values, item by item.
pub open spec fn elems_view(items: Seq<JsonElem>) -> Seq<ElemTree> {
    Seq::new(items.len(), |i: int| items[i]@)
}

/// The models of a sequence of members, member by member.
pub open spec fn elem_members_view(members: Seq<(String, JsonElem)>) -> Seq<(Seq<char>, ElemTree)> {
    Seq::new(members.len(), |i: int| (members[i].0@, members[i].1@))
}

/// The view of a `Vec` value is the view of its items.
pub proof fn lemma_vec_view(items: Vec<JsonElem>)
    ensures
        JsonElem::Vec(items)@ == ElemTree::Vec(elems_view(items@)),
{
    assert(JsonElem::Vec(items)@->Vec_0 =~= elems_view(items@));
}

/// The view of a `HashMap` value is the view of its members.
pub proof fn lemma_hashmap_view(members: Vec<(String, JsonElem)>)
    ensures
        JsonElem::HashMap(members)@ == ElemTree::HashMap(elem_members_view(members@)),
{
    assert(JsonElem::HashMap(members)@->HashMap_0 =~= elem_members_view(members@));
}

/// The JSON document that stands for a value tree.
pub open spec fn elem_doc(t: ElemTree) -> DocTree
    decreases t,
{
    match t {
        ElemTree::Int32(n) => DocTree::Int(n),
        ElemTree::Uint32(n) => DocTree::Int(n),
        ElemTree::Int64(n) => DocTree::Int(n),
        ElemTree::Uint64(n) => DocTree::Int(n),
        ElemTree::Float(text) => DocTree::Float(text),
        ElemTree::Bool(b) => DocTree::Bool(b),
        ElemTree::String(s) => DocTree::Text(s),
        ElemTree::Vec(items) => DocTree::Array(
            Seq::new(
                items.len(),
                |i: int|
                    if 0 <= i < items.len() {
                        elem_doc(items[i])
                    } else {
                        DocTree::Null
                    },
            ),
        ),
        ElemTree::HashMap(members) => DocTree::Object(
            Seq::new(
                members.len(),
                |i: int|
                    if 0 <= i < members.len() {
                        (members[i].0, elem_doc(members[i].1))
                    } else {
                        (Seq::empty(), DocTree::Null)
                    },
            ),
        ),
    }
}

/// The variant that an integer is read as: the first, in the order `Int32`,
/// `Uint32`, `Int64`, `Uint64`, that holds it.
pub open spec fn int_elem(n: int) -> Option<ElemTree> {
    if i32::MIN <= n <= i32::MAX {
        Some(ElemTree::Int32(n))
    } else if 0 <= n <= u32::MAX {
        Some(ElemTree::Uint32(n))
    } else if i64::MIN <= n <= i64::MAX {
        Some(ElemTree::Int64(n))
    } else if 0 <= n <= u64::MAX {
        Some(ElemTree::Uint64(n))
    } else {
        None
    }
}

/// The value tree that a JSON document is read as, or `None` where it holds
/// a `null`, an integer that no variant holds, or an object with a key
/// twice.
pub open spec fn doc_elem(d: DocTree) -> Option<ElemTree>
    decreases d,
{
    match d {
        DocTree::Null => None,
        DocTree::Bool(b) => Some(ElemTree::Bool(b)),
        DocTree::Int(n) => int_elem(n),
        DocTree::Float(text) => Some(ElemTree::Float(text)),
        DocTree::Text(s) => Some(ElemTree::String(s)),
        DocTree::Array(items) => if forall|i: int|
            0 <= i < items.len() ==> doc_elem(#[trigger] items[i]) is Some {
            Some(
                ElemTree::Vec(
                    Seq::new(
                        items.len(),
                        |i: int|
                            if 0 <= i < items.len() {
                                doc_elem(items[i])->Some_0
                            } else {
                                ElemTree::Bool(false)
                            },
                    ),
                ),
            )
        } else {
            None
        },
        DocTree::Object(members) => if distinct(members) && forall|i: int|
            0 <= i < members.len() ==> doc_elem((#[trigger] members[i]).1) is Some {
            Some(
                ElemTree::HashMap(
                    Seq::new(
                        members.len(),
                        |i: int|
                            if 0 <= i < members.len() {
                                (members[i].0, doc_elem(members[i].1)->Some_0)
                            } else {
                                (Seq::empty(), ElemTree::Bool(false))
                            },
                    ),
                ),
            )
        } else {
            None
        },
    }
}

/// Whether the tree reads back as itself: every integer of it sits in the
/// first variant that holds it, and no map of it has a key twice.
pub open spec fn canonical(t: ElemTree) -> bool
    decreases t,
{
    match t {
        ElemTree::Int32(n) => i32::MIN <= n <= i32::MAX,
        ElemTree::Uint32(n) => i32::MAX < n <= u32::MAX,
        ElemTree::Int64(n) => i64::MIN <= n <= i64::MAX && !(i32::MIN <= n <= u32::MAX),
        ElemTree::Uint64(n) => i64::MAX < n <= u64::MAX,
        ElemTree::Float(_) => true,
        ElemTree::Bool(_) => true,
        ElemTree::String(_) => true,
        ElemTree::Vec(items) => forall|i: int|
            0 <= i < items.len() ==> canonical(#[trigger] items[i]),
        ElemTree::HashMap(members) => distinct(members) && forall|i: int|
            0 <= i < members.len() ==> canonical(#[trigger] members[i].1),
    }
}

/// Writing a canonical value tree as a document and reading the document
/// back gives the value tree again.
pub proof fn lemma_elem_round_trip(t: ElemTree)
    requires
        canonical(t),
    ensures
        doc_elem(elem_doc(t)) == Some(t),
    decreases t,
{
    match t {
        ElemTree::Vec(items) => {
            let docs = elem_doc(t)->Array_0;
            assert(docs.len() == items.len());
            assert forall|i: int| 0 <= i < docs.len() implies doc_elem(#[trigger] docs[i])
                == Some(items[i]) by {
                assert(canonical(items[i]));
                assert(docs[i] == elem_doc(items[i]));
                lemma_elem_round_trip(items[i]);
            }
            assert(doc_elem(elem_doc(t))->Some_0->Vec_0 =~= items);
        },
        ElemTree::HashMap(members) => {
            let docs = elem_doc(t)->Object_0;
            assert forall|i: int| 0 <= i < docs.len() implies doc_elem((#[trigger] docs[i]).1)
                == Some(members[i].1) by {
                assert(canonical(members[i].1));
                lemma_elem_round_trip(members[i].1);
            }
            assert(doc_elem(elem_doc(t))->Some_0->HashMap_0 =~= members);
        },
        _ => {},
    }
}

/// A canonical value tree stands for a document in which no object has a
/// key twice: it is written.
pub proof fn lemma_canonical_unique_keys(t: ElemTree)
    requires
        canonical(t),
    ensures
        unique_keys(elem_doc(t)),
        doc_bytes(elem_doc(t)) == json_text(elem_doc(t)),
    decreases t,
{
    match t {
        ElemTree::Vec(items) => {
            let docs = elem_doc(t)->Array_0;
            assert forall|i: int| 0 <= i < docs.len() implies unique_keys(#[trigger] docs[i]) by {
                assert(canonical(items[i]));
                lemma_canonical_unique_keys(items[i]);
            }
        },
        ElemTree::HashMap(members) => {
            let docs = elem_doc(t)->Object_0;
            assert forall|i: int| 0 <= i < docs.len() implies unique_keys(
                (#[trigger] docs[i]).1,
            ) by {
                assert(canonical(members[i].1));
                lemma_canonical_unique_keys(members[i].1);
            }
            assert forall|i: int, j: int| 0 <= i < j < docs.len() implies (#[trigger] docs[i]).0
                != (#[trigger] docs[j]).0 by {
                assert(members[i].0 != members[j].0);
            }
        },
        _ => {},
    }
}

/// A value tree that a document is read as is canonical, and is written as
/// that same document.
pub proof fn lemma_doc_elem_canonical(d: DocTree)
    requires
        doc_elem(d) is Some,
    ensures
        canonical(doc_elem(d)->Some_0),
        elem_doc(doc_elem(d)->Some_0) == d,
    decreases d,
{
    match d {
        DocTree::Array(items) => {
            let elems = doc_elem(d)->Some_0->Vec_0;
            assert forall|i: int| 0 <= i < items.len() implies canonical(#[trigger] elems[i])
                && elem_doc(elems[i]) == items[i] by {
                assert(doc_elem(items[i]) is Some);
                lemma_doc_elem_canonical(items[i]);
            }
            assert(elem_doc(doc_elem(d)->Some_0)->Array_0 =~= items);
        },
        DocTree::Object(members) => {
            let elems = doc_elem(d)->Some_0->HashMap_0;
            assert forall|i: int| 0 <= i < members.len() implies canonical(#[trigger] elems[i].1)
                && elem_doc(elems[i].1) == members[i].1 by {
                assert(doc_elem(members[i].1) is Some);
                lemma_doc_elem_canonical(members[i].1);
            }
            assert(elem_doc(doc_elem(d)->Some_0)->Object_0 =~= members);
        },
        _ => {},
    }
}

} // verus!
