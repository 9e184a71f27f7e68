//! Where bytes become documents: decompression and the document format of the game's messages.

use vstd::prelude::*;

use crate::record::{Record, RecordModel, Value, ValueModel};

verus! {

/// Trusted: `bson::Document` is a type of its own, an ordered map from names to values. Nothing of
/// its inside is visible here.
#[verifier::external_type_specification]
#[verifier::external_body]
pub struct ExDocument(bson::Document);

/// The entries of a document in the order in which the document keeps them.
pub uninterp spec fn document_entries(doc: bson::Document) -> RecordModel;

/// What reading a document from the start of `bytes` gives: its entries, or the text of the error.
pub uninterp spec fn document_read(bytes: Seq<u8>) -> Result<RecordModel, Seq<char>>;

/// What decompressing `bytes` gives: the plain bytes, or the text of the error.
pub uninterp spec fn decompressed(bytes: Seq<u8>) -> Result<Seq<u8>, Seq<char>>;

/// A value of a document whose nested documents have not been taken apart.
pub enum Node {
    Double(u64),
    Text(String),
    Nested(bson::Document),
    Boolean(bool),
    Int32(i32),
    Int64(i64),
    Binary(Vec<u8>),
    ObjectId(Vec<u8>),
    Other,
}

/// What a `Node` stands for.
pub open spec fn node_model(node: Node) -> ValueModel {
    match node {
        Node::Double(bits) => ValueModel::Double(bits),
        Node::Text(s) => ValueModel::Text(s@),
        Node::Nested(d) => ValueModel::Nested(document_entries(d)),
        Node::Boolean(b) => ValueModel::Boolean(b),
        Node::Int32(n) => ValueModel::Int32(n),
        Node::Int64(n) => ValueModel::Int64(n),
        Node::Binary(b) => ValueModel::Binary(b@),
        Node::ObjectId(b) => ValueModel::ObjectId(b@),
        Node::Other => ValueModel::Other,
    }
}

/// Trusted: `zstd::decode_all` on a byte slice. The result depends on the bytes alone; an error
/// is given by its text. Which bytes decompress to what is not stated, nor is what happens where
/// the memory does not suffice for the result.
#[verifier::external_body]
pub(crate) fn decompress(bytes: &[u8]) -> (r: Result<Vec<u8>, String>)
    ensures
        match r {
            Ok(plain) => decompressed(bytes@) == Ok::<Seq<u8>, Seq<char>>(plain@),
            Err(text) => decompressed(bytes@) == Err::<Seq<u8>, Seq<char>>(text@),
        },
{
    zstd::decode_all(std::io::Cursor::new(bytes)).map_err(|e| e.to_string())
}

/// Trusted: `bson::Document::from_reader` on a byte slice. The result depends on the bytes alone;
/// an error is given by its text. Which bytes hold which document is not stated, nor is what
/// happens where the memory or the stack does not suffice for the result.
#[verifier::external_body]
fn document_from_bytes(bytes: &[u8]) -> (r: Result<bson::Document, String>)
    ensures
        match r {
            Ok(doc) => document_read(bytes@) == Ok::<RecordModel, Seq<char>>(document_entries(doc)),
            Err(text) => document_read(bytes@) == Err::<RecordModel, Seq<char>>(text@),
        },
{
    bson::Document::from_reader(std::io::Cursor::new(bytes)).map_err(|e| e.to_string())
}

/// Trusted: iterating over a `bson::Document` hands out its entries in order, each once. A value
/// of a kind that the overlay does not read becomes `Node::Other`.
#[verifier::external_body]
fn into_entries(doc: bson::Document) -> (r: Vec<(String, Node)>)
    ensures
        r@.len() == document_entries(doc).len(),
        forall|i: int|
            0 <= i < r@.len() ==> {
                &&& (#[trigger] r@[i]).0@ == document_entries(doc)[i].0
                &&& node_model(r@[i].1) == document_entries(doc)[i].1
            },
{
    let node = |value| match value {
        bson::Bson::Double(v) => Node::Double(v.to_bits()),
        bson::Bson::String(v) => Node::Text(v),
        bson::Bson::Document(v) => Node::Nested(v),
        bson::Bson::Boolean(v) => Node::Boolean(v),
        bson::Bson::Int32(v) => Node::Int32(v),
        bson::Bson::Int64(v) => Node::Int64(v),
        bson::Bson::Binary(v) => Node::Binary(v.bytes),
        bson::Bson::ObjectId(v) => Node::ObjectId(v.bytes().to_vec()),
        _ => Node::Other,
    };
    doc.into_iter().map(|(key, value)| (key, node(value))).collect()
}

/// Takes a document apart, with all that is nested in it.
fn record_from_document(doc: bson::Document) -> (r: Record)
    ensures
        r@ == document_entries(doc),
    decreases document_entries(doc),
{
    let ghost model = document_entries(doc);
    let nodes = into_entries(doc);
    let ghost all = nodes@;
    let mut fields: Vec<(String, Value)> = Vec::new();
    for pair in it: nodes
        invariant
            model == document_entries(doc),
            it.seq() == all,
            all.len() == model.len(),
            forall|i: int|
                0 <= i < all.len() ==> {
                    &&& (#[trigger] all[i]).0@ == model[i].0
                    &&& node_model(all[i].1) == model[i].1
                },
            fields@.len() == it.index(),
            forall|i: int|
                0 <= i < fields@.len() ==> {
                    &&& (#[trigger] fields@[i]).0@ == model[i].0
                    &&& fields@[i].1@ == model[i].1
                },
    {
        assert(pair == all[it.index() as int]);
        let (key, node) = pair;
        let value = match node {
            Node::Double(v) => Value::Double(v),
            Node::Text(v) => Value::Text(v),
            Node::Nested(v) => {
                proof {
                    let inner = model[it.index() as int].1;
                    assert(decreases_to!(model => inner));
                    assert(decreases_to!(inner => inner->Nested_0));
                    assert(inner->Nested_0 == document_entries(v));
                }
                Value::Nested(record_from_document(v))
            },
            Node::Boolean(v) => Value::Boolean(v),
            Node::Int32(v) => Value::Int32(v),
            Node::Int64(v) => Value::Int64(v),
            Node::Binary(v) => Value::Binary(v),
            Node::ObjectId(v) => Value::ObjectId(v),
            Node::Other => Value::Other,
        };
        fields.push((key, value));
    }
    let record = Record { fields };
    assert(record@ =~= model);
    record
}

/// Reads a document from the start of `bytes`.
pub fn read_record(bytes: &[u8]) -> (r: Result<Record, String>)
    ensures
        match r {
            Ok(record) => document_read(bytes@) == Ok::<RecordModel, Seq<char>>(record@),
            Err(text) => document_read(bytes@) == Err::<RecordModel, Seq<char>>(text@),
        },
{
    match document_from_bytes(bytes) {
        Ok(doc) => Ok(record_from_document(doc)),
        Err(text) => Err(text),
    }
}

} // verus!
