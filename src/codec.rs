//! MessagePack encoding of documents, through the rmpv crate.

use vstd::prelude::*;
use crate::value::Document;

verus! {

/// rmpv's own document type, carried opaquely between the conversions below
/// and rmpv's reader and writer.
#[verifier::external_type_specification]
#[verifier::external_body]
pub struct ExOutsideValue(rmpv::Value);

/// The MessagePack bytes that rmpv writes for a document.
pub uninterp spec fn msgpack_encoding(v: Document) -> Seq<u8>;

/// The document that rmpv reads from the front of some bytes, if any.
pub uninterp spec fn msgpack_decoding(b: Seq<u8>) -> Option<Document>;

/// Builds rmpv's value for a document, kind for kind; `Other` becomes nil.
#[verifier::external_body]
fn to_outside(v: &Document) -> rmpv::Value {
    match v {
        Document::Nil | Document::Other => rmpv::Value::Nil,
        Document::Boolean(b) => rmpv::Value::Boolean(*b),
        Document::Integer(n) => rmpv::Value::from(*n),
        Document::String(s) => rmpv::Value::from(s.as_str()),
        Document::Object(m) => {
            rmpv::Value::Map(m.iter().map(|(k, x)| (to_outside(k), to_outside(x))).collect())
        },
    }
}

/// Reads rmpv's value as a document, kind for kind; what a document cannot
/// hold becomes `Other`.
#[verifier::external_body]
fn from_outside(v: rmpv::Value) -> Document {
    match v {
        rmpv::Value::Nil => Document::Nil,
        rmpv::Value::Boolean(b) => Document::Boolean(b),
        rmpv::Value::Integer(n) => n.as_u64().map_or(Document::Other, Document::Integer),
        rmpv::Value::String(s) => s.into_str().map_or(Document::Other, Document::String),
        rmpv::Value::Map(m) => {
            Document::Object(m.into_iter().map(|(k, x)| (from_outside(k), from_outside(x))).collect())
        },
        _ => Document::Other,
    }
}

/// Relies on rmpv::encode::write_value: the MessagePack form of the document,
/// written into a vector, which never fails.
#[verifier::external_body]
fn write_value(v: &Document) -> (r: Vec<u8>)
    ensures
        r@ == msgpack_encoding(*v),
{
    let mut buf: Vec<u8> = Vec::new();
    let _ = rmpv::encode::write_value(&mut buf, &to_outside(v));
    buf
}

/// Relies on rmpv::decode::read_value: the document at the front of the
/// bytes, or none when they are not MessagePack.
#[verifier::external_body]
fn read_value(b: &[u8]) -> (r: Option<Document>)
    ensures
        r == msgpack_decoding(b@),
{
    let mut rd: &[u8] = b;
    rmpv::decode::read_value(&mut rd).ok().map(from_outside)
}

/// The MessagePack form of a document.
pub fn encode_value(v: &Document) -> (r: Vec<u8>)
    ensures
        r@ == msgpack_encoding(*v),
{
    write_value(v)
}

/// The document that `b` starts with, or `None` when `b` is malformed.
pub fn decode_value(b: &[u8]) -> (r: Option<Document>)
    ensures
        r == msgpack_decoding(b@),
{
    read_value(b)
}

} // verus!
