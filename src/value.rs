//! The dynamically typed document carried by every request and response.

use vstd::prelude::*;
use vstd::string::*;

verus! {

/// A request or response document: a string-keyed map whose values are
/// strings, booleans, numbers or nested maps.
///
/// `Other` stands for every kind of value that the protocol never reads
/// (negative or fractional numbers, binary data, arrays, extensions, text that
/// is not UTF-8).
#[derive(Debug, PartialEq)]
pub enum Document {
    Nil,
    Boolean(bool),
    Integer(u64),
    String(String),
    Object(Vec<(Document, Document)>),
    Other,
}

impl Document {
    /// The value is the text `s`.
    pub open spec fn is_text(self, s: Seq<char>) -> bool {
        self matches Document::String(t) && t@ == s
    }
}

/// The value under the first entry whose key is the text `key`.
pub open spec fn lookup(entries: Seq<(Document, Document)>, key: Seq<char>) -> Option<Document>
    decreases entries.len(),
{
    if entries.len() == 0 {
        None
    } else if entries[0].0.is_text(key) {
        Some(entries[0].1)
    } else {
        lookup(entries.drop_first(), key)
    }
}

/// The value under `key` when `v` is a map.
pub open spec fn field(v: Document, key: Seq<char>) -> Option<Document> {
    match v {
        Document::Object(m) => lookup(m@, key),
        _ => None,
    }
}

/// The text under `key` when `v` is a map and that value is a string.
pub open spec fn text_field(v: Document, key: Seq<char>) -> Option<Seq<char>> {
    match field(v, key) {
        Some(Document::String(s)) => Some(s@),
        _ => None,
    }
}

/// The view of an optional string.
pub open spec fn opt_view(o: Option<String>) -> Option<Seq<char>> {
    match o {
        Some(s) => Some(s@),
        None => None,
    }
}

/// Position of the first entry whose key is the text `key`.
pub fn find_value(values: &Vec<(Document, Document)>, key: &str) -> (r: Option<usize>)
    ensures
        match r {
            Some(i) => i < values@.len() && lookup(values@, key@) == Some(values@[i as int].1),
            None => lookup(values@, key@) is None,
        },
{
    let k = String::from_str(key);
    let mut i: usize = 0;
    assert(values@.skip(0) =~= values@);
    while i < values.len()
        invariant
            k@ == key@,
            i <= values@.len(),
            lookup(values@, key@) == lookup(values@.skip(i as int), key@),
        decreases values@.len() - i,
    {
        let ghost rest = values@.skip(i as int);
        assert(rest.drop_first() =~= values@.skip(i + 1));
        if let Document::String(s) = &values[i].0 {
            if *s == k {
                return Some(i);
            }
        }
        i = i + 1;
    }
    None
}

/// The value under `key` when `v` is a map.
pub fn get_field<'a>(v: &'a Document, key: &str) -> (r: Option<&'a Document>)
    ensures
        match r {
            Some(x) => field(*v, key@) == Some(*x),
            None => field(*v, key@) is None,
        },
{
    match v {
        Document::Object(m) => match find_value(m, key) {
            Some(i) => Some(&m[i].1),
            None => None,
        },
        _ => None,
    }
}

/// The text under `key` when `v` is a map and that value is a string.
pub fn get_text(v: &Document, key: &str) -> (r: Option<String>)
    ensures
        opt_view(r) == text_field(*v, key@),
{
    match get_field(v, key) {
        Some(Document::String(s)) => Some(s.clone()),
        _ => None,
    }
}

} // verus!
