//! The registry check as a chain of continuations: each step reads the
//! response to the previous request and says what to ask the host for next,
//! or ends the chain with a result.

use vstd::prelude::*;
use vstd::string::*;
use vstd::utf8::*;
use crate::codec::{decode_value, encode_value, msgpack_decoding, msgpack_encoding};
use crate::text::{chars_of, has_run, occurs_in, utf8_text};
use crate::url::{compute_manifest_url, compute_token_url, manifest_url, token_url};
use crate::value::{field, get_field, get_text, opt_view, text_field, Document};

verus! {

/// A step of the check that the host can resume with a response.
#[derive(Clone, Copy, Debug, PartialEq, Eq, Structural)]
pub enum Continuation {
    Status,
    Authentication,
    Token,
}

impl Continuation {
    /// The number that names this step across the boundary; zero names none.
    pub open spec fn spec_id(self) -> u32 {
        match self {
            Continuation::Status => 1,
            Continuation::Authentication => 2,
            Continuation::Token => 3,
        }
    }

    /// The number that names this step across the boundary.
    pub fn id(self) -> (r: u32)
        ensures
            r == self.spec_id(),
    {
        match self {
            Continuation::Status => 1,
            Continuation::Authentication => 2,
            Continuation::Token => 3,
        }
    }

    /// The step that `id` names, if any.
    pub fn from_id(id: u32) -> (r: Option<Continuation>)
        ensures
            match r {
                Some(c) => c.spec_id() == id,
                None => forall|c: Continuation| c.spec_id() != id,
            },
    {
        if id == 1 {
            Some(Continuation::Status)
        } else if id == 2 {
            Some(Continuation::Authentication)
        } else if id == 3 {
            Some(Continuation::Token)
        } else {
            None
        }
    }
}

/// The envelope that crosses the boundary: an encoded document, the step to
/// resume with the response to it (`None` for a final result), bytes carried
/// unchanged to that step, and a correlation tag.
pub struct Future {
    pub data: Vec<u8>,
    pub callback: Option<Continuation>,
    pub context: Vec<u8>,
    pub index: u32,
}

/// What an encoded document says: a request for `url`, with a bearer
/// authorization header or none, or the final result of the check.
pub enum Message {
    Request { url: Seq<char>, authorization: Option<Seq<char>> },
    Outcome { latest_image: Option<Seq<char>> },
}

/// `v` is the document for `m`: `{url, headers: {authorization}}` for a
/// request, `{complete, latestImage}` for a result, the second entry only when
/// there is something to put in it.
pub open spec fn describes(v: Document, m: Message) -> bool {
    match v {
        Document::Object(es) => match m {
            Message::Request { url, authorization } => {
                &&& es@.len() == (if authorization is Some { 2int } else { 1int })
                &&& es@[0].0.is_text("url"@)
                &&& es@[0].1.is_text(url)
                &&& match authorization {
                    Some(a) => {
                        &&& es@[1].0.is_text("headers"@)
                        &&& match es@[1].1 {
                            Document::Object(h) => {
                                &&& h@.len() == 1
                                &&& h@[0].0.is_text("authorization"@)
                                &&& h@[0].1.is_text(a)
                            },
                            _ => false,
                        }
                    },
                    None => true,
                }
            },
            Message::Outcome { latest_image } => {
                &&& es@.len() == (if latest_image is Some { 2int } else { 1int })
                &&& es@[0].0.is_text("complete"@)
                &&& es@[0].1 == Document::Boolean(latest_image is Some)
                &&& match latest_image {
                    Some(d) => es@[1].0.is_text("latestImage"@) && es@[1].1.is_text(d),
                    None => true,
                }
            },
        },
        _ => false,
    }
}

/// `b` is the encoding of a document for `m`.
pub open spec fn carries(b: Seq<u8>, m: Message) -> bool {
    exists|v: Document| #[trigger] describes(v, m) && b == msgpack_encoding(v)
}

/// The image reference under `spec.image`.
pub open spec fn image_ref(doc: Option<Document>) -> Option<Seq<char>> {
    match doc {
        Some(d) => match field(d, "spec"@) {
            Some(s) => text_field(s, "image"@),
            None => None,
        },
        None => None,
    }
}

/// The text of a response header: under `lower` in the `headers` map, or else
/// under `upper`.
pub open spec fn header(doc: Option<Document>, lower: Seq<char>, upper: Seq<char>) -> Option<
    Seq<char>,
> {
    match doc {
        Some(d) => match field(d, "headers"@) {
            Some(h) => match text_field(h, lower) {
                Some(x) => Some(x),
                None => text_field(h, upper),
            },
            None => None,
        },
        None => None,
    }
}

/// The manifest digest that a response reports.
pub open spec fn digest_of(doc: Option<Document>) -> Option<Seq<char>> {
    header(doc, "docker-content-digest"@, "Docker-Content-Digest"@)
}

/// The authentication challenge that a response carries.
pub open spec fn challenge_of(doc: Option<Document>) -> Option<Seq<char>> {
    header(doc, "www-authenticate"@, "WWW-Authenticate"@)
}

/// The response has status 401.
pub open spec fn unauthorized(doc: Option<Document>) -> bool {
    match doc {
        Some(d) => field(d, "status"@) == Some(Document::Integer(401)),
        None => false,
    }
}

/// The token under `data.token`.
pub open spec fn token_of(doc: Option<Document>) -> Option<Seq<char>> {
    match doc {
        Some(d) => match field(d, "data"@) {
            Some(x) => text_field(x, "token"@),
            None => None,
        },
        None => None,
    }
}

/// A challenge worth answering: not empty and reporting no error.
pub open spec fn usable(c: Seq<char>) -> bool {
    c.len() > 0 && !occurs_in(c, "error="@)
}

/// The text held by context bytes, when they are UTF-8.
pub open spec fn context_text(b: Seq<u8>) -> Option<Seq<char>> {
    if valid_utf8(b) {
        Some(decode_utf8(b))
    } else {
        None
    }
}

/// `r` ends the chain with an incomplete result.
pub open spec fn gives_up(r: Future) -> bool {
    r.callback is None && carries(r.data@, Message::Outcome { latest_image: None })
}

/// What `call` returns for the decoded request `doc`.
pub open spec fn after_call(doc: Option<Document>, r: Future) -> bool {
    &&& r.index == 0
    &&& match image_ref(doc) {
        Some(img) => {
            &&& r.callback == Some(Continuation::Status)
            &&& r.context@ == encode_utf8(manifest_url(img))
            &&& carries(r.data@, Message::Request { url: manifest_url(img), authorization: None })
        },
        None => gives_up(r) && r.context@.len() == 0,
    }
}

/// What `authentication` returns for the decoded response `doc` to `input`.
pub open spec fn after_authentication(doc: Option<Document>, input: Future, r: Future) -> bool {
    &&& r.context@ == input.context@
    &&& r.index == 0
    &&& match challenge_of(doc) {
        Some(c) => if usable(c) {
            &&& r.callback == Some(Continuation::Token)
            &&& carries(r.data@, Message::Request { url: token_url(c), authorization: None })
        } else {
            gives_up(r)
        },
        None => gives_up(r),
    }
}

/// What `status` returns for the decoded response `doc` to `input`.
pub open spec fn after_status(doc: Option<Document>, input: Future, r: Future) -> bool {
    if unauthorized(doc) {
        after_authentication(doc, input, r)
    } else {
        &&& r.callback is None
        &&& r.context@ == input.context@
        &&& r.index == input.index
        &&& carries(r.data@, Message::Outcome { latest_image: digest_of(doc) })
    }
}

/// What `token` returns for the decoded response `doc` to `input`.
pub open spec fn after_token(doc: Option<Document>, input: Future, r: Future) -> bool {
    &&& r.context@ == input.context@
    &&& r.index == 0
    &&& match (token_of(doc), context_text(input.context@)) {
        (Some(t), Some(u)) => {
            &&& r.callback == Some(Continuation::Status)
            &&& carries(
                r.data@,
                Message::Request { url: u, authorization: Some("Bearer "@ + t) },
            )
        },
        _ => gives_up(r),
    }
}

fn text(s: &str) -> (r: Document)
    ensures
        r.is_text(s@),
{
    Document::String(String::from_str(s))
}

/// The encoded request for `url`, with a bearer authorization or none.
fn request_bytes(url: String, authorization: Option<String>) -> (r: Vec<u8>)
    ensures
        carries(r@, Message::Request { url: url@, authorization: opt_view(authorization) }),
{
    let ghost m = Message::Request { url: url@, authorization: opt_view(authorization) };
    let mut es: Vec<(Document, Document)> = Vec::new();
    es.push((text("url"), Document::String(url)));
    match authorization {
        Some(a) => {
            let mut h: Vec<(Document, Document)> = Vec::new();
            h.push((text("authorization"), Document::String(a)));
            es.push((text("headers"), Document::Object(h)));
        },
        None => {},
    }
    let v = Document::Object(es);
    assert(describes(v, m));
    encode_value(&v)
}

/// The encoded final result: complete with the digest, or incomplete.
fn outcome_bytes(latest_image: Option<String>) -> (r: Vec<u8>)
    ensures
        carries(r@, Message::Outcome { latest_image: opt_view(latest_image) }),
{
    let ghost m = Message::Outcome { latest_image: opt_view(latest_image) };
    let mut es: Vec<(Document, Document)> = Vec::new();
    match latest_image {
        Some(d) => {
            es.push((text("complete"), Document::Boolean(true)));
            es.push((text("latestImage"), Document::String(d)));
        },
        None => {
            es.push((text("complete"), Document::Boolean(false)));
        },
    }
    let v = Document::Object(es);
    assert(describes(v, m));
    encode_value(&v)
}

fn copy_bytes(b: &Vec<u8>) -> (r: Vec<u8>)
    ensures
        r@ == b@,
{
    let mut r: Vec<u8> = Vec::new();
    let mut i: usize = 0;
    while i < b.len()
        invariant
            i <= b@.len(),
            r@ == b@.subrange(0, i as int),
        decreases b@.len() - i,
    {
        r.push(b[i]);
        i = i + 1;
        assert(r@ =~= b@.subrange(0, i as int));
    }
    assert(r@ =~= b@);
    r
}

/// A zero-filled buffer of `size` bytes.
pub fn allocate(size: usize) -> (r: Vec<u8>)
    ensures
        r@ == Seq::new(size as nat, |i: int| 0u8),
{
    let mut r: Vec<u8> = Vec::new();
    let mut i: usize = 0;
    while i < size
        invariant
            i <= size,
            r@ == Seq::new(i as nat, |j: int| 0u8),
        decreases size - i,
    {
        r.push(0u8);
        i = i + 1;
        assert(r@ =~= Seq::new(i as nat, |j: int| 0u8));
    }
    r
}

/// Ends the chain with an incomplete result, keeping the context of `input`.
pub fn reset(input: &Future) -> (r: Future)
    ensures
        gives_up(r),
        r.context@ == input.context@,
        r.index == 0,
{
    Future {
        data: outcome_bytes(None),
        callback: None,
        context: copy_bytes(&input.context),
        index: 0,
    }
}

/// The image reference under `spec.image` of a decoded request.
pub fn compute_path(doc: &Option<Document>) -> (r: Option<String>)
    ensures
        opt_view(r) == image_ref(*doc),
{
    match doc {
        Some(d) => match get_field(d, "spec") {
            Some(s) => get_text(s, "image"),
            None => None,
        },
        None => None,
    }
}

fn find_header(doc: &Option<Document>, lower: &str, upper: &str) -> (r: Option<String>)
    ensures
        opt_view(r) == header(*doc, lower@, upper@),
{
    match doc {
        Some(d) => match get_field(d, "headers") {
            Some(h) => match get_text(h, lower) {
                Some(x) => Some(x),
                None => get_text(h, upper),
            },
            None => None,
        },
        None => None,
    }
}

/// The manifest digest that a decoded response reports.
pub fn extract_image(doc: &Option<Document>) -> (r: Option<String>)
    ensures
        opt_view(r) == digest_of(*doc),
{
    find_header(doc, "docker-content-digest", "Docker-Content-Digest")
}

/// Whether a decoded response has status 401.
pub fn is_unauthorized(doc: &Option<Document>) -> (r: bool)
    ensures
        r == unauthorized(*doc),
{
    match doc {
        Some(d) => match get_field(d, "status") {
            Some(Document::Integer(n)) => *n == 401,
            _ => false,
        },
        None => false,
    }
}

/// The token under `data.token` of a decoded response.
pub fn bearer_token(doc: &Option<Document>) -> (r: Option<String>)
    ensures
        opt_view(r) == token_of(*doc),
{
    match doc {
        Some(d) => match get_field(d, "data") {
            Some(x) => get_text(x, "token"),
            None => None,
        },
        None => None,
    }
}

/// First step, given the decoded request: ask for the manifest of the image
/// under `spec.image`, keeping its URL as context, or give up without one.
pub fn call_with(doc: &Option<Document>) -> (r: Future)
    ensures
        after_call(*doc, r),
{
    match compute_path(doc) {
        Some(image) => {
            let url = compute_manifest_url(image.as_str());
            let context = url.as_str().as_bytes_vec();
            Future {
                data: request_bytes(url, None),
                callback: Some(Continuation::Status),
                context,
                index: 0,
            }
        },
        None => Future { data: outcome_bytes(None), callback: None, context: Vec::new(), index: 0 },
    }
}

/// First step: decode the request and ask for the image's manifest.
pub fn call(input: &[u8]) -> (r: Future)
    ensures
        after_call(msgpack_decoding(input@), r),
{
    let doc = decode_value(input);
    call_with(&doc)
}

/// Whether a challenge is worth answering.
fn is_usable(c: &String) -> (r: bool)
    ensures
        r == usable(c@),
{
    let cs = chars_of(c.as_str());
    cs.len() > 0 && !has_run(&cs, &chars_of("error="))
}

/// Answer a 401, given its decoded response: ask the token endpoint that the
/// challenge names, or give up when there is no usable challenge.
pub fn authentication_with(doc: &Option<Document>, input: &Future) -> (r: Future)
    ensures
        after_authentication(*doc, *input, r),
{
    let result = reset(input);
    match find_header(doc, "www-authenticate", "WWW-Authenticate") {
        Some(fields) => {
            if !is_usable(&fields) {
                return result;
            }
            let url = compute_token_url(fields.as_str());
            Future {
                data: request_bytes(url, None),
                callback: Some(Continuation::Token),
                context: result.context,
                index: 0,
            }
        },
        None => result,
    }
}

/// Answer a 401: decode the response and ask for a token.
pub fn authentication(input: &Future) -> (r: Future)
    ensures
        after_authentication(msgpack_decoding(input.data@), *input, r),
{
    let doc = decode_value(input.data.as_slice());
    authentication_with(&doc, input)
}

/// Read a manifest response, given it decoded: a 401 goes on to
/// authentication; anything else ends the chain, complete with the digest
/// when the response reports one.
pub fn status_with(doc: &Option<Document>, input: &Future) -> (r: Future)
    ensures
        after_status(*doc, *input, r),
{
    if is_unauthorized(doc) {
        return authentication_with(doc, input);
    }
    let digest = extract_image(doc);
    Future {
        data: outcome_bytes(digest),
        callback: None,
        context: copy_bytes(&input.context),
        index: input.index,
    }
}

/// Read a manifest response.
pub fn status(input: &Future) -> (r: Future)
    ensures
        after_status(msgpack_decoding(input.data@), *input, r),
{
    let doc = decode_value(input.data.as_slice());
    status_with(&doc, input)
}

/// Read a token response, given it decoded: ask again for the manifest whose
/// URL the context holds, now with the token, or give up.
pub fn token_with(doc: &Option<Document>, input: &Future) -> (r: Future)
    ensures
        after_token(*doc, *input, r),
{
    let result = reset(input);
    match bearer_token(doc) {
        Some(t) => match utf8_text(input.context.as_slice()) {
            Some(url) => {
                let mut auth = String::from_str("Bearer ");
                auth.append(t.as_str());
                Future {
                    data: request_bytes(url, Some(auth)),
                    callback: Some(Continuation::Status),
                    context: result.context,
                    index: 0,
                }
            },
            None => result,
        },
        None => result,
    }
}

/// Read a token response.
pub fn token(input: &Future) -> (r: Future)
    ensures
        after_token(msgpack_decoding(input.data@), *input, r),
{
    let doc = decode_value(input.data.as_slice());
    token_with(&doc, input)
}

/// Resume the step `step` with `input`.
pub fn callback(step: Continuation, input: &Future) -> (r: Future)
    ensures
        match step {
            Continuation::Status => after_status(msgpack_decoding(input.data@), *input, r),
            Continuation::Authentication => after_authentication(
                msgpack_decoding(input.data@),
                *input,
                r,
            ),
            Continuation::Token => after_token(msgpack_decoding(input.data@), *input, r),
        },
{
    match step {
        Continuation::Status => status(input),
        Continuation::Authentication => authentication(input),
        Continuation::Token => token(input),
    }
}

/// Bytes that are not a document end the chain at every step with an
/// incomplete result.
pub proof fn lemma_malformed_gives_up(input: Future, r: Future)
    ensures
        after_call(None, r) ==> gives_up(r),
        after_status(None, input, r) ==> gives_up(r),
        after_authentication(None, input, r) ==> gives_up(r),
        after_token(None, input, r) ==> gives_up(r),
{
}

/// The manifest URL that the first step keeps as context is the one that the
/// token step reads back from it.
pub proof fn lemma_context_round_trip(url: Seq<char>)
    ensures
        context_text(encode_utf8(url)) == Some(url),
{
    encode_utf8_valid_utf8(url);
    encode_utf8_decode_utf8(url);
}

} // verus!
