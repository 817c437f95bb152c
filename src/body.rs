//! Classification and decoding of a fully buffered request body.
use vstd::prelude::*;
use vstd::utf8::{valid_utf8, decode_utf8};
use crate::base64_model::{base64_encode, base64_decode, lemma_base64_round_trip};

verus! {

/// How a request body was decoded.
#[derive(Debug, Clone, Copy, PartialEq, Eq, Structural)]
pub enum BodyKind {
    Json,
    TextUtf8,
    Base64,
    Empty,
}

/// `serde_json::Value`, carried through as an opaque parsed JSON value.
#[verifier::external_type_specification]
#[verifier::external_body]
pub struct ExJsonValue(serde_json::Value);

/// A classified body: its kind and the one decoded form that goes with it.
pub struct DecodedBody {
    pub kind: BodyKind,
    pub json: Option<serde_json::Value>,
    pub text: Option<String>,
    pub base64: Option<String>,
}

impl DecodedBody {
    /// Exactly the decoded form that matches the kind is present; none
    /// for an empty body.
    pub open spec fn wf(&self) -> bool {
        match self.kind {
            BodyKind::Json => self.json is Some && self.text is None && self.base64 is None,
            BodyKind::TextUtf8 => self.json is None && self.text is Some && self.base64 is None,
            BodyKind::Base64 => self.json is None && self.text is None && self.base64 is Some,
            BodyKind::Empty => self.json is None && self.text is None && self.base64 is None,
        }
    }
}

/// True when the JSON parser accepts the bytes as one JSON value.
pub uninterp spec fn parses_as_json(b: Seq<u8>) -> bool;

/// A content type that asks for a JSON reading: it starts with
/// `application/json` (case-sensitive).
pub open spec fn is_json_type(ct: Seq<char>) -> bool {
    let p = "application/json"@;
    p.len() <= ct.len() && ct.subrange(0, p.len() as int) == p
}

/// The kind that a body with content type `ct` and bytes `b` is given.
pub open spec fn kind_of(ct: Seq<char>, b: Seq<u8>) -> BodyKind {
    if b.len() == 0 {
        BodyKind::Empty
    } else if is_json_type(ct) && parses_as_json(b) {
        BodyKind::Json
    } else if valid_utf8(b) {
        BodyKind::TextUtf8
    } else {
        BodyKind::Base64
    }
}

/// The text and base64 forms of a classified body, which are fixed by
/// the bytes.
pub open spec fn decoded_forms_match(r: DecodedBody, b: Seq<u8>) -> bool {
    &&& (r.text matches Some(t) ==> t@ == decode_utf8(b))
    &&& (r.base64 matches Some(e) ==> e@ == base64_encode(b))
}

/// Relies on `str::starts_with`: true when `prefix` is a prefix of `s`.
#[verifier::external_body]
fn has_prefix(s: &str, prefix: &str) -> (r: bool)
    ensures
        r == (prefix@.len() <= s@.len() && s@.subrange(0, prefix@.len() as int) == prefix@),
{
    s.starts_with(prefix)
}

/// Relies on `std::str::from_utf8`: succeeds exactly on well-formed UTF-8,
/// and the text is the decoded characters.
#[verifier::external_body]
fn utf8_text(b: &[u8]) -> (r: Option<String>)
    ensures
        r is Some <==> valid_utf8(b@),
        r matches Some(t) ==> t@ == decode_utf8(b@),
{
    std::str::from_utf8(b).ok().map(|s| s.to_string())
}

/// Relies on `base64::engine::general_purpose::STANDARD.encode`: the
/// standard alphabet with `=` padding.
#[verifier::external_body]
fn encode_base64(b: &[u8]) -> (r: String)
    ensures
        r@ == base64_encode(b@),
{
    base64::Engine::encode(&base64::engine::general_purpose::STANDARD, b)
}

/// Relies on `serde_json::from_slice::<serde_json::Value>`: whether it
/// succeeds depends on the bytes alone, and it succeeds only on valid
/// UTF-8 (string contents are checked with `str::from_utf8`, and every
/// other accepted byte is ASCII).
#[verifier::external_body]
fn parse_json(b: &[u8]) -> (r: Option<serde_json::Value>)
    ensures
        r is Some <==> parses_as_json(b@),
        r is Some ==> valid_utf8(b@),
{
    serde_json::from_slice::<serde_json::Value>(b).ok()
}

/// The fallback reading of a non-empty body that is not taken as JSON:
/// text when it is valid UTF-8, else base64.
pub fn fallback_text_or_base64(bytes: &[u8]) -> (r: DecodedBody)
    ensures
        r.wf(),
        r.kind == (if valid_utf8(bytes@) {
            BodyKind::TextUtf8
        } else {
            BodyKind::Base64
        }),
        decoded_forms_match(r, bytes@),
{
    match utf8_text(bytes) {
        Some(s) => DecodedBody { kind: BodyKind::TextUtf8, json: None, text: Some(s), base64: None },
        None => DecodedBody {
            kind: BodyKind::Base64,
            json: None,
            text: None,
            base64: Some(encode_base64(bytes)),
        },
    }
}

/// Classifies a body given the outcome of parsing it as JSON (`None` when
/// the parser refused it): an empty body is `Empty`; a JSON content type
/// with a parsed value is `Json` with that value; otherwise text or base64.
pub fn classify_parsed(content_type: &str, body: &[u8], parsed: Option<serde_json::Value>) -> (r:
    DecodedBody)
    ensures
        r.wf(),
        decoded_forms_match(r, body@),
        body@.len() == 0 ==> r.kind == BodyKind::Empty,
        body@.len() != 0 && is_json_type(content_type@) && parsed is Some ==> r.kind
            == BodyKind::Json && r.json == parsed,
        body@.len() != 0 && !(is_json_type(content_type@) && parsed is Some) ==> r.kind == (
        if valid_utf8(body@) {
            BodyKind::TextUtf8
        } else {
            BodyKind::Base64
        }),
{
    if body.len() == 0 {
        DecodedBody { kind: BodyKind::Empty, json: None, text: None, base64: None }
    } else if has_prefix(content_type, "application/json") {
        match parsed {
            Some(v) => DecodedBody { kind: BodyKind::Json, json: Some(v), text: None, base64: None },
            None => fallback_text_or_base64(body),
        }
    } else {
        fallback_text_or_base64(body)
    }
}

/// Classifies a body by the chain JSON, then UTF-8 text, then base64. It
/// never fails: every body gets exactly one kind and one decoded form
/// (none when empty).
pub fn classify(content_type: &str, body: &[u8]) -> (r: DecodedBody)
    ensures
        r.wf(),
        r.kind == kind_of(content_type@, body@),
        decoded_forms_match(r, body@),
        body@.len() > 0 && !valid_utf8(body@) ==> r.kind == BodyKind::Base64,
{
    if body.len() == 0 {
        classify_parsed(content_type, body, None)
    } else if has_prefix(content_type, "application/json") {
        let parsed = parse_json(body);
        classify_parsed(content_type, body, parsed)
    } else {
        classify_parsed(content_type, body, None)
    }
}

/// A body classified as base64 decodes back to exactly its bytes, and it
/// is so classified exactly when it is non-empty, not valid UTF-8 and not
/// taken as JSON.
pub proof fn lemma_base64_body_round_trip(ct: Seq<char>, b: Seq<u8>, r: DecodedBody)
    requires
        r.wf(),
        r.kind == kind_of(ct, b),
        decoded_forms_match(r, b),
        r.kind == BodyKind::Base64,
    ensures
        b.len() != 0,
        !valid_utf8(b),
        base64_decode(r.base64.unwrap()@) == b,
{
    lemma_base64_round_trip(b);
}

} // verus!
