//! The echo summary: request metadata, normalized headers and the
//! classified body.
use vstd::prelude::*;
use vstd::utf8::valid_utf8;
use crate::body::{BodyKind, classify, DecodedBody, kind_of, decoded_forms_match};

verus! {

/// Lower-case form of a header name.
pub uninterp spec fn lower_of(s: Seq<char>) -> Seq<char>;

/// Relies on `str::to_lowercase`: the result depends on the characters
/// alone, and an empty string stays empty.
#[verifier::external_body]
fn lowercase(s: &str) -> (r: String)
    ensures
        r@ == lower_of(s@),
        s@.len() == 0 ==> r@.len() == 0,
{
    s.to_lowercase()
}

/// What stands for a header value that is not valid visible text.
pub open spec fn non_utf8_placeholder() -> Seq<char> {
    "<non-utf8>"@
}

pub open spec fn header_value(v: Option<String>) -> Seq<char> {
    match v {
        Some(s) => s@,
        None => non_utf8_placeholder(),
    }
}

/// The header mapping built from raw (name, value) pairs in order: names
/// are lower-cased and a later value for a name replaces an earlier one.
pub open spec fn header_map(raw: Seq<(String, Option<String>)>) -> Map<Seq<char>, Seq<char>>
    decreases raw.len(),
{
    if raw.len() == 0 {
        Map::empty()
    } else {
        header_map(raw.drop_last()).insert(
            lower_of(raw.last().0@),
            header_value(raw.last().1),
        )
    }
}

/// `out` lists the mapping `m` once per key.
pub open spec fn lists_map(out: Seq<(String, String)>, m: Map<Seq<char>, Seq<char>>) -> bool {
    &&& forall|i: int, j: int| 0 <= i < j < out.len() ==> out[i].0@ != out[j].0@
    &&& forall|j: int|
        0 <= j < out.len() ==> #[trigger] m.contains_key(out[j].0@) && m[out[j].0@] == out[j].1@
    &&& forall|k: Seq<char>| #[trigger]
        m.contains_key(k) ==> exists|j: int| 0 <= j < out.len() && out[j].0@ == k
}

/// Position of the entry of `out` whose name is `key`, if any.
fn find_key(out: &Vec<(String, String)>, key: &String) -> (r: Option<usize>)
    ensures
        r matches Some(j) ==> j < out@.len() && out@[j as int].0@ == key@,
        r is None ==> forall|t: int| 0 <= t < out@.len() ==> out@[t].0@ != key@,
{
    let mut j: usize = 0;
    while j < out.len()
        invariant
            j <= out@.len(),
            forall|t: int| 0 <= t < j ==> out@[t].0@ != key@,
        decreases out@.len() - j,
    {
        if out[j].0 == *key {
            return Some(j);
        }
        j = j + 1;
    }
    None
}

/// Normalizes request headers: lower-cased names, one entry per name with
/// the last value given for it, and a placeholder for a value that was not
/// valid text (`None`).
pub fn normalize_headers(raw: Vec<(String, Option<String>)>) -> (out: Vec<(String, String)>)
    ensures
        lists_map(out@, header_map(raw@)),
{
    let mut out: Vec<(String, String)> = Vec::new();
    let mut i: usize = 0;
    while i < raw.len()
        invariant
            i <= raw@.len(),
            lists_map(out@, header_map(raw@.subrange(0, i as int))),
        decreases raw@.len() - i,
    {
        let key = lowercase(raw[i].0.as_str());
        let value = match &raw[i].1 {
            Some(v) => v.as_str().to_owned(),
            None => String::from_str("<non-utf8>"),
        };
        let ghost before = header_map(raw@.subrange(0, i as int));
        let ghost after = header_map(raw@.subrange(0, i + 1));
        assert(raw@.subrange(0, i + 1).drop_last() =~= raw@.subrange(0, i as int));
        assert(after == before.insert(key@, value@));
        let found = find_key(&out, &key);
        let ghost old_out = out@;
        if let Some(j) = found {
            out.set(j, (key, value));
            assert forall|a: int, b: int| 0 <= a < b < out@.len() implies out@[a].0@ != out@[b].0@ by {
                if a == j {
                    assert(old_out[b].0@ != old_out[j as int].0@);
                } else if b == j {
                    assert(old_out[a].0@ != old_out[j as int].0@);
                }
            }
            assert forall|t: int| 0 <= t < out@.len() implies #[trigger] after.contains_key(out@[t].0@)
                && after[out@[t].0@] == out@[t].1@ by {
                if t != j {
                    assert(old_out[t].0@ != key@);
                    assert(before.contains_key(old_out[t].0@));
                }
            }
            assert forall|k: Seq<char>| #[trigger] after.contains_key(k) implies exists|t: int|
                0 <= t < out@.len() && out@[t].0@ == k by {
                if k != key@ {
                    assert(before.contains_key(k));
                    let t = choose|t: int| 0 <= t < old_out.len() && old_out[t].0@ == k;
                    assert(out@[t].0@ == k);
                } else {
                    assert(out@[j as int].0@ == k);
                }
            }
        } else {
            out.push((key, value));
            assert forall|a: int, b: int| 0 <= a < b < out@.len() implies out@[a].0@ != out@[b].0@ by {
                if b == old_out.len() {
                    assert(old_out[a].0@ != key@);
                }
            }
            assert forall|t: int| 0 <= t < out@.len() implies #[trigger] after.contains_key(out@[t].0@)
                && after[out@[t].0@] == out@[t].1@ by {
                if t < old_out.len() {
                    assert(old_out[t].0@ != key@);
                    assert(before.contains_key(old_out[t].0@));
                }
            }
            assert forall|k: Seq<char>| #[trigger] after.contains_key(k) implies exists|t: int|
                0 <= t < out@.len() && out@[t].0@ == k by {
                if k != key@ {
                    assert(before.contains_key(k));
                    let t = choose|t: int| 0 <= t < old_out.len() && old_out[t].0@ == k;
                    assert(out@[t].0@ == k);
                } else {
                    assert(out@[old_out.len() as int].0@ == k);
                }
            }
        }
        i = i + 1;
    }
    assert(raw@.subrange(0, raw@.len() as int) =~= raw@);
    out
}

pub open spec fn is_digit(c: char) -> bool {
    '0' <= c <= '9'
}

/// The number written by a sequence of decimal digits.
pub open spec fn digits_value(s: Seq<char>) -> int
    decreases s.len(),
{
    if s.len() == 0 {
        0
    } else {
        digits_value(s.drop_last()) * 10 + (s.last() as u32 as int - 48)
    }
}

/// A `u64` in decimal: an optional `+`, then one or more digits, with a
/// value that fits.
/// The text after an optional leading `+`.
pub open spec fn unsigned_part(s: Seq<char>) -> Seq<char> {
    if s.len() > 0 && s[0] == '+' {
        s.drop_first()
    } else {
        s
    }
}

pub open spec fn u64_of(s: Seq<char>) -> Option<u64> {
    let d = unsigned_part(s);
    if d.len() > 0 && (forall|i: int| 0 <= i < d.len() ==> is_digit(#[trigger] d[i]))
        && digits_value(d) <= u64::MAX {
        Some(digits_value(d) as u64)
    } else {
        None
    }
}

proof fn lemma_digits_nonneg(s: Seq<char>)
    requires
        forall|i: int| 0 <= i < s.len() ==> is_digit(#[trigger] s[i]),
    ensures
        digits_value(s) >= 0,
    decreases s.len(),
{
    if s.len() > 0 {
        lemma_digits_nonneg(s.drop_last());
    }
}

/// For digit strings, a longer string is worth at least its prefix.
proof fn lemma_digits_prefix(s: Seq<char>, k: int)
    requires
        0 <= k <= s.len(),
        forall|i: int| 0 <= i < s.len() ==> is_digit(#[trigger] s[i]),
    ensures
        digits_value(s) >= digits_value(s.subrange(0, k)),
    decreases s.len(),
{
    if k < s.len() {
        lemma_digits_prefix(s.drop_last(), k);
        lemma_digits_nonneg(s.drop_last());
        assert(s.drop_last().subrange(0, k) =~= s.subrange(0, k));
    } else {
        assert(s.subrange(0, k) =~= s);
    }
}

/// Reads a `u64` written in decimal, with an optional leading `+`, as
/// `str::parse::<u64>` does.
fn parse_u64(s: &str) -> (r: Option<u64>)
    ensures
        r == u64_of(s@),
{
    let n = s.unicode_len();
    let mut i: usize = 0;
    if n > 0 && s.get_char(0) == '+' {
        i = 1;
    }
    let ghost d = unsigned_part(s@);
    let ghost start = i as int;
    assert(d =~= s@.subrange(start, n as int));
    if i == n {
        assert(d.len() == 0);
        return None;
    }
    let mut v: u64 = 0;
    while i < n
        invariant
            n == s@.len(),
            d == unsigned_part(s@),
            0 <= start < n,
            start <= i <= n,
            d == s@.subrange(start, n as int),
            d.len() == n - start,
            forall|t: int| 0 <= t < i - start ==> is_digit(#[trigger] d[t]),
            v == digits_value(d.subrange(0, i - start)),
        decreases n - i,
    {
        let c = s.get_char(i);
        let ghost k = i - start;
        assert(d[k] == c);
        if !('0' <= c && c <= '9') {
            assert(!is_digit(d[k]));
            assert(!(forall|t: int| 0 <= t < d.len() ==> is_digit(#[trigger] d[t])));
            return None;
        }
        let dig: u64 = (c as u32 - 48) as u64;
        assert(dig <= 9);
        assert(d.subrange(0, k + 1).drop_last() =~= d.subrange(0, k));
        if v > (u64::MAX - dig) / 10 {
            assert(v * 10 + dig > u64::MAX) by (nonlinear_arith)
                requires v > (u64::MAX - dig) / 10, dig <= 9;
            assert(digits_value(d.subrange(0, k + 1)) > u64::MAX);
            proof {
                if forall|t: int| 0 <= t < d.len() ==> is_digit(#[trigger] d[t]) {
                    lemma_digits_prefix(d, k + 1);
                    assert(digits_value(d) > u64::MAX);
                }
            }
            return None;
        }
        assert(v * 10 + dig <= u64::MAX) by (nonlinear_arith)
            requires v <= (u64::MAX - dig) / 10, dig <= 9;
        v = v * 10 + dig;
        i = i + 1;
        assert(v == digits_value(d.subrange(0, i - start)));
    }
    assert(d.subrange(0, d.len() as int) =~= d);
    Some(v)
}

/// The summary of one echoed request.
pub struct EchoResponse {
    pub method: String,
    pub path: String,
    pub query: Vec<(String, String)>,
    pub headers: Vec<(String, String)>,
    pub body_kind: BodyKind,
    pub body_json: Option<serde_json::Value>,
    pub body_text: Option<String>,
    pub body_base64: Option<String>,
    pub content_length: Option<u64>,
}

impl EchoResponse {
    pub fn new(
        method: String,
        path: String,
        query: Vec<(String, String)>,
        headers: Vec<(String, String)>,
        body_kind: BodyKind,
        body_json: Option<serde_json::Value>,
        body_text: Option<String>,
        body_base64: Option<String>,
        content_length: Option<u64>,
    ) -> (r: EchoResponse)
        ensures
            r.method == method,
            r.path == path,
            r.query == query,
            r.headers == headers,
            r.body_kind == body_kind,
            r.body_json == body_json,
            r.body_text == body_text,
            r.body_base64 == body_base64,
            r.content_length == content_length,
    {
        EchoResponse {
            method,
            path,
            query,
            headers,
            body_kind,
            body_json,
            body_text,
            body_base64,
            content_length,
        }
    }

    /// The body part of the summary, as a classified body.
    pub open spec fn decoded(&self) -> DecodedBody {
        DecodedBody {
            kind: self.body_kind,
            json: self.body_json,
            text: self.body_text,
            base64: self.body_base64,
        }
    }
}

/// The content type used for classification: the header's text, or empty
/// when absent or not valid text.
pub open spec fn content_type_text(ct: Option<String>) -> Seq<char> {
    match ct {
        Some(s) => s@,
        None => Seq::empty(),
    }
}

/// The declared content length: the header parsed as a `u64`, or absent.
pub open spec fn declared_length(cl: Option<String>) -> Option<u64> {
    match cl {
        Some(s) => u64_of(s@),
        None => None,
    }
}

/// Builds the echo summary of a request whose body has been fully read.
/// `raw_headers` holds each header's name and its value when that is valid
/// text; `content_type` and `content_length` are those headers' values.
pub fn echo(
    method: String,
    path: String,
    query: Vec<(String, String)>,
    raw_headers: Vec<(String, Option<String>)>,
    content_type: Option<String>,
    content_length: Option<String>,
    body: &[u8],
) -> (r: EchoResponse)
    ensures
        r.method == method,
        r.path == path,
        r.query == query,
        lists_map(r.headers@, header_map(raw_headers@)),
        r.content_length == declared_length(content_length),
        r.decoded().wf(),
        r.body_kind == kind_of(content_type_text(content_type), body@),
        decoded_forms_match(r.decoded(), body@),
        body@.len() > 0 && !valid_utf8(body@) ==> r.body_kind == BodyKind::Base64,
{
    let length = match &content_length {
        Some(s) => parse_u64(s.as_str()),
        None => None,
    };
    let headers = normalize_headers(raw_headers);
    let ct = match &content_type {
        Some(s) => s.as_str().to_owned(),
        None => String::new(),
    };
    let decoded = classify(ct.as_str(), body);
    EchoResponse::new(
        method,
        path,
        query,
        headers,
        decoded.kind,
        decoded.json,
        decoded.text,
        decoded.base64,
        length,
    )
}

} // verus!
