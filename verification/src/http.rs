//! Requests and responses: the methods, the key/value rows the user edits, what a
//! request sends (URL with its query, headers, body), and what is kept of a response.

use vstd::prelude::*;

use crate::seqs::{count_where, lemma_filter_len_count, lemma_filter_position, lemma_filter_push};

use crate::order::{sort_by_name, sorted_by_name, stable_reorder};
use crate::text::{is_white_space, law_trimmed_empty_iff_all_white_space, trim, trimmed};

verus! {

/// The HTTP methods the application can send.
#[derive(Clone, Copy, Debug, PartialEq, Eq, Structural)]
pub enum Method {
    Get,
    Post,
    Put,
    Patch,
    Delete,
    Head,
    Options,
}

/// The name of a method as it goes on the wire.
pub open spec fn method_name(m: Method) -> Seq<char> {
    match m {
        Method::Get => "GET"@,
        Method::Post => "POST"@,
        Method::Put => "PUT"@,
        Method::Patch => "PATCH"@,
        Method::Delete => "DELETE"@,
        Method::Head => "HEAD"@,
        Method::Options => "OPTIONS"@,
    }
}

/// Whether a request with this method carries a body.
pub open spec fn method_allows_body(m: Method) -> bool {
    m == Method::Post || m == Method::Put || m == Method::Patch || m == Method::Delete
}

impl Method {
    /// Every method, in the order the method menu lists them.
    pub const ALL: [Method; 7] = [
        Method::Get,
        Method::Post,
        Method::Put,
        Method::Patch,
        Method::Delete,
        Method::Head,
        Method::Options,
    ];

    /// The method's name as it goes on the wire.
    pub fn as_str(&self) -> (r: &'static str)
        ensures
            r@ == method_name(*self),
    {
        match self {
            Method::Get => "GET",
            Method::Post => "POST",
            Method::Put => "PUT",
            Method::Patch => "PATCH",
            Method::Delete => "DELETE",
            Method::Head => "HEAD",
            Method::Options => "OPTIONS",
        }
    }

    /// Whether a request with this method can carry a body.
    pub fn allows_body(&self) -> (r: bool)
        ensures
            r == method_allows_body(*self),
    {
        match self {
            Method::Post | Method::Put | Method::Patch | Method::Delete => true,
            _ => false,
        }
    }
}

/// A key/value row, shared by the header and query parameter editors.
#[derive(Debug)]
pub struct KeyValue {
    pub enabled: bool,
    pub key: String,
    pub value: String,
}

impl Clone for KeyValue {
    fn clone(&self) -> (r: Self)
        ensures
            r == *self,
    {
        KeyValue { enabled: self.enabled, key: self.key.clone(), value: self.value.clone() }
    }
}

impl Default for KeyValue {
    fn default() -> (r: Self)
        ensures
            !r.enabled,
            r.key@ == Seq::<char>::empty(),
            r.value@ == Seq::<char>::empty(),
    {
        KeyValue { enabled: false, key: String::new(), value: String::new() }
    }
}

impl KeyValue {
    /// A blank row, switched on.
    pub fn new() -> (r: Self)
        ensures
            r.enabled,
            r.key@ == Seq::<char>::empty(),
            r.value@ == Seq::<char>::empty(),
    {
        KeyValue { enabled: true, key: String::new(), value: String::new() }
    }
}

/// Whether a row takes part in the request: switched on, with a key.
pub open spec fn row_is_active(kv: KeyValue) -> bool {
    kv.enabled && kv.key@.len() > 0
}

/// The texts of a list of string pairs.
pub open spec fn pair_texts(s: Seq<(String, String)>) -> Seq<(Seq<char>, Seq<char>)> {
    s.map_values(|p: (String, String)| (p.0@, p.1@))
}

/// The test for an active row, as a predicate.
pub open spec fn active_row() -> spec_fn(KeyValue) -> bool {
    |kv: KeyValue| row_is_active(kv)
}

/// The (key, value) texts of a row.
pub open spec fn row_pair(kv: KeyValue) -> (Seq<char>, Seq<char>) {
    (kv.key@, kv.value@)
}

/// The (key, value) texts of a row, each without surrounding white space.
pub open spec fn trimmed_row_pair(kv: KeyValue) -> (Seq<char>, Seq<char>) {
    (trimmed(kv.key@), trimmed(kv.value@))
}

/// The (key, value) texts of the active rows, in order.
pub open spec fn active_pairs(rows: Seq<KeyValue>) -> Seq<(Seq<char>, Seq<char>)> {
    rows.filter(active_row()).map_values(|kv: KeyValue| row_pair(kv))
}

/// The (key, value) texts of the active rows, in order, each without surrounding white space.
pub open spec fn trimmed_active_pairs(rows: Seq<KeyValue>) -> Seq<(Seq<char>, Seq<char>)> {
    rows.filter(active_row()).map_values(|kv: KeyValue| trimmed_row_pair(kv))
}

/// The query parameters a request adds to its URL: the active rows, in order.
pub fn query_pairs(rows: &Vec<KeyValue>) -> (r: Vec<(String, String)>)
    ensures
        pair_texts(r@) == active_pairs(rows@),
{
    let mut out: Vec<(String, String)> = Vec::new();
    for i in 0..rows.len()
        invariant
            pair_texts(out@) == active_pairs(rows@.take(i as int)),
    {
        let kv = &rows[i];
        proof {
            assert(rows@.take(i + 1) =~= rows@.take(i as int).push(rows@[i as int]));
            lemma_filter_push(rows@.take(i as int), rows@[i as int], active_row());
        }
        let ghost before = out@;
        if kv.enabled && !kv.key.as_str().is_empty() {
            out.push((kv.key.clone(), kv.value.clone()));
            proof {
                assert(active_row()(rows@[i as int]));
                assert(pair_texts(out@) =~= pair_texts(before).push(row_pair(rows@[i as int])));
                assert(active_pairs(rows@.take(i + 1)) =~= active_pairs(rows@.take(i as int)).push(
                    row_pair(rows@[i as int]),
                ));
            }
        } else {
            proof {
                assert(!active_row()(rows@[i as int]));
                assert(active_pairs(rows@.take(i + 1)) =~= active_pairs(rows@.take(i as int)));
            }
        }
    }
    assert(rows@.take(rows@.len() as int) =~= rows@);
    out
}

/// The headers a request sends: the active rows, in order, key and value trimmed.
pub fn header_pairs(rows: &Vec<KeyValue>) -> (r: Vec<(String, String)>)
    ensures
        pair_texts(r@) == trimmed_active_pairs(rows@),
{
    let mut out: Vec<(String, String)> = Vec::new();
    for i in 0..rows.len()
        invariant
            pair_texts(out@) == trimmed_active_pairs(rows@.take(i as int)),
    {
        let kv = &rows[i];
        proof {
            assert(rows@.take(i + 1) =~= rows@.take(i as int).push(rows@[i as int]));
            lemma_filter_push(rows@.take(i as int), rows@[i as int], active_row());
        }
        let ghost before = out@;
        if kv.enabled && !kv.key.as_str().is_empty() {
            let key = String::from_str(trim(kv.key.as_str()));
            let value = String::from_str(trim(kv.value.as_str()));
            out.push((key, value));
            proof {
                assert(active_row()(rows@[i as int]));
                assert(pair_texts(out@) =~= pair_texts(before).push(
                    trimmed_row_pair(rows@[i as int]),
                ));
                assert(trimmed_active_pairs(rows@.take(i + 1)) =~= trimmed_active_pairs(
                    rows@.take(i as int),
                ).push(trimmed_row_pair(rows@[i as int])));
            }
        } else {
            proof {
                assert(!active_row()(rows@[i as int]));
                assert(trimmed_active_pairs(rows@.take(i + 1)) =~= trimmed_active_pairs(
                    rows@.take(i as int),
                ));
            }
        }
    }
    assert(rows@.take(rows@.len() as int) =~= rows@);
    out
}


/// A copy of a list of rows.
pub fn clone_rows(rows: &Vec<KeyValue>) -> (r: Vec<KeyValue>)
    ensures
        r@ == rows@,
{
    let r = rows.clone();
    assert(r@ =~= rows@) by {
        assert forall|i: int| 0 <= i < rows.len() implies r@[i] == rows@[i] by {
            assert(vstd::pervasive::cloned::<KeyValue>(rows[i], r[i]));
        }
    }
    r
}

/// A request as the user assembled it.
#[derive(Debug)]
pub struct RequestSpec {
    pub method: Method,
    pub url: String,
    pub headers: Vec<KeyValue>,
    pub query: Vec<KeyValue>,
    pub body: String,
}

impl Clone for RequestSpec {
    fn clone(&self) -> (r: Self)
        ensures
            r.method == self.method,
            r.url == self.url,
            r.headers@ == self.headers@,
            r.query@ == self.query@,
            r.body == self.body,
    {
        RequestSpec {
            method: self.method,
            url: self.url.clone(),
            headers: clone_rows(&self.headers),
            query: clone_rows(&self.query),
            body: self.body.clone(),
        }
    }
}

/// What `reqwest::Url::parse_with_params` gives for an input and a list of query
/// pairs: the serialized URL with the pairs appended to its query in
/// `application/x-www-form-urlencoded` form, or the description of the parse error.
pub uninterp spec fn url_with_params(
    input: Seq<char>,
    pairs: Seq<(Seq<char>, Seq<char>)>,
) -> Result<Seq<char>, Seq<char>>;

/// Calls `reqwest::Url::parse_with_params` (the `url` crate's `Url`): parses `input` as an
/// absolute URL and, when that succeeds, appends every pair to its query string, opening
/// the query with `?` even when there are no pairs. The URL comes back as its
/// serialization, the error as its description. Claimed: the outcome is a function of
/// the input text and the pair texts alone (named `url_with_params`); what the parser
/// accepts and how it normalizes is the `url` crate's and not stated here.
#[verifier::external_body]
fn parse_with_params(input: &str, pairs: &Vec<(String, String)>) -> (r: Result<String, String>)
    ensures
        match r {
            Ok(u) => url_with_params(input@, pair_texts(pairs@)) == Ok::<Seq<char>, Seq<char>>(
                u@,
            ),
            Err(e) => url_with_params(input@, pair_texts(pairs@)) == Err::<Seq<char>, Seq<char>>(
                e@,
            ),
        },
{
    match reqwest::Url::parse_with_params(input, pairs.iter()) {
        Ok(url) => Ok(String::from(url)),
        Err(e) => Err(e.to_string()),
    }
}

/// The text that starts the message of a URL that does not parse.
pub open spec fn invalid_url_prefix() -> Seq<char> {
    "잘못된 URL: "@
}

/// A request ready to go on the wire.
#[derive(Debug)]
pub struct PreparedRequest {
    pub method: Method,
    /// The serialized URL, query parameters included.
    pub url: String,
    /// Header names and values, in the order they are sent.
    pub headers: Vec<(String, String)>,
    /// The body, where one is sent.
    pub body: Option<String>,
}

/// The body a request sends: the text as typed, for a method that carries a body,
/// when it holds more than white space.
pub open spec fn body_to_send(method: Method, body: Seq<char>) -> Option<Seq<char>> {
    if method_allows_body(method) && trimmed(body).len() > 0 {
        Some(body)
    } else {
        None
    }
}

/// The body a request sends, if any.
pub fn request_body(method: Method, body: &String) -> (r: Option<String>)
    ensures
        match r {
            Some(b) => body_to_send(method, body@) == Some(b@),
            None => body_to_send(method, body@) is None,
        },
{
    if method.allows_body() && !trim(body.as_str()).is_empty() {
        Some(body.clone())
    } else {
        None
    }
}

/// The URL a request goes to: the typed URL without surrounding white space, parsed,
/// with the active query rows appended; or the message for a URL that does not parse.
pub open spec fn request_url(spec: RequestSpec) -> Result<Seq<char>, Seq<char>> {
    match url_with_params(trimmed(spec.url@), active_pairs(spec.query@)) {
        Ok(u) => Ok(u),
        Err(e) => Err(invalid_url_prefix() + e),
    }
}

/// Turns what the user assembled into what is sent: method, URL with the active query
/// parameters, the active headers (trimmed) and the body where the method carries one.
/// Fails, with a message, exactly when the URL does not parse.
pub fn prepare_request(spec: &RequestSpec) -> (r: Result<PreparedRequest, String>)
    ensures
        match r {
            Ok(p) => {
                &&& request_url(*spec) == Ok::<Seq<char>, Seq<char>>(p.url@)
                &&& p.method == spec.method
                &&& pair_texts(p.headers@) == trimmed_active_pairs(spec.headers@)
                &&& match p.body {
                    Some(b) => body_to_send(spec.method, spec.body@) == Some(b@),
                    None => body_to_send(spec.method, spec.body@) is None,
                }
            },
            Err(e) => request_url(*spec) == Err::<Seq<char>, Seq<char>>(e@),
        },
{
    let pairs = query_pairs(&spec.query);
    match parse_with_params(trim(spec.url.as_str()), &pairs) {
        Ok(url) => Ok(
            PreparedRequest {
                method: spec.method,
                url,
                headers: header_pairs(&spec.headers),
                body: request_body(spec.method, &spec.body),
            },
        ),
        Err(e) => {
            let mut message = String::from_str("잘못된 URL: ");
            message.append(e.as_str());
            Err(message)
        },
    }
}


/// The most a response body is read to: 50 MiB. Past it the body is cut, so that a
/// huge response cannot exhaust memory or freeze the interface.
pub const MAX_BODY_BYTES: u64 = 52428800;

/// A response as it is shown.
#[derive(Debug)]
pub struct ResponseData {
    pub status: u16,
    pub status_text: String,
    pub elapsed_ms: u128,
    pub size_bytes: usize,
    pub headers: Vec<(String, String)>,
    pub body: String,
    /// The body re-indented, where it is JSON.
    pub pretty_body: Option<String>,
    /// Whether the body was cut at `MAX_BODY_BYTES`.
    pub truncated: bool,
}

/// A copy of a list of string pairs.
pub fn clone_pairs(v: &Vec<(String, String)>) -> (r: Vec<(String, String)>)
    ensures
        r@ == v@,
{
    let mut out: Vec<(String, String)> = Vec::new();
    for i in 0..v.len()
        invariant
            out@ == v@.take(i as int),
    {
        let pair = &v[i];
        out.push((pair.0.clone(), pair.1.clone()));
        assert(out@ =~= v@.take(i + 1));
    }
    assert(v@.take(v@.len() as int) =~= v@);
    out
}

impl ResponseData {
    /// The body text the response view shows: the re-indented JSON when there is one and
    /// the pretty view is on, the body as received otherwise.
    pub fn shown_body(&self, pretty: bool) -> (r: &String)
        ensures
            *r == match (self.pretty_body, pretty) {
                (Some(p), true) => p,
                _ => self.body,
            },
    {
        match (&self.pretty_body, pretty) {
            (Some(p), true) => p,
            _ => &self.body,
        }
    }
}

impl Clone for ResponseData {
    fn clone(&self) -> (r: Self)
        ensures
            r.status == self.status,
            r.status_text == self.status_text,
            r.elapsed_ms == self.elapsed_ms,
            r.size_bytes == self.size_bytes,
            r.headers@ == self.headers@,
            r.body == self.body,
            r.pretty_body == self.pretty_body,
            r.truncated == self.truncated,
    {
        ResponseData {
            status: self.status,
            status_text: self.status_text.clone(),
            elapsed_ms: self.elapsed_ms,
            size_bytes: self.size_bytes,
            headers: clone_pairs(&self.headers),
            body: self.body.clone(),
            pretty_body: match &self.pretty_body {
                Some(p) => Some(p.clone()),
                None => None,
            },
            truncated: self.truncated,
        }
    }
}

/// The outcome of a request, as the worker hands it back.
#[derive(Debug)]
pub enum FetchResult {
    /// A response arrived.
    Success(ResponseData),
    /// The request could not be made; the message says why.
    Failure(String),
}

/// The reason phrase that `reqwest::StatusCode::canonical_reason` gives a status code.
pub uninterp spec fn reason_phrase(code: u16) -> Option<Seq<char>>;

/// Calls `reqwest::StatusCode::from_u16` and then `canonical_reason` on the status it
/// gives (the `http` crate's table of registered reason phrases). Claimed: the phrase
/// is a function of the code alone (named `reason_phrase`), and a code outside
/// 100..=999, which `from_u16` refuses, has none. The table itself is not stated here.
#[verifier::external_body]
fn canonical_reason(code: u16) -> (r: Option<&'static str>)
    ensures
        match r {
            Some(s) => reason_phrase(code) == Some(s@),
            None => reason_phrase(code) is None,
        },
        (code < 100 || code > 999) ==> r is None,
{
    match reqwest::StatusCode::from_u16(code) {
        Ok(status) => status.canonical_reason(),
        Err(_) => None,
    }
}

/// The text that `String::from_utf8_lossy` makes of some bytes.
pub uninterp spec fn utf8_lossy(bytes: Seq<u8>) -> Seq<char>;

/// Calls `String::from_utf8_lossy`. Claimed: the text is a function of the bytes alone
/// (named `utf8_lossy`), and valid UTF-8 is decoded as it stands. How invalid sequences
/// become U+FFFD is the standard library's and not stated here.
#[verifier::external_body]
fn decode_utf8_lossy(bytes: &[u8]) -> (r: String)
    ensures
        r@ == utf8_lossy(bytes@),
        vstd::utf8::valid_utf8(bytes@) ==> r@ == vstd::utf8::decode_utf8(bytes@),
{
    String::from_utf8_lossy(bytes).into_owned()
}

/// What `serde_json` makes of a text read as a JSON value and written back with
/// indentation, where the text is JSON.
pub uninterp spec fn json_pretty(text: Seq<char>) -> Option<Seq<char>>;

/// Calls `serde_json::from_str::<serde_json::Value>` and, when the text is JSON, writes
/// the value back with `serde_json::to_string_pretty`. Claimed: the outcome is a
/// function of the text alone (named `json_pretty`); the grammar and the layout are
/// `serde_json`'s and not stated here.
#[verifier::external_body]
fn pretty_json(text: &str) -> (r: Option<String>)
    ensures
        match r {
            Some(p) => json_pretty(text@) == Some(p@),
            None => json_pretty(text@) is None,
        },
{
    match serde_json::from_str::<serde_json::Value>(text) {
        Ok(value) => serde_json::to_string_pretty(&value).ok(),
        Err(_) => None,
    }
}

/// The body bytes that are kept: at most `MAX_BODY_BYTES` of them.
pub open spec fn kept_body(bytes: Seq<u8>) -> Seq<u8> {
    if bytes.len() > MAX_BODY_BYTES {
        bytes.take(MAX_BODY_BYTES as int)
    } else {
        bytes
    }
}

/// Builds what is shown of a response from what came over the wire: the status with
/// its reason phrase ("" where none is known), the headers ordered by name (headers
/// that share a name keep their order), the body cut at `MAX_BODY_BYTES` and decoded
/// as UTF-8 (invalid sequences replaced), its size after the cut, whether it was cut,
/// and the body re-indented where it is JSON and was not cut.
pub fn finish_response(
    status: u16,
    headers: Vec<(String, String)>,
    body: Vec<u8>,
    elapsed_ms: u128,
) -> (r: ResponseData)
    ensures
        r.status == status,
        r.status_text@ == match reason_phrase(status) {
            Some(p) => p,
            None => Seq::<char>::empty(),
        },
        r.elapsed_ms == elapsed_ms,
        sorted_by_name(r.headers@),
        stable_reorder(r.headers@, headers@),
        r.truncated == (body@.len() > MAX_BODY_BYTES),
        r.size_bytes == kept_body(body@).len(),
        r.body@ == utf8_lossy(kept_body(body@)),
        r.truncated ==> r.pretty_body is None,
        !r.truncated ==> match r.pretty_body {
            Some(p) => json_pretty(r.body@) == Some(p@),
            None => json_pretty(r.body@) is None,
        },
{
    let status_text = match canonical_reason(status) {
        Some(reason) => String::from_str(reason),
        None => String::new(),
    };
    let mut bytes = body;
    let truncated = bytes.len() as u64 > MAX_BODY_BYTES;
    if truncated {
        bytes.truncate(MAX_BODY_BYTES as usize);
    }
    assert(bytes@ == kept_body(body@));
    let text = decode_utf8_lossy(bytes.as_slice());
    let size_bytes = bytes.len();
    let pretty_body = if truncated {
        None
    } else {
        pretty_json(text.as_str())
    };
    ResponseData {
        status,
        status_text,
        elapsed_ms,
        size_bytes,
        headers: sort_by_name(headers),
        body: text,
        pretty_body,
        truncated,
    }
}


/// A GET, HEAD or OPTIONS request never carries a body, whatever was typed.
pub proof fn law_bodyless_methods_send_no_body(method: Method, body: Seq<char>)
    requires
        !method_allows_body(method),
    ensures
        body_to_send(method, body) is None,
{
}

/// What is kept of a body is its start, and never more than `MAX_BODY_BYTES`; a body
/// within the limit is kept whole.
pub proof fn law_kept_body_is_bounded_prefix(bytes: Seq<u8>)
    ensures
        kept_body(bytes).len() <= MAX_BODY_BYTES,
        kept_body(bytes) == bytes.take(kept_body(bytes).len() as int),
        bytes.len() <= MAX_BODY_BYTES ==> kept_body(bytes) == bytes,
{
    assert(kept_body(bytes) =~= bytes.take(kept_body(bytes).len() as int));
}


/// The query parameters sent are exactly the rows that are switched on and have a key,
/// whatever their value (empty values included), in row order: there is one pair per
/// such row, and the row that has `n` such rows before it gives pair `n`, its key and
/// value texts unchanged.
pub proof fn law_query_pairs_are_the_enabled_keyed_rows(rows: Seq<KeyValue>)
    ensures
        active_pairs(rows).len() == count_where(
            rows,
            |kv: KeyValue| kv.enabled && kv.key@.len() > 0,
        ),
        forall|j: int|
            0 <= j < rows.len() && (#[trigger] rows[j]).enabled && rows[j].key@.len() > 0
                ==> active_pairs(rows)[count_where(
                rows.take(j),
                |kv: KeyValue| kv.enabled && kv.key@.len() > 0,
            ) as int] == (rows[j].key@, rows[j].value@),
{
    let p = |kv: KeyValue| kv.enabled && kv.key@.len() > 0;
    assert(active_row() =~= p);
    lemma_filter_len_count(rows, p);
    assert forall|j: int|
        0 <= j < rows.len() && (#[trigger] rows[j]).enabled && rows[j].key@.len() > 0 implies active_pairs(
        rows,
    )[count_where(rows.take(j), p) as int] == (rows[j].key@, rows[j].value@) by {
        lemma_filter_position(rows, p, j);
    }
}

/// The headers sent are exactly the rows that are switched on and have a key, in row
/// order, each key and value with only its surrounding white space removed: the row that
/// has `n` such rows before it gives header `n`.
pub proof fn law_headers_are_the_enabled_keyed_rows_trimmed(rows: Seq<KeyValue>)
    ensures
        trimmed_active_pairs(rows).len() == count_where(
            rows,
            |kv: KeyValue| kv.enabled && kv.key@.len() > 0,
        ),
        forall|j: int|
            0 <= j < rows.len() && (#[trigger] rows[j]).enabled && rows[j].key@.len() > 0
                ==> trimmed_active_pairs(rows)[count_where(
                rows.take(j),
                |kv: KeyValue| kv.enabled && kv.key@.len() > 0,
            ) as int] == (trimmed(rows[j].key@), trimmed(rows[j].value@)),
{
    let p = |kv: KeyValue| kv.enabled && kv.key@.len() > 0;
    assert(active_row() =~= p);
    lemma_filter_len_count(rows, p);
    assert forall|j: int|
        0 <= j < rows.len() && (#[trigger] rows[j]).enabled && rows[j].key@.len() > 0 implies trimmed_active_pairs(
        rows,
    )[count_where(rows.take(j), p) as int] == (trimmed(rows[j].key@), trimmed(rows[j].value@)) by {
        lemma_filter_position(rows, p, j);
    }
}

/// A POST, PUT, PATCH or DELETE request sends the body exactly as typed, whole, when it
/// holds a character that is not white space; every other request sends no body.
pub proof fn law_body_is_sent_whole_or_not_at_all(method: Method, body: Seq<char>)
    ensures
        ((method == Method::Post || method == Method::Put || method == Method::Patch || method
            == Method::Delete) && exists|i: int| 0 <= i < body.len() && !is_white_space(
            #[trigger] body[i],
        )) ==> body_to_send(method, body) == Some(body),
        !((method == Method::Post || method == Method::Put || method == Method::Patch || method
            == Method::Delete) && exists|i: int| 0 <= i < body.len() && !is_white_space(
            #[trigger] body[i],
        )) ==> body_to_send(method, body) is None,
{
    law_trimmed_empty_iff_all_white_space(body);
}


/// Different methods go on the wire under different names, each the upper-case name of
/// the method.
pub proof fn law_method_names(m: Method, n: Method)
    ensures
        m != n ==> method_name(m) != method_name(n),
        method_name(Method::Get) == seq!['G', 'E', 'T'],
        method_name(Method::Post) == seq!['P', 'O', 'S', 'T'],
        method_name(Method::Put) == seq!['P', 'U', 'T'],
        method_name(Method::Patch) == seq!['P', 'A', 'T', 'C', 'H'],
        method_name(Method::Delete) == seq!['D', 'E', 'L', 'E', 'T', 'E'],
        method_name(Method::Head) == seq!['H', 'E', 'A', 'D'],
        method_name(Method::Options) == seq!['O', 'P', 'T', 'I', 'O', 'N', 'S'],
{
    reveal_strlit("GET");
    reveal_strlit("POST");
    reveal_strlit("PUT");
    reveal_strlit("PATCH");
    reveal_strlit("DELETE");
    reveal_strlit("HEAD");
    reveal_strlit("OPTIONS");
    assert("GET"@ =~= seq!['G', 'E', 'T']);
    assert("POST"@ =~= seq!['P', 'O', 'S', 'T']);
    assert("PUT"@ =~= seq!['P', 'U', 'T']);
    assert("PATCH"@ =~= seq!['P', 'A', 'T', 'C', 'H']);
    assert("DELETE"@ =~= seq!['D', 'E', 'L', 'E', 'T', 'E']);
    assert("HEAD"@ =~= seq!['H', 'E', 'A', 'D']);
    assert("OPTIONS"@ =~= seq!['O', 'P', 'T', 'I', 'O', 'N', 'S']);
    if m != n {
        if method_name(m).len() == method_name(n).len() {
            assert(method_name(m)[1] != method_name(n)[1] || method_name(m)[0] != method_name(
                n,
            )[0]);
        }
    }
}


/// The URL a request goes to depends only on the typed URL without its surrounding white
/// space and on the enabled query rows with keys: requests that agree on those go to the
/// same URL (or fail with the same message), whatever else differs.
pub proof fn law_request_url_ignores_outer_white_space(a: RequestSpec, b: RequestSpec)
    requires
        trimmed(a.url@) == trimmed(b.url@),
        a.query@.filter(|kv: KeyValue| kv.enabled && kv.key@.len() > 0) == b.query@.filter(
            |kv: KeyValue| kv.enabled && kv.key@.len() > 0,
        ),
    ensures
        request_url(a) == request_url(b),
{
    assert(active_row() =~= (|kv: KeyValue| kv.enabled && kv.key@.len() > 0));
}

} // verus!
