//! The state of one editing session: the request being edited, the URL history, and
//! where the last request stands. The interface performs the sending and hands the
//! outcome back.

use vstd::prelude::*;

use crate::history::{autocomplete_matches, record_history, recorded_history, suggestions, texts};
use crate::http::{clone_rows, FetchResult, KeyValue, Method, RequestSpec, ResponseData};
use crate::text::trimmed;

verus! {

/// Where the last request stands.
#[derive(Debug)]
pub enum Status {
    /// Nothing sent yet.
    Idle,
    /// A request is on its way.
    Loading,
    /// A response arrived.
    Done(ResponseData),
    /// The request could not be made; the message says why.
    Failed(String),
}

/// The request being edited, the URL history and the state of the last request.
#[derive(Debug)]
pub struct Session {
    pub method: Method,
    pub url: String,
    pub headers: Vec<KeyValue>,
    pub query: Vec<KeyValue>,
    pub body: String,
    /// Sent URLs, most recent first.
    pub url_history: Vec<String>,
    pub status: Status,
}

/// The URL a new session starts with.
pub open spec fn start_url() -> Seq<char> {
    "https://httpbin.org/get"@
}

/// The message shown when the user sends without a URL.
pub open spec fn missing_url_message() -> Seq<char> {
    "URL을 입력하세요."@
}

/// A list holding one fresh blank row.
pub open spec fn one_blank_row(rows: Seq<KeyValue>) -> bool {
    &&& rows.len() == 1
    &&& rows[0].enabled
    &&& rows[0].key@.len() == 0
    &&& rows[0].value@.len() == 0
}

impl Session {
    /// A new session over a saved URL history: GET to the httpbin echo endpoint, one blank
    /// header row and one blank query row, no body, nothing sent yet.
    pub fn new(url_history: Vec<String>) -> (s: Session)
        ensures
            s.method == Method::Get,
            s.url@ == start_url(),
            one_blank_row(s.headers@),
            one_blank_row(s.query@),
            s.body@.len() == 0,
            s.url_history == url_history,
            s.status is Idle,
    {
        let mut headers: Vec<KeyValue> = Vec::new();
        headers.push(KeyValue::new());
        let mut query: Vec<KeyValue> = Vec::new();
        query.push(KeyValue::new());
        Session {
            method: Method::Get,
            url: String::from_str("https://httpbin.org/get"),
            headers,
            query,
            body: String::new(),
            url_history,
            status: Status::Idle,
        }
    }

    /// Records the current URL in the history (see `history::record_history`). Returns
    /// whether it was recorded.
    pub fn record_history(&mut self) -> (recorded: bool)
        ensures
            recorded == (trimmed(old(self).url@).len() > 0),
            texts(final(self).url_history@) == recorded_history(
                texts(old(self).url_history@),
                old(self).url@,
            ),
            final(self).url == old(self).url,
            final(self).method == old(self).method,
            final(self).headers == old(self).headers,
            final(self).query == old(self).query,
            final(self).body == old(self).body,
            final(self).status == old(self).status,
    {
        record_history(&mut self.url_history, self.url.as_str())
    }

    /// The history entries to suggest under the URL field for what is typed now.
    pub fn autocomplete_matches(&self) -> (r: Vec<String>)
        ensures
            texts(r@) == suggestions(texts(self.url_history@), self.url@),
    {
        autocomplete_matches(&self.url_history, self.url.as_str())
    }

    /// The user pressed Send. Without a URL the request fails at once with a message and
    /// nothing else changes. Otherwise the URL is recorded in the history, the state
    /// becomes loading, and the request to send is returned.
    pub fn send_request(&mut self) -> (r: Option<RequestSpec>)
        ensures
            final(self).url == old(self).url,
            final(self).method == old(self).method,
            final(self).headers == old(self).headers,
            final(self).query == old(self).query,
            final(self).body == old(self).body,
            trimmed(old(self).url@).len() == 0 ==> {
                &&& r is None
                &&& final(self).url_history == old(self).url_history
                &&& final(self).status matches Status::Failed(m) && m@ == missing_url_message()
            },
            trimmed(old(self).url@).len() > 0 ==> {
                &&& r matches Some(spec) && {
                    &&& spec.method == old(self).method
                    &&& spec.url == old(self).url
                    &&& spec.headers@ == old(self).headers@
                    &&& spec.query@ == old(self).query@
                    &&& spec.body == old(self).body
                }
                &&& texts(final(self).url_history@) == recorded_history(
                    texts(old(self).url_history@),
                    old(self).url@,
                )
                &&& final(self).status is Loading
            },
    {
        if crate::text::trim(self.url.as_str()).is_empty() {
            self.status = Status::Failed(String::from_str("URL을 입력하세요."));
            return None;
        }
        self.record_history();
        let spec = RequestSpec {
            method: self.method,
            url: self.url.clone(),
            headers: clone_rows(&self.headers),
            query: clone_rows(&self.query),
            body: self.body.clone(),
        };
        self.status = Status::Loading;
        Some(spec)
    }

    /// The worker handed back the outcome of the request: show the response, or the
    /// failure message.
    pub fn poll_result(&mut self, result: FetchResult)
        ensures
            match result {
                FetchResult::Success(d) => final(self).status == Status::Done(d),
                FetchResult::Failure(e) => final(self).status == Status::Failed(e),
            },
            final(self).url == old(self).url,
            final(self).method == old(self).method,
            final(self).headers == old(self).headers,
            final(self).query == old(self).query,
            final(self).body == old(self).body,
            final(self).url_history == old(self).url_history,
    {
        self.status = match result {
            FetchResult::Success(data) => Status::Done(data),
            FetchResult::Failure(e) => Status::Failed(e),
        };
    }
}

} // verus!
