//! The three wire requests of the invocation protocol: fetch the next
//! invocation, report its success, report its failure. Each builder is a
//! pure transformation to a [`RuntimeRequest`]; the transport layer turns
//! that into an HTTP request against the configured endpoint.

use vstd::prelude::*;
use crate::json::{render_diagnostic, spec_diag_json};
use crate::types::Diagnostic;

verus! {

/// The HTTP method of a wire request.
#[derive(Debug, Clone, Copy, PartialEq, Eq, Structural)]
pub enum Method {
    /// A body-less fetch.
    Get,
    /// A report carrying a body.
    Post,
}

/// One outbound request, relative to the configured base endpoint.
#[derive(Debug, Clone, PartialEq)]
pub struct RuntimeRequest {
    /// The HTTP method.
    pub method: Method,
    /// The path below the base endpoint.
    pub path: String,
    /// The request body, as text.
    pub body: String,
}

/// The path that fetches the next invocation.
pub open spec fn next_path() -> Seq<char> {
    "/2018-06-01/runtime/invocation/next"@
}

/// The path that reports the success of the invocation `id`.
pub open spec fn response_path(id: Seq<char>) -> Seq<char> {
    "/2018-06-01/runtime/invocation/"@ + id + "/response"@
}

/// The path that reports the failure of the invocation `id`.
pub open spec fn error_path(id: Seq<char>) -> Seq<char> {
    "/2018-06-01/runtime/invocation/"@ + id + "/error"@
}

/// The request that fetches the next invocation.
#[derive(Debug, Clone, Copy, PartialEq, Eq, Structural)]
pub struct NextEventRequest;

impl NextEventRequest {
    /// The fetch request: a body-less GET of the fixed fetch path.
    pub fn into_req(self) -> (r: RuntimeRequest)
        ensures
            r.method is Get,
            r.path@ == next_path(),
            r.body@ == Seq::<char>::empty(),
    {
        RuntimeRequest {
            method: Method::Get,
            path: "/2018-06-01/runtime/invocation/next".to_owned(),
            body: String::new(),
        }
    }
}

/// The report of a successful invocation: the serialized handler output,
/// posted under the invocation's request id.
#[derive(Debug, Clone, PartialEq)]
pub struct EventCompletionRequest {
    /// The id of the invocation being answered.
    pub request_id: String,
    /// The serialized handler output.
    pub body: String,
}

impl EventCompletionRequest {
    /// The success report: POST of the output under the response path.
    pub fn into_req(self) -> (r: RuntimeRequest)
        ensures
            r.method is Post,
            r.path@ == response_path(self.request_id@),
            r.body@ == self.body@,
    {
        let mut path = "/2018-06-01/runtime/invocation/".to_owned();
        path.append(self.request_id.as_str());
        path.append("/response");
        RuntimeRequest { method: Method::Post, path, body: self.body }
    }
}

/// The report of a failed invocation: a diagnostic, posted under the
/// invocation's request id.
#[derive(Debug, Clone, PartialEq)]
pub struct EventErrorRequest {
    /// The id of the invocation being answered.
    pub request_id: String,
    /// The failure being reported.
    pub diagnostic: Diagnostic,
}

impl EventErrorRequest {
    /// The error report: POST of the diagnostic's JSON encoding under the
    /// error path.
    pub fn into_req(self) -> (r: RuntimeRequest)
        ensures
            r.method is Post,
            r.path@ == error_path(self.request_id@),
            r.body@ == spec_diag_json(
                self.diagnostic.error_message@,
                self.diagnostic.error_type@,
            ),
    {
        let mut path = "/2018-06-01/runtime/invocation/".to_owned();
        path.append(self.request_id.as_str());
        path.append("/error");
        let body = render_diagnostic(&self.diagnostic);
        RuntimeRequest { method: Method::Post, path, body }
    }
}

} // verus!
