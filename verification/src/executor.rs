//! The decision core of the poll/dispatch/report loop: one iteration takes
//! the fetch-response headers and payload, invokes the handler, and builds
//! the report request. The embedding program owns the transport; it sends
//! what these functions build and hands back what arrives.

use vstd::prelude::*;
use crate::json::spec_diag_json;
use crate::requests::{
    error_path, response_path, EventCompletionRequest, EventErrorRequest, RuntimeRequest,
};
use crate::types::{spec_ctx_ok, spec_lookup, spec_parse_u64, Diagnostic, Error, Header, LambdaCtx};
use crate::{Config, Handler};

verus! {

/// The outcome of one invocation, consumed immediately to build the report
/// request.
#[derive(Debug, Clone, PartialEq)]
pub enum Outcome {
    /// The serialized handler output.
    Success(String),
    /// The diagnostic built from the handler's error.
    Failure(Diagnostic),
}

/// Builds the report request for one finished invocation: the output under
/// the response path on success, the diagnostic's JSON encoding under the
/// error path on failure.
pub fn report_outcome(request_id: &String, outcome: Outcome) -> (r: RuntimeRequest)
    ensures
        r.method is Post,
        (match outcome {
            Outcome::Success(body) => r.path@ == response_path(request_id@) && r.body@ == body@,
            Outcome::Failure(d) => r.path@ == error_path(request_id@) && r.body@
                == spec_diag_json(d.error_message@, d.error_type@),
        }),
{
    match outcome {
        Outcome::Success(body) => EventCompletionRequest {
            request_id: request_id.clone(),
            body,
        }.into_req(),
        Outcome::Failure(diagnostic) => EventErrorRequest {
            request_id: request_id.clone(),
            diagnostic,
        }.into_req(),
    }
}

/// Relies on `serde_json::to_string`: encodes `b` as JSON text by its
/// `Serialize` implementation; the encoding is opaque to this library.
#[verifier::external_body]
fn json_encode<B: serde::Serialize>(b: &B) -> (r: Result<String, String>) {
    serde_json::to_string(b).map_err(|e| e.to_string())
}

/// Relies on `serde_json::from_str`: decodes JSON text into a value of `A`
/// by its `Deserialize` implementation; the decoding is opaque to this
/// library.
#[verifier::external_body]
fn json_decode<A: serde::de::DeserializeOwned>(s: &str) -> (r: Result<A, String>) {
    serde_json::from_str(s).map_err(|e| e.to_string())
}

/// Relies on the `Debug` formatting of `E` through `format!`: renders the
/// error value for the diagnostic message.
#[verifier::external_body]
fn debug_string<E: core::fmt::Debug>(e: &E) -> String {
    format!("{:?}", e)
}

/// Builds the wire diagnostic for a handler error: the message is the
/// error's debug rendering, the tag is `error_type` as given. The tag
/// names the error's type; the embedding program derives it from the
/// type's identity, which this library does not inspect. Constructible
/// from any error type that can be rendered.
pub fn diagnostic_for<E: core::fmt::Debug>(err: &E, error_type: &str) -> (d: Diagnostic)
    ensures
        d.error_type@ == error_type@,
{
    let error_message = debug_string(err);
    Diagnostic { error_message, error_type: error_type.to_owned() }
}

/// Invokes the handler on one decoded event and builds the report request.
/// Whatever the handler returned, a report is built for exactly that
/// outcome; a handler failure is never fatal — only the encoding of a
/// successful output can fail, and that failure is the `Serialize` error.
pub fn dispatch_event<A, B, F>(
    handler: &mut F,
    event: A,
    request_id: &String,
    error_type: &str,
) -> (r: Result<RuntimeRequest, Error>) where
    F: Handler<A, B>,
    B: serde::Serialize,
    <F as Handler<A, B>>::Err: core::fmt::Debug,

    requires
        old(handler).pre(event),
    ensures
        exists|out: Result<B, <F as Handler<A, B>>::Err>|
            {
                &&& #[trigger] old(handler).post(event, out, *final(handler))
                &&& (match out {
                    Ok(_) => (match r {
                        Ok(req) => req.method is Post && req.path@ == response_path(request_id@),
                        Err(e) => e matches Error::Serialize(_),
                    }),
                    Err(_) => r matches Ok(req) && req.method is Post && req.path@ == error_path(
                        request_id@,
                    ) && (exists|m: Seq<char>| req.body@ == spec_diag_json(m, error_type@)),
                })
            },
{
    let out = handler.call(event);
    let ghost gout = out;
    match out {
        Ok(res) => match json_encode(&res) {
            Ok(body) => {
                let req = report_outcome(request_id, Outcome::Success(body));
                proof {
                    assert(old(handler).post(event, gout, *handler));
                }
                Ok(req)
            },
            Err(msg) => {
                proof {
                    assert(old(handler).post(event, gout, *handler));
                }
                Err(Error::Serialize(msg))
            },
        },
        Err(err) => {
            let diagnostic = diagnostic_for(&err, error_type);
            let ghost m = diagnostic.error_message@;
            let req = report_outcome(request_id, Outcome::Failure(diagnostic));
            proof {
                assert(old(handler).post(event, gout, *handler));
                assert(req.body@ == spec_diag_json(m, error_type@));
            }
            Ok(req)
        },
    }
}

/// One full iteration of the executor after the fetch: parses the
/// invocation context from the response headers, decodes the payload,
/// dispatches to the handler, and builds the report request. A malformed
/// response or an undecodable payload is fatal and never reaches the
/// handler; a handler failure is reported, and the loop goes on.
pub fn run_invocation<A, B, F>(
    handler: &mut F,
    headers: &Vec<Header>,
    payload: &str,
    config: Config,
    error_type: &str,
) -> (r: Result<RuntimeRequest, Error>) where
    F: Handler<A, B>,
    A: serde::de::DeserializeOwned,
    B: serde::Serialize,
    <F as Handler<A, B>>::Err: core::fmt::Debug,

    requires
        forall|a: A| #[trigger] old(handler).pre(a),
    ensures
        !spec_ctx_ok(headers@) ==> (r matches Err(e) && (e matches Error::MissingRequestId
            || e matches Error::InvalidDeadline) && *final(handler) == *old(handler)),
        (r matches Ok(req) ==> spec_ctx_ok(headers@) && req.method is Post && (match spec_lookup(
            headers@,
            "lambda-runtime-aws-request-id"@,
        ) {
            Some(id) => req.path@ == response_path(id) || (req.path@ == error_path(id) && (
            exists|m: Seq<char>| req.body@ == spec_diag_json(m, error_type@))),
            None => false,
        })),
        (r matches Err(e) ==> match e {
            Error::MissingRequestId => spec_lookup(headers@, "lambda-runtime-aws-request-id"@)
                is None && *final(handler) == *old(handler),
            Error::InvalidDeadline => spec_lookup(headers@, "lambda-runtime-aws-request-id"@)
                is Some && (spec_lookup(headers@, "lambda-runtime-deadline-ms"@) matches Some(v)
                && spec_parse_u64(v) is None) && *final(handler) == *old(handler),
            Error::Deserialize(_) => spec_ctx_ok(headers@) && *final(handler) == *old(handler),
            Error::Serialize(_) => spec_ctx_ok(headers@),
        }),
{
    let ctx = match LambdaCtx::from_headers(headers, config) {
        Ok(c) => c,
        Err(e) => {
            return Err(e);
        },
    };
    let event: A = match json_decode(payload) {
        Ok(a) => a,
        Err(msg) => {
            return Err(Error::Deserialize(msg));
        },
    };
    dispatch_event(handler, event, &ctx.request_id, error_type)
}

} // verus!
