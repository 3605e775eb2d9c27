use lambda::executor::{dispatch_event, report_outcome, run_invocation, Outcome};
use lambda::json::{parse_diagnostic, render_diagnostic};
use lambda::requests::{
    EventCompletionRequest, EventErrorRequest, Method, NextEventRequest, RuntimeRequest,
};
use lambda::types::{parse_u64, Diagnostic, Error, Header, LambdaCtx};
use lambda::{handler_fn, Config, Handler};

fn hdr(name: &str, value: &str) -> Header {
    Header { name: name.to_string(), value: value.to_string() }
}

fn test_config() -> Config {
    Config {
        endpoint: "127.0.0.1:9001".to_string(),
        function_name: "test-fn".to_string(),
        memory: 128,
        version: "$LATEST".to_string(),
        log_stream: "stream".to_string(),
        log_group: "group".to_string(),
    }
}

fn base_headers() -> Vec<Header> {
    vec![hdr("lambda-runtime-aws-request-id", "abc-123")]
}

#[test]
fn next_event_request_shape() {
    let req: RuntimeRequest = NextEventRequest.into_req();
    assert_eq!(req.method, Method::Get);
    assert_eq!(req.path, "/2018-06-01/runtime/invocation/next");
    assert_eq!(req.body, "");
}

#[test]
fn completion_request_shape() {
    let req = EventCompletionRequest {
        request_id: "abc-123".to_string(),
        body: "\"hello\"".to_string(),
    }
    .into_req();
    assert_eq!(req.method, Method::Post);
    assert_eq!(req.path, "/2018-06-01/runtime/invocation/abc-123/response");
    assert_eq!(req.body, "\"hello\"");
}

#[test]
fn error_request_shape() {
    let req = EventErrorRequest {
        request_id: "abc-123".to_string(),
        diagnostic: Diagnostic {
            error_message: "boom".to_string(),
            error_type: "test.Error".to_string(),
        },
    }
    .into_req();
    assert_eq!(req.method, Method::Post);
    assert_eq!(req.path, "/2018-06-01/runtime/invocation/abc-123/error");
    assert_eq!(req.body, "{\"errorMessage\":\"boom\",\"errorType\":\"test.Error\"}");
}

#[test]
fn report_outcome_success_body_unchanged() {
    let id = "abc-123".to_string();
    let req = report_outcome(&id, Outcome::Success("\"hello\"".to_string()));
    assert_eq!(req.method, Method::Post);
    assert_eq!(req.path, "/2018-06-01/runtime/invocation/abc-123/response");
    assert_eq!(req.body, "\"hello\"");
}

#[test]
fn report_outcome_failure_shape() {
    let id = "abc-123".to_string();
    let d = Diagnostic {
        error_message: "it broke".to_string(),
        error_type: "test.Error".to_string(),
    };
    let req = report_outcome(&id, Outcome::Failure(d));
    assert_eq!(req.method, Method::Post);
    assert_eq!(req.path, "/2018-06-01/runtime/invocation/abc-123/error");
    assert_eq!(req.body, "{\"errorMessage\":\"it broke\",\"errorType\":\"test.Error\"}");
}

#[test]
fn diagnostic_json_escapes() {
    let d = Diagnostic {
        error_message: "say \"hi\"\\\n\tdone".to_string(),
        error_type: "t".to_string(),
    };
    let text = render_diagnostic(&d);
    assert_eq!(text, "{\"errorMessage\":\"say \\\"hi\\\"\\\\\\n\\tdone\",\"errorType\":\"t\"}");
}

#[test]
fn diagnostic_round_trip_plain() {
    let d = Diagnostic {
        error_message: "boom".to_string(),
        error_type: "test.Error".to_string(),
    };
    let parsed = parse_diagnostic(&render_diagnostic(&d)).expect("round trip");
    assert_eq!(parsed.error_message, d.error_message);
    assert_eq!(parsed.error_type, d.error_type);
}

#[test]
fn diagnostic_round_trip_special_chars() {
    let d = Diagnostic {
        error_message: "a \"quoted\" piece, a back\\slash,\na new line,\r\ta tab, und ein Grüß".to_string(),
        error_type: "crate::module::Error<\"T\">".to_string(),
    };
    let parsed = parse_diagnostic(&render_diagnostic(&d)).expect("round trip");
    assert_eq!(parsed.error_message, d.error_message);
    assert_eq!(parsed.error_type, d.error_type);
}

#[test]
fn diagnostic_round_trip_empty() {
    let d = Diagnostic { error_message: "".to_string(), error_type: "".to_string() };
    let parsed = parse_diagnostic(&render_diagnostic(&d)).expect("round trip");
    assert_eq!(parsed.error_message, "");
    assert_eq!(parsed.error_type, "");
}

#[test]
fn control_characters_use_unicode_escapes() {
    let d = Diagnostic {
        error_message: "a\u{1}b\u{1f}c".to_string(),
        error_type: "t".to_string(),
    };
    let text = render_diagnostic(&d);
    assert_eq!(text, "{\"errorMessage\":\"a\\u0001b\\u001fc\",\"errorType\":\"t\"}");
    let parsed = parse_diagnostic(&text).expect("round trip");
    assert_eq!(parsed.error_message, d.error_message);
    let value: serde_json::Value = serde_json::from_str(&text).expect("valid JSON");
    assert_eq!(value["errorMessage"], serde_json::Value::String(d.error_message.clone()));
}

#[test]
fn unicode_escapes_outside_controls_are_rejected() {
    // the codec writes `\u00XX` only for control characters and reads back
    // exactly what it writes
    assert!(parse_diagnostic("{\"errorMessage\":\"\\u0041\",\"errorType\":\"b\"}").is_none());
    assert!(parse_diagnostic("{\"errorMessage\":\"\\u00zz\",\"errorType\":\"b\"}").is_none());
    assert!(parse_diagnostic("{\"errorMessage\":\"\\u001\",\"errorType\":\"b\"}").is_none());
}

#[test]
fn parse_diagnostic_rejects_malformed() {
    assert!(parse_diagnostic("").is_none());
    assert!(parse_diagnostic("{}").is_none());
    assert!(parse_diagnostic("{\"errorMessage\":\"a\"}").is_none());
    assert!(parse_diagnostic("{\"errorMessage\":\"a\",\"errorType\":\"b\"} ").is_none());
    assert!(parse_diagnostic("{\"errorMessage\":\"a\\x\",\"errorType\":\"b\"}").is_none());
}

#[test]
fn parse_u64_exact() {
    assert_eq!(parse_u64("0"), Some(0));
    assert_eq!(parse_u64("1565030102147"), Some(1565030102147));
    assert_eq!(parse_u64("18446744073709551615"), Some(u64::MAX));
    assert_eq!(parse_u64("18446744073709551616"), None);
    assert_eq!(parse_u64(""), None);
    assert_eq!(parse_u64("12x"), None);
    assert_eq!(parse_u64("-1"), None);
}

#[test]
fn headers_missing_request_id_fail() {
    let headers = vec![hdr("lambda-runtime-deadline-ms", "123")];
    let r = LambdaCtx::from_headers(&headers, test_config());
    assert_eq!(r, Err(Error::MissingRequestId));
}

#[test]
fn headers_only_required_defaults() {
    let headers = base_headers();
    let ctx = LambdaCtx::from_headers(&headers, test_config()).expect("parse");
    assert_eq!(ctx.request_id, "abc-123");
    assert_eq!(ctx.deadline, 0);
    assert_eq!(ctx.invoked_function_arn, "");
    assert_eq!(ctx.xray_trace_id, None);
    assert_eq!(ctx.client_context, None);
    assert_eq!(ctx.cognito_identity, None);
    assert_eq!(ctx.env_config, test_config());
}

#[test]
fn headers_all_present() {
    let headers = vec![
        hdr("lambda-runtime-aws-request-id", "abc-123"),
        hdr("lambda-runtime-deadline-ms", "1565030102147"),
        hdr("lambda-runtime-invoked-function-arn", "arn:aws:lambda:eu-west-1:123:function:f"),
        hdr("lambda-runtime-trace-id", "Root=1-5f;Parent=2a"),
        hdr("lambda-runtime-client-context", "{}"),
        hdr("lambda-runtime-cognito-identity", "{\"id\":\"x\"}"),
    ];
    let ctx = LambdaCtx::from_headers(&headers, test_config()).expect("parse");
    assert_eq!(ctx.request_id, "abc-123");
    assert_eq!(ctx.deadline, 1565030102147);
    assert_eq!(ctx.invoked_function_arn, "arn:aws:lambda:eu-west-1:123:function:f");
    assert_eq!(ctx.xray_trace_id.as_deref(), Some("Root=1-5f;Parent=2a"));
    assert_eq!(ctx.client_context.as_deref(), Some("{}"));
    assert_eq!(ctx.cognito_identity.as_deref(), Some("{\"id\":\"x\"}"));
}

#[test]
fn headers_bad_deadline_fails() {
    let mut headers = base_headers();
    headers.push(hdr("lambda-runtime-deadline-ms", "12x"));
    let r = LambdaCtx::from_headers(&headers, test_config());
    assert_eq!(r, Err(Error::InvalidDeadline));

    let mut headers = base_headers();
    headers.push(hdr("lambda-runtime-deadline-ms", "99999999999999999999999"));
    let r = LambdaCtx::from_headers(&headers, test_config());
    assert_eq!(r, Err(Error::InvalidDeadline));
}

#[test]
fn run_invocation_echo_success() {
    let mut handler = handler_fn(|s: String| -> Result<String, String> { Ok(s) });
    let headers = base_headers();
    let req = run_invocation(&mut handler, &headers, "\"hello\"", test_config(), "test.Error")
        .expect("one iteration");
    assert_eq!(req.method, Method::Post);
    assert_eq!(req.path, "/2018-06-01/runtime/invocation/abc-123/response");
    assert_eq!(req.body, "\"hello\"");
}

#[test]
fn run_invocation_failure_reported() {
    let mut handler = handler_fn(|_s: String| -> Result<String, String> {
        Err("boom".to_string())
    });
    let headers = base_headers();
    let req = run_invocation(&mut handler, &headers, "\"hello\"", test_config(), "test.Error")
        .expect("a failing handler is reported, not fatal");
    assert_eq!(req.method, Method::Post);
    assert_eq!(req.path, "/2018-06-01/runtime/invocation/abc-123/error");
    let d = parse_diagnostic(&req.body).expect("diagnostic body");
    assert_eq!(d.error_message, format!("{:?}", "boom".to_string()));
    assert_eq!(d.error_type, "test.Error");
    assert!(!d.error_type.is_empty());
}

#[test]
fn run_invocation_missing_request_id_is_fatal() {
    let mut handler = handler_fn(|s: String| -> Result<String, String> { Ok(s) });
    let headers: Vec<Header> = Vec::new();
    let r = run_invocation(&mut handler, &headers, "\"hello\"", test_config(), "test.Error");
    assert_eq!(r, Err(Error::MissingRequestId));
}

#[test]
fn run_invocation_undecodable_payload_is_fatal() {
    let mut handler = handler_fn(|s: String| -> Result<String, String> { Ok(s) });
    let headers = base_headers();
    let r = run_invocation(&mut handler, &headers, "not json", test_config(), "test.Error");
    assert!(matches!(r, Err(Error::Deserialize(_))));
}

#[test]
fn run_invocation_number_payload() {
    let mut handler = handler_fn(|x: i64| -> Result<i64, String> { Ok(x + 1) });
    let headers = base_headers();
    let req = run_invocation(&mut handler, &headers, "41", test_config(), "test.Error")
        .expect("one iteration");
    assert_eq!(req.body, "42");
    assert_eq!(req.path, "/2018-06-01/runtime/invocation/abc-123/response");
}

#[test]
fn dispatch_event_builds_success_report() {
    let mut handler = handler_fn(|x: i64| -> Result<i64, String> { Ok(x * 2) });
    let id = "abc-123".to_string();
    let req = dispatch_event(&mut handler, 21, &id, "test.Error").expect("report");
    assert_eq!(req.method, Method::Post);
    assert_eq!(req.path, "/2018-06-01/runtime/invocation/abc-123/response");
    assert_eq!(req.body, "42");
}

#[test]
fn handler_fn_forwards_to_the_function() {
    let mut handler = handler_fn(|s: String| -> Result<String, String> {
        Ok(format!("got {}", s))
    });
    let r = handler.call("x".to_string());
    assert_eq!(r, Ok("got x".to_string()));
}

struct Unencodable;

impl serde::Serialize for Unencodable {
    fn serialize<S: serde::Serializer>(&self, _s: S) -> Result<S::Ok, S::Error> {
        Err(<S::Error as serde::ser::Error>::custom("cannot encode"))
    }
}

#[test]
fn encoding_failure_is_a_serialize_error() {
    let mut handler = handler_fn(|_s: String| -> Result<Unencodable, String> { Ok(Unencodable) });
    let headers = base_headers();
    let r = run_invocation(&mut handler, &headers, "\"x\"", test_config(), "test.Error");
    assert!(matches!(r, Err(Error::Serialize(_))));
}

#[test]
fn header_names_match_exactly() {
    // names are matched as given; the transport layer lower-cases them
    let headers = vec![hdr("Lambda-Runtime-Aws-Request-Id", "abc-123")];
    let r = LambdaCtx::from_headers(&headers, test_config());
    assert_eq!(r, Err(Error::MissingRequestId));
}

#[test]
fn first_header_of_a_name_wins() {
    let headers = vec![
        hdr("lambda-runtime-aws-request-id", "first"),
        hdr("lambda-runtime-aws-request-id", "second"),
    ];
    let ctx = LambdaCtx::from_headers(&headers, test_config()).expect("parse");
    assert_eq!(ctx.request_id, "first");
}

#[test]
fn diagnostic_body_is_json_for_serde() {
    let d = Diagnostic {
        error_message: "line one\nline \"two\"".to_string(),
        error_type: "test.Error".to_string(),
    };
    let text = render_diagnostic(&d);
    let value: serde_json::Value = serde_json::from_str(&text).expect("valid JSON");
    assert_eq!(value["errorMessage"], serde_json::Value::String(d.error_message.clone()));
    assert_eq!(value["errorType"], serde_json::Value::String(d.error_type.clone()));
}
