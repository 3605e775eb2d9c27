//! Types available to a function invocation: the per-invocation context, the
//! wire diagnostic for handler failures, and the closed error type of the
//! protocol codec.

use vstd::prelude::*;
use crate::chars::chars_vec;
use crate::Config;

verus! {

/// One response header, as plain text. Names are matched exactly; the
/// transport layer hands them over lower-cased.
#[derive(Debug, Clone, PartialEq)]
pub struct Header {
    /// The header's name.
    pub name: String,
    /// The header's value.
    pub value: String,
}

/// Structured description of a handler failure, reported to the event source.
#[derive(Debug, Clone, PartialEq)]
pub struct Diagnostic {
    /// Human-readable message, derived from the error's debug rendering.
    pub error_message: String,
    /// Tag derived from the error's type identity.
    pub error_type: String,
}

/// The closed failure type of the protocol codec and the executor: every
/// fatal condition of one loop iteration is one of these.
#[derive(Debug, Clone, PartialEq)]
pub enum Error {
    /// The required request-id header was absent.
    MissingRequestId,
    /// The deadline header was present but not a decimal number that fits.
    InvalidDeadline,
    /// The invocation payload was not valid input for the handler.
    Deserialize(String),
    /// The handler's output could not be encoded.
    Serialize(String),
}

/// Context for one unit of work: created once per loop iteration,
/// immutably describes that iteration.
#[derive(Debug, Clone, PartialEq)]
pub struct LambdaCtx {
    /// The unique identifier of this invocation request.
    pub request_id: String,
    /// The deadline of this invocation, in milliseconds since the epoch;
    /// informational, not enforced.
    pub deadline: u64,
    /// The full name of the invoked function.
    pub invoked_function_arn: String,
    /// The tracing identifier, when the event source supplied one.
    pub xray_trace_id: Option<String>,
    /// Opaque client metadata, when the event source supplied it.
    pub client_context: Option<String>,
    /// Opaque identity metadata, when the event source supplied it.
    pub cognito_identity: Option<String>,
    /// Snapshot of the process configuration, captured at request time.
    pub env_config: Config,
}

/// The value of the first header named `name`, if any.
pub open spec fn spec_lookup(hs: Seq<Header>, name: Seq<char>) -> Option<Seq<char>>
    decreases hs.len(),
{
    if hs.len() == 0 {
        None
    } else if hs[0].name@ == name {
        Some(hs[0].value@)
    } else {
        spec_lookup(hs.drop_first(), name)
    }
}

/// Finds the first header named `name`.
pub fn find_header(hs: &Vec<Header>, name: &String) -> (r: Option<String>)
    ensures
        match r {
            Some(v) => spec_lookup(hs@, name@) == Some(v@),
            None => spec_lookup(hs@, name@) is None,
        },
{
    let mut i: usize = 0;
    proof {
        assert(hs@.skip(0) =~= hs@);
    }
    while i < hs.len()
        invariant
            i <= hs@.len(),
            spec_lookup(hs@.skip(i as int), name@) == spec_lookup(hs@, name@),
        decreases hs@.len() - i,
    {
        proof {
            assert(hs@.skip(i as int)[0] == hs@[i as int]);
            assert(hs@.skip(i as int).drop_first() =~= hs@.skip(i + 1));
        }
        if hs[i].name.eq(name) {
            return Some(hs[i].value.clone());
        }
        i += 1;
    }
    proof {
        assert(hs@.skip(i as int).len() == 0);
    }
    None
}

/// Whether `c` is a decimal digit.
pub open spec fn is_digit(c: char) -> bool {
    '0' as u32 <= c as u32 && c as u32 <= '9' as u32
}

/// The value of the digit `c`.
pub open spec fn digit_val(c: char) -> int {
    c as u32 - '0' as u32
}

/// Whether every character of `s` is a decimal digit.
pub open spec fn all_digits(s: Seq<char>) -> bool {
    forall|i: int| 0 <= i < s.len() ==> is_digit(#[trigger] s[i])
}

/// The number written in decimal as `s`.
pub open spec fn digits_val(s: Seq<char>) -> int
    decreases s.len(),
{
    if s.len() == 0 {
        0
    } else {
        digits_val(s.drop_last()) * 10 + digit_val(s.last())
    }
}

/// The number parsed from `s`: defined exactly when `s` is a non-empty
/// run of digits whose value fits.
pub open spec fn spec_parse_u64(s: Seq<char>) -> Option<u64> {
    if s.len() > 0 && all_digits(s) && digits_val(s) <= u64::MAX {
        Some(digits_val(s) as u64)
    } else {
        None
    }
}

proof fn lemma_digits_val_nonneg(s: Seq<char>)
    requires
        all_digits(s),
    ensures
        digits_val(s) >= 0,
    decreases s.len(),
{
    if s.len() > 0 {
        assert(all_digits(s.drop_last())) by {
            assert(forall|i: int| 0 <= i < s.len() - 1 ==> s.drop_last()[i] == s[i]);
        }
        lemma_digits_val_nonneg(s.drop_last());
    }
}

proof fn lemma_digits_val_prefix_le(s: Seq<char>, i: int)
    requires
        all_digits(s),
        0 <= i <= s.len(),
    ensures
        digits_val(s.take(i)) <= digits_val(s),
    decreases s.len() - i,
{
    if i < s.len() {
        lemma_digits_val_prefix_le(s, i + 1);
        let p = s.take(i + 1);
        assert(p.drop_last() =~= s.take(i));
        assert(all_digits(s.take(i))) by {
            assert(forall|k: int| 0 <= k < i ==> s.take(i)[k] == s[k]);
        }
        lemma_digits_val_nonneg(s.take(i));
        assert(digits_val(p) == digits_val(s.take(i)) * 10 + digit_val(p.last()));
        assert(digits_val(s.take(i)) * 10 >= digits_val(s.take(i)));
        assert(is_digit(s[i]));
    } else {
        assert(s.take(i) =~= s);
    }
}

/// Whether the fetch-response headers `hs` describe a well-formed
/// invocation: the required request-id header is present, and the deadline
/// header, when present, is a decimal number.
pub open spec fn spec_ctx_ok(hs: Seq<Header>) -> bool {
    &&& spec_lookup(hs, "lambda-runtime-aws-request-id"@) is Some
    &&& match spec_lookup(hs, "lambda-runtime-deadline-ms"@) {
        None => true,
        Some(v) => spec_parse_u64(v) is Some,
    }
}

impl LambdaCtx {
    /// Builds the context for one invocation from the fetch-response
    /// headers, with `config` as this iteration's configuration snapshot.
    /// Fails exactly when the request-id header is absent or the deadline
    /// header is present but malformed; absent optional headers default to
    /// empty or absent fields.
    pub fn from_headers(headers: &Vec<Header>, config: Config) -> (r: Result<LambdaCtx, Error>)
        ensures
            r is Ok <==> spec_ctx_ok(headers@),
            (r matches Ok(ctx) ==> {
                &&& Some(ctx.request_id@) == spec_lookup(
                    headers@,
                    "lambda-runtime-aws-request-id"@,
                )
                &&& match spec_lookup(headers@, "lambda-runtime-deadline-ms"@) {
                    None => ctx.deadline == 0,
                    Some(v) => Some(ctx.deadline) == spec_parse_u64(v),
                }
                &&& match spec_lookup(headers@, "lambda-runtime-invoked-function-arn"@) {
                    None => ctx.invoked_function_arn@ == Seq::<char>::empty(),
                    Some(v) => ctx.invoked_function_arn@ == v,
                }
                &&& match spec_lookup(headers@, "lambda-runtime-trace-id"@) {
                    None => ctx.xray_trace_id is None,
                    Some(v) => ctx.xray_trace_id matches Some(t) && t@ == v,
                }
                &&& match spec_lookup(headers@, "lambda-runtime-client-context"@) {
                    None => ctx.client_context is None,
                    Some(v) => ctx.client_context matches Some(t) && t@ == v,
                }
                &&& match spec_lookup(headers@, "lambda-runtime-cognito-identity"@) {
                    None => ctx.cognito_identity is None,
                    Some(v) => ctx.cognito_identity matches Some(t) && t@ == v,
                }
                &&& ctx.env_config == config
            }),
            (r matches Err(e) ==> match e {
                Error::MissingRequestId => spec_lookup(
                    headers@,
                    "lambda-runtime-aws-request-id"@,
                ) is None,
                Error::InvalidDeadline => spec_lookup(
                    headers@,
                    "lambda-runtime-aws-request-id"@,
                ) is Some && (spec_lookup(headers@, "lambda-runtime-deadline-ms"@) matches Some(v)
                    && spec_parse_u64(v) is None),
                _ => false,
            }),
    {
        let request_id = match find_header(headers, &"lambda-runtime-aws-request-id".to_owned()) {
            Some(v) => v,
            None => {
                return Err(Error::MissingRequestId);
            },
        };
        let deadline: u64 = match find_header(headers, &"lambda-runtime-deadline-ms".to_owned()) {
            Some(v) => match parse_u64(v.as_str()) {
                Some(n) => n,
                None => {
                    return Err(Error::InvalidDeadline);
                },
            },
            None => 0,
        };
        let invoked_function_arn = match find_header(
            headers,
            &"lambda-runtime-invoked-function-arn".to_owned(),
        ) {
            Some(v) => v,
            None => String::new(),
        };
        let xray_trace_id = find_header(headers, &"lambda-runtime-trace-id".to_owned());
        let client_context = find_header(headers, &"lambda-runtime-client-context".to_owned());
        let cognito_identity = find_header(headers, &"lambda-runtime-cognito-identity".to_owned());
        Ok(
            LambdaCtx {
                request_id,
                deadline,
                invoked_function_arn,
                xray_trace_id,
                client_context,
                cognito_identity,
                env_config: config,
            },
        )
    }
}

/// Parses a non-empty run of decimal digits as a 64-bit number.
pub fn parse_u64(s: &str) -> (r: Option<u64>)
    ensures
        r == spec_parse_u64(s@),
{
    let v = chars_vec(s);
    if v.len() == 0 {
        return None;
    }
    let mut acc: u64 = 0;
    let mut i: usize = 0;
    while i < v.len()
        invariant
            i <= v@.len(),
            v@ == s@,
            v@.len() > 0,
            all_digits(s@.take(i as int)),
            acc == digits_val(s@.take(i as int)),
        decreases v@.len() - i,
    {
        let c = v[i];
        let u = c as u32;
        if u < 48 || u > 57 {
            proof {
                assert(!is_digit(s@[i as int]));
            }
            return None;
        }
        let d = (u - 48) as u64;
        proof {
            assert(s@.take(i + 1).drop_last() =~= s@.take(i as int));
            assert(s@.take(i + 1).last() == s@[i as int]);
            assert(forall|k: int| 0 <= k < i + 1 ==> s@.take(i + 1)[k] == s@[k]);
        }
        let next = match acc.checked_mul(10) {
            Some(m) => m.checked_add(d),
            None => None,
        };
        match next {
            Some(n) => {
                acc = n;
            },
            None => {
                proof {
                    if all_digits(s@) {
                        lemma_digits_val_prefix_le(s@, i + 1);
                        assert(digits_val(s@.take(i + 1)) > u64::MAX);
                    }
                }
                return None;
            },
        }
        i += 1;
    }
    proof {
        assert(s@.take(i as int) =~= s@);
    }
    Some(acc)
}

} // verus!
