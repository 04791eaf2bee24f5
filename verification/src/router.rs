//! Request routing for the log service: `GET /health` answers
//! unconditionally, `GET /logs` demands a valid bearer token before
//! any log is read, and everything else is a usage hint. The decision
//! is a pure function of the method, the URL and the request's
//! `Authorization` values; performing I/O on its verdict is the
//! caller's business.

use vstd::prelude::*;

use crate::auth::{spec_validate, AuthStrategy};
use crate::digits::{spec_parse_usize, parse_usize_decimal};
use crate::identity::opt_view;
use crate::strutil::{spec_split, split_str, str_eq, has_prefix};
use crate::tail::{TailError, MAX_TAIL_LINES};

verus! {

/// The value of the first `key=value` pair matching the parameter, if
/// any. A pair with no `=` never matches, whatever its key.
pub open spec fn spec_find_pair(pairs: Seq<Seq<char>>, param: Seq<char>) -> Option<Seq<char>>
    decreases pairs.len(),
{
    if pairs.len() == 0 {
        None
    } else {
        let kv = spec_split(pairs[0], '=');
        if kv[0] == param && kv.len() >= 2 {
            Some(kv[1])
        } else {
            spec_find_pair(pairs.drop_first(), param)
        }
    }
}

/// The query parameter's value: the text between the first and second
/// `=` of the first `&`-separated pair whose key matches, in the part
/// of the URL after the first `?`. Nothing without a query string.
pub open spec fn spec_parse_query_param(url: Seq<char>, param: Seq<char>) -> Option<Seq<char>> {
    let up = spec_split(url, '?');
    if up.len() < 2 {
        None
    } else {
        spec_find_pair(spec_split(up[1], '&'), param)
    }
}

/// Extracts a query parameter from a URL.
pub fn parse_query_param(url: &str, param: &str) -> (r: Option<String>)
    ensures
        opt_view(r) == spec_parse_query_param(url@, param@),
{
    let up = split_str(url, '?');
    if up.len() < 2 {
        return None;
    }
    proof {
        assert(up.deep_view()[1] == up@[1]@);
    }
    let pairs = split_str(up[1].as_str(), '&');
    let ghost pdv = pairs.deep_view();
    let n = pairs.len();
    let mut i: usize = 0;
    proof {
        assert(pdv.skip(0) =~~= pdv);
    }
    while i < n
        invariant
            i <= n,
            n == pdv.len(),
            n == pairs@.len(),
            pdv == pairs.deep_view(),
            spec_split(url@, '?').len() >= 2,
            pdv == spec_split(spec_split(url@, '?')[1], '&'),
            spec_find_pair(pdv, param@) == spec_find_pair(pdv.skip(i as int), param@),
        decreases n - i,
    {
        proof {
            assert(pdv.skip(i as int)[0] == pdv[i as int]);
            assert(pdv.skip(i as int).drop_first() =~~= pdv.skip(i + 1));
            assert(pdv[i as int] == pairs@[i as int]@);
        }
        let kv = split_str(pairs[i].as_str(), '=');
        proof {
            crate::strutil::lemma_split_len(pairs@[i as int]@, '=');
            assert(kv.deep_view()[0] == kv@[0]@);
        }
        if str_eq(kv[0].as_str(), param) {
            if kv.len() >= 2 {
                let v = kv[1].clone();
                proof {
                    assert(kv.deep_view()[1] == kv@[1]@);
                    assert(kv.deep_view() == spec_split(pdv.skip(i as int)[0], '='));
                    assert(spec_find_pair(pdv.skip(i as int), param@) == Some(kv.deep_view()[1]));
                }
                return Some(v);
            }
        }
        i = i + 1;
    }
    proof {
        assert(pdv.skip(n as int) =~~= Seq::<Seq<char>>::empty());
    }
    None
}

/// How many lines a `/logs` request asks for: the `lines` parameter
/// when it parses as a number, else the default of 100, clamped to
/// the line cap.
pub open spec fn spec_requested_lines(url: Seq<char>) -> int {
    let n = match spec_parse_query_param(url, "lines"@) {
        Some(v) => match spec_parse_usize(v) {
            Some(k) => k as int,
            None => 100,
        },
        None => 100,
    };
    if n < MAX_TAIL_LINES as int {
        n
    } else {
        MAX_TAIL_LINES as int
    }
}

/// Reads the requested line count out of a `/logs` URL.
pub fn requested_lines(url: &str) -> (r: usize)
    ensures
        r == spec_requested_lines(url@),
{
    let n: usize = match parse_query_param(url, "lines") {
        Some(v) => match parse_usize_decimal(v.as_str()) {
            Some(k) => k,
            None => 100,
        },
        None => 100,
    };
    if n < MAX_TAIL_LINES {
        n
    } else {
        MAX_TAIL_LINES
    }
}

/// The token of an `Authorization` value carrying the `Bearer`
/// scheme.
pub open spec fn spec_bearer(h: Seq<char>) -> Option<Seq<char>> {
    if "Bearer "@.is_prefix_of(h) {
        Some(h.skip("Bearer "@.len() as int))
    } else {
        None
    }
}

/// Strips the `Bearer ` scheme off an `Authorization` value.
pub fn bearer_token(h: &str) -> (r: Option<String>)
    ensures
        opt_view(r) == spec_bearer(h@),
{
    proof {
        reveal_strlit("Bearer ");
    }
    if has_prefix(h, "Bearer ") {
        let n = h.unicode_len();
        Some(String::from_str(h.substring_char(7, n)))
    } else {
        None
    }
}

/// Whether one `Authorization` value authorizes the request: it
/// carries a bearer token the strategy validates.
pub open spec fn spec_header_authorizes(h: Seq<char>, s: &AuthStrategy) -> bool {
    match spec_bearer(h) {
        Some(t) => spec_validate(s, t) is Some,
        None => false,
    }
}

/// Whether any of the request's `Authorization` values authorizes it.
pub open spec fn spec_authorized(headers: Seq<Seq<char>>, s: &AuthStrategy) -> bool {
    exists|i: int| 0 <= i < headers.len() && spec_header_authorizes(#[trigger] headers[i], s)
}

/// Where a request is routed.
#[derive(Clone, Copy, Debug, PartialEq, Eq, Structural)]
pub enum RouteOutcome {
    /// `GET /health`: answer 200 `OK`, unconditionally.
    HealthOk,
    /// `GET /logs` without a valid bearer token: answer 401 before
    /// touching the log source.
    Unauthorized,
    /// `GET /logs` with a valid token: serve this many lines.
    ServeLogs { lines: usize },
    /// Anything else: answer 404 with a usage hint.
    NotFound,
}

/// The routing decision: only `GET` is served; `/logs` (and anything
/// below it) is gated by the validator before the line count is even
/// read; `/health` answers unconditionally; the rest is unknown.
pub open spec fn spec_route(
    method: Seq<char>,
    url: Seq<char>,
    headers: Seq<Seq<char>>,
    s: &AuthStrategy,
) -> RouteOutcome {
    if method != "GET"@ {
        RouteOutcome::NotFound
    } else if "/logs"@.is_prefix_of(url) {
        if spec_authorized(headers, s) {
            RouteOutcome::ServeLogs { lines: spec_requested_lines(url) as usize }
        } else {
            RouteOutcome::Unauthorized
        }
    } else if url == "/health"@ {
        RouteOutcome::HealthOk
    } else {
        RouteOutcome::NotFound
    }
}

/// Routes one request from its method, URL and `Authorization`
/// values.
pub fn route(method: &str, url: &str, header_values: &Vec<String>, strategy: &AuthStrategy) -> (r:
    RouteOutcome)
    ensures
        r == spec_route(method@, url@, header_values.deep_view(), strategy),
{
    if !str_eq(method, "GET") {
        return RouteOutcome::NotFound;
    }
    if has_prefix(url, "/logs") {
        let ghost hdv = header_values.deep_view();
        let n = header_values.len();
        let mut i: usize = 0;
        while i < n
            invariant
                i <= n,
                n == hdv.len(),
                n == header_values@.len(),
                hdv == header_values.deep_view(),
                method@ == "GET"@,
                "/logs"@.is_prefix_of(url@),
                forall|j: int| 0 <= j < i ==> !spec_header_authorizes(#[trigger] hdv[j], strategy),
            decreases n - i,
        {
            proof {
                assert(hdv[i as int] == header_values@[i as int]@);
            }
            match bearer_token(header_values[i].as_str()) {
                Some(token) => {
                    match strategy.validate(token.as_str()) {
                        Some(_) => {
                            proof {
                                assert(spec_header_authorizes(hdv[i as int], strategy));
                            }
                            let lines = requested_lines(url);
                            return RouteOutcome::ServeLogs { lines };
                        },
                        None => {},
                    }
                },
                None => {},
            }
            i = i + 1;
        }
        return RouteOutcome::Unauthorized;
    }
    if str_eq(url, "/health") {
        return RouteOutcome::HealthOk;
    }
    RouteOutcome::NotFound
}

/// The liveness answer: 200 `OK`, whatever the auth state.
pub fn health_response() -> (r: (u16, String))
    ensures
        r.0 == 200,
        r.1@ == "OK"@,
{
    (200, String::from_str("OK"))
}

/// The answer for a request that presented no valid token.
pub fn unauthorized_response() -> (r: (u16, String))
    ensures
        r.0 == 401,
        r.1@ == "Unauthorized"@,
{
    (401, String::from_str("Unauthorized"))
}

/// The answer for an unknown route or method: a usage hint.
pub fn not_found_response() -> (r: (u16, String))
    ensures
        r.0 == 404,
        r.1@ == "Use GET /logs?lines=100 or GET /health"@,
{
    (404, String::from_str("Use GET /logs?lines=100 or GET /health"))
}

/// The answer for an authorized `/logs` request: the tailed text on
/// success, or 500 on a read failure.
pub fn read_response(result: Result<String, TailError>) -> (r: (u16, String))
    ensures
        match result {
            Ok(text) => r.0 == 200 && r.1 == text,
            Err(_) => r.0 == 500 && r.1@ == "Error reading logs"@,
        },
{
    match result {
        Ok(text) => (200, text),
        Err(_) => (500, String::from_str("Error reading logs")),
    }
}

} // verus!
