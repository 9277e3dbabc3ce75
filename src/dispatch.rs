//! The decisions of a connection's worker: whether the handler runs, and
//! which response goes back.
use vstd::prelude::*;
use crate::parse::{internal_parse, parsed};
use crate::respond::{default_headers, is_default_response};
use crate::types::{HttpStatusCode, HttpVersion, Request, Response};

verus! {

/// What a worker does with a connection once its text is read.
pub enum Step {
    /// Hand the request and its default response to the handler, then send
    /// the response.
    Invoke(Request, Response),
    /// Send the response; the handler is not invoked.
    Reply(Response),
}

/// Whether `r` is the response to a request that could not be read or parsed.
pub open spec fn is_rejection(r: Response) -> bool {
    &&& r.status == HttpStatusCode::Code400
    &&& r.http_version == HttpVersion::Http1_1
    &&& r.headers@ == default_headers()
    &&& r.body@.len() == 0
}

/// The response to a request that could not be read or parsed: status 400,
/// version 1.1, the default headers and no body.
pub fn rejection() -> (r: Response)
    ensures
        is_rejection(r),
{
    let mut r = Response::with_version(HttpVersion::Http1_1);
    r.status = HttpStatusCode::Code400;
    r
}

/// The first step for the text read from a connection: a request that parses
/// goes to the handler with its default response; any other text is rejected.
pub fn begin(text: String) -> (r: Step)
    ensures
        match parsed(text@) {
            Ok(v) => r matches Step::Invoke(q, res) && q@ == v && is_default_response(
                res,
                q.http_version,
            ),
            Err(_) => r matches Step::Reply(res) && is_rejection(res),
        },
{
    match internal_parse(text) {
        Ok(req) => {
            let res = Response::for_request(&req);
            Step::Invoke(req, res)
        },
        Err(_) => Step::Reply(rejection()),
    }
}

/// The response once the handler has returned: a status it returned replaces
/// the response's status; all else stays as the handler left it.
pub fn conclude(res: Response, outcome: Option<HttpStatusCode>) -> (r: Response)
    ensures
        r.headers == res.headers,
        r.http_version == res.http_version,
        r.body == res.body,
        r.status == match outcome {
            Some(c) => c,
            None => res.status,
        },
{
    let mut r = res;
    if let Some(c) = outcome {
        r.status = c;
    }
    r
}

} // verus!
