//! The HTTP signaling surface, reduced to the decisions the service
//! makes: which handler a method and path select, and the status,
//! cross-origin header and body of each reply.  Listening, request
//! parsing and writing the reply onto the wire stay outside.

use vstd::prelude::*;

verus! {

use vstd::string::StrSliceExecFns;
use vstd::string::StringExecFns;
use crate::signaling::SignalingError;

/// The request methods the service distinguishes; everything else can
/// only reach the not-found reply.
#[derive(Clone, Copy, Debug, PartialEq, Eq, Structural)]
pub enum RequestMethod {
    Get,
    Post,
    Other,
}

/// The handler a request is routed to.
#[derive(Clone, Copy, Debug, PartialEq, Eq, Structural)]
pub enum Route {
    /// Serve the static diagnostic page.
    Index,
    /// Run a signaling exchange on the request body.
    NewSession,
    /// Answer 404; nothing else happens.
    NotFound,
}

/// A reply of the signaling surface, reduced to what the service
/// decides: status code, whether any origin may read the reply, body.
#[derive(Debug, PartialEq, Eq)]
pub struct HttpReply {
    pub status: u16,
    pub allow_any_origin: bool,
    pub body: String,
}

/// The static diagnostic page served at the root path.
pub const DIAGNOSTIC_PAGE: &'static str = "<!DOCTYPE html><html><head><title>datagram echo service</title></head><body><h1>datagram echo service</h1><p>This service echoes every datagram of an established session back to its sender. POST a session offer to /new_rtc_session to begin.</p></body></html>";

/// The body of the reply to a request nothing handles.
pub const NOT_FOUND_BODY: &'static str = "not found";

/// The routing table: GET on the root or index path serves the
/// diagnostic page, POST on the session path runs a signaling exchange,
/// and every other combination of method and path is not found.
pub open spec fn route_of(method: RequestMethod, path: Seq<char>) -> Route {
    if method == RequestMethod::Get && (path == "/"@ || path == "/index.html"@) {
        Route::Index
    } else if method == RequestMethod::Post && path == "/new_rtc_session"@ {
        Route::NewSession
    } else {
        Route::NotFound
    }
}

/// Character-for-character equality of two strings.
fn str_eq(a: &str, b: &str) -> (r: bool)
    ensures
        r == (a@ == b@),
{
    let a_len = a.unicode_len();
    let b_len = b.unicode_len();
    if a_len != b_len {
        return false;
    }
    let mut i: usize = 0;
    while i < a_len
        invariant
            a@.len() == a_len,
            b@.len() == a_len,
            i <= a_len,
            forall|k: int| 0 <= k < i ==> a@[k] == b@[k],
        decreases a_len - i,
    {
        if a.get_char(i) != b.get_char(i) {
            return false;
        }
        i = i + 1;
    }
    proof {
        assert(a@ =~= b@);
    }
    true
}

/// Selects the handler for one request.
pub fn route(method: RequestMethod, path: &str) -> (r: Route)
    ensures
        r == route_of(method, path@),
{
    match method {
        RequestMethod::Get => {
            if str_eq(path, "/") || str_eq(path, "/index.html") {
                Route::Index
            } else {
                Route::NotFound
            }
        },
        RequestMethod::Post => {
            if str_eq(path, "/new_rtc_session") {
                Route::NewSession
            } else {
                Route::NotFound
            }
        },
        RequestMethod::Other => Route::NotFound,
    }
}

/// Unknown paths and methods always route to the not-found reply: the
/// routing table holds exactly two handled combinations, and every other
/// request reads no state and registers nothing.
pub proof fn lemma_unknown_is_not_found(method: RequestMethod, path: Seq<char>)
    requires
        !(method == RequestMethod::Get && (path == "/"@ || path == "/index.html"@)),
        !(method == RequestMethod::Post && path == "/new_rtc_session"@),
    ensures
        route_of(method, path) == Route::NotFound,
{
}

/// The reply that serves the diagnostic page: 200, page verbatim.
pub fn index_reply() -> (r: HttpReply)
    ensures
        r.status == 200,
        !r.allow_any_origin,
        r.body@ == DIAGNOSTIC_PAGE@,
{
    HttpReply { status: 200, allow_any_origin: false, body: String::from_str(DIAGNOSTIC_PAGE) }
}

/// The reply to a request nothing handles: 404, plain-text body.
pub fn not_found_reply() -> (r: HttpReply)
    ensures
        r.status == 404,
        !r.allow_any_origin,
        r.body@ == NOT_FOUND_BODY@,
{
    HttpReply { status: 404, allow_any_origin: false, body: String::from_str(NOT_FOUND_BODY) }
}

/// The human-readable body reported for a failed signaling exchange.
pub open spec fn error_body(e: SignalingError) -> Seq<char> {
    match e {
        SignalingError::EmptyOffer => "error: the session offer was empty"@,
        SignalingError::Rejected(reason) => "error: "@ + reason@,
        SignalingError::AdapterFailed(reason) => "error: "@ + reason@,
    }
}

/// The reply for one signaling exchange.  A successful exchange answers
/// 200 with the answer verbatim as body, readable from any origin; a
/// failed one answers 400 with the error's description and no
/// cross-origin grant.
pub fn session_reply(outcome: Result<String, SignalingError>) -> (r: HttpReply)
    ensures
        outcome matches Ok(answer) ==> r == (HttpReply {
            status: 200,
            allow_any_origin: true,
            body: answer,
        }),
        outcome matches Err(e) ==> r.status == 400 && !r.allow_any_origin && r.body@
            == error_body(e),
{
    match outcome {
        Ok(answer) => HttpReply { status: 200, allow_any_origin: true, body: answer },
        Err(SignalingError::EmptyOffer) => HttpReply {
            status: 400,
            allow_any_origin: false,
            body: String::from_str("error: the session offer was empty"),
        },
        Err(SignalingError::Rejected(reason)) => HttpReply {
            status: 400,
            allow_any_origin: false,
            body: String::from_str("error: ").concat(reason.as_str()),
        },
        Err(SignalingError::AdapterFailed(reason)) => HttpReply {
            status: 400,
            allow_any_origin: false,
            body: String::from_str("error: ").concat(reason.as_str()),
        },
    }
}

} // verus!
