use echo_server::http::{
    index_reply, not_found_reply, route, session_reply, RequestMethod, Route, DIAGNOSTIC_PAGE,
    NOT_FOUND_BODY,
};
use echo_server::signaling::SignalingError;

#[test]
fn route_get_root_is_index() {
    assert_eq!(route(RequestMethod::Get, "/"), Route::Index);
}

#[test]
fn route_get_index_html_is_index() {
    assert_eq!(route(RequestMethod::Get, "/index.html"), Route::Index);
}

#[test]
fn route_post_session_path_is_new_session() {
    assert_eq!(route(RequestMethod::Post, "/new_rtc_session"), Route::NewSession);
}

#[test]
fn route_unknown_path_is_not_found() {
    assert_eq!(route(RequestMethod::Get, "/unknown"), Route::NotFound);
    assert_eq!(route(RequestMethod::Post, "/"), Route::NotFound);
    assert_eq!(route(RequestMethod::Get, "/new_rtc_session"), Route::NotFound);
    assert_eq!(route(RequestMethod::Post, "/index.html"), Route::NotFound);
    assert_eq!(route(RequestMethod::Get, ""), Route::NotFound);
    assert_eq!(route(RequestMethod::Get, "/index.htm"), Route::NotFound);
}

#[test]
fn route_other_method_is_not_found() {
    assert_eq!(route(RequestMethod::Other, "/"), Route::NotFound);
    assert_eq!(route(RequestMethod::Other, "/new_rtc_session"), Route::NotFound);
    assert_eq!(route(RequestMethod::Other, "/index.html"), Route::NotFound);
}

#[test]
fn index_reply_serves_diagnostic_page() {
    let reply = index_reply();
    assert_eq!(reply.status, 200);
    assert!(!reply.allow_any_origin);
    assert_eq!(reply.body, DIAGNOSTIC_PAGE);
    assert!(!reply.body.is_empty());
}

#[test]
fn not_found_reply_is_404_not_found() {
    let reply = not_found_reply();
    assert_eq!(reply.status, 404);
    assert!(!reply.allow_any_origin);
    assert_eq!(reply.body, NOT_FOUND_BODY);
    assert_eq!(reply.body, "not found");
}

#[test]
fn session_reply_success_returns_answer_with_cors() {
    let reply = session_reply(Ok(String::from("{\"answer\":\"v=0\"}")));
    assert_eq!(reply.status, 200);
    assert!(reply.allow_any_origin);
    assert_eq!(reply.body, "{\"answer\":\"v=0\"}");
    assert!(!reply.body.is_empty());
}

#[test]
fn session_reply_empty_offer_is_400_with_message() {
    let reply = session_reply(Err(SignalingError::EmptyOffer));
    assert_eq!(reply.status, 400);
    assert!(!reply.allow_any_origin);
    assert_eq!(reply.body, "error: the session offer was empty");
}

#[test]
fn session_reply_rejected_is_400_with_reason() {
    let reply = session_reply(Err(SignalingError::Rejected(String::from("no m-line"))));
    assert_eq!(reply.status, 400);
    assert!(!reply.allow_any_origin);
    assert_eq!(reply.body, "error: no m-line");
}

#[test]
fn session_reply_adapter_failed_is_400_with_reason() {
    let reply = session_reply(Err(SignalingError::AdapterFailed(String::from(
        "endpoint disconnected",
    ))));
    assert_eq!(reply.status, 400);
    assert!(!reply.allow_any_origin);
    assert_eq!(reply.body, "error: endpoint disconnected");
}
