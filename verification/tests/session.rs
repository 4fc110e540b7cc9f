use game_transport::session::{classify, Handler, Reply, Route, Router, BAD_REQUEST, NOT_FOUND, OK};

#[test]
fn only_a_post_to_session_opens_a_session() {
    assert_eq!(classify("POST", "/session"), Route::Session);
    assert_eq!(classify("GET", "/session"), Route::NotFound);
    assert_eq!(classify("POST", "/"), Route::NotFound);
    assert_eq!(classify("POST", "/session/"), Route::NotFound);
    assert_eq!(classify("post", "/session"), Route::NotFound);
    assert_eq!(classify("", ""), Route::NotFound);
    assert_eq!(classify("OPTIONS", "/session"), Route::NotFound);
}

#[test]
fn the_answer_of_the_transport_goes_out_with_any_origin_allowed() {
    let answer = "{\"answer\":{\"sdp\":\"v=0\"}}".to_string();
    assert_eq!(
        Handler::post_session(Ok(answer.clone())),
        Reply { status: 200, allow_any_origin: true, body: answer }
    );
    assert_eq!(OK, 200);
}

#[test]
fn a_refused_session_is_a_bad_request_with_the_error_text() {
    assert_eq!(
        Handler::post_session(Err("sdp descriptor is too long".to_string())),
        Reply {
            status: 400,
            allow_any_origin: false,
            body: "sdp descriptor is too long".to_string()
        }
    );
    assert_eq!(BAD_REQUEST, 400);
    assert_eq!(
        Handler::response(418, "tea".to_string()),
        Reply { status: 418, allow_any_origin: false, body: "tea".to_string() }
    );
}

#[test]
fn anything_else_is_not_found_with_an_empty_body() {
    assert_eq!(
        Router::not_found(),
        Reply { status: 404, allow_any_origin: false, body: String::new() }
    );
    assert_eq!(NOT_FOUND, 404);
}
