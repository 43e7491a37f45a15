use hello_http::dispatch::{dispatch, reject, serve, Served};
use hello_http::response::{ContentType, Response, StatusCode};
use hello_http::route::{extract_params, find_handler, route, Handler, Method, Rejection, Request};

fn get(path: &[u8]) -> Response {
    dispatch(Method::Get, path, Vec::new()).response
}

fn post(path: &[u8], body: &[u8]) -> Response {
    dispatch(Method::Post, path, body.to_vec()).response
}

fn text(body: &[u8]) -> Response {
    Response { status: StatusCode::Success, content_type: ContentType::Text, body: body.to_vec() }
}

fn rejected(status: StatusCode) -> Response {
    Response { status, content_type: ContentType::Text, body: Vec::new() }
}

#[test]
fn get_root_says_hello_world() {
    let resp = get(b"/");
    assert_eq!(resp.status().code(), 200);
    assert_eq!(resp.body(), b"Hello world!");
    assert_eq!(resp, text(b"Hello world!"));
}

#[test]
fn post_echo_returns_the_body() {
    let resp = post(b"/echo", b"ping 123");
    assert_eq!(resp.status().code(), 200);
    assert_eq!(resp.body(), b"ping 123");
    assert_eq!(resp.content_length(), 8);
}

#[test]
fn post_echo_is_the_identity_on_bodies() {
    let bodies: [&[u8]; 5] = [b"", b"a", b"ping 123", &[0, 1, 2, 0xff, 0xfe], b"{\"x\":1}\r\n"];
    for body in bodies {
        let resp = post(b"/echo", body);
        assert_eq!(resp.status(), StatusCode::Success);
        assert_eq!(resp.body(), body);
        assert_eq!(resp.content_length(), body.len());
    }
}

#[test]
fn get_users_welcomes_the_friend() {
    let resp = get(b"/users/42/alice");
    assert_eq!(resp.status().code(), 200);
    assert_eq!(resp.body(), b"Welcome alice, user_id 42!");
    assert_eq!(resp.content_type(), ContentType::Text);
}

#[test]
fn get_users_with_a_bad_number_is_a_bad_request() {
    let resp = get(b"/users/notanumber/alice");
    assert_eq!(resp.status().code(), 400);
    assert_eq!(resp, rejected(StatusCode::BadRequest));
}

#[test]
fn get_users_is_bad_exactly_when_the_number_is() {
    let good: [&[u8]; 6] = [
        b"/users/0/a",
        b"/users/4294967295/a",
        b"/users/007/a",
        b"/users/+5/a",
        b"/users/%34%32/a",
        b"/users/%2B1/a",
    ];
    for path in good {
        assert_eq!(get(path).status(), StatusCode::Success);
    }
    let bad: [&[u8]; 8] = [
        b"/users/4294967296/a",
        b"/users/-1/a",
        b"/users/1.5/a",
        b"/users/abc/a",
        b"/users/12a/a",
        b"/users/%20/a",
        b"/users/+/a",
        b"/users/1%2F2/a",
    ];
    for path in bad {
        assert_eq!(get(path), rejected(StatusCode::BadRequest));
    }
}

#[test]
fn get_users_decodes_both_parameters() {
    assert_eq!(get(b"/users/%34%32/al%20ice"), text(b"Welcome al ice, user_id 42!"));
    assert_eq!(get(b"/users/0042/a%2Fb"), text(b"Welcome a/b, user_id 42!"));
    assert_eq!(get(b"/users/1/100%"), text(b"Welcome 100%, user_id 1!"));
    assert_eq!(get(b"/users/1/%zz"), text(b"Welcome %zz, user_id 1!"));
}

#[test]
fn get_json_answers_with_the_object() {
    let resp = get(b"/json/bob");
    assert_eq!(resp.status().code(), 200);
    assert_eq!(resp.content_type(), ContentType::Json);
    assert_eq!(resp.content_type().as_str(), "application/json");
    assert_eq!(resp.body(), b"{\"name\":\"bob\"}");
}

#[test]
fn get_json_escapes_the_name() {
    assert_eq!(get(b"/json/%22").body(), b"{\"name\":\"\\\"\"}");
    assert_eq!(get(b"/json/a%5Cb").body(), b"{\"name\":\"a\\\\b\"}");
    assert_eq!(get(b"/json/a%0Ab").body(), b"{\"name\":\"a\\nb\"}");
    assert_eq!(get(b"/json/%01").body(), b"{\"name\":\"\\u0001\"}");
    assert_eq!(get(b"/json/a%2Fb").body(), b"{\"name\":\"a/b\"}");
    assert_eq!(get(b"/json/%E2%82%AC").body(), "{\"name\":\"€\"}".as_bytes());
}

#[test]
fn malformed_text_is_replaced_not_refused() {
    assert_eq!(get(b"/json/%FF").body(), "{\"name\":\"\u{fffd}\"}".as_bytes());
    assert_eq!(get(b"/users/1/%FF"), text("Welcome \u{fffd}, user_id 1!".as_bytes()));
    assert_eq!(get(b"/users/1/a%C3"), text("Welcome a\u{fffd}, user_id 1!".as_bytes()));
    assert_eq!(get(b"/users/%FF/a"), rejected(StatusCode::BadRequest));
    assert_eq!(get(b"/either/%FF"), rejected(StatusCode::BadRequest));
}

#[test]
fn replies_with_text_are_utf8() {
    let paths: [&[u8]; 6] = [
        b"/json/%FF%FE",
        b"/json/%C3%AB",
        b"/json/%00%22",
        b"/users/1/%FF",
        b"/users/1/%E2%82",
        b"/users/1/ok",
    ];
    for path in paths {
        let resp = get(path);
        assert_eq!(resp.status(), StatusCode::Success);
        assert!(String::from_utf8(resp.body).is_ok());
    }
}

#[test]
fn get_json_twice_gives_the_same_bytes() {
    let first = get(b"/json/bob");
    let second = get(b"/json/bob");
    assert_eq!(first, second);
    let escaped = get(b"/json/%62o%62");
    assert_eq!(first, escaped);
    let with_body = dispatch(Method::Get, b"/json/bob", b"ignored".to_vec()).response;
    assert_eq!(first, with_body);
}

#[test]
fn get_either_true_is_correct_data() {
    let resp = get(b"/either/true");
    assert_eq!(resp.status().code(), 200);
    assert_eq!(resp.body(), b"Correct data");
}

#[test]
fn get_either_false_is_bad_data() {
    let resp = get(b"/either/false");
    assert_eq!(resp.status().code(), 400);
    assert_eq!(resp.body(), b"Bad data");
}

#[test]
fn get_either_with_no_boolean_is_a_bad_request() {
    let paths: [&[u8]; 6] = [
        b"/either/maybe",
        b"/either/True",
        b"/either/FALSE",
        b"/either/1",
        b"/either/0",
        b"/either/true%20",
    ];
    for path in paths {
        let served = dispatch(Method::Get, path, Vec::new());
        assert_eq!(served.response, rejected(StatusCode::BadRequest));
        assert_eq!(served.trace, None);
    }
}

#[test]
fn get_either_decodes_the_value() {
    assert_eq!(get(b"/either/%74rue").body(), b"Correct data");
    assert_eq!(get(b"/either/fals%65").body(), b"Bad data");
}

#[test]
fn get_either_traces_the_value() {
    let accepted = dispatch(Method::Get, b"/either/true", Vec::new());
    assert_eq!(accepted.trace, Some("Processing value: true"));
    let refused = dispatch(Method::Get, b"/either/false", Vec::new());
    assert_eq!(refused.trace, Some("Processing value: false"));
}

#[test]
fn only_either_traces() {
    let paths: [&[u8]; 5] = [b"/", b"/hey", b"/json/bob", b"/users/1/a", b"/unknown"];
    for path in paths {
        assert_eq!(dispatch(Method::Get, path, Vec::new()).trace, None);
    }
    assert_eq!(dispatch(Method::Post, b"/echo", b"x".to_vec()).trace, None);
    assert_eq!(dispatch(Method::Post, b"/either/true", Vec::new()).trace, None);
}

#[test]
fn get_hey_says_hey_there() {
    let resp = get(b"/hey");
    assert_eq!(resp.status().code(), 200);
    assert_eq!(resp.body(), b"Hey there!");
}

#[test]
fn get_unknown_is_not_found() {
    let resp = get(b"/unknown");
    assert_eq!(resp.status().code(), 404);
    assert_eq!(resp, rejected(StatusCode::NotFound));
}

#[test]
fn paths_that_match_no_template_are_not_found() {
    let paths: [&[u8]; 18] = [
        b"",
        b"hey",
        b"*",
        b"//",
        b"/hey/",
        b"/Hey",
        b"/echo/",
        b"/echo/x",
        b"/users",
        b"/users/",
        b"/users/42",
        b"/users/42/",
        b"/users//alice",
        b"/users/42/alice/",
        b"/users/42/alice/more",
        b"/json",
        b"/json/",
        b"/either/true/x",
    ];
    for path in paths {
        assert_eq!(get(path), rejected(StatusCode::NotFound));
        assert_eq!(post(path, b"x"), rejected(StatusCode::NotFound));
        assert_eq!(
            dispatch(Method::Other, path, Vec::new()).response,
            rejected(StatusCode::NotFound)
        );
    }
}

#[test]
fn literal_segments_are_not_decoded() {
    assert_eq!(get(b"/%68ey"), rejected(StatusCode::NotFound));
    assert_eq!(get(b"/json%2Fbob"), rejected(StatusCode::NotFound));
}

#[test]
fn the_wrong_method_is_not_allowed() {
    let get_only: [&[u8]; 5] =
        [b"/", b"/hey", b"/json/bob", b"/users/42/alice", b"/either/true"];
    for path in get_only {
        assert_eq!(post(path, b""), rejected(StatusCode::MethodNotAllowed));
        assert_eq!(
            dispatch(Method::Other, path, Vec::new()).response,
            rejected(StatusCode::MethodNotAllowed)
        );
    }
    assert_eq!(get(b"/echo"), rejected(StatusCode::MethodNotAllowed));
    assert_eq!(get(b"/echo").status().code(), 405);
}

#[test]
fn the_method_is_checked_before_the_parameters() {
    assert_eq!(post(b"/users/abc/alice", b""), rejected(StatusCode::MethodNotAllowed));
    assert_eq!(post(b"/either/maybe", b""), rejected(StatusCode::MethodNotAllowed));
}

#[test]
fn every_reply_is_in_the_2xx_or_4xx_range() {
    let paths: [&[u8]; 10] = [
        b"/",
        b"/echo",
        b"/hey",
        b"/json/x",
        b"/users/1/x",
        b"/users/x/x",
        b"/either/true",
        b"/either/x",
        b"/nope",
        b"",
    ];
    for method in [Method::Get, Method::Post, Method::Other] {
        for path in paths {
            let code = dispatch(method, path, b"body".to_vec()).response.status().code();
            assert!((200..300).contains(&code) || (400..500).contains(&code));
        }
    }
}

#[test]
fn route_gives_typed_requests() {
    assert_eq!(route(Method::Get, b"/"), Ok(Request::Hello));
    assert_eq!(route(Method::Post, b"/echo"), Ok(Request::Echo));
    assert_eq!(route(Method::Get, b"/hey"), Ok(Request::ManualHello));
    assert_eq!(
        route(Method::Get, b"/users/42/alice"),
        Ok(Request::WithQueryString { user_id: 42, friend: "alice".to_string() })
    );
    assert_eq!(
        route(Method::Get, b"/json/bob"),
        Ok(Request::CustomJson { name: "bob".to_string() })
    );
    assert_eq!(route(Method::Get, b"/either/true"), Ok(Request::WithEither { value: true }));
    assert_eq!(route(Method::Get, b"/either/false"), Ok(Request::WithEither { value: false }));
}

#[test]
fn route_gives_each_rejection() {
    assert_eq!(route(Method::Get, b"/unknown"), Err(Rejection::NotFound));
    assert_eq!(route(Method::Post, b"/hey"), Err(Rejection::MethodNotAllowed));
    assert_eq!(route(Method::Get, b"/users/notanumber/alice"), Err(Rejection::BadParameter));
    assert_eq!(route(Method::Get, b"/either/maybe"), Err(Rejection::BadParameter));
    assert_eq!(Rejection::NotFound.status(), StatusCode::NotFound);
    assert_eq!(Rejection::MethodNotAllowed.status(), StatusCode::MethodNotAllowed);
    assert_eq!(Rejection::BadParameter.status(), StatusCode::BadRequest);
}

#[test]
fn reject_has_no_body() {
    for rejection in [Rejection::NotFound, Rejection::MethodNotAllowed, Rejection::BadParameter] {
        let resp = reject(rejection);
        assert_eq!(resp.status(), rejection.status());
        assert_eq!(resp.content_length(), 0);
    }
}

#[test]
fn handlers_and_their_methods() {
    assert_eq!(Handler::Hello.method(), Method::Get);
    assert_eq!(Handler::Echo.method(), Method::Post);
    assert_eq!(Handler::WithQueryString.method(), Method::Get);
    assert_eq!(Handler::CustomJson.method(), Method::Get);
    assert_eq!(Handler::WithEither.method(), Method::Get);
    assert_eq!(Handler::ManualHello.method(), Method::Get);
}

#[test]
fn find_handler_by_segments() {
    let empty: &[u8] = b"";
    assert_eq!(find_handler(&vec![empty]), Some(Handler::Hello));
    assert_eq!(find_handler(&vec![&b"echo"[..]]), Some(Handler::Echo));
    assert_eq!(find_handler(&vec![&b"hey"[..]]), Some(Handler::ManualHello));
    assert_eq!(find_handler(&vec![&b"json"[..], &b"x"[..]]), Some(Handler::CustomJson));
    assert_eq!(find_handler(&vec![&b"either"[..], &b"x"[..]]), Some(Handler::WithEither));
    assert_eq!(
        find_handler(&vec![&b"users"[..], &b"1"[..], &b"x"[..]]),
        Some(Handler::WithQueryString)
    );
    assert_eq!(find_handler(&vec![&b"json"[..], empty]), None);
    assert_eq!(find_handler(&vec![&b"users"[..], &b"1"[..], empty]), None);
    assert_eq!(find_handler(&vec![&b"json"[..]]), None);
    assert_eq!(find_handler(&Vec::new()), None);
    assert_eq!(find_handler(&vec![empty, empty, empty, empty]), None);
}

#[test]
fn extract_params_of_matching_segments() {
    let segments: Vec<&[u8]> = vec![b"users", b"7", b"a%20b"];
    assert_eq!(find_handler(&segments), Some(Handler::WithQueryString));
    assert_eq!(
        extract_params(Handler::WithQueryString, &segments),
        Ok(Request::WithQueryString { user_id: 7, friend: "a b".to_string() })
    );
    let flag: Vec<&[u8]> = vec![b"either", b"nope"];
    assert_eq!(find_handler(&flag), Some(Handler::WithEither));
    assert_eq!(extract_params(Handler::WithEither, &flag), Err(Rejection::BadParameter));
}

#[test]
fn serve_runs_the_handler() {
    let served = serve(Request::Echo, b"abc".to_vec());
    assert_eq!(served, Served { response: text(b"abc"), trace: None });
    let served = serve(Request::WithEither { value: true }, Vec::new());
    assert_eq!(
        served,
        Served { response: text(b"Correct data"), trace: Some("Processing value: true") }
    );
    let served = serve(Request::CustomJson { name: "bob".to_string() }, b"unused".to_vec());
    assert_eq!(served.response.content_type(), ContentType::Json);
    assert_eq!(served.response.body(), b"{\"name\":\"bob\"}");
}
