use hello_http::handlers::{
    custom_json, echo, hello, into_response, manual_hello, processing_trace, with_either,
    with_query_string,
};
use hello_http::response::{ContentType, Response, StatusCode};

#[test]
fn test_with_either_ok() {
    let value = true;

    let resp = with_either(value);

    match resp {
        Ok(text) => assert_eq!(text, "Correct data"),
        Err(_) => panic!("Expected ok result"),
    }
}

#[test]
fn test_with_either_not_ok() {
    let value = false;

    let resp = with_either(value);

    match resp {
        Err(resp) => assert_eq!(resp.status(), StatusCode::BadRequest),
        Ok(_) => panic!("Expected bad request"),
    }
}

#[test]
fn with_either_false_carries_bad_data() {
    match with_either(false) {
        Err(resp) => {
            assert_eq!(resp.status().code(), 400);
            assert_eq!(resp.body(), b"Bad data");
            assert_eq!(resp.content_type(), ContentType::Text);
        }
        Ok(_) => panic!("Expected bad request"),
    }
}

#[test]
fn into_response_of_either_outcome() {
    let accepted = into_response(with_either(true));
    assert_eq!(
        accepted,
        Response {
            status: StatusCode::Success,
            content_type: ContentType::Text,
            body: b"Correct data".to_vec(),
        }
    );
    let refused = into_response(with_either(false));
    assert_eq!(
        refused,
        Response {
            status: StatusCode::BadRequest,
            content_type: ContentType::Text,
            body: b"Bad data".to_vec(),
        }
    );
}

#[test]
fn processing_trace_names_the_value() {
    assert_eq!(processing_trace(true), "Processing value: true");
    assert_eq!(processing_trace(false), "Processing value: false");
}

#[test]
fn hello_greets_the_world() {
    let resp = hello();
    assert_eq!(resp.status(), StatusCode::Success);
    assert_eq!(resp.status().code(), 200);
    assert_eq!(resp.content_type(), ContentType::Text);
    assert_eq!(resp.body(), b"Hello world!");
    assert_eq!(resp.content_length(), 12);
}

#[test]
fn manual_hello_says_hey() {
    let resp = manual_hello();
    assert_eq!(resp.status(), StatusCode::Success);
    assert_eq!(resp.body(), b"Hey there!");
    assert_eq!(resp.content_length(), 10);
}

#[test]
fn echo_returns_the_body() {
    let resp = echo(b"ping 123".to_vec());
    assert_eq!(resp.status(), StatusCode::Success);
    assert_eq!(resp.body(), b"ping 123");
    assert_eq!(resp.content_length(), 8);
}

#[test]
fn echo_keeps_every_byte() {
    let all: Vec<u8> = (0..=255u8).collect();
    let resp = echo(all.clone());
    assert_eq!(resp.body, all);
    assert_eq!(resp.content_length(), 256);
    let empty = echo(Vec::new());
    assert_eq!(empty.status(), StatusCode::Success);
    assert_eq!(empty.content_length(), 0);
}

#[test]
fn with_query_string_welcomes() {
    assert_eq!(with_query_string(42, "alice"), b"Welcome alice, user_id 42!".to_vec());
    assert_eq!(with_query_string(0, "bob"), b"Welcome bob, user_id 0!".to_vec());
    assert_eq!(
        with_query_string(u32::MAX, "a b"),
        b"Welcome a b, user_id 4294967295!".to_vec()
    );
    assert_eq!(with_query_string(1000, ""), b"Welcome , user_id 1000!".to_vec());
    assert_eq!(
        with_query_string(7, "zoë €"),
        "Welcome zoë €, user_id 7!".as_bytes().to_vec()
    );
}

#[test]
fn custom_json_builds_the_object() {
    let obj = custom_json("bob".to_string());
    assert_eq!(obj.name, "bob");
    assert_eq!(obj.to_json(), b"{\"name\":\"bob\"}".to_vec());
}

#[test]
fn status_codes_and_content_types() {
    assert_eq!(StatusCode::Success.code(), 200);
    assert_eq!(StatusCode::BadRequest.code(), 400);
    assert_eq!(StatusCode::NotFound.code(), 404);
    assert_eq!(StatusCode::MethodNotAllowed.code(), 405);
    assert_eq!(ContentType::Text.as_str(), "text/plain; charset=utf-8");
    assert_eq!(ContentType::Json.as_str(), "application/json");
}

#[test]
fn response_constructors() {
    let text = Response::text(b"a".to_vec());
    assert_eq!(text.status(), StatusCode::Success);
    assert_eq!(text.content_type(), ContentType::Text);
    let json = Response::json(b"{}".to_vec());
    assert_eq!(json.status(), StatusCode::Success);
    assert_eq!(json.content_type(), ContentType::Json);
    assert_eq!(json.body(), b"{}");
    let gone = Response::with_status(StatusCode::NotFound, Vec::new());
    assert_eq!(gone.status(), StatusCode::NotFound);
    assert_eq!(gone.content_length(), 0);
}
