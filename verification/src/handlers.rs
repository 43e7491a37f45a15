//! The handlers: each turns the typed parts of a request into a reply.

use vstd::prelude::*;
use vstd::string::*;
use vstd::utf8::encode_utf8;
use crate::decimal::{decimal, push_decimal};
use crate::json::MyObj;
use crate::response::{status_reply, text_reply, Response, ResponseView, StatusCode};

verus! {

/// What the boolean handler hands back: the text of a 200 reply, or a
/// reply that is already complete.
pub type RegisterResult = Result<&'static str, Response>;

/// The reply that a `RegisterResult` stands for.
pub open spec fn register_reply(r: RegisterResult) -> ResponseView {
    match r {
        Ok(text) => text_reply(text.spec_bytes()),
        Err(response) => response@,
    }
}

/// What the boolean handler decides: `true` is accepted with the text
/// `Correct data`, `false` is refused with status 400 and the text `Bad data`.
pub open spec fn either_reply(value: bool) -> ResponseView {
    if value {
        text_reply("Correct data".spec_bytes())
    } else {
        status_reply(StatusCode::BadRequest, "Bad data".spec_bytes())
    }
}

/// The welcome text for a friend of the user with the given number, in
/// UTF-8: `Welcome `, the friend's name, `, user_id `, the number in
/// decimal, `!`.
pub open spec fn welcome(user_id: u32, friend: Seq<char>) -> Seq<u8> {
    "Welcome ".spec_bytes() + encode_utf8(friend) + ", user_id ".spec_bytes() + decimal(
        user_id as nat,
    ) + "!".spec_bytes()
}

/// The line that is traced before the boolean handler decides.
pub open spec fn trace_line(value: bool) -> Seq<char> {
    "Processing value: "@ + (if value {
        "true"@
    } else {
        "false"@
    })
}

/// `GET /`: greets the world.
pub fn hello() -> (r: Response)
    ensures
        r@ == text_reply("Hello world!".spec_bytes()),
{
    Response::text("Hello world!".as_bytes_vec())
}

/// `POST /echo`: sends the request body back, byte for byte.
pub fn echo(req_body: Vec<u8>) -> (r: Response)
    ensures
        r@ == text_reply(req_body@),
        r.body@.len() == req_body@.len(),
{
    Response::text(req_body)
}

/// `GET /hey`: greets whoever is there.
pub fn manual_hello() -> (r: Response)
    ensures
        r@ == text_reply("Hey there!".spec_bytes()),
{
    Response::text("Hey there!".as_bytes_vec())
}

/// `GET /users/{user_id}/{friend}`: welcomes a friend of a user.
pub fn with_query_string(user_id: u32, friend: &str) -> (text: Vec<u8>)
    ensures
        text@ == welcome(user_id, friend@),
{
    let mut text = "Welcome ".as_bytes_vec();
    let ghost head = text@;
    text.extend_from_slice(friend.as_bytes());
    assert(text@ =~= head + encode_utf8(friend@));
    let mut middle = ", user_id ".as_bytes_vec();
    text.append(&mut middle);
    push_decimal(&mut text, user_id);
    let mut tail = "!".as_bytes_vec();
    text.append(&mut tail);
    text
}

/// `GET /json/{name}`: answers with the object that has this name.
pub fn custom_json(name: String) -> (obj: MyObj)
    ensures
        obj@ == name@,
{
    MyObj { name }
}

/// `GET /either/{value}`: accepts `true` and refuses `false`.
///
/// The two outcomes have different shapes: the accepted one is only a text,
/// the refused one a whole reply. `into_response` makes one reply of either.
pub fn with_either(value: bool) -> (r: RegisterResult)
    ensures
        value <==> r is Ok,
        register_reply(r) == either_reply(value),
{
    if value {
        Ok("Correct data")
    } else {
        Err(Response::with_status(StatusCode::BadRequest, "Bad data".as_bytes_vec()))
    }
}

/// The line to trace for a call of `with_either`, to be emitted before the
/// handler's reply is used.
pub fn processing_trace(value: bool) -> (line: &'static str)
    ensures
        line@ == trace_line(value),
{
    proof {
        reveal_strlit("Processing value: ");
        reveal_strlit("true");
        reveal_strlit("false");
        reveal_strlit("Processing value: true");
        reveal_strlit("Processing value: false");
    }
    if value {
        assert("Processing value: true"@ =~= trace_line(true));
        "Processing value: true"
    } else {
        assert("Processing value: false"@ =~= trace_line(false));
        "Processing value: false"
    }
}

/// Makes the one reply that a `RegisterResult` stands for.
pub fn into_response(r: RegisterResult) -> (response: Response)
    ensures
        response@ == register_reply(r),
{
    match r {
        Ok(text) => Response::text(text.as_bytes_vec()),
        Err(response) => response,
    }
}

} // verus!
