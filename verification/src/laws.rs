//! What holds of the service as a whole, proved from the definitions of
//! routing and of the handlers.

use vstd::prelude::*;
use vstd::string::*;
use crate::boolean::bool_of_text;
use crate::decimal::{is_u32_text, u32_of_text};
use crate::dispatch::{rejection_reply, respond};
use crate::handlers::{either_reply, welcome};
use crate::json::json_object;
use crate::path::{lemma_join_split, slash_free, split};
use crate::percent::percent_decode;
use crate::response::{json_reply, text_reply, ResponseView, StatusCode};
use crate::route::{
    handler_of, handler_of_segments, path_segments, piece_matches, segments_match,
    template_matches, Handler, Method, Rejection,
};
use crate::text::decoded_text;

verus! {

/// The bytes of a text of ASCII characters are its characters.
proof fn lemma_ascii_bytes(s: &str)
    requires
        vstd::utf8::is_ascii_chars(s@),
    ensures
        s.spec_bytes().len() == s@.len(),
        forall|i: int| 0 <= i < s@.len() ==> #[trigger] s.spec_bytes()[i] == s@[i] as u8,
{
    vstd::utf8::is_ascii_chars_encode_utf8(s@);
}

/// The lengths of the literal segments of the templates.
proof fn lemma_literal_lengths()
    ensures
        "".spec_bytes().len() == 0,
        "echo".spec_bytes().len() == 4,
        "hey".spec_bytes().len() == 3,
        "json".spec_bytes().len() == 4,
        "either".spec_bytes().len() == 6,
        "users".spec_bytes().len() == 5,
{
    reveal_strlit("");
    reveal_strlit("echo");
    reveal_strlit("hey");
    reveal_strlit("json");
    reveal_strlit("either");
    reveal_strlit("users");
    lemma_ascii_bytes("");
    lemma_ascii_bytes("echo");
    lemma_ascii_bytes("hey");
    lemma_ascii_bytes("json");
    lemma_ascii_bytes("either");
    lemma_ascii_bytes("users");
}

/// No two routes share a path: segments that fit the template of one
/// handler fit the template of no other.
pub proof fn lemma_templates_disjoint(first: Handler, second: Handler, segments: Seq<Seq<u8>>)
    requires
        first != second,
        segments_match(first.template(), segments),
    ensures
        !segments_match(second.template(), segments),
{
    lemma_literal_lengths();
    if segments_match(second.template(), segments) {
        assert(piece_matches(first.template()[0], segments[0]));
        assert(piece_matches(second.template()[0], segments[0]));
        assert(first.template().len() == second.template().len());
        assert(false);
    }
}

/// A path that matches the template of a handler selects that handler, and
/// a path selects a handler only if it matches the handler's template.
pub proof fn lemma_match_selects(handler: Handler, path: Seq<u8>)
    ensures
        template_matches(handler.template(), path) <==> handler_of(path) == Some(handler),
{
    if template_matches(handler.template(), path) {
        let segments = path_segments(path);
        assert forall|other: Handler| other != handler implies !segments_match(
            other.template(),
            segments,
        ) by {
            lemma_templates_disjoint(handler, other, segments);
        }
        assert(handler_of_segments(segments) == Some(handler));
    }
}

/// Every request is answered in the 2xx or in the 4xx range.
pub proof fn lemma_no_server_error(method: Method, path: Seq<u8>, body: Seq<u8>)
    ensures
        200 <= respond(method, path, body).status.spec_code() < 300 || 400 <= respond(
            method,
            path,
            body,
        ).status.spec_code() < 500,
{
}

/// The reply that the table promises a request which matches the route of
/// `handler` in method and template, with these segments and this body.
pub open spec fn promised_reply(
    handler: Handler,
    segments: Seq<Seq<u8>>,
    body: Seq<u8>,
) -> ResponseView {
    match handler {
        Handler::Hello => text_reply("Hello world!".spec_bytes()),
        Handler::Echo => text_reply(body),
        Handler::ManualHello => text_reply("Hey there!".spec_bytes()),
        Handler::CustomJson => json_reply(json_object(decoded_text(segments[1]))),
        Handler::WithEither => match bool_of_text(percent_decode(segments[1])) {
            Some(value) => either_reply(value),
            None => rejection_reply(Rejection::BadParameter),
        },
        Handler::WithQueryString => match u32_of_text(percent_decode(segments[1])) {
            Some(user_id) => text_reply(welcome(user_id, decoded_text(segments[2]))),
            None => rejection_reply(Rejection::BadParameter),
        },
    }
}

/// A request that matches a route in method and template is answered as
/// the table says: by the handler of that route, given the decoded
/// parameters, or with 400 where a typed parameter does not parse. The
/// status is 200 or 400, and 200 for the handlers that parse nothing and
/// refuse nothing.
pub proof fn lemma_registered_route_reply(handler: Handler, path: Seq<u8>, body: Seq<u8>)
    requires
        template_matches(handler.template(), path),
    ensures
        respond(handler.spec_method(), path, body) == promised_reply(
            handler,
            path_segments(path),
            body,
        ),
        ({
            let status = respond(handler.spec_method(), path, body).status;
            match handler {
                Handler::WithQueryString | Handler::WithEither => status == StatusCode::Success
                    || status == StatusCode::BadRequest,
                _ => status == StatusCode::Success,
            }
        }),
{
    lemma_match_selects(handler, path);
}

/// A request for a path that matches no template is answered with 404, and
/// one that matches a template under another method with 405.
pub proof fn lemma_route_miss(method: Method, path: Seq<u8>, body: Seq<u8>)
    ensures
        handler_of(path) is None ==> respond(method, path, body).status == StatusCode::NotFound,
        handler_of(path) matches Some(handler) && handler.spec_method() != method ==> respond(
            method,
            path,
            body,
        ).status == StatusCode::MethodNotAllowed,
{
}

/// The echo route is the identity on bodies: whatever is posted to `/echo`
/// comes back byte for byte, and so with the same length.
pub proof fn lemma_echo_identity(body: Seq<u8>)
    ensures
        respond(Method::Post, "/echo".spec_bytes(), body) == text_reply(body),
        respond(Method::Post, "/echo".spec_bytes(), body).body.len() == body.len(),
{
    let path = "/echo".spec_bytes();
    let name = "echo".spec_bytes();
    reveal_strlit("/echo");
    reveal_strlit("echo");
    lemma_ascii_bytes("/echo");
    lemma_ascii_bytes("echo");
    assert(path.skip(1) =~= name);
    assert(slash_free(name));
    lemma_join_split(seq![name]);
    assert(split(name) == seq![name]);
    assert(segments_match(Handler::Echo.template(), path_segments(path)));
    lemma_match_selects(Handler::Echo, path);
}

/// The JSON route answers by the name alone: two requests whose paths give
/// the same name, however it is escaped in each, get the same reply, and so
/// does one request made twice.
pub proof fn lemma_json_by_name(
    first: Seq<u8>,
    second: Seq<u8>,
    first_body: Seq<u8>,
    second_body: Seq<u8>,
)
    requires
        template_matches(Handler::CustomJson.template(), first),
        template_matches(Handler::CustomJson.template(), second),
        percent_decode(path_segments(first)[1]) == percent_decode(path_segments(second)[1]),
    ensures
        respond(Method::Get, first, first_body) == respond(Method::Get, second, second_body),
        respond(Method::Get, first, first_body) == json_reply(
            json_object(decoded_text(path_segments(first)[1])),
        ),
{
    lemma_match_selects(Handler::CustomJson, first);
    lemma_match_selects(Handler::CustomJson, second);
}

/// The users route answers 400 exactly when the first parameter, decoded,
/// does not denote an unsigned 32-bit integer. Otherwise it answers 200
/// with the welcome text for that integer and the decoded second parameter.
pub proof fn lemma_users_bad_request(path: Seq<u8>, body: Seq<u8>)
    requires
        template_matches(Handler::WithQueryString.template(), path),
    ensures
        ({
            let user_id = percent_decode(path_segments(path)[1]);
            let friend = decoded_text(path_segments(path)[2]);
            let reply = respond(Method::Get, path, body);
            &&& reply.status == StatusCode::BadRequest <==> !is_u32_text(user_id)
            &&& u32_of_text(user_id) matches Some(n) ==> reply == text_reply(welcome(n, friend))
        }),
{
    lemma_match_selects(Handler::WithQueryString, path);
}

} // verus!
