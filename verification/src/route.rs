//! The route table: which handler a method and a path select, and the typed
//! parameters that the path gives it.

use vstd::prelude::*;
use vstd::slice::slice_subrange;
use vstd::string::*;
use crate::ascii::{same_bytes, SLASH};
use crate::boolean::{bool_of_text, parse_bool};
use crate::decimal::{parse_u32, u32_of_text};
use crate::path::{split, split_segments, views};
use crate::percent::{decode, percent_decode};
use crate::text::{decode_text, decoded_text, reads_exactly};
use crate::response::StatusCode;

verus! {

/// The request methods that the table tells apart.
#[derive(Clone, Copy, Debug, PartialEq, Eq, Structural)]
pub enum Method {
    Get,
    Post,
    /// Any method but `GET` and `POST`. No route is registered under it.
    Other,
}

/// The six handlers of the service.
#[derive(Clone, Copy, Debug, PartialEq, Eq, Structural)]
pub enum Handler {
    Hello,
    Echo,
    WithQueryString,
    CustomJson,
    WithEither,
    ManualHello,
}

/// One piece of a path template.
pub enum Piece {
    /// A segment that must be exactly this text.
    Literal(Seq<u8>),
    /// A placeholder: it binds one segment, which may not be empty.
    Param,
}

impl Handler {
    /// The method under which the handler is registered.
    pub open spec fn spec_method(self) -> Method {
        match self {
            Handler::Echo => Method::Post,
            _ => Method::Get,
        }
    }

    /// The path template under which the handler is registered, as the
    /// pieces that follow the leading slash.
    ///
    /// | handler           | template                     |
    /// |-------------------|------------------------------|
    /// | `Hello`           | `/`                          |
    /// | `Echo`            | `/echo`                      |
    /// | `WithQueryString` | `/users/{user_id}/{friend}`  |
    /// | `CustomJson`      | `/json/{name}`               |
    /// | `WithEither`      | `/either/{value}`            |
    /// | `ManualHello`     | `/hey`                       |
    pub open spec fn template(self) -> Seq<Piece> {
        match self {
            Handler::Hello => seq![Piece::Literal("".spec_bytes())],
            Handler::Echo => seq![Piece::Literal("echo".spec_bytes())],
            Handler::WithQueryString => seq![
                Piece::Literal("users".spec_bytes()),
                Piece::Param,
                Piece::Param,
            ],
            Handler::CustomJson => seq![Piece::Literal("json".spec_bytes()), Piece::Param],
            Handler::WithEither => seq![Piece::Literal("either".spec_bytes()), Piece::Param],
            Handler::ManualHello => seq![Piece::Literal("hey".spec_bytes())],
        }
    }

    #[verifier::when_used_as_spec(spec_method)]
    pub fn method(self) -> (m: Method)
        ensures
            m == self.spec_method(),
    {
        match self {
            Handler::Echo => Method::Post,
            _ => Method::Get,
        }
    }
}

/// Whether a segment fits a piece of a template.
pub open spec fn piece_matches(piece: Piece, segment: Seq<u8>) -> bool {
    match piece {
        Piece::Literal(text) => segment == text,
        Piece::Param => segment.len() > 0,
    }
}

/// Whether the segments fit the template, piece by piece and with none left
/// over on either side.
pub open spec fn segments_match(template: Seq<Piece>, segments: Seq<Seq<u8>>) -> bool {
    &&& segments.len() == template.len()
    &&& forall|i: int|
        0 <= i < template.len() ==> piece_matches(#[trigger] template[i], segments[i])
}

/// Whether the path begins with a slash.
pub open spec fn is_rooted(path: Seq<u8>) -> bool {
    path.len() > 0 && path[0] == SLASH
}

/// The segments of a rooted path: those of the text behind its first slash.
pub open spec fn path_segments(path: Seq<u8>) -> Seq<Seq<u8>> {
    split(path.skip(1))
}

/// Whether the path matches the template: it is rooted, and its segments
/// fit the template.
pub open spec fn template_matches(template: Seq<Piece>, path: Seq<u8>) -> bool {
    is_rooted(path) && segments_match(template, path_segments(path))
}

/// The handler whose template the segments fit, if there is one.
///
/// No two templates fit the same segments (`lemma_templates_disjoint`), so
/// the order in which they are tried decides nothing.
pub open spec fn handler_of_segments(segments: Seq<Seq<u8>>) -> Option<Handler> {
    if segments_match(Handler::Hello.template(), segments) {
        Some(Handler::Hello)
    } else if segments_match(Handler::Echo.template(), segments) {
        Some(Handler::Echo)
    } else if segments_match(Handler::ManualHello.template(), segments) {
        Some(Handler::ManualHello)
    } else if segments_match(Handler::CustomJson.template(), segments) {
        Some(Handler::CustomJson)
    } else if segments_match(Handler::WithEither.template(), segments) {
        Some(Handler::WithEither)
    } else if segments_match(Handler::WithQueryString.template(), segments) {
        Some(Handler::WithQueryString)
    } else {
        None
    }
}

/// The handler whose template the path matches, if there is one.
pub open spec fn handler_of(path: Seq<u8>) -> Option<Handler> {
    if is_rooted(path) {
        handler_of_segments(path_segments(path))
    } else {
        None
    }
}

/// Why a request reaches no handler.
#[derive(Clone, Copy, Debug, PartialEq, Eq, Structural)]
pub enum Rejection {
    /// The path matches no template.
    NotFound,
    /// The path matches a template, but the route is registered under
    /// another method.
    MethodNotAllowed,
    /// The route is found, but a placeholder's segment does not denote a
    /// value of the placeholder's type.
    BadParameter,
}

impl Rejection {
    /// The status that tells the client of the rejection.
    pub open spec fn spec_status(self) -> StatusCode {
        match self {
            Rejection::NotFound => StatusCode::NotFound,
            Rejection::MethodNotAllowed => StatusCode::MethodNotAllowed,
            Rejection::BadParameter => StatusCode::BadRequest,
        }
    }

    #[verifier::when_used_as_spec(spec_status)]
    pub fn status(self) -> (s: StatusCode)
        ensures
            s == self.spec_status(),
    {
        match self {
            Rejection::NotFound => StatusCode::NotFound,
            Rejection::MethodNotAllowed => StatusCode::MethodNotAllowed,
            Rejection::BadParameter => StatusCode::BadRequest,
        }
    }
}

/// A request that has found its handler, with the path parameters decoded
/// and typed.
#[derive(Clone, Debug, PartialEq, Eq)]
pub enum Request {
    Hello,
    Echo,
    WithQueryString { user_id: u32, friend: String },
    CustomJson { name: String },
    WithEither { value: bool },
    ManualHello,
}

/// A routed request as a mathematical value.
pub enum RequestView {
    Hello,
    Echo,
    WithQueryString { user_id: u32, friend: Seq<char> },
    CustomJson { name: Seq<char> },
    WithEither { value: bool },
    ManualHello,
}

impl View for Request {
    type V = RequestView;

    open spec fn view(&self) -> RequestView {
        match *self {
            Request::Hello => RequestView::Hello,
            Request::Echo => RequestView::Echo,
            Request::WithQueryString { user_id, friend } => RequestView::WithQueryString {
                user_id,
                friend: friend@,
            },
            Request::CustomJson { name } => RequestView::CustomJson { name: name@ },
            Request::WithEither { value } => RequestView::WithEither { value },
            Request::ManualHello => RequestView::ManualHello,
        }
    }
}

impl RequestView {
    /// The handler that the request is for.
    pub open spec fn handler(self) -> Handler {
        match self {
            RequestView::Hello => Handler::Hello,
            RequestView::Echo => Handler::Echo,
            RequestView::WithQueryString { .. } => Handler::WithQueryString,
            RequestView::CustomJson { .. } => Handler::CustomJson,
            RequestView::WithEither { .. } => Handler::WithEither,
            RequestView::ManualHello => Handler::ManualHello,
        }
    }
}

/// The typed parameters that the segments give the handler.
///
/// Each placeholder's segment is percent-decoded first. A string parameter
/// is the text of the decoded segment, which is always there. An integer or
/// boolean parameter is what the decoded segment denotes, and the request
/// is rejected if it denotes none.
pub open spec fn extract(handler: Handler, segments: Seq<Seq<u8>>) -> Result<
    RequestView,
    Rejection,
> {
    match handler {
        Handler::Hello => Ok(RequestView::Hello),
        Handler::Echo => Ok(RequestView::Echo),
        Handler::ManualHello => Ok(RequestView::ManualHello),
        Handler::CustomJson => Ok(RequestView::CustomJson { name: decoded_text(segments[1]) }),
        Handler::WithEither => match bool_of_text(percent_decode(segments[1])) {
            Some(value) => Ok(RequestView::WithEither { value }),
            None => Err(Rejection::BadParameter),
        },
        Handler::WithQueryString => match u32_of_text(percent_decode(segments[1])) {
            Some(user_id) => Ok(
                RequestView::WithQueryString { user_id, friend: decoded_text(segments[2]) },
            ),
            None => Err(Rejection::BadParameter),
        },
    }
}

/// Whether the string parameters of a routed request are exactly what the
/// decoded bytes of their segments say (see `reads_exactly`).
pub open spec fn strings_read_exactly(request: RequestView, segments: Seq<Seq<u8>>) -> bool {
    match request {
        RequestView::CustomJson { .. } => reads_exactly(segments[1]),
        RequestView::WithQueryString { .. } => reads_exactly(segments[2]),
        _ => true,
    }
}

/// Where a request goes.
///
/// A path that matches no template is not found. A path that matches one is
/// refused unless the method is the one of that route. Then the parameters
/// are extracted.
pub open spec fn routed(method: Method, path: Seq<u8>) -> Result<RequestView, Rejection> {
    match handler_of(path) {
        None => Err(Rejection::NotFound),
        Some(handler) => if handler.spec_method() != method {
            Err(Rejection::MethodNotAllowed)
        } else {
            extract(handler, path_segments(path))
        },
    }
}

/// The view of what `route` returns.
pub open spec fn routing_view(r: Result<Request, Rejection>) -> Result<RequestView, Rejection> {
    match r {
        Ok(request) => Ok(request@),
        Err(rejection) => Err(rejection),
    }
}

/// Finds the handler whose template the segments fit.
pub fn find_handler(segments: &Vec<&[u8]>) -> (found: Option<Handler>)
    ensures
        found == handler_of_segments(views(segments@)),
{
    let ghost segs = views(segments@);
    let n = segments.len();
    assert(forall|i: int| 0 <= i < n ==> segs[i] == #[trigger] segments@[i]@);
    if n == 1 {
        let only = segments[0];
        if same_bytes(only, "".as_bytes()) {
            assert(segments_match(Handler::Hello.template(), segs));
            Some(Handler::Hello)
        } else if same_bytes(only, "echo".as_bytes()) {
            assert(!piece_matches(Handler::Hello.template()[0], segs[0]));
            assert(segments_match(Handler::Echo.template(), segs));
            Some(Handler::Echo)
        } else if same_bytes(only, "hey".as_bytes()) {
            assert(!piece_matches(Handler::Hello.template()[0], segs[0]));
            assert(!piece_matches(Handler::Echo.template()[0], segs[0]));
            assert(segments_match(Handler::ManualHello.template(), segs));
            Some(Handler::ManualHello)
        } else {
            assert(!piece_matches(Handler::Hello.template()[0], segs[0]));
            assert(!piece_matches(Handler::Echo.template()[0], segs[0]));
            assert(!piece_matches(Handler::ManualHello.template()[0], segs[0]));
            None
        }
    } else if n == 2 {
        let first = segments[0];
        let filled = segments[1].len() > 0;
        if !filled {
            assert(!piece_matches(Handler::CustomJson.template()[1], segs[1]));
            assert(!piece_matches(Handler::WithEither.template()[1], segs[1]));
            None
        } else if same_bytes(first, "json".as_bytes()) {
            assert(segments_match(Handler::CustomJson.template(), segs));
            Some(Handler::CustomJson)
        } else if same_bytes(first, "either".as_bytes()) {
            assert(!piece_matches(Handler::CustomJson.template()[0], segs[0]));
            assert(segments_match(Handler::WithEither.template(), segs));
            Some(Handler::WithEither)
        } else {
            assert(!piece_matches(Handler::CustomJson.template()[0], segs[0]));
            assert(!piece_matches(Handler::WithEither.template()[0], segs[0]));
            None
        }
    } else if n == 3 {
        if same_bytes(segments[0], "users".as_bytes()) && segments[1].len() > 0
            && segments[2].len() > 0 {
            assert(segments_match(Handler::WithQueryString.template(), segs));
            Some(Handler::WithQueryString)
        } else {
            assert(!piece_matches(Handler::WithQueryString.template()[0], segs[0])
                || !piece_matches(Handler::WithQueryString.template()[1], segs[1])
                || !piece_matches(Handler::WithQueryString.template()[2], segs[2]));
            None
        }
    } else {
        None
    }
}

/// Extracts the typed parameters of a handler from the segments of a path
/// that matches the handler's template.
pub fn extract_params(handler: Handler, segments: &Vec<&[u8]>) -> (r: Result<Request, Rejection>)
    requires
        segments_match(handler.template(), views(segments@)),
    ensures
        routing_view(r) == extract(handler, views(segments@)),
        r matches Ok(request) ==> strings_read_exactly(request@, views(segments@)),
{
    let ghost segs = views(segments@);
    assert(forall|i: int| 0 <= i < segments@.len() ==> segs[i] == #[trigger] segments@[i]@);
    match handler {
        Handler::Hello => Ok(Request::Hello),
        Handler::Echo => Ok(Request::Echo),
        Handler::ManualHello => Ok(Request::ManualHello),
        Handler::CustomJson => Ok(Request::CustomJson { name: decode_text(segments[1]) }),
        Handler::WithEither => {
            let text = decode(segments[1]);
            match parse_bool(text.as_slice()) {
                Some(value) => Ok(Request::WithEither { value }),
                None => Err(Rejection::BadParameter),
            }
        },
        Handler::WithQueryString => {
            let text = decode(segments[1]);
            match parse_u32(text.as_slice()) {
                Some(user_id) => Ok(
                    Request::WithQueryString { user_id, friend: decode_text(segments[2]) },
                ),
                None => Err(Rejection::BadParameter),
            }
        },
    }
}

/// Routes a request: finds the handler for the method and the path, and
/// extracts its parameters.
///
/// The path is the path component of the request target, as it came over
/// the wire: escapes are decoded here, segment by segment, after the path
/// has been split.
pub fn route(method: Method, path: &[u8]) -> (r: Result<Request, Rejection>)
    ensures
        routing_view(r) == routed(method, path@),
        r matches Ok(request) ==> strings_read_exactly(request@, path_segments(path@)),
{
    if path.len() == 0 || path[0] != SLASH {
        return Err(Rejection::NotFound);
    }
    let segments = split_segments(slice_subrange(path, 1, path.len()));
    assert(path@.subrange(1, path@.len() as int) =~= path@.skip(1));
    match find_handler(&segments) {
        None => Err(Rejection::NotFound),
        Some(handler) => {
            if handler.method() != method {
                Err(Rejection::MethodNotAllowed)
            } else {
                extract_params(handler, &segments)
            }
        },
    }
}

} // verus!
