//! The dispatcher: from a method, a path and a body to the reply.

use vstd::prelude::*;
use vstd::string::*;
use crate::handlers::{
    custom_json, echo, either_reply, hello, into_response, manual_hello, processing_trace,
    trace_line, welcome, with_either, with_query_string,
};
use crate::json::json_object;
use crate::response::{json_reply, status_reply, text_reply, Response, ResponseView};
use crate::route::{
    path_segments, route, routed, strings_read_exactly, Method, Rejection, Request, RequestView,
};

verus! {

/// What the dispatcher hands back for one request.
#[derive(Clone, Debug, PartialEq, Eq)]
pub struct Served {
    /// The reply to write out.
    pub response: Response,
    /// The line to trace at the informational level before the reply is
    /// written, where the handler has one.
    pub trace: Option<&'static str>,
}

/// The reply of the handler that a routed request is for.
pub open spec fn reply_to(request: RequestView, body: Seq<u8>) -> ResponseView {
    match request {
        RequestView::Hello => text_reply("Hello world!".spec_bytes()),
        RequestView::Echo => text_reply(body),
        RequestView::WithQueryString { user_id, friend } => text_reply(welcome(user_id, friend)),
        RequestView::CustomJson { name } => json_reply(json_object(name)),
        RequestView::WithEither { value } => either_reply(value),
        RequestView::ManualHello => text_reply("Hey there!".spec_bytes()),
    }
}

/// The line that the handler of a routed request traces: the boolean
/// handler traces the value it was given, the others nothing.
pub open spec fn trace_of(request: RequestView) -> Option<Seq<char>> {
    match request {
        RequestView::WithEither { value } => Some(trace_line(value)),
        _ => None,
    }
}

/// The reply to a request that reaches no handler: the status of the
/// rejection, and no body.
pub open spec fn rejection_reply(rejection: Rejection) -> ResponseView {
    status_reply(rejection.spec_status(), Seq::empty())
}

/// The reply of the service to a request.
pub open spec fn respond(method: Method, path: Seq<u8>, body: Seq<u8>) -> ResponseView {
    match routed(method, path) {
        Ok(request) => reply_to(request, body),
        Err(rejection) => rejection_reply(rejection),
    }
}

/// The line that the service traces for a request, if any.
pub open spec fn traced(method: Method, path: Seq<u8>) -> Option<Seq<char>> {
    match routed(method, path) {
        Ok(request) => trace_of(request),
        Err(_) => None,
    }
}

/// The view of a trace line that may be absent.
pub open spec fn trace_view(trace: Option<&'static str>) -> Option<Seq<char>> {
    match trace {
        Some(line) => Some(line@),
        None => None,
    }
}

/// Runs the handler that a routed request is for.
pub fn serve(request: Request, body: Vec<u8>) -> (served: Served)
    ensures
        served.response@ == reply_to(request@, body@),
        trace_view(served.trace) == trace_of(request@),
{
    match request {
        Request::Hello => Served { response: hello(), trace: None },
        Request::Echo => Served { response: echo(body), trace: None },
        Request::WithQueryString { user_id, friend } => Served {
            response: Response::text(with_query_string(user_id, friend.as_str())),
            trace: None,
        },
        Request::CustomJson { name } => Served {
            response: Response::json(custom_json(name).to_json()),
            trace: None,
        },
        Request::WithEither { value } => Served {
            response: into_response(with_either(value)),
            trace: Some(processing_trace(value)),
        },
        Request::ManualHello => Served { response: manual_hello(), trace: None },
    }
}

/// Makes the reply to a request that reaches no handler.
pub fn reject(rejection: Rejection) -> (response: Response)
    ensures
        response@ == rejection_reply(rejection),
{
    Response::with_status(rejection.status(), Vec::new())
}

/// Answers a request.
///
/// `path` is the path component of the request target, still escaped;
/// `body` is the request body. The reply is the handler's where the method
/// and the path select one and the path parameters parse, and a rejection
/// without a body otherwise.
pub fn dispatch(method: Method, path: &[u8], body: Vec<u8>) -> (served: Served)
    ensures
        served.response@ == respond(method, path@, body@),
        trace_view(served.trace) == traced(method, path@),
        routed(method, path@) matches Ok(request) ==> strings_read_exactly(
            request,
            path_segments(path@),
        ),
{
    match route(method, path) {
        Ok(request) => serve(request, body),
        Err(rejection) => Served { response: reject(rejection), trace: None },
    }
}

} // verus!
