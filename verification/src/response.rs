//! The reply of the service: a status, a content type and a body.

use vstd::prelude::*;

verus! {

/// The statuses that the service can answer with.
///
/// There is no server-error status among them: whatever the request, the
/// service answers in the 2xx or the 4xx range.
#[derive(Clone, Copy, Debug, PartialEq, Eq, Structural)]
pub enum StatusCode {
    /// 200: a handler ran and accepted the request.
    Success,
    /// 400: a path parameter did not parse, or a handler rejected its value.
    BadRequest,
    /// 404: no route has a template that the path matches.
    NotFound,
    /// 405: the path matches a template, but not under this method.
    MethodNotAllowed,
}

impl StatusCode {
    /// The number that goes on the status line.
    pub open spec fn spec_code(self) -> u16 {
        match self {
            StatusCode::Success => 200,
            StatusCode::BadRequest => 400,
            StatusCode::NotFound => 404,
            StatusCode::MethodNotAllowed => 405,
        }
    }

    #[verifier::when_used_as_spec(spec_code)]
    pub fn code(self) -> (n: u16)
        ensures
            n == self.spec_code(),
    {
        match self {
            StatusCode::Success => 200,
            StatusCode::BadRequest => 400,
            StatusCode::NotFound => 404,
            StatusCode::MethodNotAllowed => 405,
        }
    }
}

/// What kind of body a reply carries.
#[derive(Clone, Copy, Debug, PartialEq, Eq, Structural)]
pub enum ContentType {
    /// Plain text.
    Text,
    /// A JSON document.
    Json,
}

impl ContentType {
    /// The value of the `Content-Type` header, as characters.
    pub open spec fn spec_as_str(self) -> Seq<char> {
        match self {
            ContentType::Text => "text/plain; charset=utf-8"@,
            ContentType::Json => "application/json"@,
        }
    }

    /// The value of the `Content-Type` header.
    pub fn as_str(self) -> (s: &'static str)
        ensures
            s@ == self.spec_as_str(),
    {
        match self {
            ContentType::Text => "text/plain; charset=utf-8",
            ContentType::Json => "application/json",
        }
    }
}

/// A complete reply, ready to be written out.
#[derive(Clone, Debug, PartialEq, Eq)]
pub struct Response {
    pub status: StatusCode,
    pub content_type: ContentType,
    pub body: Vec<u8>,
}

/// A reply as a mathematical value: the body is a sequence of bytes.
pub struct ResponseView {
    pub status: StatusCode,
    pub content_type: ContentType,
    pub body: Seq<u8>,
}

impl View for Response {
    type V = ResponseView;

    open spec fn view(&self) -> ResponseView {
        ResponseView { status: self.status, content_type: self.content_type, body: self.body@ }
    }
}

/// The reply with status 200 and the given text as its body.
pub open spec fn text_reply(body: Seq<u8>) -> ResponseView {
    ResponseView { status: StatusCode::Success, content_type: ContentType::Text, body }
}

/// The reply with status 200 and the given JSON document as its body.
pub open spec fn json_reply(body: Seq<u8>) -> ResponseView {
    ResponseView { status: StatusCode::Success, content_type: ContentType::Json, body }
}

/// The reply with the given status and the given text as its body.
pub open spec fn status_reply(status: StatusCode, body: Seq<u8>) -> ResponseView {
    ResponseView { status, content_type: ContentType::Text, body }
}

impl Response {
    /// A 200 reply with a text body.
    pub fn text(body: Vec<u8>) -> (r: Response)
        ensures
            r@ == text_reply(body@),
    {
        Response { status: StatusCode::Success, content_type: ContentType::Text, body }
    }

    /// A 200 reply with a JSON body.
    pub fn json(body: Vec<u8>) -> (r: Response)
        ensures
            r@ == json_reply(body@),
    {
        Response { status: StatusCode::Success, content_type: ContentType::Json, body }
    }

    /// A reply with the given status and a text body.
    pub fn with_status(status: StatusCode, body: Vec<u8>) -> (r: Response)
        ensures
            r@ == status_reply(status, body@),
    {
        Response { status, content_type: ContentType::Text, body }
    }

    pub fn status(&self) -> (s: StatusCode)
        ensures
            s == self.status,
    {
        self.status
    }

    pub fn content_type(&self) -> (c: ContentType)
        ensures
            c == self.content_type,
    {
        self.content_type
    }

    pub fn body(&self) -> (b: &[u8])
        ensures
            b@ == self.body@,
    {
        self.body.as_slice()
    }

    /// The number of bytes in the body, which is what `Content-Length` announces.
    pub fn content_length(&self) -> (n: usize)
        ensures
            n == self.body@.len(),
    {
        self.body.len()
    }
}

} // verus!
