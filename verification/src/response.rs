use vstd::prelude::*;

verus! {

/// The three outcomes that a response can report.
#[derive(Clone, Copy, Debug, PartialEq, Eq)]
pub enum Status {
    /// 200: the request was served.
    Success,
    /// 404: no such route, or no such laptop.
    NotFound,
    /// 500: the request could not be read, or the store failed.
    InternalError,
}

/// The head of a response with the given status: the status line, for a
/// success the content type too, and the blank line that ends the head.
pub open spec fn status_line_text(status: Status) -> Seq<char> {
    match status {
        Status::Success => "HTTP/1.1 200 OK\r\nContent-Type: application/json\r\n\r\n"@,
        Status::NotFound => "HTTP/1.1 404 NOT FOUND\r\n\r\n"@,
        Status::InternalError => "HTTP/1.1 500 INTERNAL ERROR\r\n\r\n"@,
    }
}

/// The head of a response with the given status.
pub fn status_line(status: Status) -> (line: &'static str)
    ensures
        line@ == status_line_text(status),
{
    match status {
        Status::Success => "HTTP/1.1 200 OK\r\nContent-Type: application/json\r\n\r\n",
        Status::NotFound => "HTTP/1.1 404 NOT FOUND\r\n\r\n",
        Status::InternalError => "HTTP/1.1 500 INTERNAL ERROR\r\n\r\n",
    }
}

/// What is sent back for one request.
#[derive(Clone, Debug, PartialEq, Eq)]
pub struct Response {
    pub status: Status,
    pub body: String,
}

/// What a `Response` holds, as mathematical values.
pub struct ResponseView {
    pub status: Status,
    pub body: Seq<char>,
}

impl View for Response {
    type V = ResponseView;

    open spec fn view(&self) -> ResponseView {
        ResponseView { status: self.status, body: self.body@ }
    }
}

/// A success with the given body.
pub open spec fn success(body: Seq<char>) -> ResponseView {
    ResponseView { status: Status::Success, body }
}

/// The answer to a request for a laptop that the store does not hold.
pub open spec fn laptop_not_found() -> ResponseView {
    ResponseView { status: Status::NotFound, body: "Laptop not found"@ }
}

/// The answer to a request for a route that the service does not offer.
pub open spec fn route_not_found() -> ResponseView {
    ResponseView { status: Status::NotFound, body: "404 not found"@ }
}

/// The answer to a request that could not be read or that the store failed
/// on. It says nothing of the cause.
pub open spec fn internal_error() -> ResponseView {
    ResponseView { status: Status::InternalError, body: "Internal error"@ }
}

/// A response with the given status and body.
pub fn respond_with(status: Status, body: &str) -> (response: Response)
    ensures
        response@ == (ResponseView { status, body: body@ }),
{
    Response { status, body: String::from_str(body) }
}

/// The origin that may read the responses.
pub open spec fn allowed_origin() -> Seq<char> {
    "http://localhost:5173"@
}

/// A response as it goes out: its head, its body, and after the body one line
/// that allows the one origin.
pub open spec fn wire_text(response: ResponseView) -> Seq<char> {
    status_line_text(response.status) + response.body + "access-control-allow-origin"@ + ": "@
        + allowed_origin() + "\r\n"@
}

/// `http::header::ACCESS_CONTROL_ALLOW_ORIGIN`, as text. Believed, not proved:
/// the name of that header is the one written here, in lower case.
#[verifier::external_body]
fn allow_origin_name() -> (name: String)
    ensures
        name@ == "access-control-allow-origin"@,
{
    http::header::ACCESS_CONTROL_ALLOW_ORIGIN.as_str().to_string()
}

/// The text that goes out for `response`.
pub fn to_wire(response: &Response) -> (out: String)
    ensures
        out@ == wire_text(response@),
{
    let mut out = String::from_str(status_line(response.status));
    out.append(response.body.as_str());
    let name = allow_origin_name();
    out.append(name.as_str());
    out.append(": ");
    out.append("http://localhost:5173");
    out.append("\r\n");
    out
}

} // verus!
