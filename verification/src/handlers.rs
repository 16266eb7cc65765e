use vstd::prelude::*;
use vstd::string::*;
use vstd::utf8::*;
use crate::response::build_response;
use crate::response::build_response_bytes;
use crate::response::response_bytes;
use crate::response::HTTPStatus;

verus! {

/// The response with the given status, under the reason phrase that belongs to it.
pub open spec fn answer(status: HTTPStatus, content_type: &str, body: Seq<u8>) -> Seq<u8> {
    response_bytes(
        status.spec_code() as nat,
        encode_utf8(status.spec_reason()),
        content_type.spec_bytes(),
        body,
    )
}

/// The response that carries `body` as an HTML page with status 200.
pub open spec fn page(body: Seq<u8>) -> Seq<u8> {
    answer(HTTPStatus::OK, "text/html", body)
}

/// The plain-text response that reports `status` with `body` as its text.
pub open spec fn notice(status: HTTPStatus, body: &str) -> Seq<u8> {
    answer(status, "text/plain", body.spec_bytes())
}

/// The page served at `/`.
pub fn home() -> (response: Vec<u8>)
    ensures
        response@ == page("<h1>Welcome home!</h1>".spec_bytes()),
{
    build_response(HTTPStatus::OK, HTTPStatus::OK.reason(), "text/html", "<h1>Welcome home!</h1>")
}

/// The page served at `/about`.
pub fn about() -> (response: Vec<u8>)
    ensures
        response@ == page("<h1>About us</h1>".spec_bytes()),
{
    build_response(HTTPStatus::OK, HTTPStatus::OK.reason(), "text/html", "<h1>About us</h1>")
}

/// A 200 response with the given text as its body.
pub fn file(body: &str) -> (response: Vec<u8>)
    ensures
        response@ == page(body.spec_bytes()),
{
    build_response(HTTPStatus::OK, HTTPStatus::OK.reason(), "text/html", body)
}

/// A 200 response with the given bytes, as read from a file, as its body.
pub fn file_bytes(body: &[u8]) -> (response: Vec<u8>)
    ensures
        response@ == page(body@),
{
    build_response_bytes(HTTPStatus::OK, HTTPStatus::OK.reason(), "text/html", body)
}

/// The response to a request that cannot be served as it stands.
pub fn bad_request() -> (response: Vec<u8>)
    ensures
        response@ == notice(HTTPStatus::BadRequest, "400 Bad Request"),
{
    build_response(
        HTTPStatus::BadRequest,
        HTTPStatus::BadRequest.reason(),
        "text/plain",
        "400 Bad Request",
    )
}

/// The response to a request for a file that is not there.
pub fn not_found() -> (response: Vec<u8>)
    ensures
        response@ == notice(HTTPStatus::NotFound, "404 Not Found"),
{
    build_response(
        HTTPStatus::NotFound,
        HTTPStatus::NotFound.reason(),
        "text/plain",
        "404 Not Found",
    )
}

/// The response to a request with a method other than GET and POST.
pub fn method_not_allowed() -> (response: Vec<u8>)
    ensures
        response@ == notice(HTTPStatus::MethodNotAllowed, "405 Method Not Allowed"),
{
    build_response(
        HTTPStatus::MethodNotAllowed,
        HTTPStatus::MethodNotAllowed.reason(),
        "text/plain",
        "405 Method Not Allowed",
    )
}

/// The response to a peer whose request did not arrive in time.
pub fn request_timeout() -> (response: Vec<u8>)
    ensures
        response@ == notice(HTTPStatus::RequestTimeout, "408 Request Timeout"),
{
    build_response(
        HTTPStatus::RequestTimeout,
        HTTPStatus::RequestTimeout.reason(),
        "text/plain",
        "408 Request Timeout",
    )
}

/// The response to a request that has grown to the size limit.
pub fn content_too_large() -> (response: Vec<u8>)
    ensures
        response@ == notice(HTTPStatus::ContentTooLarge, "413 Content Too Large"),
{
    build_response(
        HTTPStatus::ContentTooLarge,
        HTTPStatus::ContentTooLarge.reason(),
        "text/plain",
        "413 Content Too Large",
    )
}

/// The response to a peer that connects while the server is full.
pub fn service_unavailable() -> (response: Vec<u8>)
    ensures
        response@ == notice(HTTPStatus::ServiceUnavailable, "503 Service Unavailable"),
{
    build_response(
        HTTPStatus::ServiceUnavailable,
        HTTPStatus::ServiceUnavailable.reason(),
        "text/plain",
        "503 Service Unavailable",
    )
}

} // verus!
