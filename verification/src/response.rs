use vstd::prelude::*;
use vstd::string::*;

verus! {

/// The status codes this server can answer with.
#[derive(Copy, Clone, Debug, PartialEq, Eq)]
pub enum HTTPStatus {
    OK,
    BadRequest,
    NotFound,
    MethodNotAllowed,
    RequestTimeout,
    ContentTooLarge,
    ServiceUnavailable,
}

impl HTTPStatus {
    /// The numeric code that goes on the status line.
    pub open spec fn spec_code(self) -> u16 {
        match self {
            HTTPStatus::OK => 200,
            HTTPStatus::BadRequest => 400,
            HTTPStatus::NotFound => 404,
            HTTPStatus::MethodNotAllowed => 405,
            HTTPStatus::RequestTimeout => 408,
            HTTPStatus::ContentTooLarge => 413,
            HTTPStatus::ServiceUnavailable => 503,
        }
    }

    /// The fixed reason phrase of each status.
    pub open spec fn spec_reason(self) -> Seq<char> {
        match self {
            HTTPStatus::OK => "OK"@,
            HTTPStatus::BadRequest => "Bad Request"@,
            HTTPStatus::NotFound => "Not Found"@,
            HTTPStatus::MethodNotAllowed => "Method Not Allowed"@,
            HTTPStatus::RequestTimeout => "Request Timeout"@,
            HTTPStatus::ContentTooLarge => "Content Too Large"@,
            HTTPStatus::ServiceUnavailable => "Service Unavailable"@,
        }
    }

    pub fn code(self) -> (c: u16)
        ensures
            c == self.spec_code(),
    {
        match self {
            HTTPStatus::OK => 200,
            HTTPStatus::BadRequest => 400,
            HTTPStatus::NotFound => 404,
            HTTPStatus::MethodNotAllowed => 405,
            HTTPStatus::RequestTimeout => 408,
            HTTPStatus::ContentTooLarge => 413,
            HTTPStatus::ServiceUnavailable => 503,
        }
    }

    pub fn reason(self) -> (r: &'static str)
        ensures
            r@ == self.spec_reason(),
    {
        match self {
            HTTPStatus::OK => "OK",
            HTTPStatus::BadRequest => "Bad Request",
            HTTPStatus::NotFound => "Not Found",
            HTTPStatus::MethodNotAllowed => "Method Not Allowed",
            HTTPStatus::RequestTimeout => "Request Timeout",
            HTTPStatus::ContentTooLarge => "Content Too Large",
            HTTPStatus::ServiceUnavailable => "Service Unavailable",
        }
    }
}

/// The ASCII digit for a value below ten.
pub open spec fn digit(d: nat) -> u8 {
    (48 + d) as u8
}

/// The decimal numeral of `n`, most significant digit first, without leading zeros.
pub open spec fn decimal(n: nat) -> Seq<u8>
    decreases n,
{
    if n < 10 {
        seq![digit(n)]
    } else {
        decimal(n / 10).push(digit(n % 10))
    }
}

/// The number that a string of ASCII digits denotes.
pub open spec fn decimal_value(digits: Seq<u8>) -> nat
    decreases digits.len(),
{
    if digits.len() == 0 {
        0
    } else {
        (10 * decimal_value(digits.drop_last()) + (digits.last() - 48)) as nat
    }
}

/// Reading a numeral back gives the number it was written from.
pub proof fn lemma_decimal_value(n: nat)
    ensures
        decimal_value(decimal(n)) == n,
        decimal(n).len() >= 1,
        forall|i: int| 0 <= i < decimal(n).len() ==> 48 <= #[trigger] decimal(n)[i] <= 57,
    decreases n,
{
    if n < 10 {
        assert(decimal(n).drop_last() =~= Seq::<u8>::empty());
        assert(decimal_value(decimal(n).drop_last()) == 0);
    } else {
        lemma_decimal_value(n / 10);
        assert(decimal(n).drop_last() =~= decimal(n / 10));
    }
}

/// Appends the decimal numeral of `n` to `out`.
fn push_decimal(out: &mut Vec<u8>, n: usize)
    ensures
        final(out)@ == old(out)@ + decimal(n as nat),
    decreases n,
{
    if n >= 10 {
        push_decimal(out, n / 10);
    }
    let d: u8 = (n % 10) as u8;
    out.push(48 + d);
    assert(final(out)@ =~= old(out)@ + decimal(n as nat));
}

/// The status line: protocol, code, reason, each a space apart, and a line end.
pub open spec fn status_line(code: nat, reason: Seq<u8>) -> Seq<u8> {
    "HTTP/1.1 ".spec_bytes() + decimal(code) + " ".spec_bytes() + reason + "\r\n".spec_bytes()
}

/// One header line: name, colon, space, value, and a line end.
pub open spec fn header_line(name: Seq<u8>, value: Seq<u8>) -> Seq<u8> {
    name + ": ".spec_bytes() + value + "\r\n".spec_bytes()
}

/// What stands before the body: the status line, the length of the body, the type of
/// the body, and an empty line.
pub open spec fn response_head(
    code: nat,
    reason: Seq<u8>,
    content_type: Seq<u8>,
    length: nat,
) -> Seq<u8> {
    status_line(code, reason) + header_line("Content-Length".spec_bytes(), decimal(length))
        + header_line("Content-Type".spec_bytes(), content_type) + "\r\n".spec_bytes()
}

/// The bytes of a complete response: the head, which gives the exact number of bytes
/// of the body, and then the body.
pub open spec fn response_bytes(
    code: nat,
    reason: Seq<u8>,
    content_type: Seq<u8>,
    body: Seq<u8>,
) -> Seq<u8> {
    response_head(code, reason, content_type, body.len()) + body
}

/// Composes a response whose body is given as raw bytes.
pub fn build_response_bytes(
    status_code: HTTPStatus,
    reason_phrase: &str,
    content_type: &str,
    body: &[u8],
) -> (response: Vec<u8>)
    ensures
        response@ == response_bytes(
            status_code.spec_code() as nat,
            reason_phrase.spec_bytes(),
            content_type.spec_bytes(),
            body@,
        ),
{
    let mut out: Vec<u8> = Vec::new();
    out.extend_from_slice("HTTP/1.1 ".as_bytes());
    push_decimal(&mut out, status_code.code() as usize);
    out.extend_from_slice(" ".as_bytes());
    out.extend_from_slice(reason_phrase.as_bytes());
    out.extend_from_slice("\r\n".as_bytes());
    assert(out@ =~= status_line(status_code.spec_code() as nat, reason_phrase.spec_bytes()));
    let ghost line = out@;
    out.extend_from_slice("Content-Length".as_bytes());
    out.extend_from_slice(": ".as_bytes());
    push_decimal(&mut out, body.len());
    out.extend_from_slice("\r\n".as_bytes());
    assert(out@ =~= line + header_line("Content-Length".spec_bytes(), decimal(body@.len())));
    let ghost lines = out@;
    out.extend_from_slice("Content-Type".as_bytes());
    out.extend_from_slice(": ".as_bytes());
    out.extend_from_slice(content_type.as_bytes());
    out.extend_from_slice("\r\n".as_bytes());
    assert(out@ =~= lines + header_line("Content-Type".spec_bytes(), content_type.spec_bytes()));
    out.extend_from_slice("\r\n".as_bytes());
    out.extend_from_slice(body);
    out
}

/// The length that a response declares is the exact number of bytes of its body,
/// whatever those bytes are: the numeral in the head reads back as that number, and the
/// body is what follows the head, byte for byte.
pub proof fn lemma_content_length_exact(
    code: nat,
    reason: Seq<u8>,
    content_type: Seq<u8>,
    body: Seq<u8>,
)
    ensures
        decimal_value(decimal(body.len())) == body.len(),
        response_bytes(code, reason, content_type, body).len() == response_head(
            code,
            reason,
            content_type,
            body.len(),
        ).len() + body.len(),
        response_bytes(code, reason, content_type, body).subrange(
            response_head(code, reason, content_type, body.len()).len() as int,
            response_bytes(code, reason, content_type, body).len() as int,
        ) == body,
{
    lemma_decimal_value(body.len());
    let head = response_head(code, reason, content_type, body.len());
    assert((head + body).subrange(head.len() as int, (head + body).len() as int) =~= body);
}

/// Composes a response: status line, `Content-Length`, `Content-Type`, a blank line, the body.
pub fn build_response(
    status_code: HTTPStatus,
    reason_phrase: &str,
    content_type: &str,
    body: &str,
) -> (response: Vec<u8>)
    ensures
        response@ == response_bytes(
            status_code.spec_code() as nat,
            reason_phrase.spec_bytes(),
            content_type.spec_bytes(),
            body.spec_bytes(),
        ),
{
    build_response_bytes(status_code, reason_phrase, content_type, body.as_bytes())
}

} // verus!
