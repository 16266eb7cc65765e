use vstd::prelude::*;
use vstd::slice::slice_subrange;
use vstd::string::*;
use vstd::utf8::*;
use crate::text::chars_of;
use crate::text::find;
use crate::text::find_byte;
use crate::text::lemma_find;
use crate::text::lemma_find_bounds;
use crate::text::str_eq;

verus! {

/// A parsed request: the three tokens of its request line, and whether the peer wants
/// the connection kept open afterwards.
pub struct Request {
    pub method: String,
    pub path: String,
    pub version: String,
    pub keep_alive: bool,
}

/// What a `Request` holds, as plain values.
pub struct RequestModel {
    pub method: Seq<char>,
    pub path: Seq<char>,
    pub version: Seq<char>,
    pub keep_alive: bool,
}

impl View for Request {
    type V = RequestModel;

    open spec fn view(&self) -> RequestModel {
        RequestModel {
            method: self.method@,
            path: self.path@,
            version: self.version@,
            keep_alive: self.keep_alive,
        }
    }
}

/// The characters that separate the tokens of the request line: Unicode white space.
pub open spec fn is_whitespace(c: char) -> bool {
    let u = c as u32;
    ||| 0x09 <= u <= 0x0D
    ||| u == 0x20
    ||| u == 0x85
    ||| u == 0xA0
    ||| u == 0x1680
    ||| 0x2000 <= u <= 0x200A
    ||| u == 0x2028
    ||| u == 0x2029
    ||| u == 0x202F
    ||| u == 0x205F
    ||| u == 0x3000
}

/// For each character of `line`, whether it is white space.
pub open spec fn spaces(line: Seq<char>) -> Seq<bool> {
    Seq::new(line.len(), |i: int| is_whitespace(line[i]))
}

/// Where the next token at or after `from` starts and ends. Both are the length of
/// `line` if there is no further token.
pub open spec fn token_after(line: Seq<char>, from: int) -> (int, int) {
    let start = find(spaces(line), from, false);
    (start, find(spaces(line), start, true))
}

/// Where the first three tokens of `line` lie, each given by its start and end, if
/// there are as many. Tokens beyond the third are not looked at.
pub open spec fn request_line(line: Seq<char>) -> Option<((int, int), (int, int), (int, int))> {
    let method = token_after(line, 0);
    let path = token_after(line, method.1);
    let version = token_after(line, path.1);
    if version.0 < line.len() {
        Some((method, path, version))
    } else {
        None
    }
}

/// The lower-case form of an ASCII letter; any other byte unchanged.
pub open spec fn ascii_lower(b: u8) -> u8 {
    if 65 <= b <= 90 {
        (b + 32) as u8
    } else {
        b
    }
}

/// Whether two byte strings are equal when ASCII letters are compared without case.
pub open spec fn same_ignoring_case(a: Seq<u8>, b: Seq<u8>) -> bool {
    &&& a.len() == b.len()
    &&& forall|i: int| 0 <= i < a.len() ==> ascii_lower(a[i]) == ascii_lower(b[i])
}

/// Space and horizontal tab, which may surround a header's value.
pub open spec fn is_blank(b: u8) -> bool {
    b == 32 || b == 9
}

/// `s` without the blanks at its start.
pub open spec fn trim_start(s: Seq<u8>) -> Seq<u8>
    decreases s.len(),
{
    if s.len() > 0 && is_blank(s[0]) {
        trim_start(s.skip(1))
    } else {
        s
    }
}

/// `s` without the blanks at its end.
pub open spec fn trim_end(s: Seq<u8>) -> Seq<u8>
    decreases s.len(),
{
    if s.len() > 0 && is_blank(s.last()) {
        trim_end(s.drop_last())
    } else {
        s
    }
}

/// `s` without the blanks at either end.
pub open spec fn trim(s: Seq<u8>) -> Seq<u8> {
    trim_end(trim_start(s))
}

/// What one header line says about keeping the connection open: `Some(true)` for a
/// `Connection` header whose value is `keep-alive`, `Some(false)` for one whose value is
/// `close`, `None` for any other line. Name and value are compared without regard to
/// case, and blanks around the value do not count.
pub open spec fn connection_intent(line: Seq<u8>) -> Option<bool> {
    let colon = find(line, 0, 58u8);
    if colon >= line.len() {
        None
    } else if !same_ignoring_case(line.subrange(0, colon), "connection".spec_bytes()) {
        None
    } else {
        let value = trim(line.subrange(colon + 1, line.len() as int));
        if same_ignoring_case(value, "keep-alive".spec_bytes()) {
            Some(true)
        } else if same_ignoring_case(value, "close".spec_bytes()) {
            Some(false)
        } else {
            None
        }
    }
}

/// `line` without the carriage return that precedes its line feed, if it has one.
pub open spec fn strip_cr(line: Seq<u8>) -> Seq<u8> {
    if line.len() > 0 && line.last() == 13 {
        line.drop_last()
    } else {
        line
    }
}

/// What the header lines that start at offset `from` say about keeping the connection
/// open. Lines are read up to the first empty one or the end of `bytes`; the first line
/// that says anything decides.
pub open spec fn connection_header(bytes: Seq<u8>, from: int) -> Option<bool>
    decreases bytes.len() - from,
{
    if from < 0 || from >= bytes.len() {
        None
    } else {
        let end = find(bytes, from, 10u8);
        let line = strip_cr(bytes.subrange(from, end));
        if line.len() == 0 {
            None
        } else if connection_intent(line) is Some {
            connection_intent(line)
        } else if from <= end < bytes.len() {
            connection_header(bytes, end + 1)
        } else {
            None
        }
    }
}

/// Whether the connection is to be kept open after a request with these bytes and this
/// protocol version: as its headers say or, where they are silent, only for HTTP/1.1.
pub open spec fn keep_alive_intent(bytes: Seq<u8>, version: Seq<char>) -> bool {
    match connection_header(bytes, find(bytes, 0, 10u8) + 1) {
        Some(explicit) => explicit,
        None => version == "HTTP/1.1"@,
    }
}

/// The request that `bytes` hold, if any. The request line is what stands before the
/// first line feed; it must be valid UTF-8 and hold at least three tokens.
pub open spec fn parsed(bytes: Seq<u8>) -> Option<RequestModel> {
    let line = bytes.subrange(0, find(bytes, 0, 10u8));
    if !valid_utf8(line) {
        None
    } else {
        let text = decode_utf8(line);
        match request_line(text) {
            None => None,
            Some((method, path, version)) => Some(
                RequestModel {
                    method: text.subrange(method.0, method.1),
                    path: text.subrange(path.0, path.1),
                    version: text.subrange(version.0, version.1),
                    keep_alive: keep_alive_intent(bytes, text.subrange(version.0, version.1)),
                },
            ),
        }
    }
}

/// The tokens of a request line are words: each is a run of at least one character
/// that is not white space, they follow one another in the line, and only white space
/// stands before the first and between one and the next.
pub proof fn lemma_tokens_are_words(line: Seq<char>)
    requires
        request_line(line) is Some,
    ensures
        ({
            let (method, path, version) = request_line(line)->0;
            &&& 0 <= method.0 < method.1 <= path.0 < path.1 <= version.0 < version.1 <= line.len()
            &&& forall|i: int|
                method.0 <= i < method.1 || path.0 <= i < path.1 || version.0 <= i < version.1
                    ==> !is_whitespace(#[trigger] line[i])
            &&& forall|i: int|
                0 <= i < method.0 || method.1 <= i < path.0 || path.1 <= i < version.0
                    ==> is_whitespace(#[trigger] line[i])
            &&& version.1 < line.len() ==> is_whitespace(line[version.1])
        }),
{
    let marks = spaces(line);
    let (method, path, version) = request_line(line)->0;
    lemma_find_bounds(marks, 0, false);
    lemma_find_bounds(marks, method.0, true);
    lemma_find_bounds(marks, method.1, false);
    lemma_find_bounds(marks, path.0, true);
    lemma_find_bounds(marks, path.1, false);
    lemma_find_bounds(marks, version.0, true);
    assert forall|i: int|
        method.0 <= i < method.1 || path.0 <= i < path.1 || version.0 <= i
            < version.1 implies !is_whitespace(#[trigger] line[i]) by {
        assert(marks[i] == is_whitespace(line[i]));
    }
    assert forall|i: int|
        0 <= i < method.0 || method.1 <= i < path.0 || path.1 <= i < version.0 implies is_whitespace(
        #[trigger] line[i],
    ) by {
        assert(marks[i] == is_whitespace(line[i]));
    }
    if version.1 < line.len() {
        assert(marks[version.1] == is_whitespace(line[version.1]));
    }
}

/// Decodes bytes as UTF-8 text with `std::str::from_utf8`. The contract says that the
/// call succeeds exactly on valid UTF-8, and that the text it gives is made of the very
/// bytes it was given.
#[verifier::external_body]
fn decode_text(bytes: &[u8]) -> (text: Option<&str>)
    ensures
        text is Some <==> valid_utf8(bytes@),
        text matches Some(t) ==> t.spec_bytes() == bytes@,
{
    std::str::from_utf8(bytes).ok()
}

/// Tells whether a character separates tokens.
pub fn is_space(c: char) -> (space: bool)
    ensures
        space == is_whitespace(c),
{
    let u: u32 = c as u32;
    (0x09 <= u && u <= 0x0D) || u == 0x20 || u == 0x85 || u == 0xA0 || u == 0x1680 || (0x2000 <= u
        && u <= 0x200A) || u == 0x2028 || u == 0x2029 || u == 0x202F || u == 0x205F || u == 0x3000
}

/// Finds the first character at or after `from` that is white space, or the first that
/// is not, as `space` says.
fn find_space(line: &[char], from: usize, space: bool) -> (at: usize)
    requires
        from <= line@.len(),
    ensures
        at == find(spaces(line@), from as int, space),
        from <= at <= line@.len(),
{
    let n: usize = line.len();
    let mut at: usize = from;
    while at < n && is_space(line[at]) != space
        invariant
            n == line@.len(),
            from <= at <= n,
            forall|j: int| from <= j < at ==> spaces(line@)[j] != space,
        decreases n - at,
    {
        at = at + 1;
    }
    proof {
        lemma_find(spaces(line@), from as int, space, at as int);
    }
    at
}

/// Finds the next token at or after `from`.
fn next_token(line: &[char], from: usize) -> (token: (usize, usize))
    requires
        from <= line@.len(),
    ensures
        (token.0 as int, token.1 as int) == token_after(line@, from as int),
        from <= token.0 <= token.1 <= line@.len(),
{
    let start: usize = find_space(line, from, false);
    let end: usize = find_space(line, start, true);
    (start, end)
}

fn lower(b: u8) -> (l: u8)
    ensures
        l == ascii_lower(b),
{
    if 65 <= b && b <= 90 {
        b + 32
    } else {
        b
    }
}

/// Compares two byte strings without regard to the case of ASCII letters.
pub fn eq_ignoring_case(a: &[u8], b: &[u8]) -> (same: bool)
    ensures
        same == same_ignoring_case(a@, b@),
{
    if a.len() != b.len() {
        return false;
    }
    let n: usize = a.len();
    let mut i: usize = 0;
    while i < n
        invariant
            n == a@.len(),
            n == b@.len(),
            i <= n,
            forall|j: int| 0 <= j < i ==> ascii_lower(a@[j]) == ascii_lower(b@[j]),
        decreases n - i,
    {
        if lower(a[i]) != lower(b[i]) {
            return false;
        }
        i = i + 1;
    }
    true
}

/// Removes the blanks at both ends.
fn trimmed(s: &[u8]) -> (t: &[u8])
    ensures
        t@ == trim(s@),
{
    let n: usize = s.len();
    let mut lo: usize = 0;
    assert(s@.subrange(0, n as int) =~= s@);
    while lo < n && (s[lo] == 32 || s[lo] == 9)
        invariant
            n == s@.len(),
            lo <= n,
            trim_start(s@) == trim_start(s@.subrange(lo as int, n as int)),
        decreases n - lo,
    {
        assert(s@.subrange(lo as int, n as int).skip(1) =~= s@.subrange(lo + 1, n as int));
        lo = lo + 1;
    }
    assert(trim_start(s@) == s@.subrange(lo as int, n as int));
    let mut hi: usize = n;
    while hi > lo && (s[hi - 1] == 32 || s[hi - 1] == 9)
        invariant
            n == s@.len(),
            lo <= hi <= n,
            trim(s@) == trim_end(s@.subrange(lo as int, hi as int)),
        decreases hi,
    {
        assert(s@.subrange(lo as int, hi as int).drop_last() =~= s@.subrange(
            lo as int,
            hi - 1,
        ));
        hi = hi - 1;
    }
    slice_subrange(s, lo, hi)
}

/// Reads one header line.
fn header_intent(line: &[u8]) -> (intent: Option<bool>)
    ensures
        intent == connection_intent(line@),
{
    let n: usize = line.len();
    let colon: usize = find_byte(line, 0, 58);
    if colon >= n {
        return None;
    }
    if !eq_ignoring_case(slice_subrange(line, 0, colon), "connection".as_bytes()) {
        return None;
    }
    let value = trimmed(slice_subrange(line, colon + 1, n));
    if eq_ignoring_case(value, "keep-alive".as_bytes()) {
        Some(true)
    } else if eq_ignoring_case(value, "close".as_bytes()) {
        Some(false)
    } else {
        None
    }
}

/// Reads the header lines from offset `from` on.
fn header_says(buffer: &[u8], from: usize) -> (intent: Option<bool>)
    ensures
        intent == connection_header(buffer@, from as int),
{
    let n: usize = buffer.len();
    let mut pos: usize = from;
    loop
        invariant
            n == buffer@.len(),
            connection_header(buffer@, from as int) == connection_header(buffer@, pos as int),
        decreases n - pos,
    {
        if pos >= n {
            return None;
        }
        let end: usize = find_byte(buffer, pos, 10);
        let mut stop: usize = end;
        if stop > pos && buffer[stop - 1] == 13 {
            stop = stop - 1;
        }
        let line = slice_subrange(buffer, pos, stop);
        proof {
            let whole = buffer@.subrange(pos as int, end as int);
            if stop < end {
                assert(whole.drop_last() =~= line@);
            }
            assert(line@ == strip_cr(whole));
        }
        if stop == pos {
            return None;
        }
        let intent = header_intent(line);
        if intent.is_some() {
            return intent;
        }
        if end >= n {
            return None;
        }
        pos = end + 1;
    }
}

/// Parses the bytes of a request, as accumulated up to and including the header
/// terminator. Gives `None` if the request line is not valid UTF-8 or has fewer than
/// three tokens.
pub fn parse_request(buffer: &[u8]) -> (request: Option<Request>)
    ensures
        match parsed(buffer@) {
            Some(model) => request matches Some(r) && r@ == model,
            None => request is None,
        },
{
    let end: usize = find_byte(buffer, 0, 10);
    let text = match decode_text(slice_subrange(buffer, 0, end)) {
        Some(text) => text,
        None => {
            return None;
        },
    };
    proof {
        encode_utf8_decode_utf8(text@);
    }
    let line = chars_of(text);
    let method = next_token(line.as_slice(), 0);
    let path = next_token(line.as_slice(), method.1);
    let version = next_token(line.as_slice(), path.1);
    if version.0 >= line.len() {
        return None;
    }
    let version_text = text.substring_char(version.0, version.1);
    let explicit = if end < buffer.len() {
        header_says(buffer, end + 1)
    } else {
        None
    };
    let keep_alive = match explicit {
        Some(explicit) => explicit,
        None => str_eq(version_text, "HTTP/1.1"),
    };
    Some(
        Request {
            method: text.substring_char(method.0, method.1).to_owned(),
            path: text.substring_char(path.0, path.1).to_owned(),
            version: version_text.to_owned(),
            keep_alive,
        },
    )
}

} // verus!
