//! The bytes of a response:
//!
//! ```text
//! HTTP/1.1 200 OK\nContent-Type: <type>\r\n\r\n<body>
//! HTTP/1.1 404 NOT FOUND\nContent-Type: <type>\r\n\r\n<body>
//! ```
//!
//! The status line ends in a bare `\n`; the content type is followed by
//! `\r\n\r\n`.

use crate::stream::InternalStream;
use vstd::prelude::*;
use vstd::string::*;
use vstd::utf8::*;

verus! {

/// The status of a response.
#[derive(Clone, Copy, Debug, PartialEq, Eq, Structural)]
pub enum Status {
    /// 200: the resource was found.
    Found,
    /// 404: no route and no static file matches the path.
    NotFound,
}

/// The status line of a found resource, up to where the content type starts.
pub const LINE_OK: &'static str = "HTTP/1.1 200 OK\nContent-Type: ";

/// The status line of a missing resource, up to where the content type starts.
pub const LINE_NOT_FOUND: &'static str = "HTTP/1.1 404 NOT FOUND\nContent-Type: ";

/// What stands between the content type and the body.
pub const SEPARATOR: &'static str = "\r\n\r\n";

/// The body of a 404 response where the static root holds no page for it.
pub const NOT_FOUND_TEXT: &'static str = "404 NOT FOUND";

/// The status line of `status`, up to where the content type starts.
pub open spec fn status_line(status: Status) -> Seq<char> {
    match status {
        Status::Found => LINE_OK@,
        Status::NotFound => LINE_NOT_FOUND@,
    }
}

/// The bytes of a response before its body.
pub open spec fn spec_head(status: Status, content_type: Seq<char>) -> Seq<u8> {
    encode_utf8(status_line(status)) + encode_utf8(content_type) + encode_utf8(SEPARATOR@)
}

/// The bytes of a whole response.
pub open spec fn spec_response(status: Status, content_type: Seq<char>, body: Seq<char>) -> Seq<
    u8,
> {
    spec_head(status, content_type) + encode_utf8(body)
}

/// Pushes the status line and the content type, with the separator that
/// ends them, onto the pending output.
pub fn push_head(stream: &mut InternalStream, status: Status, content_type: &str)
    ensures
        final(stream)@ == old(stream)@ + spec_head(status, content_type@),
{
    match status {
        Status::Found => stream.push_str(LINE_OK),
        Status::NotFound => stream.push_str(LINE_NOT_FOUND),
    }
    stream.push_str(content_type);
    stream.push_str(SEPARATOR);
    assert(stream@ =~= old(stream)@ + spec_head(status, content_type@));
}

/// Pushes a whole response onto the pending output.
pub fn push_response(stream: &mut InternalStream, status: Status, content_type: &str, body: &str)
    ensures
        final(stream)@ == old(stream)@ + spec_response(status, content_type@, body@),
{
    push_head(stream, status, content_type);
    stream.push_str(body);
    assert(stream@ =~= old(stream)@ + spec_response(status, content_type@, body@));
}

/// Text put together encodes to the encodings put together.
pub proof fn lemma_encode_concat(left: Seq<char>, right: Seq<char>)
    ensures
        encode_utf8(left + right) == encode_utf8(left) + encode_utf8(right),
    decreases left.len(),
{
    if left.len() == 0 {
        assert(left + right =~= right);
        assert(encode_utf8(left) + encode_utf8(right) =~= encode_utf8(right));
    } else {
        lemma_encode_concat(left.drop_first(), right);
        assert((left + right).drop_first() =~= left.drop_first() + right);
        assert((left + right)[0] == left[0]);
        assert(encode_utf8(left + right) =~= encode_utf8(left) + encode_utf8(right));
    }
}

/// A response is its status line, its content type, the separator and its
/// body, encoded as one text.
pub proof fn lemma_response_text(status: Status, content_type: Seq<char>, body: Seq<char>)
    ensures
        spec_response(status, content_type, body) == encode_utf8(
            status_line(status) + content_type + SEPARATOR@ + body,
        ),
{
    let line = status_line(status);
    lemma_encode_concat(line, content_type);
    lemma_encode_concat(line + content_type, SEPARATOR@);
    lemma_encode_concat(line + content_type + SEPARATOR@, body);
}

/// The response to a found static file with text `body` is exactly
/// `HTTP/1.1 200 OK\nContent-Type: text/html; charset=utf-8\r\n\r\n`
/// followed by `body`.
pub proof fn lemma_found_page(body: Seq<char>)
    ensures
        spec_response(Status::Found, "text/html; charset=utf-8"@, body) == encode_utf8(
            "HTTP/1.1 200 OK\nContent-Type: text/html; charset=utf-8\r\n\r\n"@ + body,
        ),
{
    reveal_strlit("HTTP/1.1 200 OK\nContent-Type: ");
    reveal_strlit("text/html; charset=utf-8");
    reveal_strlit("\r\n\r\n");
    reveal_strlit("HTTP/1.1 200 OK\nContent-Type: text/html; charset=utf-8\r\n\r\n");
    lemma_response_text(Status::Found, "text/html; charset=utf-8"@, body);
    assert(LINE_OK@ + "text/html; charset=utf-8"@ + SEPARATOR@
        =~= "HTTP/1.1 200 OK\nContent-Type: text/html; charset=utf-8\r\n\r\n"@);
}

/// The response to a missing resource with the text `body` of the 404 page
/// is exactly
/// `HTTP/1.1 404 NOT FOUND\nContent-Type: text/html; charset=utf-8\r\n\r\n`
/// followed by `body`.
pub proof fn lemma_missing_page(body: Seq<char>)
    ensures
        spec_response(Status::NotFound, "text/html; charset=utf-8"@, body) == encode_utf8(
            "HTTP/1.1 404 NOT FOUND\nContent-Type: text/html; charset=utf-8\r\n\r\n"@ + body,
        ),
{
    reveal_strlit("HTTP/1.1 404 NOT FOUND\nContent-Type: ");
    reveal_strlit("text/html; charset=utf-8");
    reveal_strlit("\r\n\r\n");
    reveal_strlit("HTTP/1.1 404 NOT FOUND\nContent-Type: text/html; charset=utf-8\r\n\r\n");
    lemma_response_text(Status::NotFound, "text/html; charset=utf-8"@, body);
    assert(LINE_NOT_FOUND@ + "text/html; charset=utf-8"@ + SEPARATOR@
        =~= "HTTP/1.1 404 NOT FOUND\nContent-Type: text/html; charset=utf-8\r\n\r\n"@);
}

} // verus!
