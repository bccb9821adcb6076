//! Reading the request line: `GET <path> HTTP/1.1\r\n`, followed by anything.

use vstd::prelude::*;
use vstd::slice::*;
use vstd::string::*;
use vstd::utf8::*;

verus! {

/// The rule a buffer breaks when it holds no request this server answers.
#[derive(Clone, Copy, Debug, PartialEq, Eq, Structural)]
pub enum RequestError {
    /// The buffer does not begin with `GET ` (capitals, one space).
    Method,
    /// No space ends the path before the buffer does.
    Path,
    /// The path's space is not directly followed by `HTTP/1.1\r\n`.
    Version,
    /// The bytes of the path are not UTF-8 text.
    Encoding,
}

/// The byte that ends the path.
pub const SPACE: u8 = 0x20;

/// The bytes of `GET `.
pub open spec fn method_prefix() -> Seq<u8> {
    seq![0x47u8, 0x45u8, 0x54u8, 0x20u8]
}

/// The bytes of `HTTP/1.1\r\n`.
pub open spec fn version_line() -> Seq<u8> {
    seq![0x48u8, 0x54u8, 0x54u8, 0x50u8, 0x2fu8, 0x31u8, 0x2eu8, 0x31u8, 0x0du8, 0x0au8]
}

/// `pattern` stands in `buffer` at offset `at`.
pub open spec fn has_at(buffer: Seq<u8>, at: int, pattern: Seq<u8>) -> bool {
    &&& 0 <= at
    &&& at + pattern.len() <= buffer.len()
    &&& buffer.subrange(at, at + pattern.len()) == pattern
}

/// The index of the first space at or after `from`, or the buffer's length
/// where there is none.
pub open spec fn path_end(buffer: Seq<u8>, from: int) -> int
    decreases buffer.len() - from,
{
    if from < 0 || from >= buffer.len() {
        buffer.len() as int
    } else if buffer[from] == SPACE {
        from
    } else {
        path_end(buffer, from + 1)
    }
}

/// The bytes of the requested path, or the first rule that the buffer
/// breaks. The rules are tried in the order of `RequestError`'s variants.
pub open spec fn request_path(buffer: Seq<u8>) -> Result<Seq<u8>, RequestError> {
    let end = path_end(buffer, 4);
    if !has_at(buffer, 0, method_prefix()) {
        Err(RequestError::Method)
    } else if end == buffer.len() {
        Err(RequestError::Path)
    } else if !has_at(buffer, end + 1, version_line()) {
        Err(RequestError::Version)
    } else if !valid_utf8(buffer.subrange(4, end)) {
        Err(RequestError::Encoding)
    } else {
        Ok(buffer.subrange(4, end))
    }
}

/// `path_end` is the least index from `from` on that holds a space.
pub proof fn lemma_path_end(buffer: Seq<u8>, from: int)
    requires
        0 <= from <= buffer.len(),
    ensures
        from <= path_end(buffer, from) <= buffer.len(),
        path_end(buffer, from) < buffer.len() ==> buffer[path_end(buffer, from)] == SPACE,
        forall|i: int| from <= i < path_end(buffer, from) ==> buffer[i] != SPACE,
    decreases buffer.len() - from,
{
    if from < buffer.len() && buffer[from] != SPACE {
        lemma_path_end(buffer, from + 1);
    }
}

/// Tells whether `pattern` stands in `buffer` at offset `at`.
pub fn starts_with_at(buffer: &[u8], at: usize, pattern: &[u8]) -> (found: bool)
    ensures
        found == has_at(buffer@, at as int, pattern@),
{
    if at > buffer.len() || pattern.len() > buffer.len() - at {
        return false;
    }
    let mut i: usize = 0;
    while i < pattern.len()
        invariant
            i <= pattern.len(),
            at + pattern.len() <= buffer.len(),
            forall|j: int| 0 <= j < i ==> buffer@[at + j] == pattern@[j],
        decreases pattern.len() - i,
    {
        if buffer[at + i] != pattern[i] {
            proof {
                let cut = buffer@.subrange(at as int, at + pattern.len());
                assert(cut[i as int] == buffer@[at + i]);
            }
            return false;
        }
        i += 1;
    }
    assert(buffer@.subrange(at as int, at + pattern.len()) =~= pattern@);
    true
}

/// Finds the space that ends the path, scanning forward from `from`.
pub fn find_path_end(buffer: &[u8], from: usize) -> (end: usize)
    requires
        from <= buffer.len(),
    ensures
        end == path_end(buffer@, from as int),
{
    let mut end: usize = from;
    while end < buffer.len() && buffer[end] != SPACE
        invariant
            from <= end <= buffer.len(),
            path_end(buffer@, from as int) == path_end(buffer@, end as int),
        decreases buffer.len() - end,
    {
        end += 1;
    }
    end
}

/// The text that `bytes` encode, where they are well-formed UTF-8.
///
/// Trusted: calls `std::str::from_utf8`, which checks that the bytes are
/// valid UTF-8 and, where they are, hands them back as a string slice over
/// the same bytes.
#[verifier::external_body]
fn text_of(bytes: &[u8]) -> (text: Option<&str>)
    ensures
        text is Some <==> valid_utf8(bytes@),
        text matches Some(s) ==> s.spec_bytes() == bytes@,
{
    std::str::from_utf8(bytes).ok()
}

/// Reads the request line at the head of `buffer` and hands out the path.
///
/// The path is the text between `GET ` and the next space, which
/// `HTTP/1.1\r\n` must follow; what comes after that line is not looked at.
pub fn parse_request(buffer: &[u8]) -> (request: Result<&str, RequestError>)
    ensures
        match request {
            Ok(path) => request_path(buffer@) == Ok::<Seq<u8>, RequestError>(path.spec_bytes()),
            Err(error) => request_path(buffer@) == Err::<Seq<u8>, RequestError>(error),
        },
{
    let method: [u8; 4] = [0x47, 0x45, 0x54, 0x20];
    let version: [u8; 10] = [0x48, 0x54, 0x54, 0x50, 0x2f, 0x31, 0x2e, 0x31, 0x0d, 0x0a];
    assert(method@ =~= method_prefix());
    assert(version@ =~= version_line());
    if !starts_with_at(buffer, 0, method.as_slice()) {
        return Err(RequestError::Method);
    }
    let end = find_path_end(buffer, 4);
    proof {
        lemma_path_end(buffer@, 4);
    }
    if end == buffer.len() {
        return Err(RequestError::Path);
    }
    if !starts_with_at(buffer, end + 1, version.as_slice()) {
        return Err(RequestError::Version);
    }
    match text_of(slice_subrange(buffer, 4, end)) {
        Some(path) => Ok(path),
        None => Err(RequestError::Encoding),
    }
}

/// Where `at` holds the first space from `from` on, `path_end` is `at`.
pub proof fn lemma_path_end_at(buffer: Seq<u8>, from: int, at: int)
    requires
        0 <= from <= at < buffer.len(),
        buffer[at] == SPACE,
        forall|i: int| from <= i < at ==> buffer[i] != SPACE,
    ensures
        path_end(buffer, from) == at,
    decreases at - from,
{
    if from < at {
        lemma_path_end_at(buffer, from + 1, at);
    }
}

/// Every request line of the form `GET <path> HTTP/1.1\r\n` is read, and
/// gives its path, whatever follows the line: `path` is any UTF-8 text
/// without a space.
pub proof fn lemma_request_line(path: Seq<u8>, rest: Seq<u8>)
    requires
        valid_utf8(path),
        forall|i: int| 0 <= i < path.len() ==> path[i] != SPACE,
    ensures
        request_path(method_prefix() + path + seq![SPACE] + version_line() + rest) == Ok::<
            Seq<u8>,
            RequestError,
        >(path),
{
    let buffer = method_prefix() + path + seq![SPACE] + version_line() + rest;
    let end: int = 4 + path.len() as int;
    assert(buffer.subrange(0, 4) =~= method_prefix());
    assert forall|i: int| 4 <= i < end implies buffer[i] != SPACE by {
        assert(buffer[i] == path[i - 4]);
    }
    lemma_path_end_at(buffer, 4, end);
    assert(buffer.subrange(end + 1, end + 1 + version_line().len()) =~= version_line());
    assert(buffer.subrange(4, end) =~= path);
}

/// A buffer is refused exactly when it lacks the `GET ` prefix, or a space
/// after the path, or `HTTP/1.1\r\n` behind that space, or holds a path
/// that is not UTF-8; and it is refused for the first of these that holds.
pub proof fn lemma_refused(buffer: Seq<u8>)
    ensures
        request_path(buffer) is Err <==> {
            ||| !has_at(buffer, 0, method_prefix())
            ||| path_end(buffer, 4) == buffer.len()
            ||| !has_at(buffer, path_end(buffer, 4) + 1, version_line())
            ||| !valid_utf8(buffer.subrange(4, path_end(buffer, 4)))
        },
        !has_at(buffer, 0, method_prefix()) ==> request_path(buffer) == Err::<
            Seq<u8>,
            RequestError,
        >(RequestError::Method),
        request_path(buffer) matches Ok(path) ==> {
            &&& has_at(buffer, 0, method_prefix() + path + seq![SPACE] + version_line())
            &&& valid_utf8(path)
            &&& forall|i: int| 0 <= i < path.len() ==> path[i] != SPACE
        },
{
    if let Ok(path) = request_path(buffer) {
        let end = path_end(buffer, 4);
        let line = method_prefix() + path + seq![SPACE] + version_line();
        lemma_path_end(buffer, 4);
        assert(buffer.subrange(0, 4) == method_prefix());
        assert(buffer.subrange(end + 1, end + 1 + version_line().len()) == version_line());
        assert forall|i: int| 0 <= i < line.len() implies buffer[i] == line[i] by {
            if i < 4 {
                assert(buffer.subrange(0, 4)[i] == buffer[i]);
            } else if i < end {
                assert(path[i - 4] == buffer[i]);
            } else if i > end {
                assert(buffer.subrange(end + 1, end + 1 + version_line().len())[i - end - 1]
                    == buffer[i]);
            }
        }
        assert(buffer.subrange(0, line.len() as int) =~= line);
        assert forall|i: int| 0 <= i < path.len() implies path[i] != SPACE by {
            assert(path[i] == buffer[i + 4]);
        }
    }
}

} // verus!
