//! Types associated with HTTP requests.

use crate::http::text::{
    after, before, bytes_of, bytes_eq, contains, find, lemma_ascii_is_char_boundary,
    lemma_first_occurrence_bounds,
};
use vstd::prelude::*;
use vstd::slice::*;
use vstd::string::*;
use vstd::utf8::*;

verus! {

/// HTTP methods that can be processed by the server.
#[derive(Copy, Clone, PartialEq, Eq, Debug, Structural)]
pub enum Method {
    Get,
    Head,
    NotImplemented,
}

/// Data associated with a single HTTP request.
pub struct Request {
    method: Method,
    uri: String,
}

/// What a request is, mathematically: its method and its raw target.
pub struct RequestView {
    pub method: Method,
    pub uri: Seq<char>,
}

/// `core::str::Utf8Error`, the error of `core::str::from_utf8`. It is carried, never
/// read.
#[verifier::external_type_specification]
#[verifier::external_body]
pub struct ExUtf8Error(core::str::Utf8Error);

/// `core::str::from_utf8` accepts exactly the well-formed UTF-8 byte strings, and the text
/// it returns occupies the very bytes it was given.
pub assume_specification[ core::str::from_utf8 ](v: &[u8]) -> (text: Result<
    &str,
    core::str::Utf8Error,
>)
    ensures
        text is Ok <==> valid_utf8(v@),
        text matches Ok(t) ==> encode_utf8(t@) == v@,
;

/// The mark that ends a line on the wire.
pub open spec fn crlf() -> Seq<u8> {
    bytes_of("\r\n"@)
}

/// The mark that separates the fields of the request line.
pub open spec fn space() -> Seq<u8> {
    bytes_of(" "@)
}

/// The request line: everything in front of the first line end, or the whole buffer
/// when no line ends in it.
pub open spec fn request_line(buf: Seq<u8>) -> Seq<u8> {
    before(buf, crlf())
}

/// The request line has a second field.
pub open spec fn has_target(buf: Seq<u8>) -> bool {
    contains(request_line(buf), space())
}

/// The first field of the request line: the method keyword.
pub open spec fn method_token(buf: Seq<u8>) -> Seq<u8> {
    before(request_line(buf), space())
}

/// The second field of the request line: the request target.
pub open spec fn target_token(buf: Seq<u8>) -> Seq<u8> {
    before(after(request_line(buf), space()), space())
}

/// The method that a keyword stands for.
pub open spec fn method_of(keyword: Seq<u8>) -> Method {
    if keyword == bytes_of("GET"@) {
        Method::Get
    } else if keyword == bytes_of("HEAD"@) {
        Method::Head
    } else {
        Method::NotImplemented
    }
}

/// The buffers that hold a request: well-formed text whose first line has a target.
pub open spec fn parsable(buf: Seq<u8>) -> bool {
    valid_utf8(buf) && has_target(buf)
}

/// The request that a parsable buffer holds.
pub open spec fn parsed(buf: Seq<u8>) -> RequestView {
    RequestView { method: method_of(method_token(buf)), uri: decode_utf8(target_token(buf)) }
}

/// The name a method is shown under.
pub open spec fn method_name(method: Method) -> Seq<char> {
    match method {
        Method::Get => "GET"@,
        Method::Head => "HEAD"@,
        Method::NotImplemented => "UNKNOWN"@,
    }
}

/// The two marks of the request grammar, byte by byte.
pub proof fn lemma_marks()
    ensures
        crlf() == seq![13u8, 10u8],
        space() == seq![32u8],
{
    reveal_strlit("\r\n");
    reveal_strlit(" ");
    is_ascii_chars_encode_utf8("\r\n"@);
    is_ascii_chars_encode_utf8(" "@);
    assert(crlf() =~= seq![13u8, 10u8]);
    assert(space() =~= seq![32u8]);
}

/// Maps a method keyword to its method.
fn classify(keyword: &[u8]) -> (method: Method)
    ensures
        method == method_of(keyword@),
{
    if bytes_eq(keyword, "GET".as_bytes()) {
        Method::Get
    } else if bytes_eq(keyword, "HEAD".as_bytes()) {
        Method::Head
    } else {
        Method::NotImplemented
    }
}

impl View for Request {
    type V = RequestView;

    closed spec fn view(&self) -> RequestView {
        RequestView { method: self.method, uri: self.uri@ }
    }
}

impl Request {
    /// Reads a request from the bytes of a connection, or `None` where they hold none.
    pub fn parse(buf: &[u8]) -> (request: Option<Request>)
        ensures
            request is Some <==> parsable(buf@),
            request matches Some(r) ==> r@ == parsed(buf@),
    {
        let text = match core::str::from_utf8(buf) {
            Ok(text) => text,
            Err(_) => {
                return None;
            },
        };
        proof {
            lemma_marks();
            lemma_first_occurrence_bounds(buf@, crlf());
        }
        let line_len = find(buf, "\r\n".as_bytes());
        let line = slice_subrange(buf, 0, line_len);
        proof {
            lemma_first_occurrence_bounds(line@, space());
        }
        let sp1 = find(line, " ".as_bytes());
        if sp1 >= line.len() {
            return None;
        }
        let method = classify(slice_subrange(line, 0, sp1));
        let rest = slice_subrange(line, sp1 + 1, line.len());
        proof {
            lemma_first_occurrence_bounds(rest@, space());
        }
        let sp2 = find(rest, " ".as_bytes());
        proof {
            assert(line@.subrange(sp1 as int, sp1 + 1) == space());
            assert(buf@[sp1 as int] == line@.subrange(sp1 as int, sp1 + 1)[0]);
            lemma_ascii_is_char_boundary(buf@, sp1 as int);
        }
        let (_, tail) = text.split_at(sp1 + 1);
        proof {
            let tail_bytes = bytes_of(tail@);
            assert(tail_bytes == buf@.subrange(sp1 + 1, buf@.len() as int));
            if sp2 < rest@.len() {
                assert(rest@.subrange(sp2 as int, sp2 + 1) == space());
                assert(tail_bytes[sp2 as int] == rest@.subrange(sp2 as int, sp2 + 1)[0]);
                lemma_ascii_is_char_boundary(tail_bytes, sp2 as int);
            } else if line_len < buf@.len() {
                assert(buf@.subrange(line_len as int, line_len + 2) == crlf());
                assert(tail_bytes[sp2 as int] == buf@.subrange(line_len as int, line_len + 2)[0]);
                lemma_ascii_is_char_boundary(tail_bytes, sp2 as int);
            } else {
                is_char_boundary_start_end_of_seq(tail_bytes);
            }
        }
        let (target, _) = tail.split_at(sp2);
        proof {
            assert(bytes_of(target@) =~= rest@.subrange(0, sp2 as int));
            encode_utf8_decode_utf8(target@);
        }
        Some(Request { method, uri: target.to_owned() })
    }

    /// Prepares a new HTTP request from the bytes of a connection.
    pub fn new(buf: &[u8]) -> (request: Request)
        requires
            parsable(buf@),
        ensures
            request@ == parsed(buf@),
    {
        Request::parse(buf).unwrap()
    }

    /// Returns the HTTP method of the request.
    pub fn get_method(&self) -> (method: Method)
        ensures
            method == self@.method,
    {
        self.method
    }

    /// Returns the URI being requested.
    pub fn get_uri(&self) -> (uri: &str)
        ensures
            uri@ == self@.uri,
    {
        self.uri.as_str()
    }

    /// Shows the request as its method name and its target.
    pub fn to_string(&self) -> (text: String)
        ensures
            text@ == method_name(self@.method) + " "@ + self@.uri,
    {
        let name = match self.method {
            Method::Get => "GET",
            Method::Head => "HEAD",
            Method::NotImplemented => "UNKNOWN",
        };
        let mut text = String::from_str(name);
        text.append(" ");
        text.append(self.uri.as_str());
        text
    }
}

} // verus!
