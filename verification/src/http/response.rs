//! Types associated with HTTP responses.

use crate::http::request::Method;
use crate::http::text::{bytes_of, decimal, push_decimal};
use vstd::prelude::*;
use vstd::string::*;

verus! {

/// HTTP response statuses made available by the server.
#[derive(Copy, Clone, PartialEq, Eq, Debug, Structural)]
pub enum Status {
    OK,
    NotFound,
    InternalError,
    NotImplemented,
}

/// The numeric code of a status.
pub open spec fn code_of(status: Status) -> u16 {
    match status {
        Status::OK => 200,
        Status::NotFound => 404,
        Status::InternalError => 500,
        Status::NotImplemented => 501,
    }
}

/// The reason phrase of a status.
pub open spec fn reason_of(status: Status) -> Seq<char> {
    match status {
        Status::OK => "OK"@,
        Status::NotFound => "Not Found"@,
        Status::InternalError => "Internal Server Error"@,
        Status::NotImplemented => "Not Implemented"@,
    }
}

impl Status {
    /// Returns the status code corresponding to the status.
    pub fn code(&self) -> (code: u16)
        ensures
            code == code_of(*self),
    {
        match self {
            Status::OK => 200,
            Status::NotFound => 404,
            Status::InternalError => 500,
            Status::NotImplemented => 501,
        }
    }

    /// Returns the status text corresponding to the status.
    pub fn text(&self) -> (text: &'static str)
        ensures
            text@ == reason_of(*self),
    {
        match self {
            Status::OK => "OK",
            Status::NotFound => "Not Found",
            Status::InternalError => "Internal Server Error",
            Status::NotImplemented => "Not Implemented",
        }
    }
}

/// Data associated with a single HTTP response.
pub struct Response {
    status: Status,
    headers: Vec<String>,
    body: Vec<u8>,
    request_method: Method,
}

/// What a response is, mathematically. The headers are whole `Name: Value` lines, in
/// wire order; the method is that of the request being answered.
pub struct ResponseView {
    pub status: Status,
    pub headers: Seq<Seq<char>>,
    pub body: Seq<u8>,
    pub method: Method,
}

/// The texts of a list of strings.
pub open spec fn texts(lines: Seq<String>) -> Seq<Seq<char>> {
    lines.map_values(|line: String| line@)
}

/// The header lines as they go on the wire: each header followed by its line end, in
/// order. Nothing at all where there is no header.
pub open spec fn header_lines(headers: Seq<Seq<char>>) -> Seq<char>
    decreases headers.len(),
{
    if headers.len() == 0 {
        Seq::empty()
    } else {
        header_lines(headers.drop_last()) + headers.last() + "\r\n"@
    }
}

/// The status line, without its line end.
pub open spec fn status_line(status: Status) -> Seq<char> {
    "HTTP/1.1 "@ + decimal(code_of(status) as nat) + " "@ + reason_of(status)
}

/// Everything in front of the body: the status line with its line end, every header
/// with its line end, and one more line end, the empty line that closes the head. With
/// no header the status line is followed by the empty line at once.
pub open spec fn head_text(status: Status, headers: Seq<Seq<char>>) -> Seq<char> {
    status_line(status) + "\r\n"@ + header_lines(headers) + "\r\n"@
}

/// The body as it goes on the wire: nothing in answer to `HEAD`.
pub open spec fn wire_body(method: Method, body: Seq<u8>) -> Seq<u8> {
    if method == Method::Head {
        Seq::empty()
    } else {
        body
    }
}

/// The exact bytes that a response is sent as.
pub open spec fn rendered(response: ResponseView) -> Seq<u8> {
    bytes_of(head_text(response.status, response.headers)) + wire_body(
        response.method,
        response.body,
    )
}

/// What is left of a response once it has been rendered: the body has moved into the
/// output, unless the response answers `HEAD` and the body never went out.
pub open spec fn spent(response: ResponseView) -> ResponseView {
    ResponseView {
        status: response.status,
        headers: response.headers,
        body: if response.method == Method::Head {
            response.body
        } else {
            Seq::empty()
        },
        method: response.method,
    }
}

/// Rendering depends on nothing but the four parts of a response; the answer to `HEAD`
/// is the answer to any other method with the body left off, headers untouched, and so
/// does not depend on the body at all.
pub proof fn lemma_head_strips_body(
    status: Status,
    headers: Seq<Seq<char>>,
    body: Seq<u8>,
    other: Seq<u8>,
    method: Method,
)
    requires
        method != Method::Head,
    ensures
        rendered(ResponseView { status, headers, body, method }) == rendered(
            ResponseView { status, headers, body, method: Method::Head },
        ) + body,
        rendered(ResponseView { status, headers, body, method: Method::Head }) == rendered(
            ResponseView { status, headers, body: other, method: Method::Head },
        ),
        rendered(ResponseView { status, headers, body, method: Method::Head }) == bytes_of(
            head_text(status, headers),
        ),
{
}

/// The head of a response without headers is the status line, its line end and the
/// empty line, with nothing between them; the body follows at once.
pub proof fn lemma_head_without_headers(status: Status)
    ensures
        head_text(status, Seq::empty()) == status_line(status) + "\r\n"@ + "\r\n"@,
{
    assert(header_lines(Seq::empty()) =~= Seq::<char>::empty());
    assert(head_text(status, Seq::empty()) =~= status_line(status) + "\r\n"@ + "\r\n"@);
}

/// One more header adds the header and its line end.
proof fn lemma_header_lines_step(headers: Seq<Seq<char>>, i: int)
    requires
        0 <= i < headers.len(),
    ensures
        header_lines(headers.take(i + 1)) == header_lines(headers.take(i)) + headers[i] + "\r\n"@,
{
    assert(headers.take(i + 1).drop_last() =~= headers.take(i));
}

impl View for Response {
    type V = ResponseView;

    closed spec fn view(&self) -> ResponseView {
        ResponseView {
            status: self.status,
            headers: texts(self.headers@),
            body: self.body@,
            method: self.request_method,
        }
    }
}

impl Response {
    /// Prepares a new HTTP response.
    pub fn new(status: Status, headers: Vec<String>, body: Vec<u8>, request_method: Method) -> (response:
        Response)
        ensures
            response@ == (ResponseView {
                status,
                headers: texts(headers@),
                body: body@,
                method: request_method,
            }),
    {
        Response { status, headers, body, request_method }
    }

    /// Returns the status of the response.
    pub fn status(&self) -> (status: Status)
        ensures
            status == self@.status,
    {
        self.status
    }

    /// Returns the header lines of the response, in wire order.
    pub fn headers(&self) -> (headers: &Vec<String>)
        ensures
            texts(headers@) == self@.headers,
    {
        &self.headers
    }

    /// Returns the body of the response.
    pub fn body(&self) -> (body: &Vec<u8>)
        ensures
            body@ == self@.body,
    {
        &self.body
    }

    /// Returns the method of the request that the response answers.
    pub fn request_method(&self) -> (method: Method)
        ensures
            method == self@.method,
    {
        self.request_method
    }

    /// Create a byte `Vec` containing the response data, suitable for writing to a TCP
    /// stream. The body moves into it, so a response is rendered once.
    pub fn render(&mut self) -> (out: Vec<u8>)
        ensures
            out@ == rendered(old(self)@),
            final(self)@ == spent(old(self)@),
    {
        let mut head = String::from_str("HTTP/1.1 ");
        push_decimal(&mut head, self.status.code() as u64);
        head.append(" ");
        head.append(self.status.text());
        head.append("\r\n");
        let ghost lines = texts(self.headers@);
        let ghost start = head@;
        let mut i: usize = 0;
        while i < self.headers.len()
            invariant
                i <= self.headers@.len(),
                lines == texts(self.headers@),
                head@ == start + header_lines(lines.take(i as int)),
            decreases self.headers@.len() - i,
        {
            proof {
                lemma_header_lines_step(lines, i as int);
            }
            head.append(self.headers[i].as_str());
            head.append("\r\n");
            i += 1;
        }
        assert(lines.take(i as int) =~= lines);
        head.append("\r\n");
        let mut out = head.as_str().as_bytes_vec();
        if self.request_method != Method::Head {
            out.append(&mut self.body);
        }
        out
    }

    /// Shows the response as its status code and reason phrase.
    pub fn to_string(&self) -> (text: String)
        ensures
            text@ == decimal(code_of(self@.status) as nat) + " "@ + reason_of(self@.status),
    {
        let mut text = String::new();
        push_decimal(&mut text, self.status.code() as u64);
        text.append(" ");
        text.append(self.status.text());
        text
    }
}

} // verus!
