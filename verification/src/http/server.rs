//! The request handler: what the server answers, and what it must do to find out.
//!
//! Reading the socket and the file system is left to the caller. The handler is a
//! small state machine that is told what happened and says what to do next.

use crate::http::request::{method_token, parsable, parsed, Method, Request};
use crate::http::response::{
    code_of, head_text, lemma_head_without_headers, rendered, texts, Response, ResponseView,
    Status,
};
use crate::http::routes::{effective_path, RouteTable};
use crate::http::text::{bytes_of, decimal, push_decimal};
use vstd::prelude::*;
use vstd::string::*;

verus! {

/// How an attempt to read the requested file ended.
pub enum FileRead {
    /// The file was read; these are its bytes.
    Content(Vec<u8>),
    /// There is no such file.
    Missing,
    /// The file could not be read for any other reason.
    Failed,
}

/// How an attempt to read the requested file ended, mathematically.
pub enum FileReadView {
    Content(Seq<u8>),
    Missing,
    Failed,
}

impl View for FileRead {
    type V = FileReadView;

    open spec fn view(&self) -> FileReadView {
        match self {
            FileRead::Content(bytes) => FileReadView::Content(bytes@),
            FileRead::Missing => FileReadView::Missing,
            FileRead::Failed => FileReadView::Failed,
        }
    }
}

/// The status that a read of the requested file is answered with.
pub open spec fn status_for(read: FileReadView) -> Status {
    match read {
        FileReadView::Content(_) => Status::OK,
        FileReadView::Missing => Status::NotFound,
        FileReadView::Failed => Status::InternalError,
    }
}

/// The body that a read of the requested file is answered with: the file, or a fixed
/// page that names the failure.
pub open spec fn body_for(read: FileReadView) -> Seq<u8> {
    match read {
        FileReadView::Content(bytes) => bytes,
        FileReadView::Missing => bytes_of("<h1>File not found.</h1>"@),
        FileReadView::Failed => bytes_of("<h1>Internal server error.</h1>"@),
    }
}

/// The header that declares the length of a body.
pub open spec fn content_length(len: nat) -> Seq<char> {
    "Content-Length: "@ + decimal(len)
}

/// The header that names the server.
pub open spec fn server_header() -> Seq<char> {
    "Server: Axon"@
}

/// The answer to a `GET` or `HEAD` request, given how the read of the file ended.
pub open spec fn file_response(read: FileReadView, method: Method) -> ResponseView {
    ResponseView {
        status: status_for(read),
        headers: seq![content_length(body_for(read).len()), server_header()],
        body: body_for(read),
        method,
    }
}

/// The answer to a request whose method is not implemented: no headers at all.
pub open spec fn not_implemented_response() -> ResponseView {
    ResponseView {
        status: Status::NotImplemented,
        headers: Seq::empty(),
        body: bytes_of("<h1>Request not implemented.</h1>"@),
        method: Method::NotImplemented,
    }
}

/// The file to read for a request: the document root followed by the effective path.
/// Nothing is normalised.
pub open spec fn file_path(
    root: Seq<char>,
    routes: Map<Seq<char>, Seq<char>>,
    uri: Seq<char>,
) -> Seq<char> {
    root + effective_path(routes, uri)
}

/// Builds the answer to a `GET` or `HEAD` request.
fn answer_file(read: FileRead, method: Method) -> (response: Response)
    ensures
        response@ == file_response(read@, method),
{
    let (status, body) = match read {
        FileRead::Content(bytes) => (Status::OK, bytes),
        FileRead::Missing => (Status::NotFound, "<h1>File not found.</h1>".as_bytes_vec()),
        FileRead::Failed => (
            Status::InternalError,
            "<h1>Internal server error.</h1>".as_bytes_vec(),
        ),
    };
    let mut length = String::from_str("Content-Length: ");
    push_decimal(&mut length, body.len() as u64);
    let mut headers: Vec<String> = Vec::new();
    headers.push(length);
    headers.push(String::from_str("Server: Axon"));
    assert(texts(headers@) =~= seq![content_length(body@.len()), server_header()]);
    Response::new(status, headers, body, method)
}

/// Carry out a GET request.
pub fn get(read: FileRead) -> (response: Response)
    ensures
        response@ == file_response(read@, Method::Get),
{
    answer_file(read, Method::Get)
}

/// Carry out a HEAD request. The file is read as for GET, so that the declared length
/// is the same; the body is withheld when the response is rendered.
pub fn head(read: FileRead) -> (response: Response)
    ensures
        response@ == file_response(read@, Method::Head),
{
    answer_file(read, Method::Head)
}

/// Respond to a request which isn't implemented.
pub fn not_implemented() -> (response: Response)
    ensures
        response@ == not_implemented_response(),
{
    let body = "<h1>Request not implemented.</h1>".as_bytes_vec();
    let headers: Vec<String> = Vec::new();
    assert(texts(headers@) =~= Seq::empty());
    Response::new(Status::NotImplemented, headers, body, Method::NotImplemented)
}

/// Names the file to read for a request.
pub fn resolve(root: &str, routes: &RouteTable, uri: &str) -> (path: String)
    ensures
        path@ == file_path(root@, routes@, uri@),
{
    let mut path = String::from_str(root);
    path.append(routes.resolve(uri));
    path
}

/// Where the handling of one connection stands.
#[derive(Copy, Clone, PartialEq, Eq, Debug, Structural)]
pub enum Connection {
    /// Nothing has been read from the connection yet.
    AwaitingRequest,
    /// The request was for a file, and the file is being read.
    AwaitingFile { method: Method },
    /// The connection is finished: it was answered or dropped.
    Closed,
}

/// What happened outside the handler.
pub enum Event {
    /// The bytes read from the connection.
    Received(Vec<u8>),
    /// How the read of the file ended.
    FileRead(FileRead),
}

/// What happened outside the handler, mathematically.
pub enum EventView {
    Received(Seq<u8>),
    FileRead(FileReadView),
}

impl View for Event {
    type V = EventView;

    open spec fn view(&self) -> EventView {
        match self {
            Event::Received(bytes) => EventView::Received(bytes@),
            Event::FileRead(read) => EventView::FileRead(read@),
        }
    }
}

/// What the caller is asked to do next.
pub enum Action {
    /// Read the file at this path, and report how it ended.
    ReadFile(String),
    /// Write these bytes to the connection, flush it and close it.
    Send(Vec<u8>),
    /// Close the connection without an answer.
    Close,
}

/// What the caller is asked to do next, mathematically.
pub enum ActionView {
    ReadFile(Seq<char>),
    Send(Seq<u8>),
    Close,
}

impl View for Action {
    type V = ActionView;

    open spec fn view(&self) -> ActionView {
        match self {
            Action::ReadFile(path) => ActionView::ReadFile(path@),
            Action::Send(bytes) => ActionView::Send(bytes@),
            Action::Close => ActionView::Close,
        }
    }
}

/// The handler's rule: from a state and an event to the next state and the action.
///
/// Bytes that hold no request drop the connection. A request with an unsupported
/// method is answered at once, and no file is read. A `GET` or `HEAD` request asks for
/// the file; when the read has ended, the answer is sent. An event that the state does
/// not wait for drops the connection.
pub open spec fn step(
    state: Connection,
    event: EventView,
    root: Seq<char>,
    routes: Map<Seq<char>, Seq<char>>,
) -> (Connection, ActionView) {
    match (state, event) {
        (Connection::AwaitingRequest, EventView::Received(buf)) => {
            if !parsable(buf) {
                (Connection::Closed, ActionView::Close)
            } else if parsed(buf).method == Method::NotImplemented {
                (Connection::Closed, ActionView::Send(rendered(not_implemented_response())))
            } else {
                (
                    Connection::AwaitingFile { method: parsed(buf).method },
                    ActionView::ReadFile(file_path(root, routes, parsed(buf).uri)),
                )
            }
        },
        (Connection::AwaitingFile { method }, EventView::FileRead(read)) => {
            if method == Method::NotImplemented {
                (Connection::Closed, ActionView::Send(rendered(not_implemented_response())))
            } else {
                (Connection::Closed, ActionView::Send(rendered(file_response(read, method))))
            }
        },
        _ => (Connection::Closed, ActionView::Close),
    }
}

/// A request for a file that exists is answered with status 200 and a `Content-Length`
/// that is the exact length of the file. `GET` sends the file as the body and `HEAD`
/// sends no body, under the very same headers.
pub proof fn lemma_existing_file_is_served(
    buf: Seq<u8>,
    root: Seq<char>,
    routes: Map<Seq<char>, Seq<char>>,
    content: Seq<u8>,
)
    requires
        parsable(buf),
        parsed(buf).method != Method::NotImplemented,
    ensures
        ({
            let method = parsed(buf).method;
            let asked = step(Connection::AwaitingRequest, EventView::Received(buf), root, routes);
            let read = EventView::FileRead(FileReadView::Content(content));
            let answer = file_response(FileReadView::Content(content), method);
            &&& asked == (
                Connection::AwaitingFile { method },
                ActionView::ReadFile(root + effective_path(routes, parsed(buf).uri)),
            )
            &&& step(asked.0, read, root, routes) == (
                Connection::Closed,
                ActionView::Send(rendered(answer)),
            )
            &&& answer.status == Status::OK
            &&& code_of(answer.status) == 200
            &&& answer.headers == seq![
                "Content-Length: "@ + decimal(content.len()),
                "Server: Axon"@,
            ]
            &&& rendered(answer) == bytes_of(head_text(answer.status, answer.headers)) + (if method
                == Method::Get {
                content
            } else {
                Seq::empty()
            })
        }),
{
}

/// A request for a path that has no alias and names no file is answered with status
/// 404 and the fixed page for a missing file.
pub proof fn lemma_missing_file_is_not_found(
    buf: Seq<u8>,
    root: Seq<char>,
    routes: Map<Seq<char>, Seq<char>>,
)
    requires
        parsable(buf),
        parsed(buf).method != Method::NotImplemented,
        !routes.contains_key(parsed(buf).uri),
    ensures
        ({
            let method = parsed(buf).method;
            let asked = step(Connection::AwaitingRequest, EventView::Received(buf), root, routes);
            let read = EventView::FileRead(FileReadView::Missing);
            let answer = file_response(FileReadView::Missing, method);
            &&& asked == (
                Connection::AwaitingFile { method },
                ActionView::ReadFile(root + parsed(buf).uri),
            )
            &&& step(asked.0, read, root, routes) == (
                Connection::Closed,
                ActionView::Send(rendered(answer)),
            )
            &&& answer.status == Status::NotFound
            &&& code_of(answer.status) == 404
            &&& answer.body == bytes_of("<h1>File not found.</h1>"@)
        }),
{
}

/// A request whose method keyword is neither `GET` nor `HEAD` is answered with status
/// 501, no header line at all, and the fixed page for it as the whole body: the status
/// line, the empty line, the page. It is the same for every target, root and route
/// table, and no file is read.
pub proof fn lemma_other_method_is_not_implemented(
    buf: Seq<u8>,
    root: Seq<char>,
    routes: Map<Seq<char>, Seq<char>>,
)
    requires
        parsable(buf),
        method_token(buf) != bytes_of("GET"@),
        method_token(buf) != bytes_of("HEAD"@),
    ensures
        ({
            let answer = not_implemented_response();
            &&& step(Connection::AwaitingRequest, EventView::Received(buf), root, routes) == (
                Connection::Closed,
                ActionView::Send(rendered(answer)),
            )
            &&& answer.status == Status::NotImplemented
            &&& code_of(answer.status) == 501
            &&& answer.headers.len() == 0
            &&& answer.body == bytes_of("<h1>Request not implemented.</h1>"@)
            &&& rendered(answer) == bytes_of("HTTP/1.1 501 Not Implemented\r\n\r\n"@) + bytes_of(
                "<h1>Request not implemented.</h1>"@,
            )
        }),
{
    lemma_head_without_headers(Status::NotImplemented);
    reveal_strlit("HTTP/1.1 501 Not Implemented\r\n\r\n");
    reveal_strlit("HTTP/1.1 ");
    reveal_strlit(" ");
    reveal_strlit("Not Implemented");
    reveal_strlit("\r\n");
    reveal_strlit("0123456789");
    reveal_with_fuel(decimal, 3);
    assert(decimal(501) =~= seq!['5', '0', '1']);
    assert(head_text(Status::NotImplemented, Seq::empty())
        =~= "HTTP/1.1 501 Not Implemented\r\n\r\n"@);
}

/// Answers a request for a file once the read has ended.
pub fn respond(method: Method, read: FileRead) -> (response: Response)
    ensures
        response@ == if method == Method::NotImplemented {
            not_implemented_response()
        } else {
            file_response(read@, method)
        },
{
    match method {
        Method::Get => get(read),
        Method::Head => head(read),
        Method::NotImplemented => not_implemented(),
    }
}

/// Dispatched to handle a connection: takes the handling one step further.
pub fn handle_client(state: Connection, event: Event, root: &str, routes: &RouteTable) -> (next: (
    Connection,
    Action,
))
    ensures
        (next.0, next.1@) == step(state, event@, root@, routes@),
{
    match (state, event) {
        (Connection::AwaitingRequest, Event::Received(buf)) => {
            match Request::parse(buf.as_slice()) {
                None => (Connection::Closed, Action::Close),
                Some(request) => {
                    let method = request.get_method();
                    match method {
                        Method::NotImplemented => {
                            let mut response = not_implemented();
                            (Connection::Closed, Action::Send(response.render()))
                        },
                        _ => {
                            let path = resolve(root, routes, request.get_uri());
                            (Connection::AwaitingFile { method }, Action::ReadFile(path))
                        },
                    }
                },
            }
        },
        (Connection::AwaitingFile { method }, Event::FileRead(read)) => {
            let mut response = respond(method, read);
            (Connection::Closed, Action::Send(response.render()))
        },
        _ => (Connection::Closed, Action::Close),
    }
}

} // verus!
