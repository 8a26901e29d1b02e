use axon::http::request::Method;
use axon::http::response::Status;
use axon::http::routes::RouteTable;
use axon::http::server::{
    get, handle_client, head, not_implemented, resolve, respond, Action, Connection, Event, FileRead,
};

const INDEX: &[u8] = b"Hello world!";

fn routes() -> RouteTable {
    RouteTable::new(vec![("/".to_string(), "/index.html".to_string())])
}

fn read(path: &str) -> FileRead {
    match path {
        "./root/index.html" => FileRead::Content(INDEX.to_vec()),
        "./root/locked" => FileRead::Failed,
        _ => FileRead::Missing,
    }
}

/// Runs the handler on one request against the files of `read`; `None` where the
/// connection is dropped.
fn serve(request: &[u8]) -> Option<Vec<u8>> {
    let routes = routes();
    let mut state = Connection::AwaitingRequest;
    let mut event = Event::Received(request.to_vec());
    loop {
        let (next, action) = handle_client(state, event, "./root", &routes);
        state = next;
        match action {
            Action::ReadFile(path) => {
                assert!(matches!(state, Connection::AwaitingFile { .. }));
                event = Event::FileRead(read(&path));
            }
            Action::Send(bytes) => {
                assert_eq!(state, Connection::Closed);
                return Some(bytes);
            }
            Action::Close => {
                assert_eq!(state, Connection::Closed);
                return None;
            }
        }
    }
}

#[test]
fn get_of_a_file_declares_its_length() {
    let response = get(FileRead::Content(vec![7u8; 1234]));
    assert_eq!(response.status(), Status::OK);
    assert_eq!(response.headers(), &vec!["Content-Length: 1234".to_string(), "Server: Axon".to_string()]);
    assert_eq!(response.body(), &vec![7u8; 1234]);
    assert_eq!(response.request_method(), Method::Get);
}

#[test]
fn get_of_an_empty_file() {
    let mut response = get(FileRead::Content(Vec::new()));
    assert_eq!(response.headers()[0], "Content-Length: 0");
    assert_eq!(response.render(), b"HTTP/1.1 200 OK\r\nContent-Length: 0\r\nServer: Axon\r\n\r\n".to_vec());
}

#[test]
fn get_of_a_missing_file_is_not_found() {
    let response = get(FileRead::Missing);
    assert_eq!(response.status(), Status::NotFound);
    assert_eq!(response.body(), &b"<h1>File not found.</h1>".to_vec());
    assert_eq!(response.headers(), &vec!["Content-Length: 24".to_string(), "Server: Axon".to_string()]);
}

#[test]
fn get_of_an_unreadable_file_is_an_internal_error() {
    let response = get(FileRead::Failed);
    assert_eq!(response.status(), Status::InternalError);
    assert_eq!(response.body(), &b"<h1>Internal server error.</h1>".to_vec());
    assert_eq!(response.headers(), &vec!["Content-Length: 31".to_string(), "Server: Axon".to_string()]);
}

#[test]
fn head_answers_as_get_does() {
    for outcome in [0, 1, 2] {
        let make = || match outcome {
            0 => FileRead::Content(b"some file".to_vec()),
            1 => FileRead::Missing,
            _ => FileRead::Failed,
        };
        let for_get = get(make());
        let for_head = head(make());
        assert_eq!(for_head.status(), for_get.status());
        assert_eq!(for_head.headers(), for_get.headers());
        assert_eq!(for_head.body(), for_get.body());
        assert_eq!(for_head.request_method(), Method::Head);
    }
}

#[test]
fn not_implemented_has_no_headers() {
    let mut response = not_implemented();
    assert_eq!(response.status(), Status::NotImplemented);
    assert!(response.headers().is_empty());
    assert_eq!(response.body(), &b"<h1>Request not implemented.</h1>".to_vec());
    assert_eq!(response.request_method(), Method::NotImplemented);
    assert_eq!(
        response.render(),
        b"HTTP/1.1 501 Not Implemented\r\n\r\n<h1>Request not implemented.</h1>".to_vec()
    );
}

#[test]
fn respond_dispatches_on_the_method() {
    assert_eq!(respond(Method::Get, FileRead::Missing).request_method(), Method::Get);
    assert_eq!(respond(Method::Head, FileRead::Missing).request_method(), Method::Head);
    let response = respond(Method::NotImplemented, FileRead::Content(b"ignored".to_vec()));
    assert_eq!(response.status(), Status::NotImplemented);
    assert!(response.headers().is_empty());
}

#[test]
fn resolve_joins_root_and_effective_path() {
    let routes = routes();
    assert_eq!(resolve("./root", &routes, "/"), "./root/index.html");
    assert_eq!(resolve("./root", &routes, "/style.css"), "./root/style.css");
    assert_eq!(resolve("./root", &routes, "/../secret"), "./root/../secret");
    assert_eq!(resolve("", &routes, ""), "");
}

#[test]
fn scenario_get_root() {
    assert_eq!(
        serve(b"GET / HTTP/1.1\r\nHost: localhost\r\n\r\n").unwrap(),
        b"HTTP/1.1 200 OK\r\nContent-Length: 12\r\nServer: Axon\r\n\r\nHello world!".to_vec()
    );
}

#[test]
fn scenario_head_root() {
    assert_eq!(
        serve(b"HEAD / HTTP/1.1\r\nHost: localhost\r\n\r\n").unwrap(),
        b"HTTP/1.1 200 OK\r\nContent-Length: 12\r\nServer: Axon\r\n\r\n".to_vec()
    );
}

#[test]
fn scenario_get_missing() {
    assert_eq!(
        serve(b"GET /missing HTTP/1.1\r\n\r\n").unwrap(),
        b"HTTP/1.1 404 Not Found\r\nContent-Length: 24\r\nServer: Axon\r\n\r\n<h1>File not found.</h1>".to_vec()
    );
    assert_eq!(
        serve(b"HEAD /missing HTTP/1.1\r\n\r\n").unwrap(),
        b"HTTP/1.1 404 Not Found\r\nContent-Length: 24\r\nServer: Axon\r\n\r\n".to_vec()
    );
}

#[test]
fn scenario_delete_root() {
    let answer = serve(b"DELETE / HTTP/1.1\r\n\r\n").unwrap();
    assert_eq!(answer, b"HTTP/1.1 501 Not Implemented\r\n\r\n<h1>Request not implemented.</h1>".to_vec());
    let text = String::from_utf8(answer).unwrap();
    assert!(!text.contains("Content-Length"));
    let (head, body) = text.split_once("\r\n\r\n").unwrap();
    assert_eq!(head, "HTTP/1.1 501 Not Implemented");
    assert_eq!(body, "<h1>Request not implemented.</h1>");
}

#[test]
fn scenario_unreadable_file() {
    assert_eq!(
        serve(b"GET /locked HTTP/1.1\r\n\r\n").unwrap(),
        b"HTTP/1.1 500 Internal Server Error\r\nContent-Length: 31\r\nServer: Axon\r\n\r\n<h1>Internal server error.</h1>".to_vec()
    );
}

#[test]
fn scenario_unparsable_request_is_dropped() {
    assert_eq!(serve(b"GET\r\n\r\n"), None);
    assert_eq!(serve(b"GET /\xff\r\n\r\n"), None);
}

#[test]
fn handler_asks_for_the_resolved_file() {
    let routes = routes();
    let (state, action) = handle_client(
        Connection::AwaitingRequest,
        Event::Received(b"HEAD /a/b.txt HTTP/1.1\r\n".to_vec()),
        "/srv/www",
        &routes,
    );
    assert_eq!(state, Connection::AwaitingFile { method: Method::Head });
    assert!(matches!(action, Action::ReadFile(path) if path == "/srv/www/a/b.txt"));
}

#[test]
fn handler_reads_no_file_for_other_methods() {
    let routes = routes();
    let (state, action) = handle_client(
        Connection::AwaitingRequest,
        Event::Received(b"POST / HTTP/1.1\r\n".to_vec()),
        "./root",
        &routes,
    );
    assert_eq!(state, Connection::Closed);
    assert!(matches!(action, Action::Send(_)));
}

#[test]
fn handler_drops_on_an_event_out_of_turn() {
    let routes = routes();
    let (state, action) = handle_client(Connection::AwaitingRequest, Event::FileRead(FileRead::Missing), "./root", &routes);
    assert_eq!(state, Connection::Closed);
    assert!(matches!(action, Action::Close));
    let (state, action) = handle_client(
        Connection::AwaitingFile { method: Method::Get },
        Event::Received(b"GET / HTTP/1.1\r\n".to_vec()),
        "./root",
        &routes,
    );
    assert_eq!(state, Connection::Closed);
    assert!(matches!(action, Action::Close));
    let (state, action) = handle_client(Connection::Closed, Event::FileRead(FileRead::Failed), "./root", &routes);
    assert_eq!(state, Connection::Closed);
    assert!(matches!(action, Action::Close));
}

#[test]
fn scenario_zero_padded_buffer() {
    let mut buf = vec![0u8; 1024];
    let text = b"GET / HTTP/1.1\r\nHost: localhost\r\n\r\n";
    buf[..text.len()].copy_from_slice(text);
    assert_eq!(
        serve(&buf).unwrap(),
        b"HTTP/1.1 200 OK\r\nContent-Length: 12\r\nServer: Axon\r\n\r\nHello world!".to_vec()
    );
    assert_eq!(serve(&vec![0u8; 1024]), None);
}
