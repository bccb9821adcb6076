use webserver::connection::{
    handle_connection, Action, Event, Outcome, Phase, INDEX_FILE, NOT_FOUND_FILE, ROOT_PATH,
};
use webserver::io::{Io, Step};
use webserver::request::RequestError;
use webserver::response::{
    push_head, push_response, Status, LINE_NOT_FOUND, LINE_OK, NOT_FOUND_TEXT, SEPARATOR,
};
use webserver::server::WebServer;
use webserver::stream::{InternalStream, Sending, Stream};
use webserver::web::{same_text, Web, DEFAULT_TYPE};

type Handler = fn(&mut Stream);

fn push_braces(stream: &mut Stream) {
    stream.push_str("{}");
}

fn push_nothing(_stream: &mut Stream) {}

// What a transport that takes everything at once receives from a send.
fn sent(stream: &InternalStream) -> Vec<u8> {
    let mut wire = Vec::new();
    let mut sending = Sending::new();
    loop {
        let outcome = match sending {
            Sending::Write(write) => {
                wire.extend_from_slice(&stream.output()[write.written..]);
                Io::Done(stream.output().len() - write.written)
            }
            _ => Io::Done(0),
        };
        match stream.send(&mut sending, outcome) {
            Step::Again => {}
            Step::Ready => return wire,
            other => panic!("unexpected step {:?}", other),
        }
    }
}

fn header(request: &[u8]) -> Event {
    Event::Header(request.to_vec())
}

fn read_path<H>(action: Action<'_, H>) -> String {
    match action {
        Action::Read(path) => path,
        _ => panic!("the action is not a read"),
    }
}

fn response<H>(action: Action<'_, H>) -> Vec<u8> {
    match action {
        Action::Send(stream) => sent(&stream),
        _ => panic!("the action is not a send"),
    }
}

fn outcome<H>(action: Action<'_, H>) -> Outcome {
    match action {
        Action::Finish(outcome) => outcome,
        _ => panic!("the action is not to finish"),
    }
}

#[test]
fn root_request_is_answered_with_the_index_page() {
    let web: Web<Handler> = Web::new("site");
    let (phase, action) = handle_connection(Phase::Header, header(b"GET / HTTP/1.1\r\n\r\n"), &web);
    assert_eq!(phase, Phase::Static);
    assert_eq!(read_path(action), "site/index.html");
    let contents = "<h1>Welcome</h1>\n".to_string();
    let (phase, action) = handle_connection(Phase::Static, Event::File(Some(contents)), &web);
    assert_eq!(phase, Phase::Send);
    assert_eq!(
        response(action),
        b"HTTP/1.1 200 OK\nContent-Type: text/html; charset=utf-8\r\n\r\n<h1>Welcome</h1>\n"
            .to_vec()
    );
    let (phase, action) = handle_connection(Phase::Send, Event::Done, &web);
    assert_eq!(phase, Phase::Closed);
    assert_eq!(outcome(action), Outcome::Served);
}

#[test]
fn index_page_may_be_empty_or_hold_any_text() {
    let web: Web<Handler> = Web::new("site");
    let (_, action) = handle_connection(Phase::Static, Event::File(Some(String::new())), &web);
    assert_eq!(
        response(action),
        b"HTTP/1.1 200 OK\nContent-Type: text/html; charset=utf-8\r\n\r\n".to_vec()
    );
    let (_, action) =
        handle_connection(Phase::Static, Event::File(Some("\u{fc}ber\r\n\r\n".to_string())), &web);
    assert_eq!(
        response(action),
        b"HTTP/1.1 200 OK\nContent-Type: text/html; charset=utf-8\r\n\r\n\xc3\xbcber\r\n\r\n"
            .to_vec()
    );
}

#[test]
fn unknown_path_is_answered_with_the_404_page() {
    let web: Web<Handler> = Web::new("/srv/www");
    let (phase, action) =
        handle_connection(Phase::Header, header(b"GET /nothing.html HTTP/1.1\r\n\r\n"), &web);
    assert_eq!(phase, Phase::Static);
    assert_eq!(read_path(action), "/srv/www/nothing.html");
    let (phase, action) = handle_connection(Phase::Static, Event::File(None), &web);
    assert_eq!(phase, Phase::NotFound);
    assert_eq!(read_path(action), "/srv/www/404.html");
    let (phase, action) =
        handle_connection(Phase::NotFound, Event::File(Some("<p>gone</p>".to_string())), &web);
    assert_eq!(phase, Phase::Send);
    assert_eq!(
        response(action),
        b"HTTP/1.1 404 NOT FOUND\nContent-Type: text/html; charset=utf-8\r\n\r\n<p>gone</p>"
            .to_vec()
    );
}

#[test]
fn missing_404_page_falls_back_to_the_literal_text() {
    let web: Web<Handler> = Web::new("/srv/www");
    let (phase, action) = handle_connection(Phase::NotFound, Event::File(None), &web);
    assert_eq!(phase, Phase::Send);
    assert_eq!(
        response(action),
        b"HTTP/1.1 404 NOT FOUND\nContent-Type: text/html; charset=utf-8\r\n\r\n404 NOT FOUND"
            .to_vec()
    );
}

#[test]
fn missing_index_page_is_answered_with_the_404_page() {
    let web: Web<Handler> = Web::new("site");
    let (_, action) = handle_connection(Phase::Header, header(b"GET / HTTP/1.1\r\n\r\n"), &web);
    assert_eq!(read_path(action), "site/index.html");
    let (phase, action) = handle_connection(Phase::Static, Event::File(None), &web);
    assert_eq!(phase, Phase::NotFound);
    assert_eq!(read_path(action), "site/404.html");
}

#[test]
fn existing_static_file_is_served_as_html() {
    let web: Web<Handler> = Web::new("site");
    let (phase, action) =
        handle_connection(Phase::Header, header(b"GET /about.html HTTP/1.1\r\n\r\n"), &web);
    assert_eq!(phase, Phase::Static);
    assert_eq!(read_path(action), "site/about.html");
    let (_, action) = handle_connection(Phase::Static, Event::File(Some("about".to_string())), &web);
    assert_eq!(
        response(action),
        b"HTTP/1.1 200 OK\nContent-Type: text/html; charset=utf-8\r\n\r\nabout".to_vec()
    );
}

#[test]
fn static_path_is_joined_to_the_root_as_it_came() {
    let web: Web<Handler> = Web::new("site");
    let (_, action) =
        handle_connection(Phase::Header, header(b"GET /../secret HTTP/1.1\r\n\r\n"), &web);
    assert_eq!(read_path(action), "site/../secret");
    let (_, action) = handle_connection(Phase::Header, header(b"GET  HTTP/1.1\r\n\r\n"), &web);
    assert_eq!(read_path(action), "site");
    let (_, action) =
        handle_connection(Phase::Header, header("GET /caf\u{e9} HTTP/1.1\r\n".as_bytes()), &web);
    assert_eq!(read_path(action), "site/caf\u{e9}");
}

#[test]
fn registered_route_answers_with_its_content_type() {
    let server: WebServer<Handler> =
        WebServer::with_resources("site").url_with_type("/api", push_braces, "application/json");
    let (phase, action) =
        handle_connection(Phase::Header, header(b"GET /api HTTP/1.1\r\n\r\n"), server.web());
    assert_eq!(phase, Phase::Handler);
    let mut stream = match action {
        Action::Handle(handler, mut stream) => {
            handler(&mut stream);
            stream
        }
        _ => panic!("the action is not to run a handler"),
    };
    let mut sending = Sending::new();
    let pending = b"HTTP/1.1 200 OK\nContent-Type: application/json\r\n\r\n{}".len();
    assert_eq!(stream.send(&mut sending, Io::Done(pending)), Step::Again);
    assert_eq!(stream.send(&mut sending, Io::Done(0)), Step::Ready);
    assert_eq!(
        sent(&stream.into_internal()),
        b"HTTP/1.1 200 OK\nContent-Type: application/json\r\n\r\n{}".to_vec()
    );
    let (phase, action) = handle_connection(Phase::Handler, Event::Done, server.web());
    assert_eq!(phase, Phase::Closed);
    assert_eq!(outcome(action), Outcome::Served);
}

#[test]
fn route_without_a_type_answers_as_html() {
    let server: WebServer<Handler> = WebServer::with_resources("site").url("/hello", push_nothing);
    let (_, action) =
        handle_connection(Phase::Header, header(b"GET /hello HTTP/1.1\r\n\r\n"), server.web());
    match action {
        Action::Handle(_, stream) => assert_eq!(
            stream.into_internal().output(),
            b"HTTP/1.1 200 OK\nContent-Type: text/html; charset=utf-8\r\n\r\n"
        ),
        _ => panic!("the action is not to run a handler"),
    }
}

#[test]
fn route_is_matched_exactly() {
    let server: WebServer<Handler> = WebServer::with_resources("site").url("/api", push_braces);
    for request in [
        &b"GET /api/ HTTP/1.1\r\n\r\n"[..],
        &b"GET /ap HTTP/1.1\r\n\r\n"[..],
        &b"GET /API HTTP/1.1\r\n\r\n"[..],
        &b"GET /api?x=1 HTTP/1.1\r\n\r\n"[..],
    ] {
        let (phase, action) = handle_connection(Phase::Header, header(request), server.web());
        assert_eq!(phase, Phase::Static);
        assert!(matches!(action, Action::Read(_)));
    }
}

#[test]
fn index_page_comes_before_a_route_for_the_root_path() {
    let server: WebServer<Handler> = WebServer::with_resources("site").url("/", push_braces);
    let (phase, action) =
        handle_connection(Phase::Header, header(b"GET / HTTP/1.1\r\n\r\n"), server.web());
    assert_eq!(phase, Phase::Static);
    assert_eq!(read_path(action), "site/index.html");
}

#[test]
fn route_comes_before_a_static_file_of_the_same_name() {
    let server: WebServer<Handler> =
        WebServer::with_resources("site").url("/index.html", push_braces);
    let (phase, action) =
        handle_connection(Phase::Header, header(b"GET /index.html HTTP/1.1\r\n\r\n"), server.web());
    assert_eq!(phase, Phase::Handler);
    assert!(matches!(action, Action::Handle(_, _)));
}

#[test]
fn malformed_request_closes_without_a_response() {
    let web: Web<Handler> = Web::new("site");
    let cases: [(&[u8], RequestError); 6] = [
        (b"", RequestError::Method),
        (b"HEAD / HTTP/1.1\r\n\r\n", RequestError::Method),
        (b"GET /index.html", RequestError::Path),
        (b"GET / HTTP/1.1", RequestError::Version),
        (b"GET / HTTP/1.1\n\r\n", RequestError::Version),
        (b"GET /\x80 HTTP/1.1\r\n\r\n", RequestError::Encoding),
    ];
    for (request, error) in cases {
        let (phase, action) = handle_connection(Phase::Header, header(request), &web);
        assert_eq!(phase, Phase::Closed);
        assert_eq!(outcome(action), Outcome::Malformed(error));
    }
}

#[test]
fn failure_gives_the_connection_up_in_every_phase() {
    let web: Web<Handler> = Web::new("site");
    for phase in [
        Phase::Header,
        Phase::Static,
        Phase::NotFound,
        Phase::Handler,
        Phase::Send,
        Phase::Closed,
    ] {
        let (next, action) = handle_connection(phase, Event::Failed, &web);
        assert_eq!(next, Phase::Closed);
        assert_eq!(outcome(action), Outcome::Aborted);
    }
}

#[test]
fn event_that_the_phase_does_not_wait_for_gives_the_connection_up() {
    let web: Web<Handler> = Web::new("site");
    let (next, action) = handle_connection(Phase::Header, Event::Done, &web);
    assert_eq!((next, outcome(action)), (Phase::Closed, Outcome::Aborted));
    let (next, action) = handle_connection(Phase::Header, Event::File(None), &web);
    assert_eq!((next, outcome(action)), (Phase::Closed, Outcome::Aborted));
    let (next, action) =
        handle_connection(Phase::Static, header(b"GET / HTTP/1.1\r\n\r\n"), &web);
    assert_eq!((next, outcome(action)), (Phase::Closed, Outcome::Aborted));
    let (next, action) = handle_connection(Phase::NotFound, Event::Done, &web);
    assert_eq!((next, outcome(action)), (Phase::Closed, Outcome::Aborted));
    let (next, action) = handle_connection(Phase::Handler, Event::File(None), &web);
    assert_eq!((next, outcome(action)), (Phase::Closed, Outcome::Aborted));
    let (next, action) = handle_connection(Phase::Send, Event::File(Some(String::new())), &web);
    assert_eq!((next, outcome(action)), (Phase::Closed, Outcome::Aborted));
    let (next, action) = handle_connection(Phase::Closed, Event::Done, &web);
    assert_eq!((next, outcome(action)), (Phase::Closed, Outcome::Aborted));
}

#[test]
fn wire_format_constants_hold_the_exact_text() {
    assert_eq!(LINE_OK, "HTTP/1.1 200 OK\nContent-Type: ");
    assert_eq!(LINE_NOT_FOUND, "HTTP/1.1 404 NOT FOUND\nContent-Type: ");
    assert_eq!(SEPARATOR, "\r\n\r\n");
    assert_eq!(NOT_FOUND_TEXT, "404 NOT FOUND");
    assert_eq!(DEFAULT_TYPE, "text/html; charset=utf-8");
    assert_eq!(ROOT_PATH, "/");
    assert_eq!(INDEX_FILE, "/index.html");
    assert_eq!(NOT_FOUND_FILE, "/404.html");
}

#[test]
fn head_and_response_are_pushed_behind_what_is_pending() {
    let mut stream = InternalStream::new();
    stream.push_str("x");
    push_head(&mut stream, Status::Found, "text/plain");
    assert_eq!(stream.output(), b"xHTTP/1.1 200 OK\nContent-Type: text/plain\r\n\r\n");
    let mut other = InternalStream::new();
    push_response(&mut other, Status::NotFound, "a/b", "body");
    assert_eq!(other.output(), b"HTTP/1.1 404 NOT FOUND\nContent-Type: a/b\r\n\r\nbody");
}

#[test]
fn table_keeps_the_last_route_of_a_path() {
    let mut web: Web<u32> = Web::new("root");
    assert_eq!(web.path(), "root");
    assert!(web.get("/a").is_none());
    web.insert("/a", "text/plain", 1);
    web.insert("/b", "text/css", 2);
    web.insert("/a", "image/png", 3);
    let a = web.get("/a").unwrap();
    assert_eq!((a.url, a.content_type, a.handler), ("/a", "image/png", 3));
    let b = web.get("/b").unwrap();
    assert_eq!((b.url, b.content_type, b.handler), ("/b", "text/css", 2));
    assert!(web.get("/c").is_none());
    assert!(web.get("").is_none());
    assert!(web.get("/A").is_none());
}

#[test]
fn texts_are_the_same_only_when_every_byte_is() {
    assert!(same_text("", ""));
    assert!(same_text("/caf\u{e9}", "/caf\u{e9}"));
    assert!(!same_text("/cafe", "/caf\u{e9}"));
    assert!(!same_text("/a", "/ab"));
    assert!(!same_text("/ab", "/a"));
    assert!(!same_text("/a", "/b"));
}
