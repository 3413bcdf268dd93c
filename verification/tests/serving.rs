use bytes::Bytes;
use maker_web::errors::ServerError;
use maker_web::http::request::Request as TextRequest;
use maker_web::http::response::Response as TextResponse;
use maker_web::http::server::{
    Action as TextAction, Event as TextEvent, HttpServer as TextServer, Stage as TextStage,
};
use maker_web::http_11::request::Request;
use maker_web::http_11::response::Response;
use maker_web::http_11::server::{Action, Event, FallbackPages, HttpServer, Stage};
use maker_web::http_11::status::StatusCode;
use maker_web::pages::PageTable;
use maker_web::rest::errors::ServerError as TextError;

#[test]
fn registered_page_is_written_whatever_the_handler_set() {
    let mut pages = FallbackPages::new();
    pages.register_fallback(StatusCode(404), Bytes::from_static(b"canned"));
    let mut response = Response::from_response(StatusCode(404), b"handler body");
    response.add_header(b"X", b"y");
    assert_eq!(HttpServer::resolve(&pages, &response).unwrap().as_ref(), b"canned");
    let other = Response::from_response(StatusCode(404), b"something else");
    assert_eq!(HttpServer::resolve(&pages, &other).unwrap().as_ref(), b"canned");
}

#[test]
fn unregistered_status_is_encoded() {
    let mut pages = FallbackPages::new();
    pages.register_fallback(StatusCode(404), Bytes::from_static(b"canned"));
    let response = Response::from_body(b"hello");
    assert_eq!(
        HttpServer::resolve(&pages, &response).unwrap().as_ref(),
        b"HTTP/1.1 200 OK\r\n\r\nhello"
    );
}

#[test]
fn later_registration_replaces_the_page() {
    let mut pages = FallbackPages::new();
    pages.register_fallback(StatusCode(404), Bytes::from_static(b"one"));
    pages.register_fallback(StatusCode(404), Bytes::from_static(b"two"));
    assert_eq!(pages.lookup(StatusCode(404)).unwrap().as_ref(), b"two");
    assert!(pages.lookup(StatusCode(403)).is_none());
}

#[test]
fn def_page_is_registered_encoded() {
    let mut pages = FallbackPages::new();
    pages
        .set_def_page(StatusCode(404), &Response::from_body(b"Status: 404"))
        .unwrap();
    assert_eq!(
        pages.lookup(StatusCode(404)).unwrap().as_ref(),
        b"HTTP/1.1 200 OK\r\n\r\nStatus: 404"
    );
    let r = pages.set_def_page(StatusCode(403), &Response::from_response(StatusCode(299), b"x"));
    assert!(matches!(r, Err(ServerError::UnknownHttpStatus(299))));
    assert!(pages.lookup(StatusCode(403)).is_none());
}

#[test]
fn unknown_status_without_page_cannot_be_resolved() {
    let pages = FallbackPages::new();
    let response = Response::from_response(StatusCode(299), b"x");
    assert!(matches!(
        HttpServer::resolve(&pages, &response),
        Err(ServerError::UnknownHttpStatus(299))
    ));
    let mut pages = FallbackPages::new();
    pages.register_fallback(StatusCode(299), Bytes::from_static(b"odd"));
    assert_eq!(HttpServer::resolve(&pages, &response).unwrap().as_ref(), b"odd");
}

#[test]
fn connection_runs_through_its_stages() {
    let pages = FallbackPages::new();
    let (stage, action) = HttpServer::handle_connection(Stage::Accepted, Event::Checked(true), &pages);
    assert_eq!(stage, Stage::Decoding);
    assert!(matches!(action, Action::Decode));
    let request = Request::result_from("GET /x HTTP/1.1\r\n\r\n");
    let (stage, action) = HttpServer::handle_connection(stage, Event::Decoded(request), &pages);
    assert_eq!(stage, Stage::Handling);
    let request = match action {
        Action::Handle(request) => request,
        other => panic!("unexpected: {:?}", other),
    };
    assert_eq!(request.url.path, "/x");
    let (stage, action) =
        HttpServer::handle_connection(stage, Event::Handled(Response::from_body(b"hi")), &pages);
    assert_eq!(stage, Stage::Writing);
    match action {
        Action::Write(bytes) => assert_eq!(bytes.as_ref(), b"HTTP/1.1 200 OK\r\n\r\nhi"),
        other => panic!("unexpected: {:?}", other),
    }
    let (stage, action) = HttpServer::handle_connection(stage, Event::Written, &pages);
    assert_eq!(stage, Stage::Closed);
    assert!(matches!(action, Action::Finish(Ok(()))));
}

#[test]
fn failed_admission_rejects_the_connection() {
    let pages = FallbackPages::new();
    let (stage, action) =
        HttpServer::handle_connection(Stage::Accepted, Event::Checked(false), &pages);
    assert_eq!(stage, Stage::Rejected);
    assert!(matches!(action, Action::Finish(Err(ServerError::VerificationFailed))));
}

#[test]
fn decode_error_closes_without_response() {
    let pages = FallbackPages::new();
    let (stage, action) = HttpServer::handle_connection(
        Stage::Decoding,
        Event::Decoded(Request::result_from("GET\r\n")),
        &pages,
    );
    assert_eq!(stage, Stage::Closed);
    assert!(matches!(action, Action::Finish(Err(ServerError::BrokenFirstLine))));
    let (stage, action) = HttpServer::handle_connection(
        Stage::Decoding,
        Event::Decoded(Request::result_from("")),
        &pages,
    );
    assert_eq!(stage, Stage::Closed);
    assert!(matches!(action, Action::Finish(Err(ServerError::EmptyRequest))));
}

#[test]
fn unknown_status_closes_the_connection() {
    let pages = FallbackPages::new();
    let (stage, action) = HttpServer::handle_connection(
        Stage::Handling,
        Event::Handled(Response::from_response(StatusCode(299), b"x")),
        &pages,
    );
    assert_eq!(stage, Stage::Closed);
    assert!(matches!(action, Action::Finish(Err(ServerError::UnknownHttpStatus(299)))));
}

#[test]
fn write_failure_closes_the_connection() {
    let pages = FallbackPages::new();
    let error = std::io::Error::new(std::io::ErrorKind::BrokenPipe, "gone");
    let (stage, action) =
        HttpServer::handle_connection(Stage::Writing, Event::WriteFailed(error), &pages);
    assert_eq!(stage, Stage::Closed);
    assert!(matches!(action, Action::Finish(Err(ServerError::Write(_)))));
    let error = std::io::Error::new(std::io::ErrorKind::BrokenPipe, "gone");
    let (stage, action) =
        HttpServer::handle_connection(Stage::Writing, Event::FlushFailed(error), &pages);
    assert_eq!(stage, Stage::Closed);
    assert!(matches!(action, Action::Finish(Err(ServerError::Flush(_)))));
}

#[test]
fn page_table_keeps_the_last_registration() {
    let mut table = PageTable::new();
    assert_eq!(table.lookup(b"404"), None);
    table.register(b"404".to_vec(), b"one".to_vec());
    table.register(b"403".to_vec(), b"two".to_vec());
    table.register(b"404".to_vec(), b"three".to_vec());
    assert_eq!(table.lookup(b"404"), Some(&b"three".to_vec()));
    assert_eq!(table.lookup(b"403"), Some(&b"two".to_vec()));
    assert_eq!(table.lookup(b"40"), None);
}

#[test]
fn text_server_writes_registered_page() {
    let mut pages = PageTable::new();
    TextServer::set_def_page(
        &mut pages,
        b"404 NOT FOUND",
        &TextResponse::from_response(b"200 OK", b"Status: 404"),
    );
    let mut response = TextResponse::new();
    response.echo(b"ignored");
    assert_eq!(TextServer::resolve(&pages, &response), b"HTTP/1.1 200 OK\r\n\r\nStatus: 404".to_vec());
    let response = TextResponse::from_response(b"200 OK", b"mine");
    assert_eq!(TextServer::resolve(&pages, &response), b"HTTP/1.1 200 OK\r\n\r\nmine".to_vec());
}

#[test]
fn text_connection_runs_through_its_stages() {
    let pages = PageTable::new();
    let (stage, action) =
        TextServer::handle_connection(TextStage::Accepted, TextEvent::Checked(true), &pages);
    assert_eq!(stage, TextStage::Decoding);
    assert!(matches!(action, TextAction::Decode));
    let (stage, action) = TextServer::handle_connection(
        stage,
        TextEvent::Decoded(TextRequest::result_from("GET /x HTTP/1.1\r\n\r\n")),
        &pages,
    );
    assert_eq!(stage, TextStage::Handling);
    assert!(matches!(action, TextAction::Handle(_)));
    let (stage, action) = TextServer::handle_connection(
        stage,
        TextEvent::Handled(TextResponse::from_response(b"200 OK", b"hi")),
        &pages,
    );
    assert_eq!(stage, TextStage::Writing);
    match action {
        TextAction::Write(bytes) => assert_eq!(bytes, b"HTTP/1.1 200 OK\r\n\r\nhi".to_vec()),
        other => panic!("unexpected: {:?}", other),
    }
    let (stage, action) = TextServer::handle_connection(stage, TextEvent::Written, &pages);
    assert_eq!(stage, TextStage::Closed);
    assert!(matches!(action, TextAction::Finish(Ok(()))));
}

#[test]
fn text_connection_failures() {
    let pages = PageTable::new();
    let (stage, action) =
        TextServer::handle_connection(TextStage::Accepted, TextEvent::Checked(false), &pages);
    assert_eq!(stage, TextStage::Rejected);
    assert!(matches!(action, TextAction::Finish(Err(TextError::VerificationFailed))));
    let (stage, action) = TextServer::handle_connection(
        TextStage::Decoding,
        TextEvent::Decoded(TextRequest::result_from("BAD")),
        &pages,
    );
    assert_eq!(stage, TextStage::Closed);
    assert!(matches!(action, TextAction::Finish(Err(TextError::BrokenFirstLine))));
    let error = std::io::Error::new(std::io::ErrorKind::BrokenPipe, "gone");
    let (_, action) =
        TextServer::handle_connection(TextStage::Writing, TextEvent::WriteFailed(error), &pages);
    assert!(matches!(action, TextAction::Finish(Err(TextError::WriteError(_)))));
    let error = std::io::Error::new(std::io::ErrorKind::BrokenPipe, "gone");
    let (_, action) =
        TextServer::handle_connection(TextStage::Writing, TextEvent::FlushFailed(error), &pages);
    assert!(matches!(action, TextAction::Finish(Err(TextError::FlushError(_)))));
}

#[test]
fn events_fit_their_stages() {
    assert!(HttpServer::fits(Stage::Accepted, &Event::Checked(false)));
    assert!(HttpServer::fits(Stage::Writing, &Event::Written));
    assert!(HttpServer::fits(Stage::Handling, &Event::Handled(Response::new())));
    assert!(!HttpServer::fits(Stage::Accepted, &Event::Written));
    assert!(!HttpServer::fits(Stage::Closed, &Event::Written));
    assert!(!HttpServer::fits(Stage::Rejected, &Event::Checked(true)));
    assert!(!HttpServer::fits(Stage::Resolving, &Event::Handled(Response::new())));
    assert!(TextServer::fits(TextStage::Decoding, &TextEvent::Decoded(TextRequest::result_from(""))));
    assert!(!TextServer::fits(TextStage::Closed, &TextEvent::Checked(true)));
}
