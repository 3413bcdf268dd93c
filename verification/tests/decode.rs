use maker_web::http::request::{Action, Decoder, HttpMethod, Request};
use maker_web::rest::errors::ServerError;

#[test]
fn decodes_request_with_host_and_cookies() {
    let request =
        Request::result_from("GET /x HTTP/1.1\r\nHost: h\r\nCookie: a=1; b=2\r\n\r\n").unwrap();
    assert_eq!(request.method, HttpMethod::Get);
    assert_eq!(request.url, "/x");
    assert_eq!(request.host, Some("h".to_string()));
    assert_eq!(request.cookies.len(), 2);
    assert_eq!(request.cookies.get("a"), Some(&"1".to_string()));
    assert_eq!(request.cookies.get("b"), Some(&"2".to_string()));
    assert!(request.body.is_empty());
    assert!(request.headers.is_empty());
}

#[test]
fn three_tokens_give_method_and_url() {
    let request = Request::result_from("POST   /a/b?c=d \t HTTP/1.0\r\n\r\n").unwrap();
    assert_eq!(request.method, HttpMethod::Post);
    assert_eq!(request.url, "/a/b?c=d");
    assert_eq!(request.host, None);
    assert!(request.cookies.is_empty());
}

#[test]
fn two_tokens_are_a_broken_first_line() {
    let r = Request::result_from("GET /x\r\nHost: h\r\n\r\n");
    assert!(matches!(r, Err(ServerError::BrokenFirstLine)));
}

#[test]
fn four_tokens_are_a_broken_first_line() {
    let r = Request::result_from("GET /x HTTP/1.1 extra\r\n\r\n");
    assert!(matches!(r, Err(ServerError::BrokenFirstLine)));
}

#[test]
fn blank_first_line_is_a_broken_first_line() {
    let r = Request::result_from("\r\nGET /x HTTP/1.1\r\n\r\n");
    assert!(matches!(r, Err(ServerError::BrokenFirstLine)));
}

#[test]
fn nothing_read_is_an_empty_request() {
    let r = Request::result_from("");
    assert!(matches!(r, Err(ServerError::EmptyRequest)));
}

#[test]
fn unknown_method_is_reported_with_its_token() {
    match Request::result_from("FETCH /x HTTP/1.1\r\n\r\n") {
        Err(ServerError::UnknownMethod(token)) => assert_eq!(token, "FETCH"),
        other => panic!("unexpected: {:?}", other),
    }
}

#[test]
fn method_tokens_are_case_sensitive() {
    assert!(matches!(HttpMethod::from_str("get"), Err(ServerError::UnknownMethod(_))));
}

#[test]
fn every_method_is_known() {
    assert_eq!(HttpMethod::from_str("GET").unwrap(), HttpMethod::Get);
    assert_eq!(HttpMethod::from_str("HEAD").unwrap(), HttpMethod::Head);
    assert_eq!(HttpMethod::from_str("POST").unwrap(), HttpMethod::Post);
    assert_eq!(HttpMethod::from_str("PUT").unwrap(), HttpMethod::Put);
    assert_eq!(HttpMethod::from_str("DELETE").unwrap(), HttpMethod::Delete);
    assert_eq!(HttpMethod::from_str("CONNECT").unwrap(), HttpMethod::Connect);
    assert_eq!(HttpMethod::from_str("OPTIONS").unwrap(), HttpMethod::Options);
    assert_eq!(HttpMethod::from_str("TRACE").unwrap(), HttpMethod::Trace);
    assert_eq!(HttpMethod::from_str("PATCH").unwrap(), HttpMethod::Patch);
}

#[test]
fn default_method_is_get() {
    assert_eq!(HttpMethod::default(), HttpMethod::Get);
}

#[test]
fn later_header_replaces_earlier_one() {
    let request = Request::result_from("GET / HTTP/1.1\r\nX-A: 1\r\nX-B: 2\r\nX-A: 3\r\n\r\n")
        .unwrap();
    assert_eq!(request.headers.len(), 2);
    assert_eq!(request.headers.get("X-A"), Some(&"3".to_string()));
    assert_eq!(request.headers.get("X-B"), Some(&"2".to_string()));
}

#[test]
fn header_names_are_case_sensitive() {
    let request = Request::result_from("GET / HTTP/1.1\r\nhost: h\r\n\r\n").unwrap();
    assert_eq!(request.host, None);
    assert_eq!(request.headers.get("host"), Some(&"h".to_string()));
    assert_eq!(request.headers.get("Host"), None);
}

#[test]
fn header_line_without_colon_is_ignored() {
    let request = Request::result_from("GET / HTTP/1.1\r\nnonsense\r\nX-A: 1\r\n\r\n").unwrap();
    assert_eq!(request.headers.len(), 1);
    assert_eq!(request.headers.get("X-A"), Some(&"1".to_string()));
}

#[test]
fn header_value_keeps_later_colons_and_is_trimmed() {
    let request = Request::result_from("GET / HTTP/1.1\r\n  Referer :  http://a:80/b  \r\n\r\n")
        .unwrap();
    assert_eq!(request.headers.get("Referer"), Some(&"http://a:80/b".to_string()));
}

#[test]
fn end_of_stream_ends_the_header_block() {
    let request = Request::result_from("GET / HTTP/1.1\r\nX-A: 1\r\n").unwrap();
    assert_eq!(request.headers.get("X-A"), Some(&"1".to_string()));
    assert!(request.body.is_empty());
}

#[test]
fn request_line_alone_is_a_request() {
    let request = Request::result_from("GET / HTTP/1.1").unwrap();
    assert_eq!(request.url, "/");
    assert!(request.headers.is_empty());
}

#[test]
fn body_has_the_announced_length() {
    let request =
        Request::result_from("PUT /f HTTP/1.1\r\nContent-Length: 5\r\n\r\nhello world").unwrap();
    assert_eq!(request.body, b"hello".to_vec());
    assert_eq!(request.headers.get("Content-Length"), Some(&"5".to_string()));
}

#[test]
fn short_body_leaves_the_body_empty() {
    let request =
        Request::result_from("PUT /f HTTP/1.1\r\nContent-Length: 50\r\n\r\nhello").unwrap();
    assert!(request.body.is_empty());
}

#[test]
fn unreadable_content_length_leaves_the_body_empty() {
    let request =
        Request::result_from("PUT /f HTTP/1.1\r\nContent-Length: -5\r\n\r\nhello").unwrap();
    assert!(request.body.is_empty());
    let request =
        Request::result_from("PUT /f HTTP/1.1\r\nContent-Length: five\r\n\r\nhello").unwrap();
    assert!(request.body.is_empty());
}

#[test]
fn content_length_may_carry_a_plus_sign() {
    let request =
        Request::result_from("PUT /f HTTP/1.1\r\nContent-Length: +2\r\n\r\nhello").unwrap();
    assert_eq!(request.body, b"he".to_vec());
}

#[test]
fn body_is_counted_in_bytes() {
    let request =
        Request::result_from("PUT /f HTTP/1.1\r\nContent-Length: 2\r\n\r\n\u{e9}x").unwrap();
    assert_eq!(request.body, vec![0xc3, 0xa9]);
}

#[test]
fn cookie_parts_without_equals_are_passed_over() {
    let cookies = Request::get_data("a=1; junk; b = 2 ; a=3", "; ");
    assert_eq!(cookies.len(), 2);
    assert_eq!(cookies.get("a"), Some(&"3".to_string()));
    assert_eq!(cookies.get("b"), Some(&"2".to_string()));
    assert_eq!(cookies.get("junk"), None);
}

#[test]
fn pair_value_keeps_later_equals_signs() {
    let pairs = Request::get_data("k=a=b&x=", "&");
    assert_eq!(pairs.get("k"), Some(&"a=b".to_string()));
    assert_eq!(pairs.get("x"), Some(&"".to_string()));
}

#[test]
fn decoder_walks_through_a_request() {
    let decoder = Decoder::new();
    let (decoder, action) = decoder.on_line("GET /x HTTP/1.1\r\n");
    assert!(matches!(action, Action::ReadLine));
    assert!(matches!(decoder, Decoder::Headers(_)));
    let (decoder, action) = decoder.on_line("Content-Length: 3\r\n");
    assert!(matches!(action, Action::ReadLine));
    let (decoder, action) = decoder.on_line("\r\n");
    assert!(matches!(action, Action::ReadBody(3)));
    assert!(matches!(decoder, Decoder::Body(_, 3)));
    let (decoder, action) = decoder.on_body(Some(b"abc".to_vec()));
    assert!(matches!(decoder, Decoder::Closed));
    match action {
        Action::Finished(request) => {
            assert_eq!(request.url, "/x");
            assert_eq!(request.body, b"abc".to_vec());
        }
        other => panic!("unexpected: {:?}", other),
    }
}

#[test]
fn decoder_finishes_without_body() {
    let (decoder, _) = Decoder::new().on_line("GET /x HTTP/1.1\r\n");
    let (decoder, action) = decoder.on_line("");
    assert!(matches!(decoder, Decoder::Closed));
    assert!(matches!(action, Action::Finished(_)));
}

#[test]
fn decoder_keeps_empty_body_when_reading_fails() {
    let (decoder, _) = Decoder::new().on_line("GET /x HTTP/1.1\r\n");
    let (decoder, _) = decoder.on_line("Content-Length: 3\r\n");
    let (decoder, _) = decoder.on_line("\r\n");
    let (_, action) = decoder.on_body(None);
    match action {
        Action::Finished(request) => assert!(request.body.is_empty()),
        other => panic!("unexpected: {:?}", other),
    }
}

#[test]
fn decoder_fails_on_broken_first_line() {
    let (decoder, action) = Decoder::new().on_line("GET\r\n");
    assert!(matches!(decoder, Decoder::Closed));
    assert!(matches!(action, Action::Failed(ServerError::BrokenFirstLine)));
}

#[test]
fn decoder_fails_on_empty_stream() {
    let (_, action) = Decoder::new().on_line("");
    assert!(matches!(action, Action::Failed(ServerError::EmptyRequest)));
}

#[test]
fn decoder_hands_on_a_read_error() {
    let error = std::io::Error::new(std::io::ErrorKind::Other, "gone");
    let (decoder, action) = Decoder::new().on_read_error(error);
    assert!(matches!(decoder, Decoder::Closed));
    assert!(matches!(action, Action::Failed(ServerError::ReadError(_))));
}
