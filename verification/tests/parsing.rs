use maker_web::clean::server::CleanServer;
use maker_web::errors::ServerError;
use maker_web::rest::server_info::TypeServer;
use maker_web::server::request::Request;
use maker_web::server::response::Response;
use maker_web::server::server_tcp::TcpServer;
use maker_web::server::tcp_server::{PrintInfoServer, TcpServer as MapServer};
use maker_web::server_tcp::{Request as FirstRequest, Route, TcpServer as FirstServer};
use maker_web::response::Response as LineResponse;
use maker_web::string_map::{str_equal, StringMap};
use maker_web::text::{
    is_space, lines_str, parse_usize_str, split_on_str, split_once_str, split_whitespace_str,
    starts_with_str, strip_all_str, trim_end_str, trim_str,
};

const TEST_TEXT: &str = "GET /responseqwe HTTP/1.1\nHost: 127.0.0.1:443\nConnection: keep-alive\nCache-Control: max-age=0\nUpgrade-Insecure-Requests: 1\nAccept-Encoding: gzip, deflate, br\nAccept-Language: en-US,en;q=0.9,ru;q=0.8\nCookie: net=qwe";

#[test]
fn request_text_is_parsed() {
    let request = Request::parse_to_self(TEST_TEXT);
    assert_eq!(request.metod_url_http, vec!["GET", "/responseqwe", "HTTP/1.1"]);
    assert_eq!(request.cookie.len(), 1);
    assert_eq!(request.cookie.get("net"), Some(&"qwe".to_string()));
    assert!(request.add_content.is_empty());
}

#[test]
fn last_line_gives_the_content() {
    let request = Request::parse_to_self(
        "POST /sign HTTP/1.1\r\nCookie: a=1; b=2\r\nContent-Length: 17\r\n\r\nname=me&pass=a=b",
    );
    assert_eq!(request.metod_url_http, vec!["POST", "/sign", "HTTP/1.1"]);
    assert_eq!(request.cookie.get("a"), Some(&"1".to_string()));
    assert_eq!(request.cookie.get("b"), Some(&"2".to_string()));
    assert_eq!(request.add_content.len(), 2);
    assert_eq!(request.add_content.get("name"), Some(&"me".to_string()));
    assert_eq!(request.add_content.get("pass"), Some(&"a=b".to_string()));
}

#[test]
fn last_line_of_accepted_languages_gives_no_content() {
    let request = Request::parse_to_self("GET / HTTP/1.1\nAccept-Language: en-US,en;q=0.9");
    assert!(request.add_content.is_empty());
    assert!(request.cookie.is_empty());
}

#[test]
fn part_without_equals_is_a_key_without_value() {
    let pairs = Request::get_data("a; b=2", "; ");
    assert_eq!(pairs.len(), 2);
    assert_eq!(pairs.get("a"), Some(&"".to_string()));
    assert_eq!(pairs.get("b"), Some(&"2".to_string()));
}

#[test]
fn single_line_request_is_its_own_last_line() {
    let request = Request::parse_to_self("GET /x HTTP/1.1");
    assert_eq!(request.metod_url_http, vec!["GET", "/x", "HTTP/1.1"]);
    assert_eq!(request.add_content.len(), 1);
    assert_eq!(request.add_content.get("GET /x HTTP/1.1"), Some(&"".to_string()));
}

#[test]
fn first_request_is_parsed() {
    let request = FirstRequest::parse_to_self(TEST_TEXT);
    assert_eq!(request.metod_url_http, vec!["GET", "/responseqwe", "HTTP/1.1"]);
    assert_eq!(request.cookie_files.get("net"), Some(&"qwe".to_string()));
    assert!(request.add_contents.is_empty());
}

#[test]
fn first_request_takes_pairs_with_exactly_one_equals() {
    let pairs = FirstRequest::get_data("a=1&b=2=3&c&d= 4 ", "&");
    assert_eq!(pairs.len(), 2);
    assert_eq!(pairs.get("a"), Some(&"1".to_string()));
    assert_eq!(pairs.get("d"), Some(&"4".to_string()));
    assert_eq!(pairs.get("b"), None);
    assert_eq!(pairs.get("c"), None);
}

#[test]
fn first_request_content_of_last_line() {
    let request =
        FirstRequest::parse_to_self("PUT /x HTTP/1.1\r\nAccept-Language: en\r\n\r\nk=v&n=m");
    assert_eq!(request.add_contents.len(), 2);
    assert_eq!(request.add_contents.get("k"), Some(&"v".to_string()));
    assert_eq!(request.add_contents.get("n"), Some(&"m".to_string()));
}

#[test]
fn method_selects_the_handler() {
    assert_eq!(FirstRequest::parse_to_self("GET / HTTP/1.1").route(), Route::Get);
    assert_eq!(FirstRequest::parse_to_self("POST / HTTP/1.1").route(), Route::Post);
    assert_eq!(FirstRequest::parse_to_self("PUT / HTTP/1.1").route(), Route::Put);
    assert_eq!(FirstRequest::parse_to_self("DELETE / HTTP/1.1").route(), Route::Unhandled);
    assert_eq!(FirstRequest::parse_to_self("get / HTTP/1.1").route(), Route::Unhandled);
}

#[test]
fn first_server_reads_a_buffer_of_spaces_as_nothing() {
    assert!(FirstServer::read_request(&[32u8; 1024]).is_none());
    let mut buffer = [32u8; 64];
    buffer[..15].copy_from_slice(b"GET /a HTTP/1.1");
    let request = FirstServer::read_request(&buffer).unwrap();
    assert_eq!(request.metod_url_http, vec!["GET", "/a", "HTTP/1.1"]);
}

#[test]
fn first_server_answers_under_the_tag_of_the_request() {
    let request = FirstRequest::parse_to_self("GET /a HTTP/1.0");
    let mut response = LineResponse::new();
    response.set_response("200 OK", "x");
    assert_eq!(
        FirstServer::response_text(&request, &response, None),
        "HTTP/1.0 200 OK\r\n\r\nx"
    );
    assert_eq!(
        FirstServer::response_text(&request, &response, Some("HTTP/2.0")),
        "HTTP/2.0 200 OK\r\n\r\nx"
    );
}

#[test]
fn server_reads_request_from_buffer() {
    let mut buffer = [32u8; 64];
    buffer[..15].copy_from_slice(b"GET /a HTTP/1.1");
    let request = TcpServer::read_stream_to_request(15, &buffer).unwrap();
    assert_eq!(request.metod_url_http, vec!["GET", "/a", "HTTP/1.1"]);
    assert!(TcpServer::read_stream_to_request(0, &buffer).is_none());
    assert!(TcpServer::read_stream_to_request(3, &[32u8; 64]).is_none());
}

#[test]
fn server_invalid_bytes_are_replaced() {
    let mut buffer = [32u8; 32];
    buffer[..16].copy_from_slice(b"GET /\xff\xfe HTTP/1.1");
    let request = TcpServer::read_stream_to_request(16, &buffer).unwrap();
    assert_eq!(request.metod_url_http[1], "/\u{fffd}\u{fffd}");
}

#[test]
fn server_writes_default_page_for_not_found() {
    let mut server = TcpServer::new();
    let mut page = Response::const_new();
    page.set_response("404 NOT FOUND", "nothing here");
    page.binary_data = vec![9, 9];
    server.set_def_page(page);
    let request = Request::parse_to_self("GET /a HTTP/1.0");
    let response = Response::const_new();
    assert_eq!(
        server.write_stream(&request, &response, None),
        ("HTTP/1.0 200 OK\r\n\r\nnothing here".to_string(), vec![9, 9])
    );
    let mut response = Response::const_new();
    response.set_file(Some(vec![1, 2]), "image/png");
    assert_eq!(
        server.write_stream(&request, &response, Some("HTTP/1.1")),
        ("HTTP/1.1 200 OK\r\nContent-Type: image/png\r\n\r\n".to_string(), vec![1, 2])
    );
}

#[test]
fn map_server_writes_page_of_the_status() {
    let mut server = MapServer::new();
    assert_eq!(server.type_http, "HTTP/1.1");
    let mut page = Response::const_new();
    page.set_response("404 NOT FOUND", "gone");
    page.binary_data = vec![7];
    let mut other = Response::const_new();
    other.set_response("404 NOT FOUND", "later");
    server.set_map_code_page(vec![
        ("404 NOT FOUND".to_string(), page),
        ("403 FORBIDDEN".to_string(), Response::const_new()),
        ("404 NOT FOUND".to_string(), other),
    ]);
    let mut response = Response::const_new();
    response.set_response("404 NOT FOUND", "handler text");
    assert_eq!(server.write_stream(&response), b"HTTP/1.1 200 OK\r\n\r\nlater".to_vec());
    let mut response = Response::const_new();
    response.set_file(Some(vec![1, 2]), "a/b");
    let mut expected = b"HTTP/1.1 200 OK\r\nContent-Type: a/b\r\n\r\n".to_vec();
    expected.extend_from_slice(&[1, 2]);
    assert_eq!(server.write_stream(&response), expected);
}

#[test]
fn map_server_set_map_replaces_the_map() {
    let mut server = MapServer::new();
    let mut page = Response::const_new();
    page.set_response("x", "gone");
    server.set_map_code_page(vec![("404".to_string(), page)]);
    server.set_map_code_page(Vec::new());
    let mut response = Response::const_new();
    response.set_response("404", "mine");
    assert_eq!(server.write_stream(&response), b"HTTP/1.1 404\r\n\r\nmine".to_vec());
}

#[test]
fn map_server_protocol_tag_can_be_set() {
    let mut server = MapServer::new();
    server.set_http("HTTP/1.0");
    let mut response = Response::const_new();
    response.set_response("200 OK", "x");
    assert_eq!(server.render("201 C", &response), b"HTTP/1.0 201 C\r\n\r\nx".to_vec());
}

#[test]
fn notices_name_address_and_units() {
    assert_eq!(PrintInfoServer::server_launch("127.0.0.1:80"), "SERVER | 127.0.0.1:80 | LAUNCH ");
    assert_eq!(
        PrintInfoServer::server_shotdown("127.0.0.1:80"),
        "SERVER | 127.0.0.1:80 | SHOT DOWN "
    );
    assert_eq!(
        TypeServer::launch("127.0.0.1:80", TypeServer::Http(4)),
        "SERVER | HTTP | 127.0.0.1:80 | 4 | LAUNCH"
    );
    assert_eq!(
        TypeServer::shotdown("[::1]:8080", TypeServer::Clean(120)),
        "SERVER | CLEAN | [::1]:8080 | 120 | SHOT DOWN"
    );
}

#[test]
fn clean_server_reads() {
    let mut buffer = [32u8; 8];
    buffer[..3].copy_from_slice(b"abc");
    assert_eq!(CleanServer::read_string(3, &buffer).unwrap(), "abc     ");
    assert!(matches!(CleanServer::read_string(0, &buffer), Err(ServerError::EmptyLine)));
    assert_eq!(CleanServer::read_bytes(3, &buffer).unwrap(), b"abc".to_vec());
    assert_eq!(CleanServer::read_bytes(8, &buffer).unwrap(), b"abc     ".to_vec());
    assert!(matches!(CleanServer::read_bytes(0, &buffer), Err(ServerError::EmptyLine)));
}

#[test]
fn whitespace_is_that_of_unicode() {
    for c in [' ', '\t', '\n', '\r', '\u{b}', '\u{c}', '\u{85}', '\u{a0}', '\u{1680}', '\u{2000}',
        '\u{200a}', '\u{2028}', '\u{2029}', '\u{202f}', '\u{205f}', '\u{3000}']
    {
        assert!(is_space(c));
    }
    for c in ['a', '0', '\u{0}', '\u{8}', '\u{e}', '\u{200b}', '\u{feff}', '\u{180e}'] {
        assert!(!is_space(c));
    }
    for n in 0..0x3100u32 {
        if let Some(c) = char::from_u32(n) {
            assert_eq!(is_space(c), c.is_whitespace());
        }
    }
}

#[test]
fn trimming_matches_std() {
    for s in ["", "  ", " a b ", "\r\n x\t", "\u{3000}x\u{a0}", "x", " \u{e9} "] {
        assert_eq!(trim_str(s), s.trim());
        assert_eq!(trim_end_str(s), s.trim_end());
    }
}

#[test]
fn splitting_matches_std() {
    for s in ["", " ", "a", " a  b\tc ", "GET /x HTTP/1.1\r\n", "\u{3000}a\u{a0}b"] {
        assert_eq!(split_whitespace_str(s), s.split_whitespace().collect::<Vec<_>>());
    }
    for (s, sep) in [("", "; "), ("a", "; "), ("a; b;c; ", "; "), ("; ; ", "; "), ("aXXXb", "XX"),
        ("a&b&&c", "&"), ("&", "&"), ("", ""), ("a", ""), ("a=b", ""), ("\u{e9}x", "")]
    {
        assert_eq!(split_on_str(s, sep), s.split(sep).collect::<Vec<_>>());
    }
    for s in ["", "a", "a\n", "a\r\n\r\nb", "\n", "a\r", "a\rb\n", "\r\n", "a\n\nb\n"] {
        assert_eq!(lines_str(s), s.lines().collect::<Vec<_>>());
    }
}

#[test]
fn empty_separator_parts_the_characters() {
    let pairs = maker_web::http::request::Request::get_data("a=b", "");
    assert_eq!(pairs.len(), 1);
    assert_eq!(pairs.get(""), Some(&"".to_string()));
    let pairs = Request::get_data("ab", "");
    assert_eq!(pairs.len(), 3);
    assert_eq!(pairs.get(""), Some(&"".to_string()));
    assert_eq!(pairs.get("a"), Some(&"".to_string()));
    assert_eq!(pairs.get("b"), Some(&"".to_string()));
    let pairs = FirstRequest::get_data("a=b", "");
    assert_eq!(pairs.len(), 1);
    assert_eq!(pairs.get(""), Some(&"".to_string()));
}

#[test]
fn split_once_takes_the_first() {
    assert_eq!(split_once_str("a:b:c", ':'), Some(("a", "b:c")));
    assert_eq!(split_once_str(":x", ':'), Some(("", "x")));
    assert_eq!(split_once_str("x:", ':'), Some(("x", "")));
    assert_eq!(split_once_str("abc", ':'), None);
    assert_eq!(split_once_str("", ':'), None);
}

#[test]
fn prefixes() {
    assert!(starts_with_str("Cookie: a", "Cookie: "));
    assert!(starts_with_str("abc", ""));
    assert!(!starts_with_str("Cook", "Cookie: "));
    assert!(!starts_with_str("cookie: a", "Cookie: "));
    assert_eq!(strip_all_str("ababc", "ab"), "c");
    assert_eq!(strip_all_str("Cookie: Cookie: a=1", "Cookie: "), "a=1");
    assert_eq!(strip_all_str("abc", "x"), "abc");
    assert_eq!(strip_all_str("abc", ""), "abc");
    assert_eq!(strip_all_str("abab", "ab"), "");
}

#[test]
fn numbers_match_std() {
    for s in ["0", "5", "+5", "007", "18446744073709551615", "18446744073709551616",
        "99999999999999999999999", "", "+", "-1", "1 ", " 1", "1a", "++1", "\u{661}"]
    {
        assert_eq!(parse_usize_str(s), s.parse::<usize>().ok());
    }
}

#[test]
fn string_map_behaves_like_a_map() {
    let mut map = StringMap::new();
    assert!(map.is_empty());
    assert_eq!(map.insert("a".to_string(), "1".to_string()), None);
    assert_eq!(map.insert("b".to_string(), "2".to_string()), None);
    assert_eq!(map.insert("a".to_string(), "3".to_string()), Some("1".to_string()));
    assert_eq!(map.len(), 2);
    assert!(map.contains_key("a"));
    assert!(!map.contains_key("c"));
    assert_eq!(map.get("a"), Some(&"3".to_string()));
    let copy = map.clone();
    assert_eq!(map.remove("a"), Some("3".to_string()));
    assert_eq!(map.remove("a"), None);
    assert_eq!(map.len(), 1);
    assert_eq!(map.get("b"), Some(&"2".to_string()));
    assert_eq!(copy.len(), 2);
    assert_eq!(copy.get("a"), Some(&"3".to_string()));
}

#[test]
fn strings_are_compared_by_their_characters() {
    assert!(str_equal("", ""));
    assert!(str_equal("GET", "GET"));
    assert!(!str_equal("GET", "GET "));
    assert!(!str_equal("GET", "GEt"));
}
