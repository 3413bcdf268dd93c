use maker_web::http::response::Response;
use maker_web::response::{Cookie, Response as LineResponse, SettingResponse};
use maker_web::server::response::Response as DataResponse;

#[test]
fn byte_response_starts_not_found() {
    let response = Response::new();
    assert_eq!(response.status_code, b"404 NOT FOUND".to_vec());
    assert!(response.body.is_empty());
    assert_eq!(response.as_bytes().as_ref(), b"HTTP/1.1 404 NOT FOUND\r\n");
    assert_eq!(Response::default().status_code, b"404 NOT FOUND".to_vec());
}

#[test]
fn byte_response_is_encoded_in_order() {
    let mut response = Response::from_response(b"200 OK", b"All Good :)");
    response.add_header(b"Content-Type", b"text/plain");
    response.add_cookie(b"k", b"v");
    response.delete_cookie(b"old");
    assert_eq!(
        response.as_bytes().as_ref(),
        b"HTTP/1.1 200 OK\r\nSet-Cookie: k=v\r\nSet-Cookie: old=; Expires=Thu, 01 Jan 1970 00:00:00 GMT\r\nContent-Type: text/plain\r\n\r\nAll Good :)"
            as &[u8]
    );
}

#[test]
fn byte_response_redirect() {
    let mut response = Response::from_response(b"200 OK", b"x");
    response.set_redirect(b"/test_url");
    assert_eq!(response.status_code, b"302 FOUND".to_vec());
    assert_eq!(response.body.as_ref(), b"Location: /test_url");
}

#[test]
fn byte_response_set_response_replaces_the_body() {
    let mut response = Response::new();
    response.set_response(b"200 OK", b"one");
    response.set_response(b"500 OOPS", b"two");
    assert_eq!(response.status_code, b"500 OOPS".to_vec());
    assert_eq!(response.body.as_ref(), b"\r\ntwo");
}

#[test]
fn byte_response_echo_appends() {
    let mut resp = Response::new();
    resp.set_response(b"200 OK", b"");
    resp.echo(b"Example ");
    resp.echo(b"Body");
    assert_eq!(resp.body.as_ref(), b"\r\nExample Body");
}

#[test]
fn byte_response_html_page() {
    let response = Response::from_html(
        |mut resp: Response| {
            resp.echo(b"Example Head");
            resp
        },
        |mut resp: Response| {
            resp.echo(b"Example Body");
            resp
        },
    );
    assert_eq!(response.status_code, b"200 OK".to_vec());
    assert_eq!(
        response.body.as_ref(),
        b"\r\n<html><head>Example Head</head><body>Example Body</body></html>" as &[u8]
    );
}

#[test]
fn byte_response_set_html_keeps_cookies() {
    let mut response = Response::new();
    response.add_cookie(b"a", b"1");
    response.set_html(|resp: Response| resp, |resp: Response| resp);
    assert_eq!(response.cookies.as_ref(), b"Set-Cookie: a=1\r\n");
    assert_eq!(response.body.as_ref(), b"\r\n<html><head></head><body></body></html>" as &[u8]);
}

#[test]
fn byte_response_from_fn() {
    let response = Response::from_fn(|mut resp: Response| {
        resp.set_response(b"200 OK", b"wer");
        resp
    });
    assert_eq!(response.status_code, b"200 OK".to_vec());
    assert_eq!(response.body.as_ref(), b"\r\nwer");
}

#[test]
fn byte_response_file() {
    let mut response = Response::from_response(b"200 OK", b"kept");
    response.set_file(None, b"text/html");
    assert_eq!(response.status_code, b"404 NOT FOUND".to_vec());
    assert_eq!(response.body.as_ref(), b"\r\nkept");
    let response = Response::from_file(Some(b"data"), b"text/html");
    assert_eq!(response.status_code, b"200 OK".to_vec());
    assert_eq!(response.body.as_ref(), b"data");
    assert_eq!(response.headers.as_ref(), b"Content-Type: text/html\r\n");
}

#[test]
fn cookie_lines_accumulate() {
    let mut cookie = Cookie::new();
    assert_eq!(cookie.0, "");
    cookie.add("a", "b");
    cookie.add("a", "b");
    cookie.delete("a");
    assert_eq!(
        cookie.0,
        "Set-Cookie: a=b\r\nSet-Cookie: a=b\r\nSet-Cookie: a=; Expires=Thu, 01 Jan 1970 00:00:00 GMT\r\n"
    );
}

#[test]
fn setting_lines_accumulate() {
    let mut setting = SettingResponse::new();
    setting.add("Content-Type", "text/html");
    setting.add("Date", "now");
    assert_eq!(setting.0, "Content-Type: text/html\r\nDate: now\r\n");
}

#[test]
fn line_response_format() {
    let mut response = LineResponse::new();
    assert_eq!(response.status_line, "404 NOT FOUND");
    assert_eq!(response.format("HTTP/1.1"), "HTTP/1.1 404 NOT FOUND\r\n");
    response.set_response("200 OK", "<p>hi</p>");
    response.cookie.add("k", "v");
    response.setting.add("Content-Type", "text/html");
    assert_eq!(response.data, "\r\n<p>hi</p>");
    assert_eq!(
        response.format("HTTP/1.1"),
        "HTTP/1.1 200 OK\r\nSet-Cookie: k=v\r\nContent-Type: text/html\r\n\r\n<p>hi</p>"
    );
}

#[test]
fn line_response_set_response_replaces_the_data() {
    let mut response = LineResponse::new();
    response.set_response("200 OK", "one");
    response.set_response("200 OK", "two");
    assert_eq!(response.data, "\r\ntwo");
    response.set_redirect("/new");
    assert_eq!(response.status_line, "302 FOUND");
    assert_eq!(response.data, "Location: /new");
}

#[test]
fn data_response_starts_blank() {
    let response = DataResponse::const_new();
    assert_eq!(response.status_code, "");
    assert_eq!(response.string_data, "");
    assert!(response.binary_data.is_empty());
}

#[test]
fn data_response_format_arg() {
    let mut response = DataResponse::const_new();
    response.set_response("200 OK", "text");
    response.cookie.add("k", "v");
    response.setting.add("A", "b");
    assert_eq!(
        DataResponse::format_arg("HTTP/1.1", "201 CREATED", &response),
        "HTTP/1.1 201 CREATED\r\nSet-Cookie: k=v\r\nA: b\r\n\r\ntext"
    );
}

#[test]
fn data_response_format_uses_default_page_when_not_found() {
    let mut def_page = DataResponse::const_new();
    def_page.set_response("404 NOT FOUND", "no such page");
    let response = DataResponse::const_new();
    assert_eq!(
        response.format("HTTP/1.1", &def_page),
        ("HTTP/1.1 200 OK\r\n\r\nno such page".to_string(), false)
    );
    let mut response = DataResponse::const_new();
    response.set_response("404 NOT FOUND", "mine");
    assert_eq!(
        response.format("HTTP/1.1", &def_page),
        ("HTTP/1.1 200 OK\r\n\r\nno such page".to_string(), false)
    );
    response.set_response("200 OK", "mine");
    assert_eq!(
        response.format("HTTP/1.0", &def_page),
        ("HTTP/1.0 200 OK\r\n\r\nmine".to_string(), true)
    );
}

#[test]
fn data_response_redirect() {
    let mut response = DataResponse::const_new();
    response.set_response("200 OK", "x");
    response.set_redirect("/new");
    assert_eq!(response.status_code, "302 FOUND");
    assert_eq!(response.string_data, "Location: /new");
}

#[test]
fn data_response_file() {
    let mut response = DataResponse::const_new();
    response.set_file(Some(vec![1, 2, 3]), "image/png");
    assert_eq!(response.status_code, "200 OK");
    assert_eq!(response.string_data, "\r\n");
    assert_eq!(response.binary_data, vec![1, 2, 3]);
    assert_eq!(response.setting.0, "Content-Type: image/png\r\n");
    let mut response = DataResponse::const_new();
    response.set_response("200 OK", "kept");
    response.set_file(None, "image/png");
    assert_eq!(response.status_code, "404 NOT FOUND");
    assert_eq!(response.string_data, "\r\nkept");
    let response = DataResponse::new_from_file(None, "text/plain");
    assert_eq!(response.status_code, "404 NOT FOUND");
    assert_eq!(response.string_data, "");
}
