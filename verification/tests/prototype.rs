use std::io::Read;
use rustdirlister::listing::lowercase;
use rustdirlister::request::{parse_request_bytes, Method, Request};
use rustdirlister::response::{
    attachment_head, attachment_head_with, gzip_requested, plan_route, response_head, response_head_with,
    send_more, static_body, static_head, static_head_with,
};

#[test]
fn method_parse_known_names() {
    assert!(matches!(Method::parse("GET"), Some(Method::GET)));
    assert!(matches!(Method::parse("POST"), Some(Method::POST)));
    assert!(matches!(Method::parse("PUT"), Some(Method::PUT)));
    assert!(matches!(Method::parse("DELETE"), Some(Method::DELETE)));
    assert!(matches!(Method::parse("UPDATE"), Some(Method::UPDATE)));
}

#[test]
fn method_parse_unknown_names() {
    assert!(Method::parse("get").is_none());
    assert!(Method::parse(&"DELETE".to_lowercase()).is_none());
    assert!(Method::parse("PATCH").is_none());
    assert!(Method::parse("").is_none());
    assert!(Method::parse("GET ").is_none());
    assert!(matches!(Method::default(), Method::GET));
}

#[test]
fn lowercased_names_are_no_methods() {
    for s in ["GET", "Post", "pUT", "DELETE", "update", "", " "] {
        assert!(Method::parse(&lowercase(s)).is_none());
    }
    assert_eq!(lowercase("DeLeTe"), "delete");
}

#[test]
fn request_parse_full() {
    let r = Request::parse("GET /docs/a%20b HTTP/1.1\r\nHost:  example.com \r\nAccept: */*\r\n\r\n").unwrap();
    assert!(matches!(r.method, Method::GET));
    assert_eq!(r.route, "/docs/a b");
    assert_eq!(r.host, "example.com");
    assert_eq!(r.http_version, "HTTP/1.1");
}

#[test]
fn request_parse_last_host_before_blank_line() {
    let r = Request::parse("PUT  /x\tHTTP/1.0 extra\nHost: a\nHost: b\n\nHost: c\n").unwrap();
    assert!(matches!(r.method, Method::PUT));
    assert_eq!(r.route, "/x");
    assert_eq!(r.host, "b");
    assert_eq!(r.http_version, "HTTP/1.0");
}

#[test]
fn request_parse_failures() {
    assert!(Request::parse("").is_none());
    assert!(Request::parse("GET /\r\nHost: a\r\n").is_none());
    assert!(Request::parse("FETCH / HTTP/1.1\r\nHost: a\r\n").is_none());
    assert!(Request::parse("GET / HTTP/1.1\r\n\r\nHost: a\r\n").is_none());
    assert!(Request::parse("GET / HTTP/1.1\r\nhost: a\r\n").is_none());
}

#[test]
fn request_route_that_is_not_utf8_becomes_empty() {
    let r = Request::parse("GET /%FF HTTP/1.1\r\nHost: h\r\n").unwrap();
    assert_eq!(r.route, "");
}

#[test]
fn request_from_bytes_replaces_invalid_utf8() {
    let r = parse_request_bytes(b"GET /\xff HTTP/1.1\r\nHost: h\r\n\r\n").unwrap();
    assert_eq!(r.route, "/\u{fffd}");
    assert!(parse_request_bytes(b"\xff\xfe").is_none());
}

#[test]
fn plain_response_head() {
    assert_eq!(
        response_head(404, ""),
        "HTTP/1.1 404 Not Found\r\nContent-Type: text/plain; charset=utf-8\r\nContent-Length: 0\r\nConnection: close\r\nCache-Control: max-age=2592000\r\n\r\n"
    );
    let h = response_head(200, "héllo");
    assert!(h.starts_with("HTTP/1.1 200 OK\r\n"));
    assert!(h.contains("Content-Length: 6\r\n"));
    assert!(response_head(599, "").starts_with("HTTP/1.1 599 <unknown status code>\r\n"));
    assert!(response_head_with(403, Some("Forbidden"), "ab").starts_with("HTTP/1.1 403 Forbidden\r\n"));
}

#[test]
fn static_file_head() {
    let h = static_head("rdlstatic/a b.txt", 10, 0, false);
    assert_eq!(
        h,
        "HTTP/1.1 200 OK\r\nContent-Type: text/plain; charset=utf-8\r\nContent-Length: 10\r\nContent-Disposition:  filename=\"a b.txt\"; filename*=UTF-8''a%20b.txt\r\nCache-Control: max-age=2592000\r\nLast-Modified: Thu, 01 Jan 1970 00:00:00 GMT\r\n\r\n"
    );
    let h = static_head("rdlstatic/x.js", 3, 784111777, true);
    assert!(h.contains("Last-Modified: Sun, 06 Nov 1994 08:49:37 GMT\r\n"));
    assert!(h.ends_with("Content-Encoding: gzip\r\nVary: Accept-Encoding\r\n\r\n"));
    let h = static_head("rdlstatic/leap.txt", 1, 951782400 + 3 * 3600 + 4 * 60 + 5, false);
    assert!(h.contains("Last-Modified: Tue, 29 Feb 2000 03:04:05 GMT\r\n"));
    let h = static_head("rdlstatic/late.txt", 1, 253402300799, false);
    assert!(h.contains("Last-Modified: Fri, 31 Dec 9999 23:59:59 GMT\r\n"));
    let h = static_head_with("text/html", None, 1, "D", false);
    assert!(h.contains("filename=\"download.bin\"; filename*=UTF-8''download.bin\r\n"));
}

#[test]
fn static_file_body() {
    let raw = b"hello hello hello".to_vec();
    assert_eq!(static_body(raw.clone(), false), raw);
    let gz = static_body(raw.clone(), true);
    assert_eq!(&gz[0..3], &[0x1f, 0x8b, 8]);
    assert_eq!(&gz[gz.len() - 4..], &[17, 0, 0, 0]);
    assert_ne!(gz, raw);
    let empty = static_body(Vec::new(), true);
    assert!(empty.len() >= 18);
    assert_eq!(&empty[empty.len() - 4..], &[0, 0, 0, 0]);
}

#[test]
fn attachment_heads() {
    assert_eq!(
        attachment_head("dir/ü.bin", 5).unwrap(),
        "HTTP/1.1 200 OK\r\nContent-Type: application/octet-stream\r\nContent-Disposition: attachment; filename=\"download.bin\"; filename*=UTF-8''%C3%BC.bin\r\nContent-Length: 5\r\n\r\n"
    );
    assert!(attachment_head("..", 5).is_none());
    assert!(attachment_head_with("a~b-c_d.e", 0).contains("UTF-8''a~b-c_d.e\r\n"));
}

#[test]
fn sending_continues_until_done_or_stalled() {
    assert!(send_more(0, 10, None));
    assert!(send_more(4, 10, Some(4)));
    assert!(!send_more(4, 10, Some(0)));
    assert!(!send_more(10, 10, Some(6)));
    assert!(!send_more(0, 0, None));
}

#[test]
fn routes_are_planned() {
    let r = plan_route("/../etc/");
    assert!(r.forbidden);
    assert_eq!(r.path, "../etc");
    let r = plan_route("/rdlstatic/app.js");
    assert!(!r.forbidden);
    assert!(r.is_static);
    assert_eq!(r.path, "rdlstatic/app.js");
    let r = plan_route("/docs/");
    assert!(!r.is_static);
    assert_eq!(r.path, "docs");
}

#[test]
fn gzip_detection() {
    let mut buf = [0u8; 4096];
    let req = b"GET / HTTP/1.1\r\nHost: x\r\nAccept-Encoding: gzip, deflate\r\n\r\n";
    buf[..req.len()].copy_from_slice(req);
    assert_eq!(gzip_requested(&buf), Some(true));
    assert_eq!(gzip_requested(b"GET / HTTP/1.1\r\nHost: x\r\n\r\n"), Some(false));
    assert_eq!(
        gzip_requested(b"GET / HTTP/1.1\r\nAccept-Encoding: br\r\nAccept-Encoding: gzip\r\n\r\n"),
        Some(false)
    );
    assert_eq!(gzip_requested(b"GET / HTTP/1.1\r\nAccept-Encoding: gzip\r\n"), Some(true));
    assert_eq!(gzip_requested(b"GET / HTTP/1.1\r\nAccept-Encoding: identity\r\n"), Some(false));
    assert_eq!(gzip_requested(b"GET / HTTP/1.1\r\nHo\x00st: x\r\n\r\n"), None);
}

#[test]
fn request_written_by_a_client_reads_back() {
    let r = Request::parse("DELETE /a%2Fb%C3%A9 HTTP/1.1\r\nHost: h.example\r\n\r\n").unwrap();
    assert!(matches!(r.method, Method::DELETE));
    assert_eq!(r.route, "/a/bé");
    assert_eq!(r.host, "h.example");
    assert_eq!(r.http_version, "HTTP/1.1");
}

#[test]
fn request_last_line_keeps_its_carriage_return_until_trimmed() {
    let r = Request::parse("UPDATE / HTTP/1.1\r\nHost: a\r").unwrap();
    assert!(matches!(r.method, Method::UPDATE));
    assert_eq!(r.host, "a");
}

#[test]
fn gzip_body_decodes_back_and_carries_its_crc() {
    let raw = b"abcde".to_vec();
    let gz = static_body(raw.clone(), true);
    assert_eq!(&gz[gz.len() - 8..gz.len() - 4], &0x8587D865u32.to_le_bytes());
    let mut out = Vec::new();
    libflate::gzip::Decoder::new(&gz[..]).unwrap().read_to_end(&mut out).unwrap();
    assert_eq!(out, raw);
}
