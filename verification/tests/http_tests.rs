use account_bridge::http::{
    build_http_request, declared_length, find_header_end, parse_header_text, parse_headers,
    request_from_text, HttpRequest, ReadProgress, RequestReader, MAX_REQUEST_SIZE,
};

const POST: &[u8] = b"POST /devin-auth1-token?x=1 HTTP/1.1\r\nHost: localhost\r\n\
Content-Length: 5\r\nX-Wam-Extension:  devin-auth1 \r\n\r\nhello";

fn read(chunks: &[&[u8]]) -> Option<Result<HttpRequest, String>> {
    let mut reader = RequestReader::new();
    for chunk in chunks {
        match reader.advance(chunk) {
            ReadProgress::More(next) => reader = next,
            ReadProgress::Done(outcome) => return Some(outcome),
        }
    }
    None
}

fn failure(chunks: &[&[u8]]) -> String {
    match read(chunks) {
        Some(Err(message)) => message,
        _ => panic!("no failure"),
    }
}

#[test]
fn the_head_ends_behind_the_first_empty_line() {
    assert_eq!(find_header_end(b""), None);
    assert_eq!(find_header_end(b"\r\n\r"), None);
    assert_eq!(find_header_end(b"\r\n\r\n"), Some(4));
    assert_eq!(find_header_end(b"GET / HTTP/1.1\r\n\r\nbody\r\n\r\n"), Some(18));
    assert_eq!(find_header_end(b"a\r\r\n\r\n"), Some(6));
    assert_eq!(find_header_end(b"a\n\nb"), None);
}

#[test]
fn header_fields_are_read() {
    let headers = parse_headers(
        b"GET / HTTP/1.1\r\nHost: a:b\r\n Origin \t:  x y \r\nno colon\r\n:v\r\nhost: second\r\n\r\n",
    )
    .unwrap();
    assert_eq!(headers.get("host").unwrap(), "second");
    assert_eq!(headers.get("origin").unwrap(), "x y");
    assert_eq!(headers.get("").unwrap(), "v");
    assert!(headers.get("no colon").is_none());
    assert!(headers.get("Host").is_none());
}

#[test]
fn the_first_line_binds_no_field() {
    let headers = parse_header_text("a: b\r\nc: d:e");
    assert!(headers.get("a").is_none());
    assert_eq!(headers.get("c").unwrap(), "d:e");
    assert!(parse_header_text("a: b").get("a").is_none());
}

#[test]
fn bytes_that_are_not_utf8_are_replaced() {
    let headers = parse_headers(b"x\r\nname: a\xffb\r\n\r\n").unwrap();
    assert_eq!(headers.get("name").unwrap(), "a\u{fffd}b");
    let headers = parse_headers("x\r\nname: \u{4e2d}\r\n".as_bytes()).unwrap();
    assert_eq!(headers.get("name").unwrap(), "\u{4e2d}");
}

#[test]
fn a_request_is_built() {
    let end = find_header_end(POST).unwrap();
    let request = build_http_request(POST.to_vec(), end, 5).unwrap();
    assert_eq!(request.method, "POST");
    assert_eq!(request.path, "/devin-auth1-token");
    assert_eq!(request.headers.get("x-wam-extension").unwrap(), "devin-auth1");
    assert_eq!(request.body, b"hello");
    let request = build_http_request(POST.to_vec(), end, 2).unwrap();
    assert_eq!(request.body, b"he");
}

#[test]
fn a_request_line_needs_a_method_and_a_path() {
    assert_eq!(request_from_text("", Vec::new()).err().unwrap(), "missing method");
    assert_eq!(request_from_text(" \t\r\nGET /\r\n", Vec::new()).err().unwrap(), "missing method");
    assert_eq!(request_from_text(" GET \r\n/\r\n", Vec::new()).err().unwrap(), "missing path");
    let request = request_from_text(" GET   ?q ", Vec::new()).ok().unwrap();
    assert_eq!(request.method, "GET");
    assert_eq!(request.path, "");
}

#[test]
fn the_declared_length() {
    for (value, expected) in
        [("12", 12), ("+3", 3), ("x", 0), ("-1", 0), ("", 0), ("99999999999999999999999", 0)]
    {
        let headers = parse_header_text(&format!("GET /\r\nContent-Length: {}\r\n", value));
        assert_eq!(declared_length(&headers), expected);
    }
    assert_eq!(declared_length(&parse_header_text("GET /\r\n")), 0);
}

#[test]
fn a_request_is_read_in_any_chunks() {
    for size in 1..=POST.len() {
        let chunks: Vec<&[u8]> = POST.chunks(size).collect();
        let request = read(&chunks).unwrap().unwrap();
        assert_eq!(request.path, "/devin-auth1-token");
        assert_eq!(request.body, b"hello");
    }
}

#[test]
fn bytes_behind_the_request_are_left_out() {
    let mut data = POST.to_vec();
    data.extend_from_slice(b" and more\r\n\r\n");
    let request = read(&[&data]).unwrap().unwrap();
    assert_eq!(request.body, b"hello");
}

#[test]
fn a_request_that_stops_early_is_incomplete() {
    assert!(read(&[&POST[..POST.len() - 1]]).is_none());
    assert_eq!(failure(&[&POST[..POST.len() - 1], b""]), "incomplete HTTP request");
    assert_eq!(failure(&[b""]), "incomplete HTTP request");
}

#[test]
fn a_large_request_is_refused() {
    let most = vec![b'a'; MAX_REQUEST_SIZE];
    assert!(read(&[&most]).is_none());
    assert_eq!(failure(&[&most, b"a"]), "request is too large");
    assert_eq!(failure(&[&vec![b'a'; MAX_REQUEST_SIZE + 1]]), "request is too large");
}

#[test]
fn a_large_body_is_refused() {
    let head = format!("GET / H\r\nContent-Length: {}\r\n\r\n", MAX_REQUEST_SIZE + 1);
    assert_eq!(failure(&[head.as_bytes()]), "request body is too large");
    let head = format!("GET / H\r\nContent-Length: {}\r\n\r\n", MAX_REQUEST_SIZE);
    assert!(read(&[head.as_bytes()]).is_none());
}

#[test]
fn a_broken_request_line_is_reported_once_all_is_read() {
    assert_eq!(failure(&[b"GET\r\n\r\n"]), "missing path");
    assert_eq!(failure(&[b"\r\n\r\n"]), "missing method");
    assert!(read(&[b"GET\r\nContent-Length: 1\r\n\r\n"]).is_none());
}

#[test]
fn a_request_that_was_written_is_read_back() {
    let fields = [
        ("Host", "localhost:19876"),
        ("X-Note", "  spaced : out\t"),
        ("x-note", "last"),
        ("X-Name", "\u{e9}\u{4e2d}"),
    ];
    for body in [&b""[..], b"{}", b"\r\n\r\n", &[0xff; 300]] {
        let mut data = b"PUT /a/b?c=d?e HTTP/1.1\r\n".to_vec();
        for (name, value) in fields {
            data.extend_from_slice(format!("{}: {}\r\n", name, value).as_bytes());
        }
        data.extend_from_slice(format!("Content-Length: {}\r\n\r\n", body.len()).as_bytes());
        data.extend_from_slice(body);
        let request = read(&[&data]).unwrap().unwrap();
        assert_eq!(request.method, "PUT");
        assert_eq!(request.path, "/a/b");
        assert_eq!(request.headers.get("host").unwrap(), "localhost:19876");
        assert_eq!(request.headers.get("x-note").unwrap(), "last");
        assert_eq!(request.headers.get("x-name").unwrap(), "\u{e9}\u{4e2d}");
        assert_eq!(request.headers.get("content-length").unwrap(), &body.len().to_string());
        assert_eq!(request.body, body);
    }
}

#[test]
fn header_values_keep_to_one_line() {
    let headers = parse_header_text("GET /\r\na: b\r c\n\r\nd: e \r\n\r\n");
    assert_eq!(headers.get("a").unwrap(), "b\r c");
    assert_eq!(headers.get("d").unwrap(), "e");
}

#[test]
fn header_names_are_plain() {
    let headers = parse_header_text("GET /\r\n \tX-Na Me \u{a0}: v:w\r\n\r\n");
    assert_eq!(headers.get("x-na me").unwrap(), "v:w");
}
