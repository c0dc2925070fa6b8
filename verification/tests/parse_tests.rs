use tinyhttpd::request::{parse_request, ParseError};

#[test]
fn parse_simple_get() {
    let data = b"GET /a.txt HTTP/1.1\r\nHost: example\r\n\r\n";
    let (req, consumed) = parse_request(data).unwrap();
    assert_eq!(req.method, b"GET".to_vec());
    assert_eq!(req.path, b"/a.txt".to_vec());
    assert_eq!(req.headers.len(), 1);
    assert_eq!(req.headers[0].0, b"Host".to_vec());
    assert_eq!(req.headers[0].1, b"example".to_vec());
    assert_eq!(consumed, data.len());
}

#[test]
fn parse_consumes_only_the_head() {
    let data = b"GET / HTTP/1.0\r\n\r\nleftover body bytes";
    let (req, consumed) = parse_request(data).unwrap();
    assert_eq!(req.path, b"/".to_vec());
    assert_eq!(req.headers.len(), 0);
    assert_eq!(consumed, data.len() - b"leftover body bytes".len());
}

#[test]
fn parse_keeps_duplicate_headers_in_order() {
    let data = b"GET / HTTP/1.1\r\nX: 1\r\nY: 2\r\nX: 3\r\n\r\n";
    let (req, _) = parse_request(data).unwrap();
    assert_eq!(req.headers.len(), 3);
    assert_eq!(req.headers[0], (b"X".to_vec(), b"1".to_vec()));
    assert_eq!(req.headers[1], (b"Y".to_vec(), b"2".to_vec()));
    assert_eq!(req.headers[2], (b"X".to_vec(), b"3".to_vec()));
}

#[test]
fn parse_strips_leading_spaces_of_header_value() {
    let data = b"GET / HTTP/1.1\r\nHost:    spaced\r\n\r\n";
    let (req, _) = parse_request(data).unwrap();
    assert_eq!(req.headers[0].1, b"spaced".to_vec());
}

#[test]
fn parse_incomplete_without_terminator() {
    assert_eq!(parse_request(b""), Err(ParseError::IncompleteRequest));
    assert_eq!(parse_request(b"GET / HTTP/1.1"), Err(ParseError::IncompleteRequest));
    assert_eq!(
        parse_request(b"GET / HTTP/1.1\r\nHost: x\r\n"),
        Err(ParseError::IncompleteRequest)
    );
}

#[test]
fn parse_malformed_request_line() {
    // one token too few
    assert_eq!(
        parse_request(b"GET /only-two\r\n\r\n"),
        Err(ParseError::MalformedRequestLine)
    );
    // empty path
    assert_eq!(
        parse_request(b"GET  HTTP/1.1\r\n\r\n"),
        Err(ParseError::MalformedRequestLine)
    );
    // path that does not start with a slash
    assert_eq!(
        parse_request(b"GET a.txt HTTP/1.1\r\n\r\n"),
        Err(ParseError::MalformedRequestLine)
    );
    // a fourth token
    assert_eq!(
        parse_request(b"GET / HTTP/1.1 extra\r\n\r\n"),
        Err(ParseError::MalformedRequestLine)
    );
}

#[test]
fn parse_malformed_header_line() {
    assert_eq!(
        parse_request(b"GET / HTTP/1.1\r\nno colon here\r\n\r\n"),
        Err(ParseError::MalformedHeaderLine)
    );
    // empty header name
    assert_eq!(
        parse_request(b"GET / HTTP/1.1\r\n: v\r\n\r\n"),
        Err(ParseError::MalformedHeaderLine)
    );
}
