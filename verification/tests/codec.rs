use twebd::http::{HttpBody, HttpHeader, HttpLine, HttpMethod, HttpParseError, HttpResponseLine, HttpStatus, HttpVersion, HttpResponse};
use twebd::parse::{decode, parse_method, parse_version, tokenize_s};
use twebd::octets::{dec_value, trim, u64_to_dec};

#[test]
fn decode_simple_get() {
    let buf = b"GET / HTTP/1.1\r\nHost: x\r\n\r\n".to_vec();
    let req = decode(&buf).unwrap();
    assert_eq!(req.method, HttpMethod::Get);
    assert_eq!(req.uri, b"/".to_vec());
    assert_eq!(req.version, HttpVersion::Http11);
    assert_eq!(req.header.headers.len(), 1);
    assert_eq!(req.header.headers[0].0, b"Host".to_vec());
    assert_eq!(req.header.headers[0].1, b"x".to_vec());
    assert_eq!(req.body.content, Vec::<u8>::new());
}

#[test]
fn decode_collapses_space_runs() {
    let buf = b"GET     /a     HTTP/1.1\r\n\r\n".to_vec();
    let req = decode(&buf).unwrap();
    assert_eq!(req.method, HttpMethod::Get);
    assert_eq!(req.uri, b"/a".to_vec());
}

#[test]
fn decode_method_and_version_ignore_case() {
    let buf = b"get /x http/1.0\r\n\r\n".to_vec();
    let req = decode(&buf).unwrap();
    assert_eq!(req.method, HttpMethod::Get);
    assert_eq!(req.version, HttpVersion::Http10);
}

#[test]
fn decode_unknown_method_token() {
    let buf = b"PATCHX / HTTP/1.1\r\n\r\n".to_vec();
    assert_eq!(decode(&buf).unwrap_err(), HttpParseError::HttpMethod);
}

#[test]
fn decode_unsupported_version() {
    let buf = b"GET / HTTP/2.0\r\n\r\n".to_vec();
    assert_eq!(decode(&buf).unwrap_err(), HttpParseError::HttpVersion);
}

#[test]
fn decode_start_line_token_count() {
    let too_few = b"GET /\r\n\r\n".to_vec();
    assert_eq!(decode(&too_few).unwrap_err(), HttpParseError::HttpRequestLine);
    let too_many = b"GET / HTTP/1.1 extra\r\n\r\n".to_vec();
    assert_eq!(decode(&too_many).unwrap_err(), HttpParseError::HttpRequestLine);
}

#[test]
fn decode_header_without_colon() {
    let buf = b"GET / HTTP/1.1\r\nbroken header\r\n\r\n".to_vec();
    assert_eq!(decode(&buf).unwrap_err(), HttpParseError::HttpHeader);
}

#[test]
fn decode_invalid_utf8_head() {
    let buf = vec![0x47, 0x45, 0x54, 0x20, 0xff, 0xfe, 0x20, 0x48, 13, 10, 13, 10];
    assert_eq!(decode(&buf).unwrap_err(), HttpParseError::Buffer);
}

#[test]
fn decode_trims_header_whitespace() {
    let buf = b"GET / HTTP/1.1\r\n  Host :   a b  \r\n\r\n".to_vec();
    let req = decode(&buf).unwrap();
    assert_eq!(req.header.headers[0].0, b"Host".to_vec());
    assert_eq!(req.header.headers[0].1, b"a b".to_vec());
}

#[test]
fn decode_joins_duplicate_headers() {
    let buf = b"GET / HTTP/1.1\r\nAccept: a\r\naccept: b\r\n\r\n".to_vec();
    let req = decode(&buf).unwrap();
    assert_eq!(req.header.headers.len(), 1);
    assert_eq!(req.header.headers[0].0, b"Accept".to_vec());
    assert_eq!(req.header.headers[0].1, b"a,b".to_vec());
}

#[test]
fn decode_frames_body_by_content_length() {
    let buf = b"POST / HTTP/1.1\r\nContent-Length: 5\r\n\r\nhelloEXTRA".to_vec();
    let req = decode(&buf).unwrap();
    assert_eq!(req.body.content, b"hello".to_vec());
}

#[test]
fn decode_truncated_body_is_kept_short() {
    let buf = b"POST / HTTP/1.1\r\nContent-Length: 10\r\n\r\nhi".to_vec();
    let req = decode(&buf).unwrap();
    assert_eq!(req.body.content, b"hi".to_vec());
}

#[test]
fn decode_non_numeric_content_length_means_empty_body() {
    let buf = b"POST / HTTP/1.1\r\nContent-Length: abc\r\n\r\nhello".to_vec();
    let req = decode(&buf).unwrap();
    assert_eq!(req.body.content, Vec::<u8>::new());
}

#[test]
fn decode_encode_decode_round_trip() {
    let cases: Vec<Vec<u8>> = vec![
        b"GET / HTTP/1.1\r\nHost: x\r\n\r\n".to_vec(),
        b"get   /a%20b    http/1.0\r\n  One :  1  \r\nTwo: 2\r\nONE: 3\r\n\r\n".to_vec(),
        b"POST /submit HTTP/1.1\r\nContent-Length: 4\r\n\r\nbodyjunk".to_vec(),
        b"HEAD /index.html HTTP/1.1\r\n\r\n".to_vec(),
    ];
    for buf in cases {
        let first = decode(&buf).unwrap();
        let re_encoded = first.to_buf();
        let second = decode(&re_encoded).unwrap();
        assert_eq!(second.method, first.method);
        assert_eq!(second.uri, first.uri);
        assert_eq!(second.version, first.version);
        assert_eq!(second.header.headers, first.header.headers);
        assert_eq!(second.body.content, first.body.content);
    }
}

#[test]
fn parse_method_rejects_unknown() {
    assert_eq!(parse_method(b"GETX"), None);
    assert_eq!(parse_method(b"delete"), Some(HttpMethod::Delete));
}

#[test]
fn parse_version_accepts_only_supported() {
    assert_eq!(parse_version(b"HTTP/1.0"), Some(HttpVersion::Http10));
    assert_eq!(parse_version(b"HTTP/1.1"), Some(HttpVersion::Http11));
    assert_eq!(parse_version(b"HTTP/3.0"), None);
}

#[test]
fn tokenize_s_splits_and_trims_lines() {
    let lines = tokenize_s(b"a \r\n  b\r\nc");
    assert_eq!(lines, vec![b"a".to_vec(), b"b".to_vec(), b"c".to_vec()]);
}

#[test]
fn trim_removes_surrounding_whitespace() {
    assert_eq!(trim(b"  a b \t\r\n"), b"a b".to_vec());
    assert_eq!(trim(b"\r\n \t"), Vec::<u8>::new());
}

#[test]
fn decimal_helpers_are_exact() {
    assert_eq!(u64_to_dec(0), b"0".to_vec());
    assert_eq!(u64_to_dec(404), b"404".to_vec());
    assert_eq!(u64_to_dec(16384), b"16384".to_vec());
    assert_eq!(dec_value(b"404"), Some(404));
    assert_eq!(dec_value(b""), None);
    assert_eq!(dec_value(b"1x"), None);
    assert_eq!(dec_value(b"9999999999999999999"), None);
}

#[test]
fn status_catalog_codes_and_reasons() {
    assert_eq!(HttpStatus::OK.code(), 200);
    assert_eq!(HttpStatus::NotFound.code(), 404);
    assert_eq!(HttpStatus::NotImplemented.code(), 501);
    assert_eq!(HttpStatus::RequestHeaderFieldsTooLarge.code(), 431);
    assert_eq!(HttpStatus::HTTPVersionNotSupported.code(), 505);
    assert_eq!(HttpStatus::NotFound.reason(), b"Not Found".to_vec());
    assert_eq!(HttpStatus::OK.to_buf(), b"200 OK".to_vec());
}

#[test]
fn encoded_response_has_status_line_and_body() {
    let resp = HttpResponse::from_status(HttpStatus::NotFound);
    let bytes = resp.to_buf();
    assert!(bytes.starts_with(b"HTTP/1.1 404 Not Found\r\n"));
    assert!(bytes.ends_with(b"\r\n\r\nNot Found"));
    assert_eq!(
        resp.header.lookup(b"content-type"),
        Some(b"text/plain".to_vec())
    );
    assert_eq!(resp.header.lookup(b"Content-Length"), Some(b"9".to_vec()));
    assert!(resp.header.lookup(b"Date").is_some());
    assert_eq!(resp.header.lookup(b"Server"), Some(b"twebd/0.1.0".to_vec()));
}

#[test]
fn response_header_set_replaces_case_insensitively() {
    let mut resp = HttpResponse::from_status(HttpStatus::OK);
    resp.add_header(b"content-TYPE".to_vec(), b"text/html".to_vec());
    assert_eq!(resp.header.lookup(b"Content-Type"), Some(b"text/html".to_vec()));
    let names: Vec<Vec<u8>> = resp.header.headers.iter().map(|p| p.0.clone()).collect();
    let ct_count = names
        .iter()
        .filter(|n| n.eq_ignore_ascii_case(b"content-type"))
        .count();
    assert_eq!(ct_count, 1);
}

#[test]
fn content_length_accepts_up_to_eighteen_digits() {
    assert_eq!(dec_value(b"999999999999999999"), Some(999_999_999_999_999_999));
    assert_eq!(dec_value(b"1000000000000000000"), None);
}

#[test]
fn wire_pieces_encode_canonically() {
    assert_eq!(HttpMethod::Get.to_buf(), b"GET".to_vec());
    assert_eq!(HttpVersion::Http10.to_buf(), b"HTTP/1.0".to_vec());
    let line = HttpLine {
        method: HttpMethod::Head,
        uri: b"/x".to_vec(),
        version: HttpVersion::Http11,
    };
    assert_eq!(line.to_buf(), b"HEAD /x HTTP/1.1\r\n".to_vec());
    let rline = HttpResponseLine::new(HttpVersion::Http11, HttpStatus::OK);
    assert_eq!(rline.to_buf(), b"HTTP/1.1 200 OK\r\n".to_vec());
    let hdr = HttpHeader {
        headers: vec![(b"A".to_vec(), b"1".to_vec()), (b"B".to_vec(), b"2".to_vec())],
    };
    assert_eq!(hdr.to_buf(), b"A: 1\r\nB: 2\r\n\r\n".to_vec());
    assert_eq!(HttpBody::new(b"hi".to_vec()).to_buf(), b"hi".to_vec());
}

#[test]
fn encoder_injects_date_and_server_when_absent() {
    // a hand-built response with no headers at all
    let resp = HttpResponse {
        version: HttpVersion::Http11,
        status: HttpStatus::OK,
        header: HttpHeader { headers: Vec::new() },
        body: HttpBody::new(b"x".to_vec()),
    };
    let bytes = resp.to_buf();
    let text = String::from_utf8_lossy(&bytes).into_owned();
    assert!(text.starts_with("HTTP/1.1 200 OK\r\n"));
    assert!(text.contains("\r\nDate: "));
    assert!(text.contains("\r\nServer: twebd/0.1.0\r\n"));
    assert!(text.ends_with("\r\n\r\nx"));
    // a response that carries both is encoded byte-for-byte as held
    let stock = HttpResponse::from_status(HttpStatus::OK);
    let encoded = stock.to_buf();
    let server_count = encoded
        .windows(b"Server:".len())
        .filter(|w| *w == b"Server:")
        .count();
    assert_eq!(server_count, 1);
}
