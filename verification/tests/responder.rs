use twebd::handle::{absolute_uri, get, sanitize_uri, File, FileReader, HttpAdapter, HttpGetHandler};
use twebd::http::{HttpMethod, HttpResponseError, HttpStatus, HttpVersion};
use twebd::parse::decode;

#[test]
fn root_target_maps_to_index_page() {
    let candidate = absolute_uri(&b"/".to_vec(), &b"/srv/www".to_vec()).unwrap();
    assert_eq!(candidate, b"/srv/www/index.html".to_vec());
}

#[test]
fn target_joins_below_root() {
    let candidate = absolute_uri(&b"/a/b.txt".to_vec(), &b"/srv/www".to_vec()).unwrap();
    assert_eq!(candidate, b"/srv/www/./a/b.txt".to_vec());
}

#[test]
fn percent_escapes_are_decoded() {
    let candidate = absolute_uri(&b"/a%20b".to_vec(), &b"/r".to_vec()).unwrap();
    assert_eq!(candidate, b"/r/./a b".to_vec());
}

#[test]
fn malformed_percent_escape_is_not_found() {
    let r = absolute_uri(&b"/a%zz".to_vec(), &b"/r".to_vec());
    assert!(matches!(r, Err(HttpResponseError::FileNotFound(_))));
    let r = absolute_uri(&b"/a%2".to_vec(), &b"/r".to_vec());
    assert!(matches!(r, Err(HttpResponseError::FileNotFound(_))));
}

#[test]
fn nul_byte_in_target_is_not_found() {
    let r = absolute_uri(&b"/a%00b".to_vec(), &b"/r".to_vec());
    assert!(matches!(r, Err(HttpResponseError::FileNotFound(_))));
}

#[test]
fn sanitize_accepts_paths_under_root() {
    let canon = Some(b"/srv/www/a.txt".to_vec());
    let r = sanitize_uri(&canon, &b"/srv/www".to_vec()).unwrap();
    assert_eq!(r, b"/srv/www/a.txt".to_vec());
    let exact = Some(b"/srv/www".to_vec());
    assert!(sanitize_uri(&exact, &b"/srv/www".to_vec()).is_ok());
}

#[test]
fn sanitize_rejects_escapes_and_lookalikes() {
    let outside = Some(b"/etc/passwd".to_vec());
    let r = sanitize_uri(&outside, &b"/srv/www".to_vec());
    assert!(matches!(r, Err(HttpResponseError::FilePathInvalid(_))));
    // a sibling directory sharing the root as a string prefix is outside
    let sibling = Some(b"/srv/www2/a".to_vec());
    let r = sanitize_uri(&sibling, &b"/srv/www".to_vec());
    assert!(matches!(r, Err(HttpResponseError::FilePathInvalid(_))));
    let missing = None;
    let r = sanitize_uri(&missing, &b"/srv/www".to_vec());
    assert!(matches!(r, Err(HttpResponseError::FileNotFound(_))));
}

#[test]
fn scenario_root_index_get() {
    // GET / over a root whose index.html holds "<h1>hi</h1>"
    let buf = b"GET / HTTP/1.1\r\nHost: x\r\n\r\n".to_vec();
    let req = decode(&buf).unwrap();
    assert_eq!(req.method, HttpMethod::Get);
    let root = b"/srv/www".to_vec();
    let candidate = absolute_uri(&req.uri, &root).unwrap();
    assert_eq!(candidate, b"/srv/www/index.html".to_vec());
    let canon = Some(candidate);
    let content = Some(b"<h1>hi</h1>".to_vec());
    let resp = HttpAdapter::respond(&req, &root, &canon, &content);
    assert_eq!(resp.status, HttpStatus::OK);
    assert_eq!(resp.status.code(), 200);
    assert_eq!(resp.version, HttpVersion::Http11);
    assert_eq!(resp.header.lookup(b"Content-Type"), Some(b"text/html".to_vec()));
    assert_eq!(resp.header.lookup(b"Content-Length"), Some(b"11".to_vec()));
    assert_eq!(resp.body.content, b"<h1>hi</h1>".to_vec());
}

#[test]
fn scenario_path_escape_is_404() {
    // GET /../etc/passwd: the canonicalized candidate leaves the root
    let buf = b"GET /../etc/passwd HTTP/1.1\r\n\r\n".to_vec();
    let req = decode(&buf).unwrap();
    let root = b"/srv/www".to_vec();
    let canon = Some(b"/etc/passwd".to_vec());
    let resp = HttpAdapter::respond(&req, &root, &canon, &None);
    assert_eq!(resp.status.code(), 404);
}

#[test]
fn scenario_unimplemented_method_is_501() {
    let buf = b"POST / HTTP/1.1\r\nContent-Length: 0\r\n\r\n".to_vec();
    let req = decode(&buf).unwrap();
    let root = b"/srv/www".to_vec();
    let resp = HttpAdapter::respond(&req, &root, &None, &None);
    assert_eq!(resp.status.code(), 501);
    assert_eq!(resp.body.content, b"Not Implemented".to_vec());
    assert_eq!(resp.header.lookup(b"Content-Type"), Some(b"text/plain".to_vec()));
}

#[test]
fn unimplemented_methods_all_get_501() {
    let root = b"/srv/www".to_vec();
    for m in ["OPTIONS", "PUT", "DELETE", "TRACE", "CONNECT", "PATCH", "POST"] {
        let buf = format!("{} / HTTP/1.1\r\n\r\n", m).into_bytes();
        let req = decode(&buf).unwrap();
        let resp = HttpAdapter::respond(&req, &root, &None, &None);
        assert_eq!(resp.status.code(), 501, "{} should be 501", m);
    }
}

#[test]
fn scenario_head_parity_with_get() {
    let root = b"/srv/www".to_vec();
    let canon = Some(b"/srv/www/index.html".to_vec());
    let content = Some(b"<h1>hi</h1>".to_vec());
    let get_req = decode(&b"GET /index.html HTTP/1.1\r\n\r\n".to_vec()).unwrap();
    let head_req = decode(&b"HEAD /index.html HTTP/1.1\r\n\r\n".to_vec()).unwrap();
    let g = HttpAdapter::respond(&get_req, &root, &canon, &content);
    let h = HttpAdapter::respond(&head_req, &root, &canon, &content);
    assert_eq!(h.status, g.status);
    assert_eq!(h.header.lookup(b"Content-Type"), g.header.lookup(b"Content-Type"));
    assert_eq!(h.header.lookup(b"Content-Length"), g.header.lookup(b"Content-Length"));
    assert_eq!(h.header.lookup(b"Server"), g.header.lookup(b"Server"));
    assert_eq!(h.body.content.len(), 0);
    assert_eq!(g.body.content, b"<h1>hi</h1>".to_vec());
}

#[test]
fn unreadable_file_is_500() {
    let root = b"/srv/www".to_vec();
    let canon = Some(b"/srv/www/locked".to_vec());
    let resp = get(&root, &canon, &None);
    assert_eq!(resp.status.code(), 500);
}

#[test]
fn file_value_carries_bytes_size_and_mime() {
    let f = File::from_contents(&b"/srv/www/a.css".to_vec(), b"body{}".to_vec());
    assert_eq!(f.as_buf(), b"body{}".to_vec());
    assert_eq!(f.size(), 6);
    assert_eq!(f.mime(), b"text/css".to_vec());
    let unknown = File::from_contents(&b"/srv/www/blob.weird".to_vec(), vec![1, 2, 3]);
    assert_eq!(unknown.mime(), b"application/octet-stream".to_vec());
    let reader = FileReader::new(b"/srv/www/a.css".to_vec());
    assert_eq!(reader.path, b"/srv/www/a.css".to_vec());
}

#[test]
fn get_handler_steps_match_the_pipeline() {
    let h = HttpGetHandler::new(b"/".to_vec(), b"/srv/www".to_vec());
    let candidate = h.uri_abs().unwrap();
    assert_eq!(candidate, b"/srv/www/index.html".to_vec());
    let canon = Some(candidate);
    let file = h.handle(&canon, &Some(b"<h1>hi</h1>".to_vec())).unwrap();
    assert_eq!(file.size(), 11);
    assert_eq!(file.mime(), b"text/html".to_vec());
    let escape = Some(b"/etc/passwd".to_vec());
    assert!(h.handle(&escape, &Some(b"x".to_vec())).is_err());
    assert!(matches!(
        h.handle(&canon_clone(&h), &None),
        Err(HttpResponseError::FileIo(_))
    ));
}

fn canon_clone(h: &HttpGetHandler) -> Option<Vec<u8>> {
    let mut p = h.srv_root.clone();
    p.extend_from_slice(b"/index.html");
    Some(p)
}

#[test]
fn unimplemented_response_carries_content_headers() {
    let buf = b"PUT /x HTTP/1.1\r\n\r\n".to_vec();
    let req = decode(&buf).unwrap();
    let resp = HttpAdapter::respond(&req, &b"/srv/www".to_vec(), &None, &None);
    assert_eq!(resp.status.code(), 501);
    assert_eq!(resp.header.lookup(b"Content-Type"), Some(b"text/plain".to_vec()));
    assert_eq!(resp.header.lookup(b"Content-Length"), Some(b"15".to_vec()));
    assert_eq!(resp.body.content, b"Not Implemented".to_vec());
    assert_eq!(resp.body.content.len(), 15);
    assert_eq!(resp.header.lookup(b"Server"), Some(b"twebd/0.1.0".to_vec()));
    assert!(resp.header.lookup(b"Date").is_some());
}

#[test]
fn head_parity_holds_on_missing_targets_too() {
    let root = b"/srv/www".to_vec();
    let escape = Some(b"/etc/passwd".to_vec());
    let get_req = decode(&b"GET /../etc/passwd HTTP/1.1\r\n\r\n".to_vec()).unwrap();
    let head_req = decode(&b"HEAD /../etc/passwd HTTP/1.1\r\n\r\n".to_vec()).unwrap();
    let g = HttpAdapter::respond(&get_req, &root, &escape, &None);
    let h = HttpAdapter::respond(&head_req, &root, &escape, &None);
    assert_eq!(g.status.code(), 404);
    assert_eq!(h.status, g.status);
    assert_eq!(h.header.lookup(b"Content-Type"), g.header.lookup(b"Content-Type"));
    assert_eq!(h.header.lookup(b"Content-Length"), g.header.lookup(b"Content-Length"));
    assert_eq!(h.header.lookup(b"Server"), g.header.lookup(b"Server"));
    assert_eq!(g.body.content, b"Not Found".to_vec());
    assert_eq!(h.body.content.len(), 0);
}
