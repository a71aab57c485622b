//! Resolving a request target inside the jailed server root and building
//! the response for it: percent decoding, candidate path construction,
//! the root prefix check, and the per-method dispatch.
//!
//! Filesystem work stays outside the library: callers canonicalize the
//! candidate path and read the file, and hand the outcomes in as plain
//! values. Every decision about those outcomes is made here.

use vstd::prelude::*;
use crate::octets::{ascii, sbytes, subv, eq_bytes, dec_digits};
use crate::http::{
    HttpMethod, HttpStatus, HttpRequest, HttpResponse, HttpParseError, HttpResponseError,
    HttpBody, status_reason,
};
use crate::ext::{mime_for_path, mime_essence_of};
use crate::parse::{decode, decode_model, spec_decode};

verus! {

/// The value of one hexadecimal digit, or 255 for a non-digit.
pub open spec fn hex_val(b: u8) -> u8 {
    if 48 <= b <= 57 {
        (b - 48) as u8
    } else if 65 <= b <= 70 {
        (b - 55) as u8
    } else if 97 <= b <= 102 {
        (b - 87) as u8
    } else {
        255
    }
}

/// Percent-decoding of a target: `%XY` becomes one byte; a malformed
/// percent escape fails.
pub open spec fn spec_pct_decode(s: Seq<u8>) -> Option<Seq<u8>>
    decreases s.len(),
{
    if s.len() == 0 {
        Some(Seq::empty())
    } else if s[0] == 37 {
        if s.len() >= 3 && hex_val(s[1]) != 255 && hex_val(s[2]) != 255 {
            match spec_pct_decode(s.subrange(3, s.len() as int)) {
                None => None,
                Some(t) => Some(seq![(16 * hex_val(s[1]) + hex_val(s[2])) as u8] + t),
            }
        } else {
            None
        }
    } else {
        match spec_pct_decode(s.drop_first()) {
            None => None,
            Some(t) => Some(seq![s[0]] + t),
        }
    }
}

/// One hexadecimal digit's value, or 255.
fn hex_val_x(b: u8) -> (r: u8)
    ensures
        r == hex_val(b),
{
    if 48 <= b && b <= 57 {
        b - 48
    } else if 65 <= b && b <= 70 {
        b - 55
    } else if 97 <= b && b <= 102 {
        b - 87
    } else {
        255
    }
}

/// Percent-decodes a target; `None` on a malformed escape.
pub fn pct_decode(s: &[u8]) -> (r: Option<Vec<u8>>)
    ensures
        r is Some <==> spec_pct_decode(s@) is Some,
        r is Some ==> Some(r->0@) == spec_pct_decode(s@),
{
    let n = s.len();
    let mut out: Vec<u8> = Vec::new();
    let mut pos: usize = 0;
    proof {
        assert(s@.subrange(0, n as int) =~= s@);
    }
    while pos < n
        invariant
            pos <= n == s@.len(),
            spec_pct_decode(s@) == match spec_pct_decode(s@.subrange(pos as int, n as int)) {
                Option::None => Option::<Seq<u8>>::None,
                Option::Some(t) => Option::Some(out@ + t),
            },
        decreases n - pos,
    {
        let ghost rem = s@.subrange(pos as int, n as int);
        let b = s[pos];
        proof {
            assert(rem[0] == b);
        }
        if b == 37 {
            if n - pos > 2 {
                let h1 = hex_val_x(s[pos + 1]);
                let h2 = hex_val_x(s[pos + 2]);
                proof {
                    assert(rem[1] == s@[pos + 1]);
                    assert(rem[2] == s@[pos + 2]);
                }
                if h1 != 255 && h2 != 255 {
                    out.push(16 * h1 + h2);
                    proof {
                        assert(rem.subrange(3, rem.len() as int) =~= s@.subrange(
                            pos + 3,
                            n as int,
                        ));
                        assert(rem.len() >= 3);
                    }
                    pos = pos + 3;
                } else {
                    proof {
                        assert(spec_pct_decode(rem) is None);
                    }
                    return None;
                }
            } else {
                proof {
                    assert(rem.len() < 3);
                    assert(spec_pct_decode(rem) is None);
                }
                return None;
            }
        } else {
            out.push(b);
            proof {
                assert(rem.drop_first() =~= s@.subrange(pos as int + 1, n as int));
            }
            pos = pos + 1;
        }
    }
    proof {
        let empt = s@.subrange(n as int, n as int);
        assert(empt.len() == 0);
        assert(spec_pct_decode(empt) == Some(Seq::<u8>::empty()));
        assert(out@ + Seq::<u8>::empty() =~= out@);
    }
    Some(out)
}

/// Whether a decoded target holds a NUL byte; such targets are rejected.
pub open spec fn has_nul(s: Seq<u8>) -> bool {
    exists|j: int| 0 <= j < s.len() && s[j] == 0
}

fn contains_nul(s: &[u8]) -> (r: bool)
    ensures
        r == has_nul(s@),
{
    let n = s.len();
    let mut i: usize = 0;
    while i < n
        invariant
            0 <= i <= n == s@.len(),
            forall|j: int| 0 <= j < i ==> s@[j] != 0,
        decreases n - i,
    {
        if s[i] == 0 {
            return true;
        }
        i = i + 1;
    }
    false
}

/// The candidate filesystem path of a decoded target under the root:
/// `/` maps to the index page; other targets are joined below the root.
pub open spec fn candidate_of(target: Seq<u8>, root: Seq<u8>) -> Seq<u8> {
    if target == seq![47u8] {
        root + ascii("/index.html"@)
    } else if target.len() > 0 && target[0] == 47 {
        root + ascii("/."@) + target
    } else {
        root + seq![47u8] + target
    }
}

/// What resolving a target yields before the filesystem is consulted.
pub open spec fn spec_absolute(uri: Seq<u8>, root: Seq<u8>) -> Result<Seq<u8>, ()> {
    match spec_pct_decode(uri) {
        None => Err(()),
        Some(t) => if has_nul(t) {
            Err(())
        } else {
            Ok(candidate_of(t, root))
        },
    }
}

/// The candidate path of a request target under the server root:
/// percent-decodes the target, rejects NUL bytes and malformed escapes,
/// substitutes the index page for `/`, and joins below the root. The
/// caller canonicalizes the result against the filesystem.
pub fn absolute_uri(uri: &Vec<u8>, srv_root: &Vec<u8>) -> (r: Result<Vec<u8>, HttpResponseError>)
    ensures
        r is Ok <==> spec_absolute(uri@, srv_root@) is Ok,
        r is Ok ==> Ok::<_, ()>(r->Ok_0@) == spec_absolute(uri@, srv_root@),
        r is Err ==> r->Err_0 matches HttpResponseError::FileNotFound(_),
{
    proof {
        reveal_strlit("/index.html");
        reveal_strlit("/.");
    }
    let decoded = match pct_decode(uri.as_slice()) {
        Some(d) => d,
        None => {
            return Err(HttpResponseError::FileNotFound(uri.clone()));
        },
    };
    if contains_nul(decoded.as_slice()) {
        return Err(HttpResponseError::FileNotFound(uri.clone()));
    }
    let mut out = subv(srv_root.as_slice(), 0, srv_root.len());
    if decoded.len() == 1 && decoded[0] == 47 {
        proof {
            assert(decoded@ =~= seq![47u8]);
        }
        let mut tail = sbytes("/index.html");
        out.append(&mut tail);
        proof {
            assert(out@ =~= candidate_of(decoded@, srv_root@));
        }
        Ok(out)
    } else if decoded.len() > 0 && decoded[0] == 47 {
        proof {
            assert(decoded@ != seq![47u8]);
        }
        let mut dot = sbytes("/.");
        out.append(&mut dot);
        let mut t = decoded;
        out.append(&mut t);
        proof {
            assert(out@ =~= candidate_of(decoded@, srv_root@));
        }
        Ok(out)
    } else {
        proof {
            assert(decoded@ != seq![47u8]);
        }
        out.push(47);
        let mut t = decoded;
        out.append(&mut t);
        proof {
            assert(out@ =~= candidate_of(decoded@, srv_root@));
        }
        Ok(out)
    }
}

/// Component-wise: `path` equals the root or continues it at a path
/// separator.
pub open spec fn is_under_root(path: Seq<u8>, root: Seq<u8>) -> bool {
    path == root || (path.len() > root.len() && path.subrange(0, root.len() as int) == root
        && path[root.len() as int] == 47)
}

/// The sanitized path: the canonicalized candidate, if the filesystem
/// resolved one and it lies under the root. A missing file and an escape
/// from the root are kept apart only in the error value; both surface as
/// `404` so that out-of-jail paths cannot be probed.
pub fn sanitize_uri(canon: &Option<Vec<u8>>, srv_root: &Vec<u8>) -> (r: Result<
    Vec<u8>,
    HttpResponseError,
>)
    ensures
        canon is None ==> (r matches Err(HttpResponseError::FileNotFound(_))),
        canon matches Some(c) ==> {
            &&& is_under_root(c@, srv_root@) ==> r is Ok && r->Ok_0@ == c@
            &&& !is_under_root(c@, srv_root@) ==> (r matches Err(
                HttpResponseError::FilePathInvalid(p),
            ) && p@ == c@)
        },
{
    match canon {
        None => Err(HttpResponseError::FileNotFound(Vec::new())),
        Some(c) => {
            let rl = srv_root.len();
            let ok = if c.len() == rl {
                eq_bytes(c.as_slice(), srv_root.as_slice())
            } else if c.len() > rl {
                let pre = subv(c.as_slice(), 0, rl);
                eq_bytes(pre.as_slice(), srv_root.as_slice()) && c[rl] == 47
            } else {
                false
            };
            proof {
                if c@.len() == srv_root@.len() && c@ == srv_root@ {
                    assert(is_under_root(c@, srv_root@));
                }
            }
            if ok {
                proof {
                    assert(is_under_root(c@, srv_root@));
                }
                Ok(c.clone())
            } else {
                proof {
                    assert(!is_under_root(c@, srv_root@));
                }
                Err(HttpResponseError::FilePathInvalid(c.clone()))
            }
        },
    }
}

/// A file read into memory, with its guessed media type.
#[derive(Debug, Clone)]
pub struct File {
    pub contents: Vec<u8>,
    pub mime_essence: Vec<u8>,
    pub size: usize,
}

impl File {
    /// Builds the value for a file's bytes; the media type is guessed
    /// from the path.
    pub fn from_contents(path: &Vec<u8>, contents: Vec<u8>) -> (r: File)
        ensures
            r.contents@ == contents@,
            r.size == contents@.len(),
            r.mime_essence@ == mime_essence_of(path@),
    {
        let size = contents.len();
        let mime_essence = mime_for_path(path);
        File { contents, mime_essence, size }
    }

    pub fn as_buf(&self) -> (r: Vec<u8>)
        ensures
            r@ == self.contents@,
    {
        subv(self.contents.as_slice(), 0, self.contents.len())
    }

    pub fn size(&self) -> (r: usize)
        ensures
            r == self.size,
    {
        self.size
    }

    /// The essence string of the guessed media type.
    pub fn mime(&self) -> (r: Vec<u8>)
        ensures
            r@ == self.mime_essence@,
    {
        subv(self.mime_essence.as_slice(), 0, self.mime_essence.len())
    }
}

/// Names the file a resolved path points at; reading it happens outside
/// the library.
#[derive(Debug, Clone)]
pub struct FileReader {
    pub path: Vec<u8>,
}

impl FileReader {
    pub fn new(path: Vec<u8>) -> (r: FileReader)
        ensures
            r.path@ == path@,
    {
        FileReader { path }
    }
}

/// The stock response model for a status, with the given clock value in
/// the `Date` slot: what `HttpResponse::from_status` builds.
pub open spec fn stock_model(status: HttpStatus, date: Seq<u8>) -> crate::http::RespModel {
    crate::http::RespModel {
        version: crate::http::HttpVersion::Http11,
        status,
        headers: seq![
            (ascii("Date"@), date),
            (ascii("Server"@), ascii("twebd/0.1.0"@)),
            (ascii("Content-Type"@), ascii("text/plain"@)),
            (ascii("Content-Length"@), dec_digits(status_reason(status).len())),
        ],
        body: status_reason(status),
    }
}

/// Serves a resolved target. `canon` is what the filesystem made of the
/// candidate path (`None` when it does not exist); `content` is the read
/// of the sanitized file (`None` when unreadable). A target that escapes
/// the root or does not resolve yields `404`; an unreadable file `500`;
/// otherwise `200` with the file bytes and their guessed media type.
pub fn get(srv_root: &Vec<u8>, canon: &Option<Vec<u8>>, content: &Option<Vec<u8>>) -> (r:
    HttpResponse)
    ensures
        r.version == crate::http::HttpVersion::Http11,
        r@.headers.len() == 4,
        r@.headers[0].0 == ascii("Date"@),
        r@.headers[1] == (ascii("Server"@), ascii("twebd/0.1.0"@)),
        (canon is None || !is_under_root(canon->0@, srv_root@)) ==> r@ == stock_model(
            HttpStatus::NotFound,
            r@.headers[0].1,
        ),
        canon matches Some(c) ==> (is_under_root(c@, srv_root@) ==> {
            &&& content is None ==> r@ == stock_model(
                HttpStatus::InternalServerError,
                r@.headers[0].1,
            )
            &&& content matches Some(b) ==> {
                &&& r.status == HttpStatus::OK
                &&& r@.body == b@
                &&& r@.headers[2] == (ascii("Content-Type"@), mime_essence_of(c@))
                &&& r@.headers[3] == (ascii("Content-Length"@), dec_digits(b@.len()))
            }
        }),
{
    let path = match sanitize_uri(canon, srv_root) {
        Ok(p) => p,
        Err(_) => {
            return HttpResponse::from_status(HttpStatus::NotFound);
        },
    };
    let bytes = match content {
        Some(b) => b,
        None => {
            return HttpResponse::from_status(HttpStatus::InternalServerError);
        },
    };
    let resource = File::from_contents(&path, bytes.clone());
    let mut response = HttpResponse::default();
    proof {
        reveal_strlit("Date");
        reveal_strlit("Server");
        reveal_strlit("Content-Type");
        reveal_strlit("Content-Length");
        assert(ascii("Date"@).len() == 4);
        assert(ascii("Server"@).len() == 6);
        assert(ascii("Content-Type"@).len() == 12);
        assert(ascii("Content-Length"@).len() == 14);
        assert(crate::octets::lower_seq(response@.headers[0].0).len() == 4);
        assert(crate::octets::lower_seq(response@.headers[1].0).len() == 6);
        assert(crate::octets::lower_seq(ascii("Content-Type"@)).len() == 12);
        crate::http::lemma_header_index_none(response@.headers, ascii("Content-Type"@));
    }
    response.content_type(resource.mime());
    proof {
        assert(crate::octets::lower_seq(response@.headers[0].0).len() == 4);
        assert(crate::octets::lower_seq(response@.headers[1].0).len() == 6);
        assert(crate::octets::lower_seq(response@.headers[2].0).len() == 12);
        assert(crate::octets::lower_seq(ascii("Content-Length"@)).len() == 14);
        crate::http::lemma_header_index_none(response@.headers, ascii("Content-Length"@));
    }
    response.content_length(resource.size());
    response.body = HttpBody::new(resource.as_buf());
    response
}

/// The GET pipeline bound to one target and root; the filesystem
/// outcomes are handed to `handle`.
pub struct HttpGetHandler {
    pub uri: Vec<u8>,
    pub srv_root: Vec<u8>,
}

impl HttpGetHandler {
    pub fn new(uri: Vec<u8>, srv_root: Vec<u8>) -> (r: HttpGetHandler)
        ensures
            r.uri@ == uri@,
            r.srv_root@ == srv_root@,
    {
        HttpGetHandler { uri, srv_root }
    }

    /// The candidate path for this handler's target.
    pub fn uri_abs(&self) -> (r: Result<Vec<u8>, HttpResponseError>)
        ensures
            r is Ok <==> spec_absolute(self.uri@, self.srv_root@) is Ok,
            r is Ok ==> Ok::<_, ()>(r->Ok_0@) == spec_absolute(self.uri@, self.srv_root@),
    {
        absolute_uri(&self.uri, &self.srv_root)
    }

    /// The sanitized path for a canonicalized candidate.
    pub fn sanitize(&self, canon: &Option<Vec<u8>>) -> (r: Result<Vec<u8>, HttpResponseError>)
        ensures
            canon is None ==> (r matches Err(HttpResponseError::FileNotFound(_))),
            canon matches Some(c) ==> {
                &&& is_under_root(c@, self.srv_root@) ==> r is Ok && r->Ok_0@ == c@
                &&& !is_under_root(c@, self.srv_root@) ==> (r matches Err(
                    HttpResponseError::FilePathInvalid(p),
                ) && p@ == c@)
            },
    {
        sanitize_uri(canon, &self.srv_root)
    }

    /// The file for the sanitized path, built from the read outcome.
    pub fn handle(&self, canon: &Option<Vec<u8>>, content: &Option<Vec<u8>>) -> (r: Result<
        File,
        HttpResponseError,
    >)
        ensures
            (canon is None || !is_under_root(canon->0@, self.srv_root@)) ==> r is Err,
            canon matches Some(c) ==> (is_under_root(c@, self.srv_root@) ==> {
                &&& content is None ==> (r matches Err(HttpResponseError::FileIo(_)))
                &&& content matches Some(b) ==> r is Ok && r->Ok_0.contents@ == b@
                    && r->Ok_0.size == b@.len() && r->Ok_0.mime_essence@ == mime_essence_of(c@)
            }),
    {
        let path = match self.sanitize(canon) {
            Ok(p) => p,
            Err(e) => {
                return Err(e);
            },
        };
        match content {
            Some(b) => Ok(File::from_contents(&path, b.clone())),
            None => Err(HttpResponseError::FileIo(path)),
        }
    }
}

/// The front door of the HTTP layer: wire bytes in, a response value out.
pub struct HttpAdapter {}

impl HttpAdapter {
    /// Decodes a request buffer.
    pub fn receive(buf: &Vec<u8>) -> (r: Result<HttpRequest, HttpParseError>)
        ensures
            decode_model(r) == spec_decode(buf@),
    {
        decode(buf.as_slice())
    }

    /// Dispatches on the request method. `GET` serves the resolved file;
    /// `HEAD` answers exactly as `GET` but with an empty body and the
    /// same content headers; every other method is `501`.
    pub fn respond(
        request: &HttpRequest,
        srv_root: &Vec<u8>,
        canon: &Option<Vec<u8>>,
        content: &Option<Vec<u8>>,
    ) -> (r: HttpResponse)
        ensures
            r.version == crate::http::HttpVersion::Http11,
            r@.headers.len() == 4,
            r@.headers[0].0 == ascii("Date"@),
            r@.headers[1] == (ascii("Server"@), ascii("twebd/0.1.0"@)),
            request.method != HttpMethod::Get && request.method != HttpMethod::Head ==> r@
                == stock_model(HttpStatus::NotImplemented, r@.headers[0].1),
            request.method == HttpMethod::Get || request.method == HttpMethod::Head ==> {
                &&& ((canon is None || !is_under_root(canon->0@, srv_root@)) ==> r.status
                    == HttpStatus::NotFound && r@.headers == stock_model(
                    HttpStatus::NotFound,
                    r@.headers[0].1,
                ).headers)
                &&& (canon matches Some(c) ==> (is_under_root(c@, srv_root@) ==> {
                    &&& content is None ==> r.status == HttpStatus::InternalServerError
                        && r@.headers == stock_model(
                        HttpStatus::InternalServerError,
                        r@.headers[0].1,
                    ).headers
                    &&& content matches Some(b) ==> r.status == HttpStatus::OK
                        && r@.headers[2] == (ascii("Content-Type"@), mime_essence_of(c@))
                        && r@.headers[3] == (ascii("Content-Length"@), dec_digits(b@.len()))
                }))
            },
            request.method == HttpMethod::Get ==> (canon matches Some(c) ==> (is_under_root(
                c@,
                srv_root@,
            ) ==> (content matches Some(b) ==> r@.body == b@))),
            request.method == HttpMethod::Get && (canon is None || !is_under_root(
                canon->0@,
                srv_root@,
            )) ==> r@.body == status_reason(HttpStatus::NotFound),
            request.method == HttpMethod::Head ==> r@.body == Seq::<u8>::empty(),
    {
        match request.method {
            HttpMethod::Get => get(srv_root, canon, content),
            HttpMethod::Head => {
                let mut r = get(srv_root, canon, content);
                r.body = HttpBody::default();
                r
            },
            _ => HttpResponse::from_status(HttpStatus::NotImplemented),
        }
    }
}

} // verus!
