//! Decoding an HTTP/1.1 request head: UTF-8 validation, line and token
//! splitting, method and version recognition, header folding, body framing.

use vstd::prelude::*;
use vstd::utf8::valid_utf8;
use crate::octets::{
    ascii, sbytes, trim, trimmed, lower_seq, eq_ignore_case, find_byte, find_byte_idx, find_blank,
    find_blank_idx, split_crlf, split_crlf_vec, split_sp, split_sp_vec, subv, all_digits,
    digits_val, dec_value, COLON,
};
use crate::http::{
    HttpMethod, HttpVersion, HttpParseError, HttpHeader, HttpBody, HttpLine, HttpRequest,
    ReqModel, header_index, header_lookup, lemma_header_index,
};

verus! {

/// The canonical byte form of a method.
pub open spec fn method_token(m: HttpMethod) -> Seq<u8> {
    match m {
        HttpMethod::Options => ascii("OPTIONS"@),
        HttpMethod::Get => ascii("GET"@),
        HttpMethod::Head => ascii("HEAD"@),
        HttpMethod::Post => ascii("POST"@),
        HttpMethod::Put => ascii("PUT"@),
        HttpMethod::Delete => ascii("DELETE"@),
        HttpMethod::Trace => ascii("TRACE"@),
        HttpMethod::Connect => ascii("CONNECT"@),
        HttpMethod::Patch => ascii("PATCH"@),
    }
}

/// The canonical byte form of a version.
pub open spec fn version_token(v: HttpVersion) -> Seq<u8> {
    match v {
        HttpVersion::Http10 => ascii("HTTP/1.0"@),
        HttpVersion::Http11 => ascii("HTTP/1.1"@),
    }
}

/// The method named by a token, compared without regard to ASCII case.
pub open spec fn spec_parse_method(t: Seq<u8>) -> Option<HttpMethod> {
    if lower_seq(t) == lower_seq(method_token(HttpMethod::Options)) {
        Some(HttpMethod::Options)
    } else if lower_seq(t) == lower_seq(method_token(HttpMethod::Get)) {
        Some(HttpMethod::Get)
    } else if lower_seq(t) == lower_seq(method_token(HttpMethod::Head)) {
        Some(HttpMethod::Head)
    } else if lower_seq(t) == lower_seq(method_token(HttpMethod::Post)) {
        Some(HttpMethod::Post)
    } else if lower_seq(t) == lower_seq(method_token(HttpMethod::Put)) {
        Some(HttpMethod::Put)
    } else if lower_seq(t) == lower_seq(method_token(HttpMethod::Delete)) {
        Some(HttpMethod::Delete)
    } else if lower_seq(t) == lower_seq(method_token(HttpMethod::Trace)) {
        Some(HttpMethod::Trace)
    } else if lower_seq(t) == lower_seq(method_token(HttpMethod::Connect)) {
        Some(HttpMethod::Connect)
    } else if lower_seq(t) == lower_seq(method_token(HttpMethod::Patch)) {
        Some(HttpMethod::Patch)
    } else {
        None
    }
}

/// The version named by a token, compared without regard to ASCII case.
pub open spec fn spec_parse_version(t: Seq<u8>) -> Option<HttpVersion> {
    if lower_seq(t) == lower_seq(version_token(HttpVersion::Http10)) {
        Some(HttpVersion::Http10)
    } else if lower_seq(t) == lower_seq(version_token(HttpVersion::Http11)) {
        Some(HttpVersion::Http11)
    } else {
        None
    }
}

/// The method named by a token.
pub fn parse_method(t: &[u8]) -> (r: Option<HttpMethod>)
    ensures
        r == spec_parse_method(t@),
{
    proof {
        reveal_strlit("OPTIONS");
        reveal_strlit("GET");
        reveal_strlit("HEAD");
        reveal_strlit("POST");
        reveal_strlit("PUT");
        reveal_strlit("DELETE");
        reveal_strlit("TRACE");
        reveal_strlit("CONNECT");
        reveal_strlit("PATCH");
    }
    if eq_ignore_case(t, sbytes("OPTIONS").as_slice()) {
        Some(HttpMethod::Options)
    } else if eq_ignore_case(t, sbytes("GET").as_slice()) {
        Some(HttpMethod::Get)
    } else if eq_ignore_case(t, sbytes("HEAD").as_slice()) {
        Some(HttpMethod::Head)
    } else if eq_ignore_case(t, sbytes("POST").as_slice()) {
        Some(HttpMethod::Post)
    } else if eq_ignore_case(t, sbytes("PUT").as_slice()) {
        Some(HttpMethod::Put)
    } else if eq_ignore_case(t, sbytes("DELETE").as_slice()) {
        Some(HttpMethod::Delete)
    } else if eq_ignore_case(t, sbytes("TRACE").as_slice()) {
        Some(HttpMethod::Trace)
    } else if eq_ignore_case(t, sbytes("CONNECT").as_slice()) {
        Some(HttpMethod::Connect)
    } else if eq_ignore_case(t, sbytes("PATCH").as_slice()) {
        Some(HttpMethod::Patch)
    } else {
        None
    }
}

/// The version named by a token.
pub fn parse_version(t: &[u8]) -> (r: Option<HttpVersion>)
    ensures
        r == spec_parse_version(t@),
{
    proof {
        reveal_strlit("HTTP/1.0");
        reveal_strlit("HTTP/1.1");
    }
    if eq_ignore_case(t, sbytes("HTTP/1.0").as_slice()) {
        Some(HttpVersion::Http10)
    } else if eq_ignore_case(t, sbytes("HTTP/1.1").as_slice()) {
        Some(HttpVersion::Http11)
    } else {
        None
    }
}

/// The trimmed lines of a request head.
pub open spec fn spec_lines(head: Seq<u8>) -> Seq<Seq<u8>> {
    split_crlf(head).map_values(|l: Seq<u8>| trimmed(l))
}

/// The lines of a request head, split on CRLF and trimmed.
pub fn tokenize_s(buf: &[u8]) -> (r: Vec<Vec<u8>>)
    ensures
        r.deep_view() == spec_lines(buf@),
{
    let raw = split_crlf_vec(buf);
    let mut out: Vec<Vec<u8>> = Vec::new();
    let n = raw.len();
    let mut i: usize = 0;
    while i < n
        invariant
            0 <= i <= n == raw@.len(),
            raw.deep_view() == split_crlf(buf@),
            out@.len() == i,
            forall|k: int| 0 <= k < i ==> #[trigger] out@[k]@ == trimmed(split_crlf(buf@)[k]),
        decreases n - i,
    {
        proof {
            assert(raw@[i as int]@ =~= raw.deep_view()[i as int]);
        }
        let t = trim(raw[i].as_slice());
        out.push(t);
        i = i + 1;
    }
    proof {
        assert(out.deep_view().len() == spec_lines(buf@).len());
        assert forall|k: int| 0 <= k < n implies out.deep_view()[k] == spec_lines(buf@)[k] by {
            assert(out.deep_view()[k] =~= out@[k]@);
            assert(spec_lines(buf@)[k] == trimmed(split_crlf(buf@)[k]));
        }
        assert(out.deep_view() =~= spec_lines(buf@));
    }
    out
}

/// The request line parsed into method, target and version.
pub open spec fn spec_parse_request_line(line: Seq<u8>) -> Result<
    (HttpMethod, Seq<u8>, HttpVersion),
    HttpParseError,
> {
    let toks = split_sp(line);
    if toks.len() != 3 {
        Err(HttpParseError::HttpRequestLine)
    } else {
        match spec_parse_method(toks[0]) {
            None => Err(HttpParseError::HttpMethod),
            Some(m) => match spec_parse_version(toks[2]) {
                None => Err(HttpParseError::HttpVersion),
                Some(v) => Ok((m, toks[1], v)),
            },
        }
    }
}

/// Parses the start line of a request: exactly three tokens, a known
/// method, a supported version.
pub fn parse_request_line(line: &[u8]) -> (r: Result<HttpLine, HttpParseError>)
    ensures
        r is Ok ==> spec_parse_request_line(line@) == Ok::<_, HttpParseError>(
            (r->Ok_0.method, r->Ok_0.uri@, r->Ok_0.version),
        ),
        r is Err ==> spec_parse_request_line(line@) == Err::<
            (HttpMethod, Seq<u8>, HttpVersion),
            _,
        >(r->Err_0),
{
    let toks = split_sp_vec(line);
    if toks.len() != 3 {
        return Err(HttpParseError::HttpRequestLine);
    }
    proof {
        assert(toks@[0]@ == toks.deep_view()[0]);
        assert(toks@[1]@ == toks.deep_view()[1]);
        assert(toks@[2]@ == toks.deep_view()[2]);
    }
    let m = match parse_method(toks[0].as_slice()) {
        Some(m) => m,
        None => {
            return Err(HttpParseError::HttpMethod);
        },
    };
    let v = match parse_version(toks[2].as_slice()) {
        Some(v) => v,
        None => {
            return Err(HttpParseError::HttpVersion);
        },
    };
    let uri = subv(toks[1].as_slice(), 0, toks[1].len());
    proof {
        assert(uri@ =~= toks.deep_view()[1]);
    }
    Ok(HttpLine { method: m, uri, version: v })
}

/// Folds one trimmed header line into the accumulated list: the name is
/// everything before the first colon, the value everything after, both
/// trimmed; a repeated name has the new value joined on with a comma.
pub open spec fn spec_parse_headers(
    lines: Seq<Seq<u8>>,
    acc: Seq<(Seq<u8>, Seq<u8>)>,
) -> Result<Seq<(Seq<u8>, Seq<u8>)>, HttpParseError>
    decreases lines.len(),
{
    if lines.len() == 0 {
        Ok(acc)
    } else {
        let line = lines[0];
        let ci = find_byte(line, COLON);
        if ci == -1 {
            Err(HttpParseError::HttpHeader)
        } else {
            let name = trimmed(line.subrange(0, ci));
            let value = trimmed(line.subrange(ci + 1, line.len() as int));
            let idx = header_index(acc, name);
            let acc2 = if idx == -1 {
                acc.push((name, value))
            } else {
                acc.update(idx, (acc[idx].0, acc[idx].1 + seq![44u8] + value))
            };
            spec_parse_headers(lines.drop_first(), acc2)
        }
    }
}

/// Parses the header lines of a request head.
pub fn parse_header(lines: &[Vec<u8>]) -> (r: Result<HttpHeader, HttpParseError>)
    ensures
        r is Ok ==> spec_parse_headers(lines.deep_view(), Seq::empty()) == Ok::<
            _,
            HttpParseError,
        >(r->Ok_0@),
        r is Err ==> spec_parse_headers(lines.deep_view(), Seq::empty()) == Err::<
            Seq<(Seq<u8>, Seq<u8>)>,
            _,
        >(r->Err_0),
{
    let n = lines.len();
    let mut acc = HttpHeader { headers: Vec::new() };
    proof {
        assert(acc@ =~= Seq::<(Seq<u8>, Seq<u8>)>::empty());
        assert(lines.deep_view().subrange(0, n as int) =~= lines.deep_view());
    }
    let mut i: usize = 0;
    while i < n
        invariant
            0 <= i <= n == lines@.len(),
            spec_parse_headers(lines.deep_view(), Seq::empty()) == spec_parse_headers(
                lines.deep_view().subrange(i as int, n as int),
                acc@,
            ),
        decreases n - i,
    {
        let line = lines[i].as_slice();
        let ghost rest = lines.deep_view().subrange(i as int, n as int);
        proof {
            assert(rest[0] == lines@[i as int]@);
        }
        let ci = match find_byte_idx(line, COLON) {
            Some(ci) => ci,
            None => {
                return Err(HttpParseError::HttpHeader);
            },
        };
        let ll = line.len();
        proof {
            crate::octets::lemma_find_byte(line@, COLON);
            assert(ci < ll);
        }
        let name = trim(&line[0..ci]);
        let value = trim(&line[ci + 1..ll]);
        let ghost prev = acc@;
        match acc.find(name.as_slice()) {
            None => {
                acc.headers.push((name, value));
                proof {
                    assert(acc@ =~~= prev.push((name@, value@)));
                }
            },
            Some(idx) => {
                proof {
                    lemma_header_index(prev, name@);
                    assert(acc@[idx as int] == acc.headers@[idx as int].deep_view());
                }
                let mut joined = acc.headers[idx].1.clone();
                joined.push(44u8);
                let mut v2 = value;
                joined.append(&mut v2);
                let old_name = acc.headers.remove(idx).0;
                acc.headers.insert(idx, (old_name, joined));
                proof {
                    assert(acc@ =~~= prev.update(
                        idx as int,
                        (prev[idx as int].0, prev[idx as int].1 + seq![44u8] + value@),
                    ));
                }
            },
        }
        proof {
            assert(rest.drop_first() =~= lines.deep_view().subrange(i as int + 1, n as int));
        }
        i = i + 1;
    }
    proof {
        assert(lines.deep_view().subrange(n as int, n as int) =~= Seq::<Seq<u8>>::empty());
    }
    Ok(acc)
}

/// The declared content length: the value of the `Content-Length` header
/// when it is one to eighteen decimal digits, and zero otherwise.
pub open spec fn spec_cl(hs: Seq<(Seq<u8>, Seq<u8>)>) -> nat {
    match header_lookup(hs, ascii("Content-Length"@)) {
        None => 0,
        Some(v) => if 1 <= v.len() <= 18 && all_digits(v) {
            digits_val(v)
        } else {
            0
        },
    }
}

/// The declared content length of a parsed header list.
pub fn content_length_of(header: &HttpHeader) -> (r: u64)
    ensures
        r as nat == spec_cl(header@),
{
    proof {
        reveal_strlit("Content-Length");
    }
    let name = sbytes("Content-Length");
    match header.lookup(name.as_slice()) {
        None => 0,
        Some(v) => match dec_value(v.as_slice()) {
            Some(x) => x,
            None => 0,
        },
    }
}

/// The framed body: the bytes after the head terminator, up to the
/// declared content length.
pub open spec fn spec_body(hs: Seq<(Seq<u8>, Seq<u8>)>, rest: Seq<u8>) -> Seq<u8> {
    let cl = spec_cl(hs);
    if cl < rest.len() {
        rest.subrange(0, cl as int)
    } else {
        rest
    }
}

/// Frames the request body out of the bytes that follow the head.
pub fn parse_body(rest: &[u8], header: &HttpHeader) -> (r: HttpBody)
    ensures
        r@ == spec_body(header@, rest@),
{
    proof {
        reveal_strlit("Content-Length");
    }
    let name = sbytes("Content-Length");
    let cl: u64 = match header.lookup(name.as_slice()) {
        None => 0,
        Some(v) => match dec_value(v.as_slice()) {
            Some(x) => x,
            None => 0,
        },
    };
    if cl < rest.len() as u64 {
        let content = subv(rest, 0, cl as usize);
        proof {
            assert(content@ =~= spec_body(header@, rest@));
        }
        HttpBody { content }
    } else {
        let content = subv(rest, 0, rest.len());
        proof {
            assert(content@ =~= rest@);
        }
        HttpBody { content }
    }
}

/// The head of a request (the bytes before the first CRLF CRLF) and the
/// bytes after the terminator.
pub open spec fn head_split(b: Seq<u8>) -> (Seq<u8>, Seq<u8>) {
    let i = find_blank(b);
    if i == -1 {
        (b, Seq::empty())
    } else {
        (b.subrange(0, i), b.subrange(i + 4, b.len() as int))
    }
}

/// What decoding a request buffer yields.
pub open spec fn spec_decode(b: Seq<u8>) -> Result<ReqModel, HttpParseError> {
    let head = head_split(b).0;
    let rest = head_split(b).1;
    if !valid_utf8(head) {
        Err(HttpParseError::Buffer)
    } else {
        let lines = spec_lines(head);
        match spec_parse_request_line(lines[0]) {
            Err(e) => Err(e),
            Ok(rl) => match spec_parse_headers(lines.drop_first(), Seq::empty()) {
                Err(e) => Err(e),
                Ok(hs) => Ok(
                    ReqModel {
                        method: rl.0,
                        uri: rl.1,
                        version: rl.2,
                        headers: hs,
                        body: spec_body(hs, rest),
                    },
                ),
            },
        }
    }
}

/// The model of a decode result.
pub open spec fn decode_model(r: Result<HttpRequest, HttpParseError>) -> Result<
    ReqModel,
    HttpParseError,
> {
    match r {
        Ok(q) => Ok(q@),
        Err(e) => Err(e),
    }
}

/// Decodes a request buffer: the head up to the first CRLF CRLF must be
/// valid UTF-8 and hold a three-token start line with a known method and a
/// supported version; header lines each hold a colon; the body is framed
/// by the declared `Content-Length`.
pub fn decode(buf: &[u8]) -> (r: Result<HttpRequest, HttpParseError>)
    ensures
        decode_model(r) == spec_decode(buf@),
{
    let n = buf.len();
    let found = find_blank_idx(buf);
    proof {
        crate::octets::lemma_find_blank(buf@);
        if find_blank(buf@) == -1 {
            assert(buf@.subrange(0, n as int) =~= buf@);
        }
    }
    let (head_end, rest_start) = match found {
        Some(i) => (i, i + 4),
        None => (n, n),
    };
    let head = &buf[0..head_end];
    let rest = &buf[rest_start..n];
    if !crate::ext::is_valid_utf8(head) {
        return Err(HttpParseError::Buffer);
    }
    proof {
        assert(head@ == head_split(buf@).0);
        assert(rest@ == head_split(buf@).1);
    }
    let lines = tokenize_s(head);
    proof {
        assert(split_crlf(head@).len() > 0);
        assert(spec_lines(head@).len() > 0);
        assert(lines@.len() == lines.deep_view().len());
        assert(lines@[0]@ =~= lines.deep_view()[0]);
        assert(lines@[0]@ =~= spec_lines(head@)[0]);
    }
    let request_line = match parse_request_line(lines[0].as_slice()) {
        Ok(rl) => rl,
        Err(e) => {
            return Err(e);
        },
    };
    let tail_slice = &lines.as_slice()[1..lines.len()];
    proof {
        let dv = tail_slice.deep_view();
        let tl = spec_lines(head@).drop_first();
        assert(dv.len() == tl.len());
        assert forall|k: int| 0 <= k < dv.len() implies dv[k] == tl[k] by {
            assert(tail_slice@[k] == lines@[k + 1]);
            assert(dv[k] =~= tail_slice@[k]@);
            assert(tl[k] == lines.deep_view()[k + 1]);
            assert(lines.deep_view()[k + 1] =~= lines@[k + 1]@);
        }
        assert(dv =~= tl);
    }
    let header = match parse_header(tail_slice) {
        Ok(h) => h,
        Err(e) => {
            return Err(e);
        },
    };
    let body = parse_body(rest, &header);
    let req = HttpRequest {
        method: request_line.method,
        uri: request_line.uri,
        version: request_line.version,
        header,
        body,
    };
    proof {
        assert(req@ =~~= spec_decode(buf@)->Ok_0);
    }
    Ok(req)
}

} // verus!
