//! Encoding requests and responses back to wire bytes.

use vstd::prelude::*;
use crate::octets::{CR, LF, SP, COLON, sbytes, subv};
use crate::http::header_index;
use crate::octets::ascii;
use crate::http::{
    HttpMethod, HttpVersion, HttpStatus, HttpLine, HttpResponseLine, HttpHeader, HttpBody,
    HttpRequest, HttpResponse, ReqModel, RespModel, status_line_fragment,
};
use crate::parse::{method_token, version_token};

verus! {

/// One header line: `name: value`.
pub open spec fn header_line(p: (Seq<u8>, Seq<u8>)) -> Seq<u8> {
    p.0 + seq![COLON, SP] + p.1
}

/// All header lines, each followed by CRLF.
pub open spec fn emit_headers(hs: Seq<(Seq<u8>, Seq<u8>)>) -> Seq<u8>
    decreases hs.len(),
{
    if hs.len() == 0 {
        Seq::empty()
    } else {
        header_line(hs[0]) + seq![CR, LF] + emit_headers(hs.drop_first())
    }
}

/// A request start line: `method SP target SP version`.
pub open spec fn start_line(m: HttpMethod, uri: Seq<u8>, v: HttpVersion) -> Seq<u8> {
    method_token(m) + seq![SP] + uri + seq![SP] + version_token(v)
}

/// The wire form of a request.
pub open spec fn spec_encode(m: ReqModel) -> Seq<u8> {
    start_line(m.method, m.uri, m.version) + seq![CR, LF] + emit_headers(m.headers) + seq![CR, LF]
        + m.body
}

/// The wire form of a response; the status line is
/// `version SP code SP reason`.
pub open spec fn spec_encode_response(m: RespModel) -> Seq<u8> {
    version_token(m.version) + seq![SP] + status_line_fragment(m.status) + seq![CR, LF]
        + emit_headers(m.headers) + seq![CR, LF] + m.body
}

impl HttpMethod {
    /// The canonical byte form of this method.
    pub fn to_buf(&self) -> (r: Vec<u8>)
        ensures
            r@ == method_token(*self),
    {
        match self {
            HttpMethod::Options => {
                proof {
                    reveal_strlit("OPTIONS");
                }
                sbytes("OPTIONS")
            },
            HttpMethod::Get => {
                proof {
                    reveal_strlit("GET");
                }
                sbytes("GET")
            },
            HttpMethod::Head => {
                proof {
                    reveal_strlit("HEAD");
                }
                sbytes("HEAD")
            },
            HttpMethod::Post => {
                proof {
                    reveal_strlit("POST");
                }
                sbytes("POST")
            },
            HttpMethod::Put => {
                proof {
                    reveal_strlit("PUT");
                }
                sbytes("PUT")
            },
            HttpMethod::Delete => {
                proof {
                    reveal_strlit("DELETE");
                }
                sbytes("DELETE")
            },
            HttpMethod::Trace => {
                proof {
                    reveal_strlit("TRACE");
                }
                sbytes("TRACE")
            },
            HttpMethod::Connect => {
                proof {
                    reveal_strlit("CONNECT");
                }
                sbytes("CONNECT")
            },
            HttpMethod::Patch => {
                proof {
                    reveal_strlit("PATCH");
                }
                sbytes("PATCH")
            },
        }
    }
}

impl HttpVersion {
    /// The canonical byte form of this version.
    pub fn to_buf(&self) -> (r: Vec<u8>)
        ensures
            r@ == version_token(*self),
    {
        match self {
            HttpVersion::Http10 => {
                proof {
                    reveal_strlit("HTTP/1.0");
                }
                sbytes("HTTP/1.0")
            },
            HttpVersion::Http11 => {
                proof {
                    reveal_strlit("HTTP/1.1");
                }
                sbytes("HTTP/1.1")
            },
        }
    }
}

impl HttpLine {
    /// The wire form of the start line, CRLF included.
    pub fn to_buf(&self) -> (r: Vec<u8>)
        ensures
            r@ == start_line(self.method, self.uri@, self.version) + seq![CR, LF],
    {
        let mut out = self.method.to_buf();
        out.push(SP);
        let mut uri = subv(self.uri.as_slice(), 0, self.uri.len());
        out.append(&mut uri);
        out.push(SP);
        let mut v = self.version.to_buf();
        out.append(&mut v);
        out.push(CR);
        out.push(LF);
        proof {
            assert(out@ =~= start_line(self.method, self.uri@, self.version) + seq![CR, LF]);
        }
        out
    }
}

impl HttpResponseLine {
    /// The wire form of the status line, CRLF included.
    pub fn to_buf(&self) -> (r: Vec<u8>)
        ensures
            r@ == version_token(self.version) + seq![SP] + status_line_fragment(self.status)
                + seq![CR, LF],
    {
        let mut out = self.version.to_buf();
        out.push(SP);
        let mut st = self.status.to_buf();
        out.append(&mut st);
        out.push(CR);
        out.push(LF);
        proof {
            assert(out@ =~= version_token(self.version) + seq![SP] + status_line_fragment(
                self.status,
            ) + seq![CR, LF]);
        }
        out
    }
}

impl HttpHeader {
    /// The header lines, each followed by CRLF, without the block's
    /// final empty line.
    pub fn lines_buf(&self) -> (r: Vec<u8>)
        ensures
            r@ == emit_headers(self@),
    {
        let n = self.headers.len();
        let mut out: Vec<u8> = Vec::new();
        let mut i: usize = 0;
        proof {
            assert(self@.subrange(0, n as int) =~= self@);
            assert(out@ + emit_headers(self@) =~= emit_headers(self@));
        }
        while i < n
            invariant
                0 <= i <= n == self.headers@.len(),
                self@.len() == n,
                out@ + emit_headers(self@.subrange(i as int, n as int)) == emit_headers(self@),
            decreases n - i,
        {
            let ghost rest = self@.subrange(i as int, n as int);
            let ghost prev = out@;
            let pair = &self.headers[i];
            proof {
                assert(self@[i as int] == self.headers@[i as int].deep_view());
                assert(self@[i as int].0 =~= self.headers@[i as int].0@);
                assert(self@[i as int].1 =~= self.headers@[i as int].1@);
            }
            let mut name = subv(pair.0.as_slice(), 0, pair.0.len());
            out.append(&mut name);
            out.push(COLON);
            out.push(SP);
            let mut value = subv(pair.1.as_slice(), 0, pair.1.len());
            out.append(&mut value);
            out.push(CR);
            out.push(LF);
            proof {
                assert(rest[0] == self@[i as int]);
                assert(out@ =~= prev + header_line(self@[i as int]) + seq![CR, LF]);
                assert(rest.drop_first() =~= self@.subrange(i as int + 1, n as int));
                assert(emit_headers(rest) == header_line(rest[0]) + seq![CR, LF] + emit_headers(
                    rest.drop_first(),
                ));
                assert(out@ + emit_headers(self@.subrange(i as int + 1, n as int)) =~= prev
                    + emit_headers(rest));
            }
            i = i + 1;
        }
        proof {
            assert(self@.subrange(n as int, n as int) =~= Seq::<(Seq<u8>, Seq<u8>)>::empty());
            assert(emit_headers(self@.subrange(n as int, n as int)) == Seq::<u8>::empty());
            assert(out@ + Seq::<u8>::empty() =~= out@);
        }
        out
    }

    /// The wire form of the header block, final empty line included.
    pub fn to_buf(&self) -> (r: Vec<u8>)
        ensures
            r@ == emit_headers(self@) + seq![CR, LF],
    {
        let mut out = self.lines_buf();
        out.push(CR);
        out.push(LF);
        proof {
            assert(out@ =~= emit_headers(self@) + seq![CR, LF]);
        }
        out
    }
}

impl HttpBody {
    /// The wire form of the body: its bytes.
    pub fn to_buf(&self) -> (r: Vec<u8>)
        ensures
            r@ == self@,
    {
        subv(self.content.as_slice(), 0, self.content.len())
    }
}

impl HttpRequest {
    /// The wire form of the whole request.
    pub fn to_buf(&self) -> (r: Vec<u8>)
        ensures
            r@ == spec_encode(self@),
    {
        let line = HttpLine {
            method: self.method,
            uri: subv(self.uri.as_slice(), 0, self.uri.len()),
            version: self.version,
        };
        let mut out = line.to_buf();
        let mut hdr = self.header.to_buf();
        out.append(&mut hdr);
        let mut body = self.body.to_buf();
        out.append(&mut body);
        proof {
            assert(out@ =~= spec_encode(self@));
        }
        out
    }
}

impl HttpResponse {
    /// The wire form of the whole response. A `Date` stamp and the
    /// `Server` product are injected when the headers lack them, so the
    /// exact byte form is pinned for responses that already carry both —
    /// as everything this crate builds does.
    pub fn to_buf(&self) -> (r: Vec<u8>)
        ensures
            header_index(self@.headers, ascii("Date"@)) != -1 && header_index(
                self@.headers,
                ascii("Server"@),
            ) != -1 ==> r@ == spec_encode_response(self@),
    {
        proof {
            reveal_strlit("Date");
            reveal_strlit("Server");
            reveal_strlit("twebd/0.1.0");
        }
        let line = HttpResponseLine::new(self.version, self.status);
        let mut out = line.to_buf();
        let mut hdr = self.header.lines_buf();
        out.append(&mut hdr);
        let date_name = sbytes("Date");
        if self.header.find(date_name.as_slice()).is_none() {
            let mut n = date_name;
            out.append(&mut n);
            out.push(COLON);
            out.push(SP);
            let mut v = crate::ext::now_rfc2822();
            out.append(&mut v);
            out.push(CR);
            out.push(LF);
        }
        let server_name = sbytes("Server");
        if self.header.find(server_name.as_slice()).is_none() {
            let mut n = server_name;
            out.append(&mut n);
            out.push(COLON);
            out.push(SP);
            let mut v = sbytes("twebd/0.1.0");
            out.append(&mut v);
            out.push(CR);
            out.push(LF);
        }
        out.push(CR);
        out.push(LF);
        let mut body = self.body.to_buf();
        out.append(&mut body);
        proof {
            if header_index(self@.headers, ascii("Date"@)) != -1 && header_index(
                self@.headers,
                ascii("Server"@),
            ) != -1 {
                assert(out@ =~= spec_encode_response(self@));
            }
        }
        out
    }
}

} // verus!
