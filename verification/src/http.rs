//! The HTTP/1.1 value types: methods, versions, the status catalog with its
//! canonical reason phrases, requests and responses.
//!
//! Header names and values, targets and bodies are byte strings. Headers are
//! kept as an ordered list of pairs with names unique up to ASCII case.

use vstd::prelude::*;
use crate::octets::{ascii, sbytes, u64_to_dec, dec_digits, lower_seq, eq_ignore_case};

verus! {

#[derive(Debug, Copy, Clone, PartialEq, Eq, Structural)]
pub enum HttpMethod {
    Options,
    Get,
    Head,
    Post,
    Put,
    Delete,
    Trace,
    Connect,
    Patch,
}

/// The accepted protocol versions. Responses are always written as HTTP/1.1.
#[derive(Debug, Copy, Clone, PartialEq, Eq, Structural)]
pub enum HttpVersion {
    Http10,
    Http11,
}

#[derive(Debug, Copy, Clone, PartialEq, Eq, Structural)]
pub enum HttpStatus {
    Continue,
    SwitchingProtocols,
    OK,
    Created,
    Accepted,
    NonAuthoritativeInformation,
    NoContent,
    ResetContent,
    PartialContent,
    MultipleChoices,
    MovedPermanently,
    Found,
    SeeOther,
    NotModified,
    UseProxy,
    TemporaryRedirect,
    BadRequest,
    Unauthorized,
    Forbidden,
    NotFound,
    MethodNotAllowed,
    NotAcceptable,
    ProxyAuthenticationRequired,
    RequestTimeout,
    Conflict,
    Gone,
    LengthRequired,
    PreconditionFailed,
    RequestEntityTooLarge,
    RequestURITooLong,
    UnsupportedMediaType,
    RequestedRangeNotSatisfiable,
    ExpectationFailed,
    RequestHeaderFieldsTooLarge,
    InternalServerError,
    NotImplemented,
    BadGateway,
    ServiceUnavailable,
    GatewayTimeout,
    HTTPVersionNotSupported,
}

/// The numeric status code.
pub open spec fn status_code(s: HttpStatus) -> u16 {
    match s {
        HttpStatus::Continue => 100,
        HttpStatus::SwitchingProtocols => 101,
        HttpStatus::OK => 200,
        HttpStatus::Created => 201,
        HttpStatus::Accepted => 202,
        HttpStatus::NonAuthoritativeInformation => 203,
        HttpStatus::NoContent => 204,
        HttpStatus::ResetContent => 205,
        HttpStatus::PartialContent => 206,
        HttpStatus::MultipleChoices => 300,
        HttpStatus::MovedPermanently => 301,
        HttpStatus::Found => 302,
        HttpStatus::SeeOther => 303,
        HttpStatus::NotModified => 304,
        HttpStatus::UseProxy => 305,
        HttpStatus::TemporaryRedirect => 307,
        HttpStatus::BadRequest => 400,
        HttpStatus::Unauthorized => 401,
        HttpStatus::Forbidden => 403,
        HttpStatus::NotFound => 404,
        HttpStatus::MethodNotAllowed => 405,
        HttpStatus::NotAcceptable => 406,
        HttpStatus::ProxyAuthenticationRequired => 407,
        HttpStatus::RequestTimeout => 408,
        HttpStatus::Conflict => 409,
        HttpStatus::Gone => 410,
        HttpStatus::LengthRequired => 411,
        HttpStatus::PreconditionFailed => 412,
        HttpStatus::RequestEntityTooLarge => 413,
        HttpStatus::RequestURITooLong => 414,
        HttpStatus::UnsupportedMediaType => 415,
        HttpStatus::RequestedRangeNotSatisfiable => 416,
        HttpStatus::ExpectationFailed => 417,
        HttpStatus::RequestHeaderFieldsTooLarge => 431,
        HttpStatus::InternalServerError => 500,
        HttpStatus::NotImplemented => 501,
        HttpStatus::BadGateway => 502,
        HttpStatus::ServiceUnavailable => 503,
        HttpStatus::GatewayTimeout => 504,
        HttpStatus::HTTPVersionNotSupported => 505,
    }
}

/// The canonical reason phrase.
pub open spec fn status_reason(s: HttpStatus) -> Seq<u8> {
    match s {
        HttpStatus::Continue => ascii("Continue"@),
        HttpStatus::SwitchingProtocols => ascii("Switching Protocols"@),
        HttpStatus::OK => ascii("OK"@),
        HttpStatus::Created => ascii("Created"@),
        HttpStatus::Accepted => ascii("Accepted"@),
        HttpStatus::NonAuthoritativeInformation => ascii("Non Authoritative Information"@),
        HttpStatus::NoContent => ascii("No Content"@),
        HttpStatus::ResetContent => ascii("Reset Content"@),
        HttpStatus::PartialContent => ascii("Partial Content"@),
        HttpStatus::MultipleChoices => ascii("Multiple Choices"@),
        HttpStatus::MovedPermanently => ascii("Moved Permanently"@),
        HttpStatus::Found => ascii("Found"@),
        HttpStatus::SeeOther => ascii("See Other"@),
        HttpStatus::NotModified => ascii("Not Modified"@),
        HttpStatus::UseProxy => ascii("Use Proxy"@),
        HttpStatus::TemporaryRedirect => ascii("Temporary Redirect"@),
        HttpStatus::BadRequest => ascii("Bad Request"@),
        HttpStatus::Unauthorized => ascii("Unauthorized"@),
        HttpStatus::Forbidden => ascii("Forbidden"@),
        HttpStatus::NotFound => ascii("Not Found"@),
        HttpStatus::MethodNotAllowed => ascii("Method Not Allowed"@),
        HttpStatus::NotAcceptable => ascii("Not Acceptable"@),
        HttpStatus::ProxyAuthenticationRequired => ascii("Proxy Authentication Required"@),
        HttpStatus::RequestTimeout => ascii("Request Timeout"@),
        HttpStatus::Conflict => ascii("Conflict"@),
        HttpStatus::Gone => ascii("Gone"@),
        HttpStatus::LengthRequired => ascii("Length Required"@),
        HttpStatus::PreconditionFailed => ascii("Precondition Failed"@),
        HttpStatus::RequestEntityTooLarge => ascii("Request Entity Too Large"@),
        HttpStatus::RequestURITooLong => ascii("Request URI Too Long"@),
        HttpStatus::UnsupportedMediaType => ascii("Unsupported Media Type"@),
        HttpStatus::RequestedRangeNotSatisfiable => ascii("Requested Range Not Satisfiable"@),
        HttpStatus::ExpectationFailed => ascii("Expectation Failed"@),
        HttpStatus::RequestHeaderFieldsTooLarge => ascii("Request Header Fields Too Large"@),
        HttpStatus::InternalServerError => ascii("Internal Server Error"@),
        HttpStatus::NotImplemented => ascii("Not Implemented"@),
        HttpStatus::BadGateway => ascii("Bad Gateway"@),
        HttpStatus::ServiceUnavailable => ascii("Service Unavailable"@),
        HttpStatus::GatewayTimeout => ascii("Gateway Timeout"@),
        HttpStatus::HTTPVersionNotSupported => ascii("HTTP Version Not Supported"@),
    }
}

impl HttpStatus {
    pub fn code(&self) -> (r: u16)
        ensures
            r == status_code(*self),
    {
        match self {
        HttpStatus::Continue => 100,
        HttpStatus::SwitchingProtocols => 101,
        HttpStatus::OK => 200,
        HttpStatus::Created => 201,
        HttpStatus::Accepted => 202,
        HttpStatus::NonAuthoritativeInformation => 203,
        HttpStatus::NoContent => 204,
        HttpStatus::ResetContent => 205,
        HttpStatus::PartialContent => 206,
        HttpStatus::MultipleChoices => 300,
        HttpStatus::MovedPermanently => 301,
        HttpStatus::Found => 302,
        HttpStatus::SeeOther => 303,
        HttpStatus::NotModified => 304,
        HttpStatus::UseProxy => 305,
        HttpStatus::TemporaryRedirect => 307,
        HttpStatus::BadRequest => 400,
        HttpStatus::Unauthorized => 401,
        HttpStatus::Forbidden => 403,
        HttpStatus::NotFound => 404,
        HttpStatus::MethodNotAllowed => 405,
        HttpStatus::NotAcceptable => 406,
        HttpStatus::ProxyAuthenticationRequired => 407,
        HttpStatus::RequestTimeout => 408,
        HttpStatus::Conflict => 409,
        HttpStatus::Gone => 410,
        HttpStatus::LengthRequired => 411,
        HttpStatus::PreconditionFailed => 412,
        HttpStatus::RequestEntityTooLarge => 413,
        HttpStatus::RequestURITooLong => 414,
        HttpStatus::UnsupportedMediaType => 415,
        HttpStatus::RequestedRangeNotSatisfiable => 416,
        HttpStatus::ExpectationFailed => 417,
        HttpStatus::RequestHeaderFieldsTooLarge => 431,
        HttpStatus::InternalServerError => 500,
        HttpStatus::NotImplemented => 501,
        HttpStatus::BadGateway => 502,
        HttpStatus::ServiceUnavailable => 503,
        HttpStatus::GatewayTimeout => 504,
        HttpStatus::HTTPVersionNotSupported => 505,
        }
    }

    /// The canonical reason phrase of this status.
    pub fn reason(&self) -> (r: Vec<u8>)
        ensures
            r@ == status_reason(*self),
    {
        match self {
        HttpStatus::Continue => {
            proof {
                reveal_strlit("Continue");
            }
            sbytes("Continue")
        },
        HttpStatus::SwitchingProtocols => {
            proof {
                reveal_strlit("Switching Protocols");
            }
            sbytes("Switching Protocols")
        },
        HttpStatus::OK => {
            proof {
                reveal_strlit("OK");
            }
            sbytes("OK")
        },
        HttpStatus::Created => {
            proof {
                reveal_strlit("Created");
            }
            sbytes("Created")
        },
        HttpStatus::Accepted => {
            proof {
                reveal_strlit("Accepted");
            }
            sbytes("Accepted")
        },
        HttpStatus::NonAuthoritativeInformation => {
            proof {
                reveal_strlit("Non Authoritative Information");
            }
            sbytes("Non Authoritative Information")
        },
        HttpStatus::NoContent => {
            proof {
                reveal_strlit("No Content");
            }
            sbytes("No Content")
        },
        HttpStatus::ResetContent => {
            proof {
                reveal_strlit("Reset Content");
            }
            sbytes("Reset Content")
        },
        HttpStatus::PartialContent => {
            proof {
                reveal_strlit("Partial Content");
            }
            sbytes("Partial Content")
        },
        HttpStatus::MultipleChoices => {
            proof {
                reveal_strlit("Multiple Choices");
            }
            sbytes("Multiple Choices")
        },
        HttpStatus::MovedPermanently => {
            proof {
                reveal_strlit("Moved Permanently");
            }
            sbytes("Moved Permanently")
        },
        HttpStatus::Found => {
            proof {
                reveal_strlit("Found");
            }
            sbytes("Found")
        },
        HttpStatus::SeeOther => {
            proof {
                reveal_strlit("See Other");
            }
            sbytes("See Other")
        },
        HttpStatus::NotModified => {
            proof {
                reveal_strlit("Not Modified");
            }
            sbytes("Not Modified")
        },
        HttpStatus::UseProxy => {
            proof {
                reveal_strlit("Use Proxy");
            }
            sbytes("Use Proxy")
        },
        HttpStatus::TemporaryRedirect => {
            proof {
                reveal_strlit("Temporary Redirect");
            }
            sbytes("Temporary Redirect")
        },
        HttpStatus::BadRequest => {
            proof {
                reveal_strlit("Bad Request");
            }
            sbytes("Bad Request")
        },
        HttpStatus::Unauthorized => {
            proof {
                reveal_strlit("Unauthorized");
            }
            sbytes("Unauthorized")
        },
        HttpStatus::Forbidden => {
            proof {
                reveal_strlit("Forbidden");
            }
            sbytes("Forbidden")
        },
        HttpStatus::NotFound => {
            proof {
                reveal_strlit("Not Found");
            }
            sbytes("Not Found")
        },
        HttpStatus::MethodNotAllowed => {
            proof {
                reveal_strlit("Method Not Allowed");
            }
            sbytes("Method Not Allowed")
        },
        HttpStatus::NotAcceptable => {
            proof {
                reveal_strlit("Not Acceptable");
            }
            sbytes("Not Acceptable")
        },
        HttpStatus::ProxyAuthenticationRequired => {
            proof {
                reveal_strlit("Proxy Authentication Required");
            }
            sbytes("Proxy Authentication Required")
        },
        HttpStatus::RequestTimeout => {
            proof {
                reveal_strlit("Request Timeout");
            }
            sbytes("Request Timeout")
        },
        HttpStatus::Conflict => {
            proof {
                reveal_strlit("Conflict");
            }
            sbytes("Conflict")
        },
        HttpStatus::Gone => {
            proof {
                reveal_strlit("Gone");
            }
            sbytes("Gone")
        },
        HttpStatus::LengthRequired => {
            proof {
                reveal_strlit("Length Required");
            }
            sbytes("Length Required")
        },
        HttpStatus::PreconditionFailed => {
            proof {
                reveal_strlit("Precondition Failed");
            }
            sbytes("Precondition Failed")
        },
        HttpStatus::RequestEntityTooLarge => {
            proof {
                reveal_strlit("Request Entity Too Large");
            }
            sbytes("Request Entity Too Large")
        },
        HttpStatus::RequestURITooLong => {
            proof {
                reveal_strlit("Request URI Too Long");
            }
            sbytes("Request URI Too Long")
        },
        HttpStatus::UnsupportedMediaType => {
            proof {
                reveal_strlit("Unsupported Media Type");
            }
            sbytes("Unsupported Media Type")
        },
        HttpStatus::RequestedRangeNotSatisfiable => {
            proof {
                reveal_strlit("Requested Range Not Satisfiable");
            }
            sbytes("Requested Range Not Satisfiable")
        },
        HttpStatus::ExpectationFailed => {
            proof {
                reveal_strlit("Expectation Failed");
            }
            sbytes("Expectation Failed")
        },
        HttpStatus::RequestHeaderFieldsTooLarge => {
            proof {
                reveal_strlit("Request Header Fields Too Large");
            }
            sbytes("Request Header Fields Too Large")
        },
        HttpStatus::InternalServerError => {
            proof {
                reveal_strlit("Internal Server Error");
            }
            sbytes("Internal Server Error")
        },
        HttpStatus::NotImplemented => {
            proof {
                reveal_strlit("Not Implemented");
            }
            sbytes("Not Implemented")
        },
        HttpStatus::BadGateway => {
            proof {
                reveal_strlit("Bad Gateway");
            }
            sbytes("Bad Gateway")
        },
        HttpStatus::ServiceUnavailable => {
            proof {
                reveal_strlit("Service Unavailable");
            }
            sbytes("Service Unavailable")
        },
        HttpStatus::GatewayTimeout => {
            proof {
                reveal_strlit("Gateway Timeout");
            }
            sbytes("Gateway Timeout")
        },
        HttpStatus::HTTPVersionNotSupported => {
            proof {
                reveal_strlit("HTTP Version Not Supported");
            }
            sbytes("HTTP Version Not Supported")
        },
        }
    }

    /// The status line fragment `code SP reason`.
    pub fn to_buf(&self) -> (r: Vec<u8>)
        ensures
            r@ == status_line_fragment(*self),
    {
        let mut out = u64_to_dec(self.code() as u64);
        out.push(crate::octets::SP);
        let mut reason = self.reason();
        out.append(&mut reason);
        proof {
            assert(out@ =~= status_line_fragment(*self));
        }
        out
    }
}

/// The status line fragment `code SP reason`.
pub open spec fn status_line_fragment(s: HttpStatus) -> Seq<u8> {
    dec_digits(status_code(s) as nat) + seq![crate::octets::SP] + status_reason(s)
}

impl Default for HttpStatus {
    fn default() -> (r: Self)
        ensures
            r == HttpStatus::OK,
    {
        HttpStatus::OK
    }
}

impl Default for HttpVersion {
    fn default() -> (r: Self)
        ensures
            r == HttpVersion::Http11,
    {
        HttpVersion::Http11
    }
}

/// Errors from decoding a request head.
#[derive(Debug, Copy, Clone, PartialEq, Eq, Structural)]
pub enum HttpParseError {
    /// The head is not valid UTF-8.
    Buffer,
    /// The start line does not hold exactly three tokens.
    HttpRequestLine,
    /// The method token is not a known method.
    HttpMethod,
    /// The version token is neither HTTP/1.0 nor HTTP/1.1.
    HttpVersion,
    /// A header line holds no colon.
    HttpHeader,
}

/// Errors from resolving a request target to a file.
#[derive(Debug, Clone, PartialEq, Eq)]
pub enum HttpResponseError {
    /// The resolved path lies outside the server root.
    FilePathInvalid(Vec<u8>),
    /// The target does not name an existing file.
    FileNotFound(Vec<u8>),
    /// The file exists but could not be read.
    FileIo(Vec<u8>),
}

/// An ordered header list; names are unique up to ASCII case.
#[derive(Debug, Clone)]
pub struct HttpHeader {
    pub headers: Vec<(Vec<u8>, Vec<u8>)>,
}

impl View for HttpHeader {
    type V = Seq<(Seq<u8>, Seq<u8>)>;

    open spec fn view(&self) -> Seq<(Seq<u8>, Seq<u8>)> {
        self.headers.deep_view()
    }
}

/// Index of the first header whose name equals `name` up to ASCII case, or -1.
pub open spec fn header_index(hs: Seq<(Seq<u8>, Seq<u8>)>, name: Seq<u8>) -> int
    decreases hs.len(),
{
    if hs.len() == 0 {
        -1
    } else if lower_seq(hs[0].0) == lower_seq(name) {
        0
    } else {
        let r = header_index(hs.drop_first(), name);
        if r == -1 {
            -1
        } else {
            r + 1
        }
    }
}

/// The value of the first header named `name` up to ASCII case.
pub open spec fn header_lookup(hs: Seq<(Seq<u8>, Seq<u8>)>, name: Seq<u8>) -> Option<Seq<u8>> {
    if header_index(hs, name) == -1 {
        Option::None
    } else {
        Option::Some(hs[header_index(hs, name)].1)
    }
}

pub proof fn lemma_header_index(hs: Seq<(Seq<u8>, Seq<u8>)>, name: Seq<u8>)
    ensures
        header_index(hs, name) == -1 ==> forall|j: int|
            0 <= j < hs.len() ==> lower_seq(#[trigger] hs[j].0) != lower_seq(name),
        header_index(hs, name) != -1 ==> 0 <= header_index(hs, name) < hs.len() && lower_seq(
            hs[header_index(hs, name)].0,
        ) == lower_seq(name) && forall|j: int|
            0 <= j < header_index(hs, name) ==> lower_seq(#[trigger] hs[j].0) != lower_seq(name),
    decreases hs.len(),
{
    if hs.len() > 0 && lower_seq(hs[0].0) != lower_seq(name) {
        let t = hs.drop_first();
        lemma_header_index(t, name);
        if header_index(t, name) == -1 {
            assert forall|j: int| 0 <= j < hs.len() implies lower_seq(#[trigger] hs[j].0)
                != lower_seq(name) by {
                if j > 0 {
                    assert(t[j - 1] == hs[j]);
                }
            }
        } else {
            assert(hs[header_index(hs, name)] == t[header_index(t, name)]);
            assert forall|j: int| 0 <= j < header_index(hs, name) implies lower_seq(
                #[trigger] hs[j].0,
            ) != lower_seq(name) by {
                if j > 0 {
                    assert(t[j - 1] == hs[j]);
                }
            }
        }
    }
}

pub proof fn lemma_header_index_is(hs: Seq<(Seq<u8>, Seq<u8>)>, name: Seq<u8>, i: int)
    requires
        0 <= i < hs.len(),
        lower_seq(hs[i].0) == lower_seq(name),
        forall|j: int| 0 <= j < i ==> lower_seq(#[trigger] hs[j].0) != lower_seq(name),
    ensures
        header_index(hs, name) == i,
    decreases i,
{
    if i > 0 {
        let t = hs.drop_first();
        assert(t[i - 1] == hs[i]);
        assert forall|j: int| 0 <= j < i - 1 implies lower_seq(#[trigger] t[j].0) != lower_seq(
            name,
        ) by {
            assert(t[j] == hs[j + 1]);
        }
        lemma_header_index_is(t, name, i - 1);
    }
}

pub proof fn lemma_header_index_none(hs: Seq<(Seq<u8>, Seq<u8>)>, name: Seq<u8>)
    requires
        forall|j: int| 0 <= j < hs.len() ==> lower_seq(#[trigger] hs[j].0) != lower_seq(name),
    ensures
        header_index(hs, name) == -1,
    decreases hs.len(),
{
    if hs.len() > 0 {
        let t = hs.drop_first();
        assert forall|j: int| 0 <= j < t.len() implies lower_seq(#[trigger] t[j].0) != lower_seq(
            name,
        ) by {
            assert(t[j] == hs[j + 1]);
        }
        lemma_header_index_none(t, name);
    }
}

impl HttpHeader {
    /// Index of the first header named `name` up to ASCII case.
    pub fn find(&self, name: &[u8]) -> (r: Option<usize>)
        ensures
            r is Some ==> header_index(self@, name@) == r->Some_0 as int,
            r is None ==> header_index(self@, name@) == -1,
    {
        let n = self.headers.len();
        let mut i: usize = 0;
        while i < n
            invariant
                0 <= i <= n == self.headers@.len(),
                forall|j: int| 0 <= j < i ==> lower_seq(#[trigger] self@[j].0) != lower_seq(name@),
            decreases n - i,
        {
            let pair = &self.headers[i];
            proof {
                assert(self@[i as int] == self.headers@[i as int].deep_view());
                assert(self@[i as int].0 =~= self.headers@[i as int].0@);
            }
            if eq_ignore_case(pair.0.as_slice(), name) {
                proof {
                    lemma_header_index_is(self@, name@, i as int);
                }
                return Some(i);
            }
            i = i + 1;
        }
        proof {
            lemma_header_index_none(self@, name@);
        }
        None
    }

    /// The value of the first header named `name` up to ASCII case.
    pub fn lookup(&self, name: &[u8]) -> (r: Option<Vec<u8>>)
        ensures
            r is Some ==> header_lookup(self@, name@) == Option::Some(r->Some_0@),
            r is None ==> header_lookup(self@, name@) is None,
    {
        match self.find(name) {
            Some(i) => {
                proof {
                    lemma_header_index(self@, name@);
                    assert(self@[i as int] == self.headers@[i as int].deep_view());
                    assert(self@[i as int].1 =~= self.headers@[i as int].1@);
                }
                Some(self.headers[i].1.clone())
            },
            None => None,
        }
    }

    /// Sets `name` to `value`, replacing an existing entry of that name
    /// (up to ASCII case) or appending a new one.
    pub fn set(&mut self, name: Vec<u8>, value: Vec<u8>)
        ensures
            final(self)@ == header_set(old(self)@, name@, value@),
    {
        let idx = self.find(name.as_slice());
        match idx {
            Some(i) => {
                proof {
                    lemma_header_index(self@, name@);
                }
                self.headers.remove(i);
                self.headers.insert(i, (name, value));
                proof {
                    assert(self@ =~~= header_set(old(self)@, name@, value@));
                }
            },
            None => {
                self.headers.push((name, value));
                proof {
                    assert(self@ =~~= header_set(old(self)@, name@, value@));
                }
            },
        }
    }
}

/// The header list after setting `name` to `value`.
pub open spec fn header_set(
    hs: Seq<(Seq<u8>, Seq<u8>)>,
    name: Seq<u8>,
    value: Seq<u8>,
) -> Seq<(Seq<u8>, Seq<u8>)> {
    if header_index(hs, name) == -1 {
        hs.push((name, value))
    } else {
        hs.update(header_index(hs, name), (name, value))
    }
}

impl Default for HttpHeader {
    /// The default response headers: a `Date` stamp and the `Server` product.
    fn default() -> (r: Self)
        ensures
            r@.len() == 2,
            r@[0].0 == ascii("Date"@),
            r@[1].0 == ascii("Server"@),
            r@[1].1 == ascii("twebd/0.1.0"@),
    {
        proof {
            reveal_strlit("Date");
            reveal_strlit("Server");
            reveal_strlit("twebd/0.1.0");
        }
        let mut headers: Vec<(Vec<u8>, Vec<u8>)> = Vec::new();
        headers.push((sbytes("Date"), crate::ext::now_rfc2822()));
        headers.push((sbytes("Server"), sbytes("twebd/0.1.0")));
        HttpHeader { headers }
    }
}

/// A message body: raw bytes.
#[derive(Debug, Clone)]
pub struct HttpBody {
    pub content: Vec<u8>,
}

impl View for HttpBody {
    type V = Seq<u8>;

    open spec fn view(&self) -> Seq<u8> {
        self.content@
    }
}

impl HttpBody {
    pub fn new(v: Vec<u8>) -> (r: Self)
        ensures
            r@ == v@,
    {
        HttpBody { content: v }
    }
}

impl Default for HttpBody {
    fn default() -> (r: Self)
        ensures
            r@ == Seq::<u8>::empty(),
    {
        let content: Vec<u8> = Vec::new();
        proof {
            assert(content@ =~= Seq::<u8>::empty());
        }
        HttpBody { content }
    }
}

/// A parsed request start line.
#[derive(Debug, Clone)]
pub struct HttpLine {
    pub method: HttpMethod,
    pub uri: Vec<u8>,
    pub version: HttpVersion,
}

/// A response status line.
#[derive(Debug, Clone)]
pub struct HttpResponseLine {
    pub version: HttpVersion,
    pub status: HttpStatus,
}

impl HttpResponseLine {
    pub fn new(version: HttpVersion, status: HttpStatus) -> (r: HttpResponseLine)
        ensures
            r.version == version,
            r.status == status,
    {
        HttpResponseLine { version, status }
    }
}

/// The ghost model of a request.
#[verifier::ext_equal]
pub struct ReqModel {
    pub method: HttpMethod,
    pub uri: Seq<u8>,
    pub version: HttpVersion,
    pub headers: Seq<(Seq<u8>, Seq<u8>)>,
    pub body: Seq<u8>,
}

/// A parsed HTTP request.
#[derive(Debug, Clone)]
pub struct HttpRequest {
    pub method: HttpMethod,
    pub uri: Vec<u8>,
    pub version: HttpVersion,
    pub header: HttpHeader,
    pub body: HttpBody,
}

impl View for HttpRequest {
    type V = ReqModel;

    open spec fn view(&self) -> ReqModel {
        ReqModel {
            method: self.method,
            uri: self.uri@,
            version: self.version,
            headers: self.header@,
            body: self.body@,
        }
    }
}

/// The ghost model of a response.
#[verifier::ext_equal]
pub struct RespModel {
    pub version: HttpVersion,
    pub status: HttpStatus,
    pub headers: Seq<(Seq<u8>, Seq<u8>)>,
    pub body: Seq<u8>,
}

/// An HTTP response under construction.
#[derive(Debug, Clone)]
pub struct HttpResponse {
    pub version: HttpVersion,
    pub status: HttpStatus,
    pub header: HttpHeader,
    pub body: HttpBody,
}

impl View for HttpResponse {
    type V = RespModel;

    open spec fn view(&self) -> RespModel {
        RespModel {
            version: self.version,
            status: self.status,
            headers: self.header@,
            body: self.body@,
        }
    }
}

impl HttpResponse {
    /// Sets `key` to `value`, replacing an entry of the same name.
    pub fn add_header(&mut self, key: Vec<u8>, value: Vec<u8>)
        ensures
            final(self)@.headers == header_set(old(self)@.headers, key@, value@),
            final(self).status == old(self).status,
            final(self).version == old(self).version,
            final(self)@.body == old(self)@.body,
    {
        self.header.set(key, value);
    }

    /// Sets the `Content-Type` header.
    pub fn content_type(&mut self, v: Vec<u8>)
        ensures
            final(self)@.headers == header_set(old(self)@.headers, ascii("Content-Type"@), v@),
            final(self).status == old(self).status,
            final(self).version == old(self).version,
            final(self)@.body == old(self)@.body,
    {
        proof {
            reveal_strlit("Content-Type");
        }
        self.add_header(sbytes("Content-Type"), v);
    }

    /// Sets the `Content-Length` header to the decimal form of `v`.
    pub fn content_length(&mut self, v: usize)
        ensures
            final(self)@.headers == header_set(
                old(self)@.headers,
                ascii("Content-Length"@),
                dec_digits(v as nat),
            ),
            final(self).status == old(self).status,
            final(self).version == old(self).version,
            final(self)@.body == old(self)@.body,
    {
        proof {
            reveal_strlit("Content-Length");
        }
        self.add_header(sbytes("Content-Length"), u64_to_dec(v as u64));
    }
}

impl HttpResponse {
    /// The stock response for a status: the status itself, its reason
    /// phrase as a plain-text body, and matching content headers.
    pub fn from_status(status: HttpStatus) -> (r: HttpResponse)
        ensures
            r.status == status,
            r.version == HttpVersion::Http11,
            r@.body == status_reason(status),
            r@.headers.len() == 4,
            r@.headers[0].0 == ascii("Date"@),
            r@.headers[1] == (ascii("Server"@), ascii("twebd/0.1.0"@)),
            r@.headers[2] == (ascii("Content-Type"@), ascii("text/plain"@)),
            r@.headers[3] == (
                ascii("Content-Length"@),
                dec_digits(status_reason(status).len()),
            ),
    {
        proof {
            reveal_strlit("Date");
            reveal_strlit("Server");
            reveal_strlit("Content-Type");
            reveal_strlit("Content-Length");
            reveal_strlit("text/plain");
        }
        let mut r = HttpResponse::default();
        r.status = status;
        let reason = status.reason();
        let blen = reason.len();
        r.body = HttpBody::new(reason);
        proof {
            assert(ascii("Date"@).len() == 4);
            assert(ascii("Server"@).len() == 6);
            assert(ascii("Content-Type"@).len() == 12);
            assert(ascii("Content-Length"@).len() == 14);
            assert(lower_seq(r@.headers[0].0).len() == 4);
            assert(lower_seq(r@.headers[1].0).len() == 6);
            assert(lower_seq(ascii("Content-Type"@)).len() == 12);
            lemma_header_index_none(r@.headers, ascii("Content-Type"@));
        }
        r.content_type(sbytes("text/plain"));
        proof {
            assert(lower_seq(r@.headers[0].0).len() == 4);
            assert(lower_seq(r@.headers[1].0).len() == 6);
            assert(lower_seq(r@.headers[2].0).len() == 12);
            assert(lower_seq(ascii("Content-Length"@)).len() == 14);
            lemma_header_index_none(r@.headers, ascii("Content-Length"@));
        }
        r.content_length(blen);
        r
    }
}

impl Default for HttpResponse {
    /// A `200 OK` HTTP/1.1 response with the default headers and no body.
    fn default() -> (r: Self)
        ensures
            r.version == HttpVersion::Http11,
            r.status == HttpStatus::OK,
            r@.body == Seq::<u8>::empty(),
            r@.headers.len() == 2,
            r@.headers[0].0 == ascii("Date"@),
            r@.headers[1].0 == ascii("Server"@),
            r@.headers[1].1 == ascii("twebd/0.1.0"@),
    {
        HttpResponse {
            version: HttpVersion::Http11,
            status: HttpStatus::OK,
            header: HttpHeader::default(),
            body: HttpBody::default(),
        }
    }
}

/// A typed marker for the request and response handlers.
pub struct HttpHandler<T> {
    handler_type: core::marker::PhantomData<T>,
}

impl<T> HttpHandler<T> {
    pub fn new() -> Self {
        HttpHandler { handler_type: core::marker::PhantomData }
    }
}

} // verus!
