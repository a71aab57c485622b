//! The per-connection state machine: accumulating a request head across
//! partial reads, the oversize-head rule, response staging and draining,
//! and the readiness interest derived from each state.
//!
//! Socket reads and writes happen outside the library; each event hands
//! in plain bytes or byte counts and this module decides the transition.

use vstd::prelude::*;
use crate::octets::{subv, ascii, find_blank, find_blank_idx, lemma_find_blank};
use crate::http::{HttpStatus, HttpParseError, HttpRequest, HttpResponse, header_index};
use crate::parse::{decode, spec_decode, spec_cl, content_length_of};
use crate::encode::spec_encode_response;

verus! {

/// A request head larger than this without a CRLF CRLF terminator is
/// answered with `431`.
pub const MAX_HEAD_BYTES: usize = 16384;

#[derive(Debug, Copy, Clone, PartialEq, Eq, Structural)]
pub enum ConnState {
    Opened,
    Reading,
    Responding,
    Draining,
    Closing,
    Closed,
}

/// The readiness set a connection wants registered.
#[derive(Debug, Copy, Clone, PartialEq, Eq, Structural)]
pub enum Interest {
    Read,
    Write,
    ReadWrite,
    Idle,
}

/// The status a request-head parse error is answered with.
pub open spec fn spec_error_status(e: HttpParseError) -> HttpStatus {
    match e {
        HttpParseError::Buffer => HttpStatus::BadRequest,
        HttpParseError::HttpRequestLine => HttpStatus::BadRequest,
        HttpParseError::HttpMethod => HttpStatus::BadRequest,
        HttpParseError::HttpVersion => HttpStatus::HTTPVersionNotSupported,
        HttpParseError::HttpHeader => HttpStatus::BadRequest,
    }
}

/// Maps a parse error to its response status.
pub fn error_status(e: HttpParseError) -> (r: HttpStatus)
    ensures
        r == spec_error_status(e),
{
    match e {
        HttpParseError::Buffer => HttpStatus::BadRequest,
        HttpParseError::HttpRequestLine => HttpStatus::BadRequest,
        HttpParseError::HttpMethod => HttpStatus::BadRequest,
        HttpParseError::HttpVersion => HttpStatus::HTTPVersionNotSupported,
        HttpParseError::HttpHeader => HttpStatus::BadRequest,
    }
}

/// A full request head has arrived.
pub open spec fn head_complete(buf: Seq<u8>) -> bool {
    find_blank(buf) != -1
}

/// The declared body has fully arrived after the head.
pub open spec fn body_complete(buf: Seq<u8>) -> bool
    recommends
        head_complete(buf),
        spec_decode(buf) is Ok,
{
    buf.len() - (find_blank(buf) + 4) >= spec_cl(spec_decode(buf)->Ok_0.headers)
}

/// The readiness interest of a state: read while reading, read and write
/// while a response is pending or draining, none while closing.
pub open spec fn spec_interest(s: ConnState) -> Interest {
    match s {
        ConnState::Opened => Interest::Read,
        ConnState::Reading => Interest::Read,
        ConnState::Responding => Interest::ReadWrite,
        ConnState::Draining => Interest::ReadWrite,
        ConnState::Closing => Interest::Idle,
        ConnState::Closed => Interest::Idle,
    }
}

/// The interest a TLS session asks for, from its handshake flags.
pub fn tls_interest(wants_read: bool, wants_write: bool) -> (r: Interest)
    ensures
        wants_read && wants_write ==> r == Interest::ReadWrite,
        wants_read && !wants_write ==> r == Interest::Read,
        !wants_read ==> r == Interest::Write,
{
    if wants_read && wants_write {
        Interest::ReadWrite
    } else if wants_read {
        Interest::Read
    } else {
        Interest::Write
    }
}

/// One client connection, as the event loop sees it.
#[derive(Debug)]
pub struct Connection {
    pub token: usize,
    pub state: ConnState,
    pub rbuf: Vec<u8>,
    pub wbuf: Vec<u8>,
    pub request: Option<HttpRequest>,
    pub response: Option<HttpResponse>,
}

impl Connection {
    /// A fresh connection under a nonzero registry token.
    pub fn new(token: usize) -> (r: Connection)
        requires
            token != crate::SERVER_SOCKET_TOKEN,
        ensures
            r.token == token,
            r.state == ConnState::Opened,
            r.rbuf@ == Seq::<u8>::empty(),
            r.wbuf@ == Seq::<u8>::empty(),
            r.request is None,
            r.response is None,
    {
        let rbuf: Vec<u8> = Vec::new();
        let wbuf: Vec<u8> = Vec::new();
        proof {
            assert(rbuf@ =~= Seq::<u8>::empty());
            assert(wbuf@ =~= Seq::<u8>::empty());
        }
        Connection { token, state: ConnState::Opened, rbuf, wbuf, request: None, response: None }
    }

    pub fn is_closing(&self) -> (r: bool)
        ensures
            r == (self.state == ConnState::Closing),
    {
        match self.state {
            ConnState::Closing => true,
            _ => false,
        }
    }

    pub fn is_closed(&self) -> (r: bool)
        ensures
            r == (self.state == ConnState::Closed),
    {
        match self.state {
            ConnState::Closed => true,
            _ => false,
        }
    }

    /// The readiness set to register for the current state.
    pub fn interest(&self) -> (r: Interest)
        ensures
            r == spec_interest(self.state),
    {
        match self.state {
            ConnState::Opened => Interest::Read,
            ConnState::Reading => Interest::Read,
            ConnState::Responding => Interest::ReadWrite,
            ConnState::Draining => Interest::ReadWrite,
            ConnState::Closing => Interest::Idle,
            ConnState::Closed => Interest::Idle,
        }
    }

    /// Stages bytes for the wire.
    pub fn write_b(&mut self, buf: Vec<u8>) -> (r: usize)
        ensures
            final(self).wbuf@ == old(self).wbuf@ + buf@,
            r == buf@.len(),
            final(self).state == old(self).state,
            final(self).token == old(self).token,
            final(self).rbuf == old(self).rbuf,
            final(self).request == old(self).request,
            final(self).response == old(self).response,
    {
        let n = buf.len();
        let mut b = buf;
        self.wbuf.append(&mut b);
        n
    }

    /// Feeds bytes read from the socket into the connection. Once the
    /// CRLF CRLF terminator and the declared body have arrived, the
    /// request is parsed and held for the responder; a malformed head is
    /// answered at once; a head over `MAX_HEAD_BYTES` without its
    /// terminator is answered with `431`.
    pub fn on_data(&mut self, chunk: &Vec<u8>)
        requires
            old(self).state == ConnState::Opened || old(self).state == ConnState::Reading,
            old(self).request is None,
            old(self).response is None,
        ensures
            final(self).token == old(self).token,
            final(self).wbuf == old(self).wbuf,
            final(self).rbuf@ == old(self).rbuf@ + chunk@,
            ({
                let buf = old(self).rbuf@ + chunk@;
                &&& (!head_complete(buf) && buf.len() <= MAX_HEAD_BYTES ==> final(self).state
                    == ConnState::Reading && final(self).request is None && final(self).response
                    is None)
                &&& (!head_complete(buf) && buf.len() > MAX_HEAD_BYTES ==> final(self).state
                    == ConnState::Responding && final(self).request is None
                    && (final(self).response matches Some(r) && r.status
                    == HttpStatus::RequestHeaderFieldsTooLarge))
                &&& (head_complete(buf) ==> match spec_decode(buf) {
                    Err(e) => final(self).state == ConnState::Responding && final(self).request
                        is None && (final(self).response matches Some(r) && r.status
                        == spec_error_status(e)),
                    Ok(m) => {
                        &&& (body_complete(buf) ==> final(self).state == ConnState::Responding
                            && (final(self).request matches Some(q) && q@ == m)
                            && final(self).response is None)
                        &&& (!body_complete(buf) ==> final(self).state == ConnState::Reading
                            && final(self).request is None && final(self).response is None)
                    },
                })
            }),
    {
        let mut c = subv(chunk.as_slice(), 0, chunk.len());
        self.rbuf.append(&mut c);
        proof {
            assert(self.rbuf@ =~= old(self).rbuf@ + chunk@);
        }
        self.state = ConnState::Reading;
        match find_blank_idx(self.rbuf.as_slice()) {
            None => {
                if self.rbuf.len() > MAX_HEAD_BYTES {
                    self.response = Some(
                        HttpResponse::from_status(HttpStatus::RequestHeaderFieldsTooLarge),
                    );
                    self.state = ConnState::Responding;
                }
            },
            Some(i) => {
                proof {
                    lemma_find_blank(self.rbuf@);
                }
                match decode(self.rbuf.as_slice()) {
                    Err(e) => {
                        self.response = Some(HttpResponse::from_status(error_status(e)));
                        self.state = ConnState::Responding;
                    },
                    Ok(req) => {
                        let avail = self.rbuf.len() - (i + 4);
                        let cl = content_length_of(&req.header);
                        if avail as u64 >= cl {
                            self.request = Some(req);
                            self.state = ConnState::Responding;
                        }
                    },
                }
            },
        }
    }

    /// Stages a built response and moves on to draining it.
    pub fn enqueue_response(&mut self, resp: &HttpResponse)
        requires
            old(self).state == ConnState::Responding,
        ensures
            final(self).state == ConnState::Draining,
            header_index(resp@.headers, ascii("Date"@)) != -1 && header_index(
                resp@.headers,
                ascii("Server"@),
            ) != -1 ==> final(self).wbuf@ == old(self).wbuf@ + spec_encode_response(resp@),
            final(self).token == old(self).token,
            final(self).rbuf == old(self).rbuf,
    {
        let b = resp.to_buf();
        self.write_b(b);
        self.state = ConnState::Draining;
    }

    /// Acknowledges that the socket took `n` staged bytes; once the
    /// buffer drains while draining, the connection starts closing.
    pub fn on_writable(&mut self, n: usize)
        requires
            n <= old(self).wbuf@.len(),
        ensures
            final(self).wbuf@ == old(self).wbuf@.skip(n as int),
            final(self).token == old(self).token,
            final(self).rbuf == old(self).rbuf,
            old(self).state == ConnState::Draining && old(self).wbuf@.len() == n
                ==> final(self).state == ConnState::Closing,
            !(old(self).state == ConnState::Draining && old(self).wbuf@.len() == n)
                ==> final(self).state == old(self).state,
    {
        let rest = subv(self.wbuf.as_slice(), n, self.wbuf.len());
        self.wbuf = rest;
        let drained = self.wbuf.len() == 0;
        let is_draining = match self.state {
            ConnState::Draining => true,
            _ => false,
        };
        if is_draining && drained {
            self.state = ConnState::Closing;
        }
    }

    /// The peer closed its side before a full request arrived: close
    /// without a response.
    pub fn on_peer_close(&mut self)
        requires
            old(self).state == ConnState::Opened || old(self).state == ConnState::Reading,
        ensures
            final(self).state == ConnState::Closing,
            final(self).token == old(self).token,
    {
        self.state = ConnState::Closing;
    }

    /// Records that the socket has been shut down; the connection leaves
    /// the registry after this.
    pub fn shutdown(&mut self)
        requires
            old(self).state == ConnState::Closing,
        ensures
            final(self).state == ConnState::Closed,
            final(self).token == old(self).token,
    {
        self.state = ConnState::Closed;
    }
}

} // verus!
