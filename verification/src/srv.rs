//! The event loop's view of its connections: a registry keyed by token.
//!
//! The registry holds every live connection and nothing else: tokens are
//! unique, the acceptor's token is never reused, and a connection that
//! has reached `Closed` is never inside. Polling and socket accept stay
//! outside the library; they take connections out, advance them, and
//! check them back in while open.

use vstd::prelude::*;
use crate::conn::{Connection, ConnState};

verus! {

/// Errors from resolving the configured server root at startup.
#[derive(Debug, Copy, Clone, PartialEq, Eq, Structural)]
pub enum ServerRootError {
    Unknown,
}

/// The registry invariant: no reserved or duplicate tokens, and no
/// connection that has already closed.
pub open spec fn registry_wf(r: Registry) -> bool {
    &&& r.next_token != crate::SERVER_SOCKET_TOKEN
    &&& forall|i: int|
        0 <= i < r.conns@.len() ==> (#[trigger] r.conns@[i]).token != crate::SERVER_SOCKET_TOKEN
            && !(r.conns@[i].state == ConnState::Closed)
    &&& forall|i: int, j: int|
        0 <= i < j < r.conns@.len() ==> (#[trigger] r.conns@[i]).token != (
        #[trigger] r.conns@[j]).token
}

/// Index of the first connection that owns `token`, or -1.
pub open spec fn token_index(conns: Seq<Connection>, token: usize) -> int
    decreases conns.len(),
{
    if conns.len() == 0 {
        -1
    } else if conns[0].token == token {
        0
    } else {
        let r = token_index(conns.drop_first(), token);
        if r == -1 {
            -1
        } else {
            r + 1
        }
    }
}

pub proof fn lemma_token_index(conns: Seq<Connection>, token: usize)
    ensures
        token_index(conns, token) == -1 ==> forall|i: int|
            0 <= i < conns.len() ==> (#[trigger] conns[i]).token != token,
        token_index(conns, token) != -1 ==> 0 <= token_index(conns, token) < conns.len()
            && conns[token_index(conns, token)].token == token && forall|i: int|
            0 <= i < token_index(conns, token) ==> (#[trigger] conns[i]).token != token,
    decreases conns.len(),
{
    if conns.len() > 0 && conns[0].token != token {
        let t = conns.drop_first();
        lemma_token_index(t, token);
        if token_index(t, token) == -1 {
            assert forall|i: int| 0 <= i < conns.len() implies (#[trigger] conns[i]).token
                != token by {
                if i > 0 {
                    assert(t[i - 1] == conns[i]);
                }
            }
        } else {
            assert(conns[token_index(conns, token)] == t[token_index(t, token)]);
            assert forall|i: int| 0 <= i < token_index(conns, token) implies (
            #[trigger] conns[i]).token != token by {
                if i > 0 {
                    assert(t[i - 1] == conns[i]);
                }
            }
        }
    }
}

pub proof fn lemma_token_index_is(conns: Seq<Connection>, token: usize, i: int)
    requires
        0 <= i < conns.len(),
        conns[i].token == token,
        forall|k: int| 0 <= k < i ==> (#[trigger] conns[k]).token != token,
    ensures
        token_index(conns, token) == i,
    decreases i,
{
    if i > 0 {
        let t = conns.drop_first();
        assert(t[i - 1] == conns[i]);
        assert forall|k: int| 0 <= k < i - 1 implies (#[trigger] t[k]).token != token by {
            assert(t[k] == conns[k + 1]);
        }
        lemma_token_index_is(t, token, i - 1);
    }
}

pub proof fn lemma_token_index_none(conns: Seq<Connection>, token: usize)
    requires
        forall|i: int| 0 <= i < conns.len() ==> (#[trigger] conns[i]).token != token,
    ensures
        token_index(conns, token) == -1,
    decreases conns.len(),
{
    if conns.len() > 0 {
        let t = conns.drop_first();
        assert forall|i: int| 0 <= i < t.len() implies (#[trigger] t[i]).token != token by {
            assert(t[i] == conns[i + 1]);
        }
        lemma_token_index_none(t, token);
    }
}

/// The live connections of one event loop.
pub struct Registry {
    pub conns: Vec<Connection>,
    pub next_token: usize,
}

impl Registry {
    pub fn new() -> (r: Registry)
        ensures
            registry_wf(r),
            r.conns@.len() == 0,
            r.next_token == 1,
    {
        Registry { conns: Vec::new(), next_token: 1 }
    }

    /// Admits a freshly accepted connection under the next token. The
    /// token counter grows monotonically and skips the reserved acceptor
    /// token when it wraps.
    pub fn accept(&mut self) -> (t: usize)
        requires
            registry_wf(*old(self)),
            forall|i: int|
                0 <= i < old(self).conns@.len() ==> (#[trigger] old(self).conns@[i]).token != old(
                    self,
                ).next_token,
        ensures
            registry_wf(*final(self)),
            t == old(self).next_token,
            final(self).conns@.len() == old(self).conns@.len() + 1,
            final(self).conns@.last().token == t,
            final(self).conns@.last().state == ConnState::Opened,
            forall|i: int|
                0 <= i < old(self).conns@.len() ==> final(self).conns@[i] == old(self).conns@[i],
    {
        let t = self.next_token;
        let c = Connection::new(t);
        self.conns.push(c);
        self.next_token = if t == usize::MAX {
            1
        } else {
            t + 1
        };
        proof {
            assert forall|i: int, j: int|
                0 <= i < j < self.conns@.len() implies (#[trigger] self.conns@[i]).token != (
                #[trigger] self.conns@[j]).token by {
                if j < self.conns@.len() - 1 {
                    assert(self.conns@[i] == old(self).conns@[i]);
                    assert(self.conns@[j] == old(self).conns@[j]);
                } else {
                    assert(self.conns@[i] == old(self).conns@[i]);
                }
            }
        }
        t
    }

    /// The position of the first connection that owns a token.
    pub fn position(&self, token: usize) -> (r: Option<usize>)
        ensures
            r matches Some(i) ==> i as int == token_index(self.conns@, token) && i
                < self.conns@.len() && self.conns@[i as int].token == token,
            r is None <==> token_index(self.conns@, token) == -1,
            r is None ==> forall|i: int|
                0 <= i < self.conns@.len() ==> (#[trigger] self.conns@[i]).token != token,
    {
        let n = self.conns.len();
        let mut i: usize = 0;
        while i < n
            invariant
                0 <= i <= n == self.conns@.len(),
                forall|k: int| 0 <= k < i ==> (#[trigger] self.conns@[k]).token != token,
            decreases n - i,
        {
            if self.conns[i].token == token {
                proof {
                    lemma_token_index_is(self.conns@, token, i as int);
                }
                return Some(i);
            }
            i = i + 1;
        }
        proof {
            lemma_token_index_none(self.conns@, token);
        }
        None
    }

    /// Removes and returns the connection that owns a token, so that the
    /// caller can advance it. The other connections stay, in order.
    pub fn take(&mut self, token: usize) -> (r: Option<Connection>)
        requires
            registry_wf(*old(self)),
        ensures
            registry_wf(*final(self)),
            final(self).next_token == old(self).next_token,
            r is None <==> token_index(old(self).conns@, token) == -1,
            r is None ==> final(self).conns@ == old(self).conns@,
            r matches Some(c) ==> c == old(self).conns@[token_index(old(self).conns@, token)]
                && c.token == token && final(self).conns@ == old(self).conns@.remove(
                token_index(old(self).conns@, token),
            ),
            r is Some ==> forall|i: int|
                0 <= i < final(self).conns@.len() ==> (#[trigger] final(self).conns@[i]).token
                    != token,
    {
        match self.position(token) {
            None => None,
            Some(i) => {
                let c = self.conns.remove(i);
                proof {
                    assert forall|k: int|
                        0 <= k < self.conns@.len() implies (#[trigger] self.conns@[k]).token
                        != token by {
                        if k < i {
                            assert(self.conns@[k] == old(self).conns@[k]);
                        } else {
                            assert(self.conns@[k] == old(self).conns@[k + 1]);
                        }
                    }
                    assert forall|k: int, j: int|
                        0 <= k < j < self.conns@.len() implies (#[trigger] self.conns@[k]).token
                        != (#[trigger] self.conns@[j]).token by {
                        let k0 = if k < i { k } else { k + 1 };
                        let j0 = if j < i { j } else { j + 1 };
                        assert(self.conns@[k] == old(self).conns@[k0]);
                        assert(self.conns@[j] == old(self).conns@[j0]);
                    }
                }
                Some(c)
            },
        }
    }

    /// Puts an advanced connection back, while it is still open. A
    /// connection that has reached `Closed` stays out: that is the
    /// registry invariant.
    pub fn check_in(&mut self, conn: Connection)
        requires
            registry_wf(*old(self)),
            conn.token != crate::SERVER_SOCKET_TOKEN,
            !(conn.state == ConnState::Closed),
            forall|i: int|
                0 <= i < old(self).conns@.len() ==> (#[trigger] old(self).conns@[i]).token
                    != conn.token,
        ensures
            registry_wf(*final(self)),
            final(self).conns@ == old(self).conns@.push(conn),
            final(self).next_token == old(self).next_token,
    {
        self.conns.push(conn);
        proof {
            assert forall|i: int, j: int|
                0 <= i < j < self.conns@.len() implies (#[trigger] self.conns@[i]).token != (
                #[trigger] self.conns@[j]).token by {
                if j < self.conns@.len() - 1 {
                    assert(self.conns@[i] == old(self).conns@[i]);
                    assert(self.conns@[j] == old(self).conns@[j]);
                } else {
                    assert(self.conns@[i] == old(self).conns@[i]);
                }
            }
        }
    }

    pub fn len(&self) -> (r: usize)
        ensures
            r == self.conns@.len(),
    {
        self.conns.len()
    }
}

/// A connection that has reached `Closed` does not appear in the
/// registry: everything the registry holds is in some other state, under
/// a token of its own.
pub proof fn lemma_closed_not_registered(r: Registry, i: int)
    requires
        registry_wf(r),
        0 <= i < r.conns@.len(),
    ensures
        r.conns@[i].state != ConnState::Closed,
        r.conns@[i].token != crate::SERVER_SOCKET_TOKEN,
{
}

} // verus!
