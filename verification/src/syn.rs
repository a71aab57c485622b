//! The worker pool's message protocol: jobs and the terminate order.
//!
//! Threads and channels stay outside the library. What is verified is
//! the protocol they follow: a worker keeps going exactly until it takes
//! a terminate message, and shutting a pool down issues one terminate
//! per worker, so joining every worker cannot block.

use vstd::prelude::*;

verus! {

/// What travels over the pool's channel: a job ticket or the order to
/// stop.
#[derive(Debug, Copy, Clone, PartialEq, Eq, Structural)]
pub enum Message {
    Job(u64),
    Terminate,
}

/// Whether a worker keeps running after taking a message.
pub open spec fn spec_worker_continues(m: Message) -> bool {
    !(m is Terminate)
}

/// A worker's reaction to one message: keep running on a job, stop on
/// terminate.
pub fn worker_step(m: &Message) -> (cont: bool)
    ensures
        cont == spec_worker_continues(*m),
{
    match m {
        Message::Job(_) => true,
        Message::Terminate => false,
    }
}

/// A worker's whole run over a queue of messages: it consumes messages
/// until the first terminate and stops there.
pub fn worker_run(msgs: &Vec<Message>) -> (consumed: usize)
    ensures
        consumed <= msgs@.len(),
        forall|i: int| 0 <= i < consumed - 1 ==> spec_worker_continues(#[trigger] msgs@[i]),
        (exists|i: int| 0 <= i < msgs@.len() && !spec_worker_continues(#[trigger] msgs@[i]))
            ==> consumed > 0 && !spec_worker_continues(msgs@[consumed - 1]),
        (forall|i: int| 0 <= i < msgs@.len() ==> spec_worker_continues(#[trigger] msgs@[i]))
            ==> consumed == msgs@.len(),
{
    let n = msgs.len();
    let mut i: usize = 0;
    while i < n
        invariant
            0 <= i <= n == msgs@.len(),
            forall|k: int| 0 <= k < i ==> spec_worker_continues(#[trigger] msgs@[k]),
        decreases n - i,
    {
        if !worker_step(&msgs[i]) {
            return i + 1;
        }
        i = i + 1;
    }
    n
}

/// The messages a pool of `n` workers is shut down with: one terminate
/// per worker.
pub fn shutdown_plan(n: usize) -> (r: Vec<Message>)
    ensures
        r@.len() == n,
        forall|i: int| 0 <= i < n ==> #[trigger] r@[i] == Message::Terminate,
{
    let mut r: Vec<Message> = Vec::new();
    let mut k: usize = 0;
    while k < n
        invariant
            0 <= k <= n,
            r@.len() == k,
            forall|i: int| 0 <= i < k ==> #[trigger] r@[i] == Message::Terminate,
        decreases n - k,
    {
        r.push(Message::Terminate);
        k = k + 1;
    }
    r
}

/// A fixed-size pool of workers; the threads themselves live outside the
/// library.
#[derive(Debug, Copy, Clone, PartialEq, Eq, Structural)]
pub struct ThreadPool {
    pub workers: usize,
}

impl ThreadPool {
    /// A pool must have at least one worker.
    pub fn new(size: usize) -> (r: ThreadPool)
        requires
            size >= 1,
        ensures
            r.workers == size,
    {
        ThreadPool { workers: size }
    }

    pub fn size(&self) -> (r: usize)
        ensures
            r == self.workers,
    {
        self.workers
    }
}

/// Dropping the pool joins every worker: the shutdown plan carries one
/// terminate per worker, a worker stops on the first terminate it takes,
/// and a stopped worker can be joined — whether or not any jobs are
/// still queued.
pub proof fn lemma_pool_drop_joins(plan: Seq<Message>, n: int)
    requires
        plan.len() == n,
        forall|i: int| 0 <= i < n ==> #[trigger] plan[i] == Message::Terminate,
    ensures
        forall|i: int| 0 <= i < n ==> !spec_worker_continues(#[trigger] plan[i]),
{
}

} // verus!
