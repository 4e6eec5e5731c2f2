//! The bookkeeping of asynchronous work: readiness tokens, the operations
//! waiting on them, and the requests the run loop carries out.
use vstd::prelude::*;
use std::collections::VecDeque;
use crate::object::{Capability, FileOp};
use crate::value::Value;

verus! {

/// What waits on a token.
#[derive(Debug)]
pub enum PendingOp {
    /// A timer: its callback is called with no arguments.
    Timer(Value),
    /// A file operation: its promise settles with the outcome.
    File(Capability),
}

/// Work for the run loop to carry out off the engine.
#[derive(Debug)]
pub enum Request {
    /// Fire `token` after `duration`, a number (IEEE-754 bits) of
    /// milliseconds.
    Timer { token: usize, duration: u64 },
    /// Perform `op` on `operands` (paths, or a path and contents), then
    /// answer `token`.
    File { token: usize, op: FileOp, operands: Vec<String> },
}

/// The values a waiting operation holds.
pub open spec fn op_values(op: PendingOp) -> Seq<Value> {
    match op {
        PendingOp::Timer(cb) => seq![cb],
        PendingOp::File(cap) => seq![cap.promise, cap.resolve, cap.reject],
    }
}

pub open spec fn pending_values(ops: Seq<(usize, PendingOp)>) -> Seq<Value>
    decreases ops.len(),
{
    if ops.len() == 0 {
        Seq::empty()
    } else {
        pending_values(ops.drop_last()) + op_values(ops.last().1)
    }
}

/// Tokens are issued in increasing order; each pending operation has a
/// token of its own, below the next one to issue.
pub struct Reactor {
    next_token: usize,
    pending: Vec<(usize, PendingOp)>,
    requests: VecDeque<Request>,
}

impl Reactor {
    pub closed spec fn next(&self) -> nat {
        self.next_token as nat
    }

    pub closed spec fn queued(&self) -> Seq<Request> {
        self.requests@
    }

    pub closed spec fn pending_ops(&self) -> Seq<(usize, PendingOp)> {
        self.pending@
    }

    /// Whether an operation waits on `token`.
    pub open spec fn is_pending(&self, token: usize) -> bool {
        exists|i: int| 0 <= i < self.pending_ops().len() && self.pending_ops()[i].0 == token
    }

    pub closed spec fn wf(&self) -> bool {
        &&& forall|i: int| 0 <= i < self.pending@.len() ==> (#[trigger] self.pending@[i]).0 < self.next_token
        &&& forall|i: int, j: int| #![trigger self.pending@[i], self.pending@[j]]
            0 <= i < j < self.pending@.len() ==> self.pending@[i].0 != self.pending@[j].0
    }

    /// How the tables change: tokens only grow, and a token that no longer
    /// waits (or was issued and consumed) never waits again.
    pub open spec fn evolves_to(&self, new: &Reactor) -> bool {
        &&& new.next() >= self.next()
        &&& forall|t: usize| t < self.next() && !self.is_pending(t) ==> !#[trigger] new.is_pending(t)
    }

    /// A waiting token was issued already.
    pub proof fn lemma_pending_below(&self, t: usize)
        requires
            self.wf(),
            self.is_pending(t),
        ensures
            t < self.next(),
    {
        let k = choose|k: int| 0 <= k < self.pending_ops().len() && self.pending_ops()[k].0 == t;
        assert(self.pending@[k].0 < self.next_token);
    }

    /// A token stands for one operation.
    pub proof fn lemma_token_unique(&self, t: usize, a: PendingOp, b: PendingOp)
        requires
            self.wf(),
            self.pending_ops().contains((t, a)),
            self.pending_ops().contains((t, b)),
        ensures
            a == b,
    {
        let i = choose|i: int| 0 <= i < self.pending@.len() && self.pending@[i] == (t, a);
        let j = choose|j: int| 0 <= j < self.pending@.len() && self.pending@[j] == (t, b);
        if i < j {
            assert(self.pending@[i].0 != self.pending@[j].0);
        } else if j < i {
            assert(self.pending@[j].0 != self.pending@[i].0);
        }
    }

    pub fn new() -> (r: Reactor)
        ensures
            r.wf(),
            r.next() == 0,
            r.pending_ops().len() == 0,
            r.queued().len() == 0,
    {
        Reactor { next_token: 0, pending: Vec::new(), requests: VecDeque::new() }
    }

    /// Issue a fresh token and record `op` as waiting on it. Fails only
    /// when the tokens are used up.
    pub fn register(&mut self, op: PendingOp) -> (r: Option<usize>)
        requires
            old(self).wf(),
        ensures
            final(self).wf(),
            final(self).queued() == old(self).queued(),
            old(self).next() < usize::MAX ==> r == Some(old(self).next() as usize)
                && final(self).next() == old(self).next() + 1
                && !old(self).is_pending(old(self).next() as usize)
                && final(self).pending_ops() == old(self).pending_ops().push((old(self).next() as usize, op)),
            old(self).next() >= usize::MAX ==> r is None && *final(self) == *old(self),
            old(self).evolves_to(&*final(self)),
    {
        if self.next_token == usize::MAX {
            return None;
        }
        let token = self.next_token;
        let ghost p0 = self.pending@;
        self.pending.push((token, op));
        self.next_token = token + 1;
        proof {
            assert forall|a: int| 0 <= a < self.pending@.len() implies (#[trigger] self.pending@[a]).0 < self.next_token by {
                if a < p0.len() { assert(self.pending@[a] == p0[a]); }
            }
            assert forall|a: int, b: int| 0 <= a < b < self.pending@.len() implies self.pending@[a].0 != self.pending@[b].0 by {
                assert(self.pending@[a] == p0[a]);
                if b < p0.len() { assert(self.pending@[b] == p0[b]); }
            }
            assert(!old(self).is_pending(token)) by {
                if old(self).is_pending(token) {
                    let k = choose|k: int| 0 <= k < p0.len() && p0[k].0 == token;
                    assert(p0[k].0 < token);
                }
            }
            assert(self.pending_ops() == p0.push((token, op)));
            assert forall|t: usize| t < old(self).next() && !old(self).is_pending(t) implies !#[trigger] self.is_pending(t) by {
                if self.is_pending(t) {
                    let k = choose|k: int| 0 <= k < self.pending_ops().len() && self.pending_ops()[k].0 == t;
                    if k < p0.len() {
                        assert(old(self).pending_ops()[k].0 == t);
                    }
                }
            }
        }
        Some(token)
    }

    /// Take out the operation waiting on `token`; afterwards nothing waits
    /// on it.
    pub fn take(&mut self, token: usize) -> (r: Option<PendingOp>)
        requires
            old(self).wf(),
        ensures
            final(self).wf(),
            final(self).queued() == old(self).queued(),
            final(self).next() == old(self).next(),
            r is Some == old(self).is_pending(token),
            !final(self).is_pending(token),
            forall|t: usize| t != token ==> (final(self).is_pending(t) == old(self).is_pending(t)),
            !old(self).is_pending(token) ==> *final(self) == *old(self),
            old(self).evolves_to(&*final(self)),
            r matches Some(op) ==> exists|i: int| 0 <= i < old(self).pending_ops().len()
                && old(self).pending_ops()[i] == (token, op),
    {
        let mut i: usize = 0;
        while i < self.pending.len()
            invariant
                *self == *old(self),
                self.pending@ == old(self).pending@,
                self.next_token == old(self).next_token,
                self.requests == old(self).requests,
                old(self).wf(),
                i <= self.pending@.len(),
                forall|j: int| 0 <= j < i ==> self.pending@[j].0 != token,
            decreases self.pending@.len() - i,
        {
            if self.pending[i].0 == token {
                let ghost p0 = self.pending@;
                let (_, op) = self.pending.remove(i);
                proof {
                    assert(self.pending@ =~= p0.remove(i as int));
                    assert forall|a: int, b: int| 0 <= a < b < self.pending@.len() implies self.pending@[a].0 != self.pending@[b].0 by {
                        let a0 = if a < i { a } else { a + 1 };
                        let b0 = if b < i { b } else { b + 1 };
                        assert(self.pending@[a] == p0[a0]);
                        assert(self.pending@[b] == p0[b0]);
                    }
                    assert forall|a: int| 0 <= a < self.pending@.len() implies (#[trigger] self.pending@[a]).0 < self.next_token by {
                        let a0 = if a < i { a } else { a + 1 };
                        assert(self.pending@[a] == p0[a0]);
                    }
                    assert(self.pending_ops() == self.pending@);
                    assert(old(self).pending_ops() == p0);
                    assert forall|t: usize| t != token implies (self.is_pending(t) == old(self).is_pending(t)) by {
                        if old(self).is_pending(t) {
                            let k = choose|k: int| 0 <= k < p0.len() && p0[k].0 == t;
                            assert(k != i as int);
                            let k1 = if k < i { k } else { k - 1 };
                            assert(self.pending@[k1].0 == t);
                        }
                        if self.is_pending(t) {
                            let k = choose|k: int| 0 <= k < self.pending@.len() && self.pending@[k].0 == t;
                            let k0 = if k < i { k } else { k + 1 };
                            assert(p0[k0].0 == t);
                        }
                    }
                    assert(!self.is_pending(token)) by {
                        if self.is_pending(token) {
                            let k = choose|k: int| 0 <= k < self.pending@.len() && self.pending@[k].0 == token;
                            let k0 = if k < i { k } else { k + 1 };
                            assert(p0[k0].0 == token);
                            assert(p0[i as int].0 == token);
                        }
                    }
                    assert(old(self).pending_ops()[i as int] == (token, op));
                }
                return Some(op);
            }
            i = i + 1;
        }
        assert(!old(self).is_pending(token)) by {
            if old(self).is_pending(token) {
                let k = choose|k: int| 0 <= k < old(self).pending_ops().len() && old(self).pending_ops()[k].0 == token;
                assert(self.pending@[k].0 == token);
            }
        }
        None
    }

    /// The values the waiting operations hold: a timer's callback, a file
    /// operation's promise and its two settling functions.
    pub fn held_values(&self) -> (out: Vec<Value>)
        ensures
            out@ == pending_values(self.pending_ops()),
    {
        let mut out: Vec<Value> = Vec::new();
        let mut i: usize = 0;
        while i < self.pending.len()
            invariant
                i <= self.pending@.len(),
                out@ == pending_values(self.pending@.take(i as int)),
            decreases self.pending@.len() - i,
        {
            let ghost before = out@;
            match &self.pending[i].1 {
                PendingOp::Timer(cb) => {
                    out.push(cb.duplicate());
                },
                PendingOp::File(cap) => {
                    out.push(cap.promise.duplicate());
                    out.push(cap.resolve.duplicate());
                    out.push(cap.reject.duplicate());
                },
            }
            assert(self.pending@.take(i + 1).drop_last() =~= self.pending@.take(i as int));
            assert(out@ =~= before + op_values(self.pending@[i as int].1));
            i = i + 1;
        }
        assert(self.pending@.take(self.pending@.len() as int) =~= self.pending@);
        out
    }

    /// Queue a request for the run loop.
    pub fn request(&mut self, req: Request)
        requires
            old(self).wf(),
        ensures
            final(self).wf(),
            final(self).queued() == old(self).queued().push(req),
            final(self).pending_ops() == old(self).pending_ops(),
            final(self).next() == old(self).next(),
            old(self).evolves_to(&*final(self)),
    {
        self.requests.push_back(req);
    }

    /// The oldest queued request, taken off the queue.
    pub fn next_request(&mut self) -> (r: Option<Request>)
        requires
            old(self).wf(),
        ensures
            final(self).wf(),
            old(self).queued().len() == 0 ==> r is None && final(self).queued() == old(self).queued(),
            old(self).queued().len() > 0 ==> r == Some(old(self).queued()[0]) && final(self).queued() == old(self).queued().drop_first(),
            final(self).pending_ops() == old(self).pending_ops(),
            final(self).next() == old(self).next(),
            old(self).evolves_to(&*final(self)),
    {
        self.requests.pop_front()
    }
}

pub proof fn lemma_reactor_evolves_trans(a: &Reactor, b: &Reactor, c: &Reactor)
    requires
        a.evolves_to(b),
        b.evolves_to(c),
    ensures
        a.evolves_to(c),
{
    assert forall|t: usize| t < a.next() && !a.is_pending(t) implies !#[trigger] c.is_pending(t) by {
        assert(!b.is_pending(t));
    }
}

pub proof fn lemma_reactor_evolves_refl(a: &Reactor)
    ensures
        a.evolves_to(a),
{
}

} // verus!
