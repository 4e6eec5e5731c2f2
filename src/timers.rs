//! Timers: the `createTimeout` builtin, and the timer list, deadlines in
//! ascending order, each with the readiness handles that fire at it.
use vstd::prelude::*;
use crate::agent::{Agent, is_error_with, lemma_agent_evolves_refl, lemma_agent_evolves_trans};
use crate::engine::{arg, step};
use crate::object::NativeFn;
use crate::ops::is_callable;
use crate::reactor::{PendingOp, Request};
use crate::value::Value;

verus! {

broadcast use {lemma_agent_evolves_trans, lemma_agent_evolves_refl};

/// `createTimeout(callback, duration)`: the callback must be a function
/// and the duration a number; a fresh token then waits with the callback,
/// and a timer request is queued.
pub fn create_timeout(agent: &mut Agent, args: &Vec<Value>) -> (r: Result<Value, Value>)
    requires
        old(agent).wf(),
    ensures
        step(&*old(agent), &*final(agent)),
        !is_callable(&*old(agent), if args@.len() > 0 { args@[0] } else { Value::Null }) ==> r is Err
            && is_error_with(&*final(agent), r->Err_0, "callback must be a function"@),
        is_callable(&*old(agent), if args@.len() > 0 { args@[0] } else { Value::Null })
            && !(args@.len() > 1 && args@[1] is Number) ==> r is Err
            && is_error_with(&*final(agent), r->Err_0, "duration must be a number"@),
        r is Err ==> final(agent).reactor == old(agent).reactor && final(agent).jobs@ == old(agent).jobs@,
        is_callable(&*old(agent), if args@.len() > 0 { args@[0] } else { Value::Null })
            && args@.len() > 1 && args@[1] is Number && old(agent).reactor.next() < usize::MAX ==> r is Ok,
        r is Ok ==> {
            let t = old(agent).reactor.next() as usize;
            &&& r == Ok::<Value, Value>(Value::Null)
            &&& final(agent).reactor.pending_ops() == old(agent).reactor.pending_ops().push((t, PendingOp::Timer(args@[0])))
            &&& final(agent).reactor.queued() == old(agent).reactor.queued().push(Request::Timer { token: t, duration: args@[1]->Number_0 })
            &&& final(agent).heap == old(agent).heap
        },
{
    let callback = arg(args, 0);
    if !callback.is_callable(agent) {
        return Err(agent.new_error("callback must be a function"));
    }
    match arg(args, 1) {
        Value::Number(duration) => {
            match agent.reactor.register(PendingOp::Timer(callback)) {
                Some(token) => {
                    agent.reactor.request(Request::Timer { token, duration });
                    Ok(Value::Null)
                },
                None => Err(agent.new_error("no readiness tokens are left")),
            }
        },
        _ => Err(agent.new_error("duration must be a number")),
    }
}

/// The module object of the timer builtins.
pub fn create(agent: &mut Agent) -> (m: Vec<(String, Value)>)
    requires
        old(agent).wf(),
    ensures
        step(&*old(agent), &*final(agent)),
        m@.len() == 1,
{
    let f = Value::new_builtin_function(agent, NativeFn::CreateTimeout);
    let mut m: Vec<(String, Value)> = Vec::new();
    m.push(("createTimeout".to_owned(), f));
    m
}


/// The handles that fire at one deadline.
#[derive(Debug)]
pub struct TimerNode {
    pub deadline: u64,
    pub handles: Vec<usize>,
}

/// Deadlines strictly ascending, one node per deadline.
#[derive(Debug)]
pub struct TimerList {
    nodes: Vec<TimerNode>,
}

/// Strictly ascending deadlines.
pub open spec fn ascending(s: Seq<(u64, Seq<usize>)>) -> bool {
    forall|i: int, j: int| 0 <= i < j < s.len() ==> s[i].0 < s[j].0
}

/// The handles queued at `d`.
pub open spec fn handles_at(s: Seq<(u64, Seq<usize>)>, d: u64) -> Seq<usize> {
    if exists|i: int| 0 <= i < s.len() && s[i].0 == d {
        s[choose|i: int| 0 <= i < s.len() && s[i].0 == d].1
    } else {
        Seq::empty()
    }
}

/// Whether some node has deadline `d`.
pub open spec fn has_deadline(s: Seq<(u64, Seq<usize>)>, d: u64) -> bool {
    exists|i: int| 0 <= i < s.len() && s[i].0 == d
}

/// `v1` is `v0` with `h` queued at deadline `d`: into the node of `d` when
/// there is one, else into a new node; nothing else changes.
pub open spec fn inserted(v0: Seq<(u64, Seq<usize>)>, v1: Seq<(u64, Seq<usize>)>, d: u64, h: usize) -> bool {
    &&& ascending(v1)
    &&& has_deadline(v0, d) ==> v1.len() == v0.len()
    &&& !has_deadline(v0, d) ==> v1.len() == v0.len() + 1
    &&& has_deadline(v1, d)
    &&& handles_at(v1, d) == handles_at(v0, d).push(h)
    &&& forall|e: u64| e != d ==> handles_at(v1, e) == handles_at(v0, e)
    &&& forall|e: u64| e != d ==> (has_deadline(v1, e) == has_deadline(v0, e))
}

/// Whether queuing at `d` must wake the timer thread: `d` is nearer than
/// every pending deadline.
pub open spec fn must_wake(v0: Seq<(u64, Seq<usize>)>, d: u64) -> bool {
    v0.len() == 0 || d < v0[0].0
}

impl TimerList {
    pub closed spec fn view(&self) -> Seq<(u64, Seq<usize>)> {
        Seq::new(self.nodes@.len(), |i: int| (self.nodes@[i].deadline, self.nodes@[i].handles@))
    }

    pub open spec fn wf(&self) -> bool {
        ascending(self.view())
    }

    pub fn new() -> (t: TimerList)
        ensures
            t.wf(),
            t.view().len() == 0,
    {
        let t = TimerList { nodes: Vec::new() };
        assert(t.view() =~= Seq::empty());
        t
    }

    pub fn len(&self) -> (n: usize)
        ensures
            n == self.view().len(),
    {
        self.nodes.len()
    }

    /// The nearest deadline, if any.
    pub fn next_deadline(&self) -> (d: Option<u64>)
        ensures
            self.view().len() == 0 ==> d is None,
            self.view().len() > 0 ==> d == Some(self.view()[0].0),
    {
        if self.nodes.len() == 0 {
            None
        } else {
            Some(self.nodes[0].deadline)
        }
    }

    /// Queue `handle` at `deadline`. A deadline already present takes the
    /// handle into its node, so equal deadlines fire in one wake; a new
    /// deadline gets a node of its own at its place in order. Returns
    /// whether the deadline is now the nearest one and was not before, so
    /// that a parked timer thread must be woken.
    pub fn insert(&mut self, deadline: u64, handle: usize) -> (wake: bool)
        requires
            old(self).wf(),
        ensures
            final(self).wf(),
            inserted(old(self).view(), final(self).view(), deadline, handle),
            wake == must_wake(old(self).view(), deadline),
    {
        let ghost v0 = self.view();
        let mut i: usize = 0;
        while i < self.nodes.len() && self.nodes[i].deadline < deadline
            invariant
                self.nodes@ == old(self).nodes@,
                self.view() == v0,
                ascending(v0),
                i <= v0.len(),
                forall|j: int| 0 <= j < i ==> v0[j].0 < deadline,
            decreases self.nodes@.len() - i,
        {
            i = i + 1;
        }
        let wake = i == 0 && (self.nodes.len() == 0 || self.nodes[0].deadline != deadline);
        if i < self.nodes.len() && self.nodes[i].deadline == deadline {
            let node = &mut self.nodes[i];
            node.handles.push(handle);
            proof {
                let v1 = self.view();
                assert(v1 =~= v0.update(i as int, (deadline, v0[i as int].1.push(handle))));
                assert(v0[i as int].0 == deadline);
                assert(v1[i as int].0 == deadline);
                assert(has_deadline(v0, deadline));
                assert(has_deadline(v1, deadline));
                let c0 = choose|k: int| 0 <= k < v0.len() && v0[k].0 == deadline;
                let c1 = choose|k: int| 0 <= k < v1.len() && v1[k].0 == deadline;
                assert(c0 == i as int);
                assert(c1 == i as int);
                assert forall|d: u64| d != deadline implies handles_at(v1, d) == handles_at(v0, d) by {
                    if has_deadline(v0, d) {
                        let k = choose|k: int| 0 <= k < v0.len() && v0[k].0 == d;
                        assert(v1[k].0 == d);
                        let k1 = choose|k: int| 0 <= k < v1.len() && v1[k].0 == d;
                        assert(k1 == k);
                    }
                    if has_deadline(v1, d) {
                        let k = choose|k: int| 0 <= k < v1.len() && v1[k].0 == d;
                        assert(v0[k].0 == d);
                    }
                }
                assert forall|d: u64| d != deadline implies has_deadline(v1, d) == has_deadline(v0, d) by {
                    if has_deadline(v0, d) {
                        let k = choose|k: int| 0 <= k < v0.len() && v0[k].0 == d;
                        assert(v1[k].0 == d);
                    }
                    if has_deadline(v1, d) {
                        let k = choose|k: int| 0 <= k < v1.len() && v1[k].0 == d;
                        assert(v0[k].0 == d);
                    }
                }
            }
        } else {
            let mut hs: Vec<usize> = Vec::new();
            hs.push(handle);
            self.nodes.insert(i, TimerNode { deadline, handles: hs });
            proof {
                let v1 = self.view();
                assert(v1 =~= v0.insert(i as int, (deadline, seq![handle])));
                assert(!has_deadline(v0, deadline)) by {
                    if has_deadline(v0, deadline) {
                        let k = choose|k: int| 0 <= k < v0.len() && v0[k].0 == deadline;
                        if k < i {
                        } else if k > i {
                            assert(v0[i as int].0 < v0[k].0);
                        }
                    }
                }
                assert(v1[i as int].0 == deadline);
                let c1 = choose|k: int| 0 <= k < v1.len() && v1[k].0 == deadline;
                assert(c1 == i as int) by {
                    if c1 < i {
                        assert(v0[c1].0 < deadline);
                    } else if c1 > i {
                        assert(v0[c1 - 1].0 == deadline);
                    }
                }
                assert(handles_at(v0, deadline) =~= Seq::<usize>::empty());
                assert(seq![handle] =~= Seq::<usize>::empty().push(handle));
                assert forall|d: u64| d != deadline implies handles_at(v1, d) == handles_at(v0, d) by {
                    if has_deadline(v0, d) {
                        let k = choose|k: int| 0 <= k < v0.len() && v0[k].0 == d;
                        let k1 = if k < i { k } else { k + 1 };
                        assert(v1[k1].0 == d);
                        let c = choose|k: int| 0 <= k < v1.len() && v1[k].0 == d;
                        assert(c == k1) by {
                            if c != k1 {
                                let c0 = if c < i { c } else { c - 1 };
                                assert(c != i as int);
                                assert(v0[c0].0 == d);
                                if c0 < k { assert(v0[c0].0 < v0[k].0); }
                                if c0 > k { assert(v0[k].0 < v0[c0].0); }
                            }
                        }
                    }
                    if has_deadline(v1, d) {
                        let c = choose|k: int| 0 <= k < v1.len() && v1[k].0 == d;
                        assert(c != i as int);
                        let c0 = if c < i { c } else { c - 1 };
                        assert(v0[c0].0 == d);
                    }
                }
                assert forall|d: u64| d != deadline implies has_deadline(v1, d) == has_deadline(v0, d) by {
                    if has_deadline(v0, d) {
                        let k = choose|k: int| 0 <= k < v0.len() && v0[k].0 == d;
                        let k1 = if k < i { k } else { k + 1 };
                        assert(v1[k1].0 == d);
                    }
                    if has_deadline(v1, d) {
                        let c = choose|k: int| 0 <= k < v1.len() && v1[k].0 == d;
                        assert(c != i as int);
                        let c0 = if c < i { c } else { c - 1 };
                        assert(v0[c0].0 == d);
                    }
                }
                assert(ascending(v1)) by {
                    assert forall|a: int, b: int| 0 <= a < b < v1.len() implies v1[a].0 < v1[b].0 by {
                        if b == i {
                            assert(v0[a].0 < deadline);
                        } else if a == i {
                            assert(deadline <= v0[i as int].0);
                            if b - 1 > i { assert(v0[i as int].0 < v0[b - 1].0); }
                        } else if a < i && b > i {
                            assert(v0[a].0 < v0[b - 1].0);
                        } else if a > i {
                            assert(v0[a - 1].0 < v0[b - 1].0);
                        }
                    }
                }
            }
        }
        wake
    }

    /// When the nearest deadline is at or before `now`: remove its node and
    /// hand back all of its handles, to fire in one wake.
    pub fn pop_due(&mut self, now: u64) -> (r: Option<Vec<usize>>)
        requires
            old(self).wf(),
        ensures
            final(self).wf(),
            old(self).view().len() > 0 && old(self).view()[0].0 <= now ==> r is Some
                && r->Some_0@ == old(self).view()[0].1 && final(self).view() == old(self).view().drop_first(),
            !(old(self).view().len() > 0 && old(self).view()[0].0 <= now) ==> r is None
                && final(self).view() == old(self).view(),
    {
        if self.nodes.len() > 0 && self.nodes[0].deadline <= now {
            let ghost v0 = self.view();
            let node = self.nodes.remove(0);
            assert(self.view() =~= v0.drop_first());
            Some(node.handles)
        } else {
            None
        }
    }
}

} // verus!
