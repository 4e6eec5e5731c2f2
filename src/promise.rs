//! The promise state machine: settlement, reaction queues and the job
//! queue.
use vstd::prelude::*;
use crate::agent::{Agent, Job, props_same, lemma_agent_evolves_refl, lemma_agent_evolves_trans};
use crate::object::{NativeFn, ObjectKind, PromiseState, Reaction};
use crate::value::{ObjRef, Value};

verus! {

broadcast use {lemma_agent_evolves_trans, lemma_agent_evolves_refl};

/// Object `p` is a promise in state `state`.
pub open spec fn promise_in(a: &Agent, p: ObjRef, state: PromiseState) -> bool {
    a.heap.valid(p) && (a.heap.kind(p) matches ObjectKind::Promise { state: s, .. } && s == state)
}

/// The result a settled promise holds.
pub open spec fn promise_result(a: &Agent, p: ObjRef) -> Value {
    a.heap.kind(p)->Promise_result
}

/// The jobs that firing `reactions` with `argument` queues, in order.
pub open spec fn jobs_for(reactions: Seq<Reaction>, argument: Value) -> Seq<Job> {
    Seq::new(reactions.len(), |i: int| Job { reaction: reactions[i], argument })
}

fn copy_reactions(rs: &Vec<Reaction>) -> (out: Vec<Reaction>)
    ensures
        out@ == rs@,
{
    let mut out: Vec<Reaction> = Vec::new();
    let mut i: usize = 0;
    while i < rs.len()
        invariant
            i <= rs@.len(),
            out@ == rs@.subrange(0, i as int),
        decreases rs@.len() - i,
    {
        out.push(rs[i].duplicate());
        i = i + 1;
    }
    assert(out@ =~= rs@);
    out
}

/// Queue one reaction job per reaction, in order.
pub fn trigger_promise_reactions(agent: &mut Agent, reactions: &Vec<Reaction>, argument: &Value)
    ensures
        final(agent).jobs@ == old(agent).jobs@ + jobs_for(reactions@, *argument),
        final(agent).heap == old(agent).heap,
        final(agent).intrinsics == old(agent).intrinsics,
        final(agent).symbol_counter == old(agent).symbol_counter,
        final(agent).reactor == old(agent).reactor,
{
    let mut i: usize = 0;
    while i < reactions.len()
        invariant
            i <= reactions@.len(),
            agent.jobs@ == old(agent).jobs@ + jobs_for(reactions@.subrange(0, i as int), *argument),
            agent.heap == old(agent).heap,
            agent.intrinsics == old(agent).intrinsics,
            agent.symbol_counter == old(agent).symbol_counter,
            agent.reactor == old(agent).reactor,
        decreases reactions@.len() - i,
    {
        let job = Job { reaction: reactions[i].duplicate(), argument: argument.duplicate() };
        agent.jobs.push_back(job);
        assert(jobs_for(reactions@.subrange(0, i + 1), *argument) =~= jobs_for(
            reactions@.subrange(0, i as int),
            *argument,
        ).push(Job { reaction: reactions@[i as int], argument: *argument }));
        i = i + 1;
    }
    assert(reactions@.subrange(0, reactions@.len() as int) =~= reactions@);
}

/// Settle pending promise `p` in `state` with `value`: the matching queue
/// fires, one job per reaction in order, and both queues are dropped.
pub fn settle_promise(agent: &mut Agent, p: ObjRef, state: PromiseState, value: Value)
    requires
        old(agent).wf(),
        promise_in(&*old(agent), p, PromiseState::Pending),
        state != PromiseState::Pending,
    ensures
        final(agent).reactor == old(agent).reactor,
        props_same(&*old(agent), &*final(agent)),
        final(agent).intrinsics == old(agent).intrinsics,
        final(agent).wf(),
        old(agent).evolves_to(&*final(agent)),
        final(agent).heap.len() == old(agent).heap.len(),
        promise_in(&*final(agent), p, state),
        promise_result(&*final(agent), p) == value,
        final(agent).heap.kind(p)->Promise_fulfill_reactions@.len() == 0,
        final(agent).heap.kind(p)->Promise_reject_reactions@.len() == 0,
        final(agent).jobs@ == old(agent).jobs@ + jobs_for(
            if state == PromiseState::Fulfilled {
                old(agent).heap.kind(p)->Promise_fulfill_reactions@
            } else {
                old(agent).heap.kind(p)->Promise_reject_reactions@
            },
            value,
        ),
        forall|q: ObjRef| old(agent).heap.valid(q) && q != p ==> final(agent).heap.kind(q) == old(agent).heap.kind(q),
{
    let reactions = match agent.heap.kind_of(p) {
        ObjectKind::Promise { fulfill_reactions, reject_reactions, .. } => {
            if state == PromiseState::Fulfilled {
                copy_reactions(fulfill_reactions)
            } else {
                copy_reactions(reject_reactions)
            }
        },
        _ => Vec::new(),
    };
    let arg = value.duplicate();
    agent.replace_kind(
        p,
        ObjectKind::Promise { state, result: value, fulfill_reactions: Vec::new(), reject_reactions: Vec::new() },
    );
    let ghost mid = *agent;
    trigger_promise_reactions(agent, &reactions, &arg);
    assert(mid.evolves_to(&*agent));
}

/// Fulfill pending promise `p` with `value`.
pub fn fulfill_promise(agent: &mut Agent, p: ObjRef, value: Value)
    requires
        old(agent).wf(),
        promise_in(&*old(agent), p, PromiseState::Pending),
    ensures
        final(agent).heap.kind(p)->Promise_fulfill_reactions@.len() == 0,
        final(agent).heap.kind(p)->Promise_reject_reactions@.len() == 0,
        final(agent).heap.len() == old(agent).heap.len(),
        forall|q: ObjRef| old(agent).heap.valid(q) && q != p ==> final(agent).heap.kind(q) == old(agent).heap.kind(q),
        final(agent).reactor == old(agent).reactor,
        props_same(&*old(agent), &*final(agent)),
        final(agent).intrinsics == old(agent).intrinsics,
        final(agent).wf(),
        old(agent).evolves_to(&*final(agent)),
        promise_in(&*final(agent), p, PromiseState::Fulfilled),
        promise_result(&*final(agent), p) == value,
        final(agent).jobs@ == old(agent).jobs@ + jobs_for(old(agent).heap.kind(p)->Promise_fulfill_reactions@, value),
{
    settle_promise(agent, p, PromiseState::Fulfilled, value);
}

/// Reject pending promise `p` with `reason`.
pub fn reject_promise(agent: &mut Agent, p: ObjRef, reason: Value)
    requires
        old(agent).wf(),
        promise_in(&*old(agent), p, PromiseState::Pending),
    ensures
        final(agent).heap.kind(p)->Promise_fulfill_reactions@.len() == 0,
        final(agent).heap.kind(p)->Promise_reject_reactions@.len() == 0,
        final(agent).heap.len() == old(agent).heap.len(),
        forall|q: ObjRef| old(agent).heap.valid(q) && q != p ==> final(agent).heap.kind(q) == old(agent).heap.kind(q),
        final(agent).reactor == old(agent).reactor,
        props_same(&*old(agent), &*final(agent)),
        final(agent).intrinsics == old(agent).intrinsics,
        final(agent).wf(),
        old(agent).evolves_to(&*final(agent)),
        promise_in(&*final(agent), p, PromiseState::Rejected),
        promise_result(&*final(agent), p) == reason,
        final(agent).jobs@ == old(agent).jobs@ + jobs_for(old(agent).heap.kind(p)->Promise_reject_reactions@, reason),
{
    settle_promise(agent, p, PromiseState::Rejected, reason);
}

/// What registering reactions `f` and `j` on promise `p` does: on a
/// pending promise they join the queues and no job is queued; on a settled
/// one the matching reaction is queued as a job with the result, and the
/// heap is untouched.
pub open spec fn then_effect(a: &Agent, b: &Agent, p: ObjRef, f: Reaction, j: Reaction) -> bool {
    &&& promise_in(a, p, PromiseState::Pending) ==> {
        &&& b.jobs@ == a.jobs@
        &&& promise_in(b, p, PromiseState::Pending)
        &&& b.heap.kind(p)->Promise_fulfill_reactions@ == a.heap.kind(p)->Promise_fulfill_reactions@.push(f)
        &&& b.heap.kind(p)->Promise_reject_reactions@ == a.heap.kind(p)->Promise_reject_reactions@.push(j)
    }
    &&& promise_in(a, p, PromiseState::Fulfilled) ==> {
        &&& b.jobs@ == a.jobs@.push(Job { reaction: f, argument: promise_result(a, p) })
        &&& b.heap == a.heap
    }
    &&& promise_in(a, p, PromiseState::Rejected) ==> {
        &&& b.jobs@ == a.jobs@.push(Job { reaction: j, argument: promise_result(a, p) })
        &&& b.heap == a.heap
    }
}

/// `then_effect` seen from before any new objects were made: the same
/// queue and job outcome for `p`, with other objects free to have been
/// added.
pub open spec fn then_outcome(a: &Agent, b: &Agent, p: ObjRef, f: Reaction, j: Reaction) -> bool {
    &&& promise_in(a, p, PromiseState::Pending) ==> {
        &&& b.jobs@ == a.jobs@
        &&& promise_in(b, p, PromiseState::Pending)
        &&& b.heap.kind(p)->Promise_fulfill_reactions@ == a.heap.kind(p)->Promise_fulfill_reactions@.push(f)
        &&& b.heap.kind(p)->Promise_reject_reactions@ == a.heap.kind(p)->Promise_reject_reactions@.push(j)
    }
    &&& promise_in(a, p, PromiseState::Fulfilled) ==> {
        &&& b.jobs@ == a.jobs@.push(Job { reaction: f, argument: promise_result(a, p) })
        &&& b.heap.kind(p) == a.heap.kind(p)
    }
    &&& promise_in(a, p, PromiseState::Rejected) ==> {
        &&& b.jobs@ == a.jobs@.push(Job { reaction: j, argument: promise_result(a, p) })
        &&& b.heap.kind(p) == a.heap.kind(p)
    }
}

/// Register a reaction pair on promise `p`: appended to the queues while it
/// is pending; queued at once as a job when it has settled, never run on
/// the spot.
pub fn perform_then(agent: &mut Agent, p: ObjRef, on_fulfilled: Reaction, on_rejected: Reaction)
    requires
        old(agent).wf(),
        old(agent).heap.valid(p),
        old(agent).heap.kind(p) is Promise,
    ensures
        final(agent).reactor == old(agent).reactor,
        final(agent).wf(),
        old(agent).evolves_to(&*final(agent)),
        final(agent).heap.len() == old(agent).heap.len(),
        then_effect(&*old(agent), &*final(agent), p, on_fulfilled, on_rejected),
        forall|q: ObjRef| old(agent).heap.valid(q) && q != p ==> final(agent).heap.kind(q) == old(agent).heap.kind(q),
{
    let kind = match agent.heap.kind_of(p) {
        ObjectKind::Promise { state, result, fulfill_reactions, reject_reactions } => {
            match state {
                PromiseState::Pending => {
                    let mut f = copy_reactions(fulfill_reactions);
                    let mut r = copy_reactions(reject_reactions);
                    f.push(on_fulfilled);
                    r.push(on_rejected);
                    Some(ObjectKind::Promise { state: PromiseState::Pending, result: result.duplicate(), fulfill_reactions: f, reject_reactions: r })
                },
                PromiseState::Fulfilled => {
                    agent.jobs.push_back(Job { reaction: on_fulfilled, argument: result.duplicate() });
                    None
                },
                PromiseState::Rejected => {
                    agent.jobs.push_back(Job { reaction: on_rejected, argument: result.duplicate() });
                    None
                },
            }
        },
        _ => None,
    };
    if let Some(k) = kind {
        agent.replace_kind(p, k);
    }
}

/// A fresh resolving-function pair for promise `p`, sharing one guard that
/// has not fired.
pub fn create_resolving_functions(agent: &mut Agent, p: ObjRef) -> (r: (Value, Value))
    requires
        old(agent).wf(),
        old(agent).heap.valid(p),
    ensures
        forall|q: ObjRef| old(agent).heap.valid(q) ==> final(agent).heap.object(q) == old(agent).heap.object(q),
        final(agent).reactor == old(agent).reactor,
        final(agent).wf(),
        old(agent).evolves_to(&*final(agent)),
        final(agent).jobs@ == old(agent).jobs@,
        final(agent).heap.len() == old(agent).heap.len() + 3,
        forall|q: ObjRef| old(agent).heap.valid(q) ==> final(agent).heap.kind(q) == old(agent).heap.kind(q),
        ({
            let g = ObjRef(old(agent).heap.len() as usize);
            let f1 = ObjRef((old(agent).heap.len() + 1) as usize);
            let f2 = ObjRef((old(agent).heap.len() + 2) as usize);
            &&& final(agent).heap.kind(g) == ObjectKind::ResolveGuard(false)
            &&& r.0 == Value::Object(f1)
            &&& final(agent).heap.kind(f1) is BuiltinFunction
            &&& final(agent).heap.kind(f1)->BuiltinFunction_0 == NativeFn::ResolveFunction { promise: p, guard: g }
            &&& r.1 == Value::Object(f2)
            &&& final(agent).heap.kind(f2) is BuiltinFunction
            &&& final(agent).heap.kind(f2)->BuiltinFunction_0 == NativeFn::RejectFunction { promise: p, guard: g }
        }),
{
    let g = agent.alloc_object(ObjectKind::ResolveGuard(false), Value::Null);
    let resolve = Value::new_builtin_function(agent, NativeFn::ResolveFunction { promise: p, guard: g });
    let reject = Value::new_builtin_function(agent, NativeFn::RejectFunction { promise: p, guard: g });
    (resolve, reject)
}

/// Fire guard `g`, unless it has fired already; returns whether this call
/// fired it.
pub fn fire_guard(agent: &mut Agent, g: ObjRef) -> (fired: bool)
    requires
        old(agent).wf(),
    ensures
        final(agent).reactor == old(agent).reactor,
        final(agent).wf(),
        old(agent).evolves_to(&*final(agent)),
        fired == (old(agent).heap.valid(g) && old(agent).heap.kind(g) == ObjectKind::ResolveGuard(false)),
        fired ==> final(agent).heap.kind(g) == ObjectKind::ResolveGuard(true)
            && final(agent).jobs@ == old(agent).jobs@
            && final(agent).heap.len() == old(agent).heap.len()
            && forall|q: ObjRef| old(agent).heap.valid(q) && q != g ==> final(agent).heap.kind(q) == old(agent).heap.kind(q),
        !fired ==> *final(agent) == *old(agent),
        props_same(&*old(agent), &*final(agent)),
        final(agent).intrinsics == old(agent).intrinsics,
{
    if !agent.heap.is_valid(g) {
        proof { lemma_props_same_refl(&*agent); }
        return false;
    }
    let open = match agent.heap.kind_of(g) {
        ObjectKind::ResolveGuard(f) => !*f,
        _ => false,
    };
    if open {
        agent.replace_kind(g, ObjectKind::ResolveGuard(true));
    } else {
        proof { lemma_props_same_refl(&*agent); }
    }
    open
}

pub proof fn lemma_props_same_refl(a: &Agent)
    ensures
        props_same(a, a),
{
}

/// Whether `v` is a promise object of this agent.
pub fn is_promise(agent: &Agent, v: &Value) -> (r: bool)
    ensures
        r == (*v is Object && agent.heap.valid(v->Object_0) && agent.heap.kind(v->Object_0) is Promise),
{
    match v {
        Value::Object(p) => {
            if agent.heap.is_valid(*p) {
                match agent.heap.kind_of(*p) {
                    ObjectKind::Promise { .. } => true,
                    _ => false,
                }
            } else {
                false
            }
        },
        _ => false,
    }
}

/// The state of promise `v` and its result (`Null` while pending), or
/// nothing when `v` is not a promise.
pub fn promise_status(agent: &Agent, v: &Value) -> (r: Option<(PromiseState, Value)>)
    ensures
        r is Some == (*v is Object && agent.heap.valid(v->Object_0) && agent.heap.kind(v->Object_0) is Promise),
        r matches Some((s, x)) ==> promise_in(agent, v->Object_0, s) && x == promise_result(agent, v->Object_0),
{
    match v {
        Value::Object(p) => {
            if agent.heap.is_valid(*p) {
                match agent.heap.kind_of(*p) {
                    ObjectKind::Promise { state, result, .. } => Some((*state, result.duplicate())),
                    _ => None,
                }
            } else {
                None
            }
        },
        _ => None,
    }
}

/// Whether `p` is a pending promise of this agent.
pub fn is_pending(agent: &Agent, p: ObjRef) -> (r: bool)
    ensures
        r == promise_in(agent, p, PromiseState::Pending),
{
    if !agent.heap.is_valid(p) {
        return false;
    }
    match agent.heap.kind_of(p) {
        ObjectKind::Promise { state, .. } => *state == PromiseState::Pending,
        _ => false,
    }
}

} // verus!
