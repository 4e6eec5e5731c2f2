//! Properties that relate several operations, stated over the contracts of
//! the operations they speak of.
use vstd::prelude::*;
use crate::agent::{Agent, Job, is_error_with};
use crate::engine::{then_contract, then_reaction, native_outcome, reject_function_effect, resolve_function_effect};
use crate::object::{NativeFn, ObjectKind, PromiseState, Reaction, kind_stays};
use crate::promise::{jobs_for, promise_in, promise_result, then_effect, then_outcome};
use crate::object::{Capability, ReactionKind};
use crate::key::KeyModel;
use crate::timers::{handles_at, inserted, must_wake};
use crate::value::{ObjRef, Value};

verus! {

/// A settled promise keeps its state and its result, whatever runs after.
pub proof fn law_settlement_is_final(a: &Agent, b: &Agent, p: ObjRef, s: PromiseState)
    requires
        a.evolves_to(b),
        promise_in(a, p, s),
        s != PromiseState::Pending,
    ensures
        promise_in(b, p, s),
        promise_result(b, p) == promise_result(a, p),
{
    assert(kind_stays(a.heap.kind(p), b.heap.kind(p)));
}

/// A resolving pair takes effect at most once: after the first call of
/// either function, and whatever ran in between, a further call of either
/// one changes nothing.
pub proof fn law_resolving_pair_fires_once(
    a: &Agent,
    b: &Agent,
    b2: &Agent,
    c: &Agent,
    p: ObjRef,
    g: ObjRef,
    x: Value,
    y: Value,
    r1: Result<Value, Value>,
    r2: Result<Value, Value>,
)
    requires
        a.heap.valid(g),
        a.heap.kind(g) is ResolveGuard,
        a.evolves_to(b),
        resolve_function_effect(a, b, p, g, x, r1) || reject_function_effect(a, b, p, g, x, r1),
        b.evolves_to(b2),
        resolve_function_effect(b2, c, p, g, y, r2) || reject_function_effect(b2, c, p, g, y, r2),
    ensures
        *c == *b2,
        r2 == Ok::<Value, Value>(Value::Null),
{
    if a.heap.kind(g) == ObjectKind::ResolveGuard(false) {
        assert(b.heap.kind(g) == ObjectKind::ResolveGuard(true));
        assert(b.heap.valid(g));
        assert(kind_stays(b.heap.kind(g), b2.heap.kind(g)));
        assert(b2.heap.kind(g) == ObjectKind::ResolveGuard(true));
        assert(b2.heap.valid(g));
    } else {
        assert(*b == *a);
        assert(kind_stays(a.heap.kind(g), b2.heap.kind(g)));
        assert(a.heap.kind(g) == ObjectKind::ResolveGuard(true));
        assert(b2.heap.kind(g) == ObjectKind::ResolveGuard(true));
        assert(b2.heap.valid(g));
    }
}

/// Resolving a pending promise with itself rejects it with a
/// self-resolution error; it is never fulfilled.
pub proof fn law_self_resolution_rejects(
    a: &Agent,
    b: &Agent,
    p: ObjRef,
    g: ObjRef,
    r: Result<Value, Value>,
)
    requires
        a.heap.valid(g),
        a.heap.kind(g) == ObjectKind::ResolveGuard(false),
        promise_in(a, p, PromiseState::Pending),
        resolve_function_effect(a, b, p, g, Value::Object(p), r),
    ensures
        promise_in(b, p, PromiseState::Rejected),
        !promise_in(b, p, PromiseState::Fulfilled),
        is_error_with(b, promise_result(b, p), "cannot resolve a promise with itself"@),
        r == Ok::<Value, Value>(Value::Null),
        b.jobs@ == a.jobs@ + jobs_for(a.heap.kind(p)->Promise_reject_reactions@, promise_result(b, p)),
        b.heap.kind(p)->Promise_fulfill_reactions@.len() == 0,
        b.heap.kind(p)->Promise_reject_reactions@.len() == 0,
{
}

/// `then` on a promise made by the intrinsic `Promise` returns a new
/// pending promise, and never runs a handler on the spot: on a settled
/// promise exactly one job, carrying the result, joins the end of the
/// queue; on a pending one nothing is queued.
pub proof fn law_then_defers_through_the_public_method(
    a: &Agent,
    b: &Agent,
    p: ObjRef,
    on_fulfilled: Value,
    on_rejected: Value,
    r: Result<Value, Value>,
)
    requires
        then_contract(a, b, Value::Object(p), on_fulfilled, on_rejected, r),
        a.heap.valid(p),
        a.heap.kind(p) is Promise,
        a.heap.lookup_m(p, KeyModel::Text("constructor"@)) == Value::Object(a.intrinsics.promise),
    ensures
        r is Ok,
        promise_in(b, r->Ok_0->Object_0, PromiseState::Pending),
        promise_in(a, p, PromiseState::Pending) ==> b.jobs@ == a.jobs@,
        !promise_in(a, p, PromiseState::Pending) ==> b.jobs@.len() == a.jobs@.len() + 1
            && b.jobs@.last().argument == promise_result(a, p)
            && b.jobs@.last().reaction.capability is Some
            && b.jobs@.last().reaction.capability->Some_0.promise == r->Ok_0,
{
    let c = choose|c: Capability| #![trigger then_reaction(ReactionKind::Fulfill, c, on_fulfilled, a)]
        c.promise == r->Ok_0 && then_outcome(a, b, p,
        then_reaction(ReactionKind::Fulfill, c, on_fulfilled, a),
        then_reaction(ReactionKind::Reject, c, on_rejected, a));
    match a.heap.kind(p)->Promise_state {
        PromiseState::Pending => {},
        PromiseState::Fulfilled => {},
        PromiseState::Rejected => {},
    }
}

/// `then` on a settled promise does not run the handler: the heap is
/// untouched and exactly one job, for the matching reaction, joins the end
/// of the queue. On a pending promise nothing is queued until settlement.
pub proof fn law_then_defers_to_a_job(a: &Agent, b: &Agent, p: ObjRef, f: Reaction, j: Reaction)
    requires
        then_effect(a, b, p, f, j),
    ensures
        promise_in(a, p, PromiseState::Fulfilled) ==> b.heap == a.heap && b.jobs@.len() == a.jobs@.len() + 1
            && b.jobs@.last() == (Job { reaction: f, argument: promise_result(a, p) }),
        promise_in(a, p, PromiseState::Rejected) ==> b.heap == a.heap && b.jobs@.len() == a.jobs@.len() + 1
            && b.jobs@.last() == (Job { reaction: j, argument: promise_result(a, p) }),
        promise_in(a, p, PromiseState::Pending) ==> b.jobs@ == a.jobs@,
{
}

/// What `finally` chains after its callback hands the settled outcome
/// back unchanged: the value thunk returns the fulfillment value and the
/// thrower rethrows the rejection reason, whatever `this` is.
pub proof fn law_finally_passes_outcome_through(v: Value, this: Value)
    ensures
        native_outcome(NativeFn::ValueThunk(v), this) == Some(Ok::<Value, Value>(v)),
        native_outcome(NativeFn::ValueThrower(v), this) == Some(Err::<Value, Value>(v)),
{
}

/// Two timers with one deadline share one node: the second insertion adds
/// no node, and both handles fire together, in the order they came.
pub proof fn law_equal_deadlines_coalesce(
    v0: Seq<(u64, Seq<usize>)>,
    v1: Seq<(u64, Seq<usize>)>,
    v2: Seq<(u64, Seq<usize>)>,
    d: u64,
    h1: usize,
    h2: usize,
)
    requires
        inserted(v0, v1, d, h1),
        inserted(v1, v2, d, h2),
    ensures
        v2.len() == v1.len(),
        v2.len() <= v0.len() + 1,
        handles_at(v2, d) == handles_at(v0, d).push(h1).push(h2),
        !must_wake(v1, d),
{
    let k = choose|k: int| 0 <= k < v1.len() && v1[k].0 == d;
    assert(v1[0].0 <= v1[k].0) by {
        if k > 0 {
            assert(v1[0].0 < v1[k].0);
        }
    }
}

/// A deadline nearer than every pending one wakes the timer thread; one
/// that is not nearer does not.
pub proof fn law_nearer_deadline_wakes(v0: Seq<(u64, Seq<usize>)>, d: u64)
    requires
        v0.len() > 0,
    ensures
        d < v0[0].0 ==> must_wake(v0, d),
        d >= v0[0].0 ==> !must_wake(v0, d),
{
}

} // verus!
