//! Tracing collection over the heap arena: mark every object reachable
//! from a root set, then release what unreachable objects hold.
use vstd::prelude::*;
use crate::agent::{Agent, Intrinsics, Job};
use crate::object::{Heap, NativeFn, ObjectKind, Reaction};
use crate::reactor::pending_values;
use crate::table::table_entries;
use crate::value::{ObjRef, Value};

verus! {

/// The heap slots a value refers to.
pub open spec fn value_refs(v: Value) -> Seq<usize> {
    match v {
        Value::Object(r) => seq![r.0],
        Value::Tuple(r) => seq![r.0],
        Value::WrappedContinuation(_, Some(r)) => seq![r.0],
        Value::Iterator(a, b) => seq![a.0, b.0],
        _ => Seq::empty(),
    }
}

/// The heap slots a sequence of values refers to, in order.
pub open spec fn values_refs(vs: Seq<Value>) -> Seq<usize>
    decreases vs.len(),
{
    if vs.len() == 0 {
        Seq::empty()
    } else {
        values_refs(vs.drop_last()) + value_refs(vs.last())
    }
}

/// The values a reaction holds.
pub open spec fn reaction_values(r: Reaction) -> Seq<Value> {
    match r.capability {
        Some(c) => seq![r.handler, c.promise, c.resolve, c.reject],
        None => seq![r.handler],
    }
}

pub open spec fn reactions_values(rs: Seq<Reaction>) -> Seq<Value>
    decreases rs.len(),
{
    if rs.len() == 0 {
        Seq::empty()
    } else {
        reactions_values(rs.drop_last()) + reaction_values(rs.last())
    }
}

/// The values a native function carries.
pub open spec fn native_values(n: NativeFn) -> Seq<Value> {
    match n {
        NativeFn::ResolveFunction { promise, guard } => seq![Value::Object(promise), Value::Object(guard)],
        NativeFn::RejectFunction { promise, guard } => seq![Value::Object(promise), Value::Object(guard)],
        NativeFn::CapabilityExecutor { resolve, reject } => seq![resolve, reject],
        NativeFn::ThenFinally { constructor, on_finally } => seq![constructor, on_finally],
        NativeFn::CatchFinally { constructor, on_finally } => seq![constructor, on_finally],
        NativeFn::ValueThunk(v) => seq![v],
        NativeFn::ValueThrower(v) => seq![v],
        NativeFn::AwaitFulfilled { resolve, reject, .. } => seq![resolve, reject],
        NativeFn::AwaitRejected { resolve, reject, .. } => seq![resolve, reject],
        _ => Seq::empty(),
    }
}

pub open spec fn pair_values<K>(s: Seq<(K, Value)>) -> Seq<Value> {
    Seq::new(s.len(), |i: int| s[i].1)
}

/// The values an object kind carries.
pub open spec fn kind_values(k: ObjectKind) -> Seq<Value> {
    match k {
        ObjectKind::BuiltinFunction(n, slots) => native_values(n) + pair_values(slots@),
        ObjectKind::Custom(slots) => pair_values(slots@),
        ObjectKind::Promise { result, fulfill_reactions, reject_reactions, .. } => seq![result]
            + reactions_values(fulfill_reactions@) + reactions_values(reject_reactions@),
        ObjectKind::Tuple(items) => items@,
        _ => Seq::empty(),
    }
}

/// Everything object `i` holds: its prototype, its property values, and
/// what its kind carries.
pub open spec fn object_values(h: &Heap, i: usize) -> Seq<Value> {
    let o = h.object(ObjRef(i));
    seq![o.proto()] + pair_values(o.entries()) + kind_values(h.kind(ObjRef(i)))
}

/// The objects `i` refers to.
pub open spec fn edges(h: &Heap, i: usize) -> Seq<usize> {
    values_refs(object_values(h, i))
}

pub(crate) fn push_value_refs(out: &mut Vec<usize>, v: &Value)
    ensures
        final(out)@ == old(out)@ + value_refs(*v),
{
    match v {
        Value::Object(r) => out.push(r.0),
        Value::Tuple(r) => out.push(r.0),
        Value::WrappedContinuation(_, Some(r)) => out.push(r.0),
        Value::Iterator(a, b) => {
            out.push(a.0);
            out.push(b.0);
        },
        _ => {},
    }
    proof {
        assert(out@ =~= old(out)@ + value_refs(*v));
    }
}

pub(crate) fn push_values(out: &mut Vec<Value>, vs: &Vec<Value>)
    ensures
        final(out)@ == old(out)@ + vs@,
{
    let mut i: usize = 0;
    while i < vs.len()
        invariant
            i <= vs@.len(),
            out@ == old(out)@ + vs@.take(i as int),
        decreases vs@.len() - i,
    {
        out.push(vs[i].duplicate());
        assert(vs@.take(i + 1) =~= vs@.take(i as int).push(vs@[i as int]));
        i = i + 1;
    }
    assert(vs@.take(vs@.len() as int) =~= vs@);
}

pub(crate) fn push_slot_values(out: &mut Vec<Value>, slots: &Vec<(String, Value)>)
    ensures
        final(out)@ == old(out)@ + pair_values(slots@),
{
    let mut i: usize = 0;
    while i < slots.len()
        invariant
            i <= slots@.len(),
            out@ == old(out)@ + pair_values(slots@.take(i as int)),
        decreases slots@.len() - i,
    {
        out.push(slots[i].1.duplicate());
        assert(pair_values(slots@.take(i + 1)) =~= pair_values(slots@.take(i as int)).push(slots@[i as int].1));
        i = i + 1;
    }
    assert(slots@.take(slots@.len() as int) =~= slots@);
}

pub(crate) fn push_reaction_values(out: &mut Vec<Value>, rs: &Vec<Reaction>)
    ensures
        final(out)@ == old(out)@ + reactions_values(rs@),
{
    let mut i: usize = 0;
    while i < rs.len()
        invariant
            i <= rs@.len(),
            out@ == old(out)@ + reactions_values(rs@.take(i as int)),
        decreases rs@.len() - i,
    {
        let r = &rs[i];
        let ghost before = out@;
        out.push(r.handler.duplicate());
        if let Some(c) = &r.capability {
            out.push(c.promise.duplicate());
            out.push(c.resolve.duplicate());
            out.push(c.reject.duplicate());
        }
        assert(out@ =~= before + reaction_values(*r));
        assert(rs@.take(i + 1).drop_last() =~= rs@.take(i as int));
        i = i + 1;
    }
    assert(rs@.take(rs@.len() as int) =~= rs@);
}

pub(crate) fn push_native_values(out: &mut Vec<Value>, n: &NativeFn)
    ensures
        final(out)@ == old(out)@ + native_values(*n),
{
    match n {
        NativeFn::ResolveFunction { promise, guard } | NativeFn::RejectFunction { promise, guard } => {
            out.push(Value::Object(*promise));
            out.push(Value::Object(*guard));
        },
        NativeFn::CapabilityExecutor { resolve, reject } => {
            out.push(resolve.duplicate());
            out.push(reject.duplicate());
        },
        NativeFn::ThenFinally { constructor, on_finally } | NativeFn::CatchFinally { constructor, on_finally } => {
            out.push(constructor.duplicate());
            out.push(on_finally.duplicate());
        },
        NativeFn::ValueThunk(v) | NativeFn::ValueThrower(v) => {
            out.push(v.duplicate());
        },
        NativeFn::AwaitFulfilled { resolve, reject, .. } | NativeFn::AwaitRejected { resolve, reject, .. } => {
            out.push(resolve.duplicate());
            out.push(reject.duplicate());
        },
        _ => {},
    }
    proof {
        assert(out@ =~= old(out)@ + native_values(*n));
    }
}

/// A marking that holds every root and, with each marked object, every
/// object it refers to.
pub open spec fn closed_set(h: &Heap, roots: Seq<usize>, s: Seq<bool>) -> bool {
    &&& s.len() == h.len()
    &&& forall|r: usize| #[trigger] roots.contains(r) && r < h.len() ==> s[r as int]
    &&& forall|i: usize, x: usize| #![trigger s[i as int], edges(h, i).contains(x)]
        i < h.len() && s[i as int] && edges(h, i).contains(x) && x < h.len() ==> s[x as int]
}

/// `j` can be reached from `roots`: every closed marking holds it.
pub open spec fn reachable(h: &Heap, roots: Seq<usize>, j: usize) -> bool {
    forall|s: Seq<bool>| #[trigger] closed_set(h, roots, s) ==> s[j as int]
}

proof fn lemma_root_reachable(h: &Heap, roots: Seq<usize>, r: usize)
    requires
        roots.contains(r),
        r < h.len(),
    ensures
        reachable(h, roots, r),
{
    assert forall|s: Seq<bool>| #[trigger] closed_set(h, roots, s) implies s[r as int] by {}
}

proof fn lemma_edge_reachable(h: &Heap, roots: Seq<usize>, i: usize, x: usize)
    requires
        reachable(h, roots, i),
        i < h.len(),
        edges(h, i).contains(x),
        x < h.len(),
    ensures
        reachable(h, roots, x),
{
    assert forall|s: Seq<bool>| #[trigger] closed_set(h, roots, s) implies s[x as int] by {
        assert(s[i as int]);
    }
}

/// How many entries are still unmarked.
pub open spec fn unmarked(s: Seq<bool>) -> nat
    decreases s.len(),
{
    if s.len() == 0 {
        0
    } else {
        unmarked(s.drop_last()) + if s.last() { 0nat } else { 1nat }
    }
}

proof fn lemma_mark_one(s: Seq<bool>, j: int)
    requires
        0 <= j < s.len(),
        !s[j],
    ensures
        unmarked(s.update(j, true)) + 1 == unmarked(s),
    decreases s.len(),
{
    let t = s.update(j, true);
    if j == s.len() - 1 {
        assert(t.drop_last() =~= s.drop_last());
    } else {
        assert(t.drop_last() =~= s.drop_last().update(j, true));
        lemma_mark_one(s.drop_last(), j);
    }
}

/// The objects that object `i` refers to.
pub fn refs_of(h: &Heap, i: usize) -> (out: Vec<usize>)
    requires
        i < h.len(),
    ensures
        out@ == edges(h, i),
{
    let vs = h.values_of(i);
    let mut out: Vec<usize> = Vec::new();
    let mut k: usize = 0;
    while k < vs.len()
        invariant
            k <= vs@.len(),
            out@ == values_refs(vs@.take(k as int)),
        decreases vs@.len() - k,
    {
        push_value_refs(&mut out, &vs[k]);
        assert(vs@.take(k + 1).drop_last() =~= vs@.take(k as int));
        k = k + 1;
    }
    assert(vs@.take(vs@.len() as int) =~= vs@);
    out
}

/// Mark every object reachable from `roots`: the result holds exactly the
/// reachable objects.
pub fn mark(h: &Heap, roots: &Vec<usize>) -> (marked: Vec<bool>)
    ensures
        marked@.len() == h.len(),
        forall|j: usize| j < h.len() ==> (marked@[j as int] <==> reachable(h, roots@, j)),
{
    let n = h.size();
    let mut marked: Vec<bool> = Vec::new();
    let mut z: usize = 0;
    while z < n
        invariant
            z <= n,
            n == h.len(),
            marked@.len() == z,
            forall|j: int| 0 <= j < z ==> !marked@[j],
        decreases n - z,
    {
        marked.push(false);
        z = z + 1;
    }
    let mut stack: Vec<usize> = Vec::new();
    let mut r: usize = 0;
    while r < roots.len()
        invariant
            n == h.len(),
            marked@.len() == n,
            r <= roots@.len(),
            forall|q: int| 0 <= q < r && roots@[q] < n ==> marked@[roots@[q] as int],
            forall|s: int| 0 <= s < stack@.len() ==> stack@[s] < n && marked@[stack@[s] as int],
            forall|i: usize| i < n && marked@[i as int] ==> reachable(h, roots@, i),
            forall|i: usize| i < n && marked@[i as int] ==> stack@.contains(i),
        decreases roots@.len() - r,
    {
        let x = roots[r];
        if x < n && !marked[x] {
            let ghost old_stack = stack@;
            marked.set(x, true);
            stack.push(x);
            assert(roots@.contains(x)) by { assert(roots@[r as int] == x); }
            proof { lemma_root_reachable(h, roots@, x); }
            assert forall|i: usize| i < n && marked@[i as int] implies stack@.contains(i) by {
                if i == x {
                    assert(stack@[stack@.len() - 1] == x);
                } else {
                    let s = choose|s: int| 0 <= s < old_stack.len() && old_stack[s] == i;
                    assert(stack@[s] == i);
                }
            }
        }
        r = r + 1;
    }
    proof {
        assert forall|r: usize| roots@.contains(r) && r < n implies marked@[r as int] by {
            let q = choose|q: int| 0 <= q < roots@.len() && roots@[q] == r;
        }
    }
    while stack.len() > 0
        invariant
            n == h.len(),
            marked@.len() == n,
            forall|r: usize| roots@.contains(r) && r < n ==> marked@[r as int],
            forall|s: int| 0 <= s < stack@.len() ==> stack@[s] < n && marked@[stack@[s] as int],
            forall|i: usize| i < n && marked@[i as int] ==> reachable(h, roots@, i),
            forall|i: usize, x: usize| i < n && marked@[i as int] && !stack@.contains(i) && edges(h, i).contains(x) && x < n
                ==> marked@[x as int],
        decreases unmarked(marked@), stack@.len(),
    {
        let ghost full = stack@;
        let i = match stack.pop() {
            Some(i) => i,
            None => 0,
        };
        proof {
            assert(full =~= stack@.push(i));
            assert(full[full.len() - 1] == i);
            assert forall|q: usize| q != i && !stack@.contains(q) implies !full.contains(q) by {
                if full.contains(q) {
                    let s = choose|s: int| 0 <= s < full.len() && full[s] == q;
                    assert(s != full.len() - 1);
                    assert(stack@[s] == q);
                }
            }
        }
        let refs = refs_of(h, i);
        let ghost before = marked@;
        let ghost s0 = stack@.len();
        let mut k: usize = 0;
        while k < refs.len()
            invariant
                n == h.len(),
                i < n,
                marked@[i as int],
                refs@ == edges(h, i),
                reachable(h, roots@, i),
                marked@.len() == n,
                k <= refs@.len(),
                unmarked(marked@) <= unmarked(before),
                stack@.len() >= s0,
                s0 + 1 == full.len(),
                stack@.len() > s0 ==> unmarked(marked@) < unmarked(before),
                forall|r: usize| roots@.contains(r) && r < n ==> marked@[r as int],
                forall|s: int| 0 <= s < stack@.len() ==> stack@[s] < n && marked@[stack@[s] as int],
                forall|q: usize| q < n && marked@[q as int] ==> reachable(h, roots@, q),
                forall|q: int| 0 <= q < k && refs@[q] < n ==> marked@[refs@[q] as int],
                forall|q: usize, x: usize| q < n && q != i && marked@[q as int] && !stack@.contains(q) && edges(h, q).contains(x) && x < n
                    ==> marked@[x as int],
            decreases refs@.len() - k,
        {
            let x = refs[k];
            if x < n && !marked[x] {
                proof {
                    lemma_mark_one(marked@, x as int);
                    assert(edges(h, i).contains(x)) by { assert(refs@[k as int] == x); }
                    lemma_edge_reachable(h, roots@, i, x);
                }
                let ghost old_stack = stack@;
                marked.set(x, true);
                stack.push(x);
                proof {
                    assert forall|q: usize, y: usize| q < n && q != i && marked@[q as int] && !stack@.contains(q) && edges(h, q).contains(y) && y < n
                        implies marked@[y as int] by {
                        if q != x {
                            assert(!old_stack.contains(q)) by {
                                if old_stack.contains(q) {
                                    let s = choose|s: int| 0 <= s < old_stack.len() && old_stack[s] == q;
                                    assert(stack@[s] == q);
                                }
                            }
                        } else {
                            assert(stack@[stack@.len() - 1] == x);
                        }
                    }
                }
            }
            k = k + 1;
        }
        proof {
            assert forall|q: usize, x: usize| q < n && marked@[q as int] && !stack@.contains(q) && edges(h, q).contains(x) && x < n
                implies marked@[x as int] by {
                if q == i {
                    let idx = choose|idx: int| 0 <= idx < edges(h, i).len() && edges(h, i)[idx] == x;
                    assert(refs@[idx] == x);
                }
            }
        }
    }
    proof {
        assert forall|j: usize| j < h.len() implies (marked@[j as int] <==> reachable(h, roots@, j)) by {
            if reachable(h, roots@, j) {
                assert forall|q: usize, x: usize| q < h.len() && marked@[q as int] && edges(h, q).contains(x) && x < h.len()
                    implies marked@[x as int] by {
                    assert(stack@.len() == 0);
                    assert(!stack@.contains(q));
                }
                assert(closed_set(h, roots@, marked@));
            }
        }
    }
    marked
}

/// The intrinsic objects, as values.
pub open spec fn intrinsic_values(i: Intrinsics) -> Seq<Value> {
    seq![
        Value::Object(i.object_prototype),
        Value::Object(i.function_prototype),
        Value::Object(i.array_prototype),
        Value::Object(i.error_prototype),
        Value::Object(i.boolean_prototype),
        Value::Object(i.number_prototype),
        Value::Object(i.string_prototype),
        Value::Object(i.regex_prototype),
        Value::Object(i.generator_prototype),
        Value::Object(i.iterator_prototype),
        Value::Object(i.async_iterator_prototype),
        Value::Object(i.promise_prototype),
        Value::Object(i.promise),
    ]
}

/// The values queued jobs hold.
pub open spec fn job_values(jobs: Seq<Job>) -> Seq<Value>
    decreases jobs.len(),
{
    if jobs.len() == 0 {
        Seq::empty()
    } else {
        job_values(jobs.drop_last()) + reaction_values(jobs.last().reaction) + seq![jobs.last().argument]
    }
}

/// The root set of an agent: its intrinsics, the queued jobs, the waiting
/// operations, and the values the embedder holds (its stacks).
pub open spec fn root_values(a: &Agent, extra: Seq<Value>) -> Seq<Value> {
    intrinsic_values(a.intrinsics) + job_values(a.jobs@) + pending_values(a.reactor.pending_ops()) + extra
}

fn push_refs(out: &mut Vec<usize>, vs: &Vec<Value>)
    ensures
        final(out)@ == old(out)@ + values_refs(vs@),
{
    let mut k: usize = 0;
    while k < vs.len()
        invariant
            k <= vs@.len(),
            out@ == old(out)@ + values_refs(vs@.take(k as int)),
        decreases vs@.len() - k,
    {
        push_value_refs(out, &vs[k]);
        assert(vs@.take(k + 1).drop_last() =~= vs@.take(k as int));
        assert(out@ =~= old(out)@ + values_refs(vs@.take(k + 1)));
        k = k + 1;
    }
    assert(vs@.take(vs@.len() as int) =~= vs@);
}

impl Agent {
    /// The root set as values.
    pub fn roots(&self, extra: &Vec<Value>) -> (out: Vec<Value>)
        ensures
            out@ == root_values(self, extra@),
    {
        let i = self.intrinsics;
        let mut out: Vec<Value> = Vec::new();
        out.push(Value::Object(i.object_prototype));
        out.push(Value::Object(i.function_prototype));
        out.push(Value::Object(i.array_prototype));
        out.push(Value::Object(i.error_prototype));
        out.push(Value::Object(i.boolean_prototype));
        out.push(Value::Object(i.number_prototype));
        out.push(Value::Object(i.string_prototype));
        out.push(Value::Object(i.regex_prototype));
        out.push(Value::Object(i.generator_prototype));
        out.push(Value::Object(i.iterator_prototype));
        out.push(Value::Object(i.async_iterator_prototype));
        out.push(Value::Object(i.promise_prototype));
        out.push(Value::Object(i.promise));
        assert(out@ =~= intrinsic_values(i));
        let ghost base = out@;
        let mut k: usize = 0;
        while k < self.jobs.len()
            invariant
                k <= self.jobs@.len(),
                out@ == base + job_values(self.jobs@.take(k as int)),
            decreases self.jobs@.len() - k,
        {
            let job = &self.jobs[k];
            let ghost before = out@;
            out.push(job.reaction.handler.duplicate());
            if let Some(c) = &job.reaction.capability {
                out.push(c.promise.duplicate());
                out.push(c.resolve.duplicate());
                out.push(c.reject.duplicate());
            }
            out.push(job.argument.duplicate());
            assert(self.jobs@.take(k + 1).drop_last() =~= self.jobs@.take(k as int));
            assert(out@ =~= before + reaction_values(job.reaction) + seq![job.argument]);
            k = k + 1;
        }
        assert(self.jobs@.take(self.jobs@.len() as int) =~= self.jobs@);
        let held = self.reactor.held_values();
        push_values(&mut out, &held);
        push_values(&mut out, extra);
        out
    }

    /// Collect: mark everything reachable from the root set (see
    /// `root_values`) and release what every other object holds. Reachable
    /// objects are left exactly as they were.
    pub fn collect(&mut self, extra: &Vec<Value>) -> (released: usize)
        requires
            old(self).wf(),
        ensures
            final(self).wf(),
            old(self).evolves_to(&*final(self)),
            final(self).jobs == old(self).jobs,
            final(self).reactor == old(self).reactor,
            final(self).heap.len() == old(self).heap.len(),
            forall|j: usize| j < old(self).heap.len() && reachable(&old(self).heap, values_refs(root_values(&*old(self), extra@)), j)
                ==> final(self).heap.object(ObjRef(j)) == old(self).heap.object(ObjRef(j)),
            forall|j: usize| j < old(self).heap.len() && !reachable(&old(self).heap, values_refs(root_values(&*old(self), extra@)), j)
                ==> final(self).heap.object(ObjRef(j)).entries().len() == 0,
    {
        let values = self.roots(extra);
        let mut roots: Vec<usize> = Vec::new();
        push_refs(&mut roots, &values);
        assert(roots@ =~= values_refs(root_values(&*old(self), extra@)));
        let marked = mark(&self.heap, &roots);
        let n = self.heap.size();
        let mut released: usize = 0;
        let mut i: usize = 0;
        while i < n
            invariant
                self.wf(),
                old(self).evolves_to(&*self),
                self.jobs == old(self).jobs,
                self.reactor == old(self).reactor,
                n == old(self).heap.len(),
                self.heap.len() == n,
                marked@.len() == n,
                i <= n,
                released <= i,
                forall|j: usize| j < n && marked@[j as int] ==> self.heap.object(ObjRef(j)) == old(self).heap.object(ObjRef(j)),
                forall|j: usize| j < i && !marked@[j as int] ==> self.heap.object(ObjRef(j)).entries().len() == 0,
                forall|j: usize| j < n ==> (marked@[j as int] <==> reachable(&old(self).heap, roots@, j)),
                roots@ == values_refs(root_values(&*old(self), extra@)),
            decreases n - i,
        {
            if !marked[i] {
                let ghost before = *self;
                self.heap.release(ObjRef(i));
                released = released + 1;
                assert forall|j: usize| j < i + 1 && !marked@[j as int] implies self.heap.object(ObjRef(j)).entries().len() == 0 by {
                    if j != i {
                        assert(self.heap.object(ObjRef(j)) == before.heap.object(ObjRef(j)));
                    }
                }
            }
            i = i + 1;
        }
        proof {
            assert forall|j: usize| j < old(self).heap.len() && reachable(&old(self).heap, roots@, j)
                implies self.heap.object(ObjRef(j)) == old(self).heap.object(ObjRef(j)) by {
                assert(marked@[j as int]);
            }
            assert forall|j: usize| j < old(self).heap.len() && !reachable(&old(self).heap, roots@, j)
                implies self.heap.object(ObjRef(j)).entries().len() == 0 by {
                assert(!marked@[j as int]);
            }
        }
        released
    }
}

} // verus!
