//! The engine instance: the heap, the well-known objects, the job queue and
//! the symbol counter.
use vstd::prelude::*;
use std::collections::VecDeque;
use crate::key::{KeyModel, ObjectKey, Symbol};
use crate::object::{Heap, NativeFn, ObjectKind, Reaction, proto_ok, lemma_evolves_refl, lemma_evolves_trans};
use crate::value::{ObjRef, Value};
use crate::reactor::Reactor;

verus! {

/// The objects every agent starts with.
#[derive(Clone, Copy, Debug)]
pub struct Intrinsics {
    pub object_prototype: ObjRef,
    pub function_prototype: ObjRef,
    pub array_prototype: ObjRef,
    pub error_prototype: ObjRef,
    pub boolean_prototype: ObjRef,
    pub number_prototype: ObjRef,
    pub string_prototype: ObjRef,
    pub regex_prototype: ObjRef,
    pub generator_prototype: ObjRef,
    pub iterator_prototype: ObjRef,
    pub async_iterator_prototype: ObjRef,
    pub promise_prototype: ObjRef,
    pub promise: ObjRef,
}

/// A queued promise reaction and the value it fires with.
#[derive(Debug)]
pub struct Job {
    pub reaction: Reaction,
    pub argument: Value,
}

pub struct Agent {
    pub heap: Heap,
    pub intrinsics: Intrinsics,
    pub jobs: VecDeque<Job>,
    pub symbol_counter: usize,
    pub well_known_iterator: Symbol,
    pub well_known_async_iterator: Symbol,
    pub reactor: Reactor,
}

impl Intrinsics {
    pub open spec fn all_below(&self, n: nat) -> bool {
        &&& self.object_prototype.0 < n
        &&& self.function_prototype.0 < n
        &&& self.array_prototype.0 < n
        &&& self.error_prototype.0 < n
        &&& self.boolean_prototype.0 < n
        &&& self.number_prototype.0 < n
        &&& self.string_prototype.0 < n
        &&& self.regex_prototype.0 < n
        &&& self.generator_prototype.0 < n
        &&& self.iterator_prototype.0 < n
        &&& self.async_iterator_prototype.0 < n
        &&& self.promise_prototype.0 < n
        &&& self.promise.0 < n
    }
}

/// Every object of `a` keeps its prototype and its own properties in `b`.
pub open spec fn props_same(a: &Agent, b: &Agent) -> bool {
    &&& a.heap.key_table() == b.heap.key_table()
    &&& b.heap.len() >= a.heap.len()
    &&& forall|q: ObjRef| a.heap.valid(q) ==> #[trigger] b.heap.object(q).entries() == a.heap.object(q).entries()
        && b.heap.object(q).proto() == a.heap.object(q).proto()
}

/// An error object stays what it is while properties stay.
pub proof fn lemma_error_kept(a: &Agent, b: &Agent, e: Value, m: Seq<char>)
    requires
        is_error_with(a, e, m),
        props_same(a, b),
        a.intrinsics == b.intrinsics,
    ensures
        is_error_with(b, e, m),
{
    let r = e->Object_0;
    assert(b.heap.object(r).entries() == a.heap.object(r).entries());
    crate::object::lemma_key_id_same(&a.heap, &b.heap, KeyModel::Text("message"@));
}

pub proof fn lemma_props_same_trans(a: &Agent, b: &Agent, c: &Agent)
    requires
        props_same(a, b),
        props_same(b, c),
    ensures
        props_same(a, c),
{
    assert forall|q: ObjRef| a.heap.valid(q) implies #[trigger] c.heap.object(q).entries() == a.heap.object(q).entries()
        && c.heap.object(q).proto() == a.heap.object(q).proto() by {
        assert(b.heap.valid(q));
        assert(b.heap.object(q).entries() == a.heap.object(q).entries());
        assert(b.heap.object(q).proto() == a.heap.object(q).proto());
        assert(c.heap.object(q).entries() == b.heap.object(q).entries());
        assert(c.heap.object(q).proto() == b.heap.object(q).proto());
    }
}

impl Agent {
    pub open spec fn wf(&self) -> bool {
        &&& self.heap.wf()
        &&& self.reactor.wf()
        &&& self.intrinsics.all_below(self.heap.len())
        &&& self.heap.kind(self.intrinsics.promise) is BuiltinFunction
        &&& self.heap.kind(self.intrinsics.promise)->BuiltinFunction_0 == NativeFn::PromiseConstructor
    }

    /// How an agent may change: the heap evolves, the intrinsics stay.
    pub open spec fn evolves_to(&self, new: &Agent) -> bool {
        &&& self.heap.evolves_to(&new.heap)
        &&& self.reactor.evolves_to(&new.reactor)
        &&& new.intrinsics == self.intrinsics
    }

    /// A new object of `kind`.
    pub fn alloc_object(&mut self, kind: ObjectKind, prototype: Value) -> (r: ObjRef)
        requires
            old(self).wf(),
            proto_ok(prototype, old(self).heap.len() as int),
        ensures
            final(self).heap.key_table() == old(self).heap.key_table(),
            final(self).reactor == old(self).reactor,
            final(self).wf(),
            old(self).evolves_to(&*final(self)),
            r.0 == old(self).heap.len(),
            final(self).heap.len() == old(self).heap.len() + 1,
            final(self).heap.kind(r) == kind,
            final(self).heap.object(r).entries() == Seq::<(usize, Value)>::empty(),
            final(self).heap.object(r).proto() == prototype,
            final(self).jobs@ == old(self).jobs@,
            forall|q: ObjRef| old(self).heap.valid(q) ==> final(self).heap.object(q) == old(self).heap.object(q),
            forall|q: ObjRef| old(self).heap.valid(q) ==> final(self).heap.kind(q) == old(self).heap.kind(q),
    {
        self.heap.allocate(kind, prototype)
    }

    /// Write an own property of object `r`.
    pub fn put(&mut self, r: ObjRef, k: &ObjectKey, v: Value)
        requires
            old(self).wf(),
            old(self).heap.valid(r),
        ensures
            final(self).heap.object(r).entries().len() <= old(self).heap.object(r).entries().len() + 1,
            forall|j: int| 0 <= j < old(self).heap.object(r).entries().len() ==> #[trigger] final(self).heap.object(r).entries()[j].0
                == old(self).heap.object(r).entries()[j].0,
            forall|q: ObjRef| old(self).heap.valid(q) && q != r ==> #[trigger] final(self).heap.object(q) == old(self).heap.object(q),
            final(self).reactor == old(self).reactor,
            final(self).wf(),
            old(self).evolves_to(&*final(self)),
            final(self).heap.len() == old(self).heap.len(),
            final(self).heap.lookup(r, *k) == v,
            final(self).heap.own(r, *k) == Some(v),
            final(self).jobs@ == old(self).jobs@,
            forall|q: ObjRef| old(self).heap.valid(q) ==> final(self).heap.kind(q) == old(self).heap.kind(q),
            forall|q: ObjRef| old(self).heap.valid(q) ==> final(self).heap.object(q).proto() == old(self).heap.object(q).proto(),
            forall|q: ObjRef, k2: ObjectKey|
                old(self).heap.valid(q) && (q != r || k2.model() != k.model())
                    ==> #[trigger] final(self).heap.own(q, k2) == old(self).heap.own(q, k2),
    {
        self.heap.set_property(r, k, v);
    }

    /// Replace the kind of an object in a way its final state allows.
    pub fn replace_kind(&mut self, r: ObjRef, kind: ObjectKind)
        requires
            old(self).wf(),
            old(self).heap.valid(r),
            crate::object::kind_stays(old(self).heap.kind(r), kind),
        ensures
            final(self).reactor == old(self).reactor,
            props_same(&*old(self), &*final(self)),
            final(self).wf(),
            old(self).evolves_to(&*final(self)),
            final(self).heap.len() == old(self).heap.len(),
            final(self).heap.kind(r) == kind,
            final(self).jobs@ == old(self).jobs@,
            forall|q: ObjRef| old(self).heap.valid(q) && q != r ==> final(self).heap.kind(q) == old(self).heap.kind(q),
    {
        self.heap.set_kind(r, kind);
        assert forall|q: ObjRef| old(self).heap.valid(q) implies #[trigger] self.heap.object(q).entries() == old(self).heap.object(q).entries()
            && self.heap.object(q).proto() == old(self).heap.object(q).proto() by {
            if q != r {
                assert(self.heap.object(q) == old(self).heap.object(q));
            }
        }
    }

    /// An error object: an ordinary object whose prototype is the error
    /// prototype and whose own `message` is `message`.
    pub fn new_error(&mut self, message: &str) -> (e: Value)
        requires
            old(self).wf(),
        ensures
            forall|q: ObjRef| old(self).heap.valid(q) ==> #[trigger] final(self).heap.object(q) == old(self).heap.object(q),
            final(self).reactor == old(self).reactor,
            final(self).wf(),
            old(self).evolves_to(&*final(self)),
            final(self).jobs@ == old(self).jobs@,
            final(self).heap.len() == old(self).heap.len() + 1,
            e == Value::Object(ObjRef(old(self).heap.len() as usize)),
            final(self).heap.object(ObjRef(old(self).heap.len() as usize)).proto() == Value::Object(
                old(self).intrinsics.error_prototype,
            ),
            final(self).heap.kind(ObjRef(old(self).heap.len() as usize)) == ObjectKind::Ordinary,
            is_error_with(&*final(self), e, message@),
            forall|q: ObjRef| old(self).heap.valid(q) ==> final(self).heap.kind(q) == old(self).heap.kind(q),
    {
        let proto = Value::Object(self.intrinsics.error_prototype);
        let r = self.alloc_object(ObjectKind::Ordinary, proto);
        let k = message_key();
        let ghost mid = *self;
        let m = message.to_owned();
        self.put(r, &k, Value::String(m));
        proof {
            lemma_evolves_trans(&old(self).heap, &mid.heap, &self.heap);
            assert(mid.heap.valid(r));
            assert(self.heap.object(r).proto() == mid.heap.object(r).proto());
            assert(self.heap.own(r, k) == Some(Value::String(m)));
            assert(self.heap.own_m(r, KeyModel::Text("message"@)) == Some(Value::String(m)));
        }
        Value::Object(r)
    }
}

/// Agents change only in the ways `evolves_to` allows, step after step.
pub broadcast proof fn lemma_agent_evolves_trans(a: &Agent, b: &Agent, c: &Agent)
    requires
        #[trigger] a.evolves_to(b),
        #[trigger] b.evolves_to(c),
    ensures
        a.evolves_to(c),
{
    lemma_evolves_trans(&a.heap, &b.heap, &c.heap);
    crate::reactor::lemma_reactor_evolves_trans(&a.reactor, &b.reactor, &c.reactor);
}

pub broadcast proof fn lemma_agent_evolves_refl(a: &Agent)
    ensures
        #[trigger] a.evolves_to(a),
{
    lemma_evolves_refl(&a.heap);
    crate::reactor::lemma_reactor_evolves_refl(&a.reactor);
}

/// Whether `e` is an error object (its prototype is the error prototype)
/// whose own `message` is the string `message`.
pub open spec fn is_error_with(a: &Agent, e: Value, message: Seq<char>) -> bool {
    &&& e matches Value::Object(r)
    &&& a.heap.valid(r)
    &&& a.heap.object(r).proto() == Value::Object(a.intrinsics.error_prototype)
    &&& a.heap.own_m(r, KeyModel::Text("message"@)) matches Some(Value::String(m))
    &&& m@ == message
}

/// The key `message`.
pub fn message_key() -> (k: ObjectKey)
    ensures
        k.model() == KeyModel::Text("message"@),
{
    ObjectKey::String("message".to_owned())
}

} // verus!
