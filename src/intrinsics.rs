//! The objects an agent starts with.
use vstd::prelude::*;
use std::collections::VecDeque;
use crate::agent::{Agent, Intrinsics};
use crate::key::{KeyModel, ObjectKey, Symbol};
use crate::object::{Heap, NativeFn, ObjectKind};
use crate::value::{ObjRef, Value};
use crate::reactor::Reactor;

verus! {

fn string_key(s: &str) -> (k: ObjectKey)
    ensures
        k.model() == KeyModel::Text(s@),
{
    ObjectKey::String(s.to_owned())
}

/// Install native function `f` as property `name` of object `target`.
fn install(agent: &mut Agent, target: ObjRef, name: &str, f: NativeFn) -> (v: Value)
    requires
        old(agent).wf(),
        old(agent).heap.valid(target),
    ensures
        final(agent).wf(),
        final(agent).intrinsics == old(agent).intrinsics,
        final(agent).jobs@ == old(agent).jobs@,
        final(agent).heap.len() == old(agent).heap.len() + 1,
        final(agent).heap.lookup_m(target, KeyModel::Text(name@)) == v,
        v == Value::Object(ObjRef(old(agent).heap.len() as usize)),
{
    let fv = Value::new_builtin_function(agent, f);
    let k = string_key(name);
    let fv2 = fv.duplicate();
    agent.put(target, &k, fv2);
    fv
}

/// A prototype for errors: `toString`, and `name` set to `Error`.
pub fn create_error_prototype(agent: &mut Agent) -> (r: Value)
    requires
        old(agent).wf(),
    ensures
        final(agent).wf(),
        final(agent).intrinsics == old(agent).intrinsics,
        final(agent).jobs@ == old(agent).jobs@,
        r matches Value::Object(p) && final(agent).heap.valid(p),
        final(agent).heap.len() > old(agent).heap.len(),
{
    let proto = Value::Object(agent.intrinsics.object_prototype);
    let p = agent.alloc_object(ObjectKind::Ordinary, proto);
    install(agent, p, "toString", NativeFn::ErrorToString);
    let name = Value::String("Error".to_owned());
    agent.put(p, &string_key("name"), name);
    Value::Object(p)
}

/// A prototype for iterators: `[Symbol.iterator]` returns `this`.
pub fn create_iterator_prototype(agent: &mut Agent) -> (r: Value)
    requires
        old(agent).wf(),
    ensures
        final(agent).wf(),
        final(agent).intrinsics == old(agent).intrinsics,
        final(agent).jobs@ == old(agent).jobs@,
        r matches Value::Object(p) && final(agent).heap.valid(p),
        final(agent).heap.len() > old(agent).heap.len(),
{
    let proto = Value::Object(agent.intrinsics.object_prototype);
    let p = agent.alloc_object(ObjectKind::Ordinary, proto);
    let f = Value::new_builtin_function(agent, NativeFn::ReturnThis);
    let k = ObjectKey::Symbol(agent.well_known_iterator.duplicate());
    agent.put(p, &k, f);
    Value::Object(p)
}

/// A prototype for async iterators: `[Symbol.asyncIterator]` returns
/// `this`.
pub fn create_async_iterator_prototype(agent: &mut Agent) -> (r: Value)
    requires
        old(agent).wf(),
    ensures
        final(agent).wf(),
        final(agent).intrinsics == old(agent).intrinsics,
        final(agent).jobs@ == old(agent).jobs@,
        r matches Value::Object(p) && final(agent).heap.valid(p),
        final(agent).heap.len() > old(agent).heap.len(),
{
    let proto = Value::Object(agent.intrinsics.object_prototype);
    let p = agent.alloc_object(ObjectKind::Ordinary, proto);
    let f = Value::new_builtin_function(agent, NativeFn::ReturnThis);
    let k = ObjectKey::Symbol(agent.well_known_async_iterator.duplicate());
    agent.put(p, &k, f);
    Value::Object(p)
}

/// The promise prototype: `then`, `catch` and `finally`.
pub fn create_promise_prototype(agent: &mut Agent) -> (r: Value)
    requires
        old(agent).wf(),
    ensures
        final(agent).wf(),
        final(agent).intrinsics == old(agent).intrinsics,
        final(agent).jobs@ == old(agent).jobs@,
        r matches Value::Object(p) && final(agent).heap.valid(p),
        final(agent).heap.len() > old(agent).heap.len(),
{
    let proto = Value::Object(agent.intrinsics.object_prototype);
    let p = agent.alloc_object(ObjectKind::Ordinary, proto);
    install(agent, p, "then", NativeFn::Then);
    install(agent, p, "catch", NativeFn::Catch);
    install(agent, p, "finally", NativeFn::Finally);
    Value::Object(p)
}

/// The `Promise` constructor's properties: `prototype` is the promise
/// prototype, with `resolve` and `reject`; the prototype's `constructor` is
/// set to it.
pub fn create_promise(agent: &mut Agent) -> (r: Value)
    requires
        old(agent).wf(),
    ensures
        final(agent).wf(),
        final(agent).intrinsics == old(agent).intrinsics,
        final(agent).jobs@ == old(agent).jobs@,
        r == Value::Object(old(agent).intrinsics.promise),
{
    let cr = agent.intrinsics.promise;
    let pp = Value::Object(agent.intrinsics.promise_prototype);
    agent.put(cr, &string_key("prototype"), pp);
    install(agent, cr, "resolve", NativeFn::PromiseResolve);
    install(agent, cr, "reject", NativeFn::PromiseReject);
    let ppr = agent.intrinsics.promise_prototype;
    agent.put(ppr, &string_key("constructor"), Value::Object(cr));
    Value::Object(cr)
}

fn object_ref(v: &Value) -> (r: ObjRef)
    requires
        v is Object,
    ensures
        *v == Value::Object(r),
{
    match v {
        Value::Object(r) => *r,
        _ => ObjRef(0),
    }
}

impl Agent {
    /// A fresh agent with its intrinsics.
    pub fn new() -> (a: Agent)
        ensures
            a.wf(),
            a.jobs@.len() == 0,
    {
        let mut heap = Heap::new();
        let op = heap.allocate(ObjectKind::Ordinary, Value::Null);
        let fp = heap.allocate(ObjectKind::Ordinary, Value::Object(op));
        let pc = heap.allocate(ObjectKind::BuiltinFunction(NativeFn::PromiseConstructor, Vec::new()), Value::Object(fp));
        let mut counter: usize = 0;
        let iterator_symbol = Symbol::new(&mut counter, false, Some("Symbol.iterator".to_owned()));
        let async_iterator_symbol = Symbol::new(&mut counter, false, Some("Symbol.asyncIterator".to_owned()));
        let intrinsics = Intrinsics {
            object_prototype: op,
            function_prototype: fp,
            array_prototype: op,
            error_prototype: op,
            boolean_prototype: op,
            number_prototype: op,
            string_prototype: op,
            regex_prototype: op,
            generator_prototype: op,
            iterator_prototype: op,
            async_iterator_prototype: op,
            promise_prototype: op,
            promise: pc,
        };
        let mut agent = Agent {
            heap,
            intrinsics,
            jobs: VecDeque::new(),
            symbol_counter: counter,
            well_known_iterator: iterator_symbol,
            well_known_async_iterator: async_iterator_symbol,
            reactor: Reactor::new(),
        };
        let proto = Value::Object(op);
        agent.intrinsics.array_prototype = agent.alloc_object(ObjectKind::Array, proto.duplicate());
        agent.intrinsics.boolean_prototype = agent.alloc_object(ObjectKind::Boolean(false), proto.duplicate());
        agent.intrinsics.number_prototype = agent.alloc_object(ObjectKind::Number(0), proto.duplicate());
        agent.intrinsics.string_prototype = agent.alloc_object(ObjectKind::String(String::new()), proto.duplicate());
        agent.intrinsics.regex_prototype = agent.alloc_object(ObjectKind::Ordinary, proto.duplicate());
        agent.intrinsics.generator_prototype = agent.alloc_object(ObjectKind::Ordinary, proto.duplicate());
        let e = create_error_prototype(&mut agent);
        agent.intrinsics.error_prototype = object_ref(&e);
        let i = create_iterator_prototype(&mut agent);
        agent.intrinsics.iterator_prototype = object_ref(&i);
        let ai = create_async_iterator_prototype(&mut agent);
        agent.intrinsics.async_iterator_prototype = object_ref(&ai);
        let pp = create_promise_prototype(&mut agent);
        agent.intrinsics.promise_prototype = object_ref(&pp);
        create_promise(&mut agent);
        agent
    }
}

} // verus!
